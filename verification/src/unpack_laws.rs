//! What holds of every extraction of a tar archive, whatever the archive
//! holds and whatever the driver reports.

use crate::extracted_files::Ledger;
use crate::paths::{is_plain, lemma_normalized_is_plain, normalized, ComponentView};
use crate::unpack::{step, Action, EntryKind, EventView, Phase, Progress};
use vstd::prelude::*;

verus! {

/// The state that an extraction which is in state `start` comes to when
/// the driver reports `events`, one after the other.
pub open spec fn run_from(start: Progress, events: Seq<EventView>) -> Progress
    decreases events.len(),
{
    if events.len() == 0 {
        start
    } else {
        step(run_from(start, events.drop_last()), events.last()).0
    }
}

/// The state that an extraction is in after the driver has reported
/// `events`, one after the other, from the start.
pub open spec fn run(events: Seq<EventView>) -> Progress {
    run_from(Progress::initial(), events)
}

/// What the driver is asked to do on the last of `events`.
pub open spec fn answer(events: Seq<EventView>) -> Action
    recommends
        events.len() > 0,
{
    step(run(events.drop_last()), events.last()).1
}

/// Whether the archive has been read to its end, or given up.
pub open spec fn past_reading(phase: Phase) -> bool {
    phase == Phase::UnpackingDir || phase == Phase::Done || phase == Phase::Failed
}

/// Whether an action touches the archive's entries as they are read: reads
/// one, unpacks the one just read, or keeps it.
pub open spec fn reads_archive(action: Action) -> bool {
    action == Action::ReadEntry || action == Action::UnpackEntry || action == Action::KeepEntry
}

/// Once the archive has been read to its end, no step goes back to it.
pub proof fn lemma_past_reading_stays(s: Progress, e: EventView)
    requires
        past_reading(s.phase),
    ensures
        past_reading(step(s, e).0.phase),
        !reads_archive(step(s, e).1),
{
}

/// An extraction that is past reading after some of its events is still so
/// after more of them.
proof fn lemma_past_reading_lasts(events: Seq<EventView>, i: int, j: int)
    requires
        0 <= i <= j <= events.len(),
        past_reading(run(events.take(i)).phase),
    ensures
        past_reading(run(events.take(j)).phase),
    decreases j - i,
{
    if i < j {
        lemma_past_reading_lasts(events, i, j - 1);
        assert(events.take(j).drop_last() =~= events.take(j - 1));
        lemma_past_reading_stays(run(events.take(j - 1)), events.take(j).last());
    }
}

/// Directories come last: once the driver has been asked to unpack a kept
/// directory, it is never again asked to unpack a file of the archive, nor
/// to read or keep an entry.
pub proof fn lemma_directories_come_last(events: Seq<EventView>, i: int, j: int)
    requires
        0 < i < j <= events.len(),
        answer(events.take(i)) is UnpackKept,
    ensures
        !reads_archive(answer(events.take(j))),
{
    assert(run(events.take(i)).phase == Phase::UnpackingDir);
    lemma_past_reading_lasts(events, i, j - 1);
    assert(events.take(j).drop_last() =~= events.take(j - 1));
    lemma_past_reading_stays(run(events.take(j - 1)), events.take(j).last());
}

/// Whatever the archive holds, every file in the ledger is recorded by names
/// alone: no recorded file path holds `..`, a root or a prefix, so none
/// leads out of the destination.
pub proof fn lemma_recorded_files_are_plain(events: Seq<EventView>)
    ensures
        forall|k: int|
            0 <= k < run(events).ledger.files.len() ==> is_plain(
                #[trigger] run(events).ledger.files[k],
            ),
    decreases events.len(),
{
    if events.len() > 0 {
        lemma_recorded_files_are_plain(events.drop_last());
        if let EventView::Unpacked(path) = events.last() {
            lemma_normalized_is_plain(path);
        }
    }
}

/// The kept directories are unpacked in the order in which they were met,
/// each once: when one has been dealt with, unpacked or refused, the one
/// behind it is next, and behind the last the extraction is complete.
pub proof fn lemma_kept_directories_in_order(s: Progress, e: EventView)
    requires
        s.phase == Phase::UnpackingDir,
        s.next < s.kept <= usize::MAX,
        e is Unpacked || e is Refused,
    ensures
        step(s, e).0.next == s.next + 1,
        step(s, e).0.kept == s.kept,
        step(s, e).1 == if s.next + 1 < s.kept {
            Action::UnpackKept((s.next + 1) as usize)
        } else {
            Action::Finish
        },
{
}

/// While the archive is being read no directory is unpacked: the ledger
/// holds no directory before the archive has been read to its end.
pub proof fn lemma_no_directory_while_reading(events: Seq<EventView>)
    ensures
        !past_reading(run(events).phase) ==> run(events).ledger.dirs.len() == 0,
        !past_reading(run(events).phase) ==> run(events).next == 0,
    decreases events.len(),
{
    if events.len() > 0 {
        lemma_no_directory_while_reading(events.drop_last());
    }
}

/// An entry that is refused leaves no trace and does not end the
/// extraction: the ledger stays as it was and the next entry is read.
pub proof fn lemma_refused_file_is_passed_over(s: Progress)
    requires
        s.phase == Phase::UnpackingFile,
    ensures
        step(s, EventView::Refused).0.ledger == s.ledger,
        step(s, EventView::Refused).0.phase == Phase::Reading,
        step(s, EventView::Refused).1 == Action::ReadEntry,
{
}

/// A failure ends the extraction, whenever it is reported, and nothing
/// follows it but the order to give up.
pub proof fn lemma_failure_is_final(s: Progress, e: EventView)
    ensures
        step(s, EventView::Failed) == s.failed(),
        s.phase == Phase::Failed ==> step(s, e) == s.failed(),
{
}

/// An extraction in which anything fails has failed at its end, whatever
/// else the driver reports: no ledger is handed out.
pub proof fn lemma_failure_ends_the_extraction(events: Seq<EventView>, i: int)
    requires
        0 <= i < events.len(),
        events[i] == EventView::Failed,
    ensures
        run(events).phase == Phase::Failed,
    decreases events.len() - i,
{
    let before = events.drop_last();
    if i == events.len() - 1 {
        lemma_failure_is_final(run(before), events.last());
    } else {
        lemma_failure_ends_the_extraction(before, i);
        lemma_failure_is_final(run(before), events.last());
    }
}

/// One entry of an archive, as far as an extraction depends on it.
pub struct ArchiveEntry {
    /// What kind of entry it is.
    pub kind: EntryKind,
    /// The path that it names.
    pub path: Seq<ComponentView>,
    /// Whether the driver refuses to unpack it.
    pub refused: bool,
}

/// What the driver reports when it has been asked to unpack `entry`.
pub open spec fn report_of(entry: ArchiveEntry) -> EventView {
    if entry.refused {
        EventView::Refused
    } else {
        EventView::Unpacked(entry.path)
    }
}

/// What a driver reports before it reads the first entry, where nothing
/// fails: whether the destination exists, that it was created if it did not,
/// whether it could be resolved, and that the archive is open.
pub open spec fn opening_events(exists: bool, canonical: bool) -> Seq<EventView> {
    if exists {
        seq![
            EventView::Probed { exists: true },
            EventView::Resolved { canonical },
            EventView::Opened,
        ]
    } else {
        seq![
            EventView::Probed { exists: false },
            EventView::Created,
            EventView::Resolved { canonical },
            EventView::Opened,
        ]
    }
}

/// What a driver reports while it reads `entries`, where nothing fails: each
/// entry as it comes, and for each regular file what came of unpacking it.
pub open spec fn reading_events(entries: Seq<ArchiveEntry>) -> Seq<EventView>
    decreases entries.len(),
{
    if entries.len() == 0 {
        Seq::empty()
    } else {
        let before = reading_events(entries.drop_last());
        let entry = entries.last();
        if entry.kind == EntryKind::Regular {
            before.push(EventView::Entry(entry.kind)).push(report_of(entry))
        } else {
            before.push(EventView::Entry(entry.kind))
        }
    }
}

/// The directory entries among `entries`, in order.
pub open spec fn directories(entries: Seq<ArchiveEntry>) -> Seq<ArchiveEntry> {
    entries.filter(|entry: ArchiveEntry| entry.kind == EntryKind::Directory)
}

/// What a driver reports of an archive that holds `entries`, from the start
/// of the extraction to its end, where it does as it is asked and nothing
/// fails.
pub open spec fn faithful_events(entries: Seq<ArchiveEntry>, exists: bool, canonical: bool) -> Seq<
    EventView,
> {
    opening_events(exists, canonical) + reading_events(entries) + seq![EventView::EndOfArchive]
        + directories(entries).map_values(|entry: ArchiveEntry| report_of(entry))
}

/// The files that an archive of `entries` leaves in the ledger: the regular
/// files that were not refused, in order, each by the names of its path.
pub open spec fn files_written(entries: Seq<ArchiveEntry>) -> Seq<Seq<ComponentView>> {
    entries.filter(|entry: ArchiveEntry| entry.kind == EntryKind::Regular && !entry.refused)
        .map_values(|entry: ArchiveEntry| normalized(entry.path))
}

/// The directories that an archive of `entries` leaves in the ledger: the
/// directories that were not refused, in order, each by its path as given.
pub open spec fn dirs_written(entries: Seq<ArchiveEntry>) -> Seq<Seq<ComponentView>> {
    directories(entries).filter(|entry: ArchiveEntry| !entry.refused).map_values(
        |entry: ArchiveEntry| entry.path,
    )
}

/// Reporting one sequence of events and then another is reporting the two
/// on end.
pub proof fn lemma_run_on(start: Progress, first: Seq<EventView>, then: Seq<EventView>)
    ensures
        run_from(start, first + then) == run_from(run_from(start, first), then),
    decreases then.len(),
{
    if then.len() == 0 {
        assert(first + then =~= first);
    } else {
        lemma_run_on(start, first, then.drop_last());
        assert((first + then).drop_last() =~= first + then.drop_last());
    }
}

/// One more event takes an extraction one step further.
proof fn lemma_run_push(start: Progress, events: Seq<EventView>, event: EventView)
    ensures
        run_from(start, events.push(event)) == step(run_from(start, events), event).0,
{
    assert(events.push(event).drop_last() =~= events);
}

/// Where nothing fails, the archive is opened, and the first entry is read
/// next.
proof fn lemma_opening(exists: bool, canonical: bool)
    ensures
        run(opening_events(exists, canonical)) == Progress::initial().at(Phase::Reading),
{
    let start = Progress::initial();
    let events = opening_events(exists, canonical);
    let none = Seq::<EventView>::empty();
    if exists {
        let a = none.push(EventView::Probed { exists: true });
        let b = a.push(EventView::Resolved { canonical });
        assert(events =~= b.push(EventView::Opened));
        lemma_run_push(start, none, EventView::Probed { exists: true });
        lemma_run_push(start, a, EventView::Resolved { canonical });
        lemma_run_push(start, b, EventView::Opened);
    } else {
        let a = none.push(EventView::Probed { exists: false });
        let b = a.push(EventView::Created);
        let c = b.push(EventView::Resolved { canonical });
        assert(events =~= c.push(EventView::Opened));
        lemma_run_push(start, none, EventView::Probed { exists: false });
        lemma_run_push(start, a, EventView::Created);
        lemma_run_push(start, b, EventView::Resolved { canonical });
        lemma_run_push(start, c, EventView::Opened);
    }
}

/// While the entries are read, the files that are not refused are recorded
/// and the directories are counted.
proof fn lemma_reading(start: Progress, entries: Seq<ArchiveEntry>)
    requires
        start.phase == Phase::Reading,
        start.kept + directories(entries).len() <= usize::MAX,
    ensures
        run_from(start, reading_events(entries)) == (Progress {
            phase: Phase::Reading,
            kept: start.kept + directories(entries).len(),
            next: start.next,
            ledger: Ledger {
                files: start.ledger.files + files_written(entries),
                dirs: start.ledger.dirs,
            },
        }),
    decreases entries.len(),
{
    let is_dir = |entry: ArchiveEntry| entry.kind == EntryKind::Directory;
    let is_written = |entry: ArchiveEntry| entry.kind == EntryKind::Regular && !entry.refused;
    let names = |entry: ArchiveEntry| normalized(entry.path);
    if entries.len() == 0 {
        assert(entries.filter(is_dir).len() == 0);
        assert(entries.filter(is_written) =~= Seq::empty());
        assert(start.ledger.files + files_written(entries) =~= start.ledger.files);
    } else {
        let front = entries.drop_last();
        let entry = entries.last();
        assert(front.push(entry) =~= entries);
        front.lemma_filter_push(entry, is_dir);
        front.lemma_filter_push(entry, is_written);
        lemma_reading(start, front);
        let before = reading_events(front);
        let met = before.push(EventView::Entry(entry.kind));
        lemma_run_push(start, before, EventView::Entry(entry.kind));
        if entry.kind == EntryKind::Regular {
            lemma_run_push(start, met, report_of(entry));
            if entry.refused {
                assert(files_written(entries) =~= files_written(front));
            } else {
                assert(files_written(entries) =~= files_written(front).push(
                    normalized(entry.path),
                ));
                assert(start.ledger.files + files_written(entries) =~= (start.ledger.files
                    + files_written(front)).push(normalized(entry.path)));
            }
        } else {
            assert(files_written(entries) =~= files_written(front));
        }
    }
}

/// When the archive has been read, the kept directories are unpacked one
/// after the other, and those that are not refused are recorded.
proof fn lemma_unpacking_kept(start: Progress, dirs: Seq<ArchiveEntry>, k: int)
    requires
        0 <= k <= dirs.len(),
        start.kept == start.next + dirs.len(),
        start.kept <= usize::MAX,
        start.phase == if dirs.len() > 0 {
            Phase::UnpackingDir
        } else {
            Phase::Done
        },
    ensures
        run_from(start, dirs.map_values(|entry: ArchiveEntry| report_of(entry)).take(k))
            == (Progress {
            phase: if k < dirs.len() {
                Phase::UnpackingDir
            } else {
                Phase::Done
            },
            kept: start.kept,
            next: start.next + k as nat,
            ledger: Ledger {
                files: start.ledger.files,
                dirs: start.ledger.dirs + dirs.take(k).filter(
                    |entry: ArchiveEntry| !entry.refused,
                ).map_values(|entry: ArchiveEntry| entry.path),
            },
        }),
    decreases k,
{
    let reports = dirs.map_values(|entry: ArchiveEntry| report_of(entry));
    let is_written = |entry: ArchiveEntry| !entry.refused;
    let path = |entry: ArchiveEntry| entry.path;
    if k == 0 {
        assert(reports.take(0) =~= Seq::empty());
        assert(dirs.take(0).filter(is_written) =~= Seq::empty());
        assert(start.ledger.dirs + dirs.take(0).filter(is_written).map_values(path)
            =~= start.ledger.dirs);
    } else {
        lemma_unpacking_kept(start, dirs, k - 1);
        let entry = dirs[k - 1];
        let seen = dirs.take(k - 1);
        assert(dirs.take(k) =~= seen.push(entry));
        assert(reports.take(k) =~= reports.take(k - 1).push(report_of(entry)));
        lemma_run_push(start, reports.take(k - 1), report_of(entry));
        seen.lemma_filter_push(entry, is_written);
        if entry.refused {
            assert(dirs.take(k).filter(is_written) =~= seen.filter(is_written));
        } else {
            assert(dirs.take(k).filter(is_written).map_values(path) =~= seen.filter(
                is_written,
            ).map_values(path).push(entry.path));
            assert(start.ledger.dirs + dirs.take(k).filter(is_written).map_values(path) =~= (
            start.ledger.dirs + seen.filter(is_written).map_values(path)).push(entry.path));
        }
    }
}

/// The whole of an extraction, where the driver does as it is asked and
/// nothing fails: it comes to its end, and the ledger then holds the regular
/// files of the archive that were not refused, in the order of the archive
/// and each by the names of its path, and the directories of the archive
/// that were not refused, in the order of the archive.
///
/// Every file is unpacked when it is met and every directory after the last
/// entry has been read, for the driver reports no other course and an
/// extraction that is reported a course that it did not ask for fails.
pub proof fn lemma_faithful_extraction(entries: Seq<ArchiveEntry>, exists: bool, canonical: bool)
    requires
        directories(entries).len() <= usize::MAX,
    ensures
        run(faithful_events(entries, exists, canonical)).phase == Phase::Done,
        run(faithful_events(entries, exists, canonical)).ledger == (Ledger {
            files: files_written(entries),
            dirs: dirs_written(entries),
        }),
{
    let start = Progress::initial();
    let opening = opening_events(exists, canonical);
    let reading = reading_events(entries);
    let end = seq![EventView::EndOfArchive];
    let dirs = directories(entries);
    let reports = dirs.map_values(|entry: ArchiveEntry| report_of(entry));

    lemma_opening(exists, canonical);
    let opened = run_from(start, opening);
    lemma_reading(opened, entries);
    let read = run_from(opened, reading);
    assert(read.ledger.files =~= files_written(entries));
    lemma_run_on(start, opening, reading);

    lemma_run_push(read, Seq::empty(), EventView::EndOfArchive);
    assert(end =~= Seq::<EventView>::empty().push(EventView::EndOfArchive));
    let turned = run_from(read, end);
    lemma_run_on(start, opening + reading, end);

    lemma_unpacking_kept(turned, dirs, dirs.len() as int);
    assert(reports.take(dirs.len() as int) =~= reports);
    assert(dirs.take(dirs.len() as int) =~= dirs);
    lemma_run_on(start, opening + reading + end, reports);
    let last = run_from(turned, reports);
    assert(last.ledger.dirs =~= dirs_written(entries));
}

/// Unpacking the same archive once more gives the same ledger. The ledger
/// depends on the entries of the archive alone, not on whether the
/// destination was there before, nor on whether it could be resolved.
pub proof fn lemma_same_archive_same_ledger(
    entries: Seq<ArchiveEntry>,
    exists: bool,
    canonical: bool,
    exists_again: bool,
    canonical_again: bool,
)
    requires
        directories(entries).len() <= usize::MAX,
    ensures
        run(faithful_events(entries, exists, canonical)).ledger == run(
            faithful_events(entries, exists_again, canonical_again),
        ).ledger,
{
    lemma_faithful_extraction(entries, exists, canonical);
    lemma_faithful_extraction(entries, exists_again, canonical_again);
}

} // verus!
