use pkg_extract::extracted_files::ExtractedFiles;
use pkg_extract::paths::{Component, EntryPath};
use pkg_extract::unpack::{Action, EntryKind, Event, Phase, TarExtraction};

fn name(text: &str) -> Component {
    Component::Normal(text.to_string())
}

fn path_of(names: &[&str]) -> EntryPath {
    EntryPath { parts: names.iter().map(|text| name(text)).collect() }
}

/// An extraction whose destination exists and whose archive is open.
fn opened() -> TarExtraction {
    let mut run = TarExtraction::new();
    assert_eq!(run.step(Event::Probed { exists: true }), Action::Canonicalize);
    assert_eq!(run.step(Event::Resolved { canonical: true }), Action::Open { canonical: true });
    assert_eq!(run.step(Event::Opened), Action::ReadEntry);
    run
}

fn ledger_of(run: TarExtraction) -> ExtractedFiles {
    match run.into_ledger() {
        Some(ledger) => ledger,
        None => panic!("the extraction is not complete"),
    }
}

#[test]
fn starts_by_probing() {
    let run = TarExtraction::new();
    assert_eq!(run.phase(), Phase::Probing);
    assert!(run.ledger().files().is_empty());
    assert!(run.ledger().dirs().is_empty());
}

#[test]
fn missing_destination_is_created_first() {
    let mut run = TarExtraction::new();
    assert_eq!(run.step(Event::Probed { exists: false }), Action::CreateDestination);
    assert_eq!(run.phase(), Phase::Creating);
    assert_eq!(run.step(Event::Created), Action::Canonicalize);
    assert_eq!(run.phase(), Phase::Resolving);
}

#[test]
fn existing_destination_is_not_created() {
    let mut run = TarExtraction::new();
    assert_eq!(run.step(Event::Probed { exists: true }), Action::Canonicalize);
}

#[test]
fn destination_that_cannot_be_created_fails() {
    let mut run = TarExtraction::new();
    assert_eq!(run.step(Event::Probed { exists: false }), Action::CreateDestination);
    assert_eq!(run.step(Event::Failed), Action::Abort);
    assert_eq!(run.phase(), Phase::Failed);
    assert_eq!(run.into_ledger(), None);
}

#[test]
fn destination_that_cannot_be_resolved_is_used_as_given() {
    let mut run = TarExtraction::new();
    run.step(Event::Probed { exists: true });
    assert_eq!(run.step(Event::Resolved { canonical: false }), Action::Open { canonical: false });
    assert_eq!(run.step(Event::Opened), Action::ReadEntry);
    assert_eq!(run.phase(), Phase::Reading);
}

#[test]
fn empty_archive_gives_empty_ledger() {
    let mut run = opened();
    assert_eq!(run.step(Event::EndOfArchive), Action::Finish);
    assert_eq!(run.phase(), Phase::Done);
    assert_eq!(ledger_of(run), ExtractedFiles::new());
}

#[test]
fn file_and_its_directory() {
    let mut run = opened();
    assert_eq!(run.step(Event::Entry(EntryKind::Regular)), Action::UnpackEntry);
    assert_eq!(run.step(Event::Unpacked(path_of(&["a", "b.txt"]))), Action::ReadEntry);
    assert_eq!(run.step(Event::Entry(EntryKind::Directory)), Action::KeepEntry);
    assert_eq!(run.step(Event::EndOfArchive), Action::UnpackKept(0));
    assert_eq!(run.step(Event::Unpacked(path_of(&["a"]))), Action::Finish);
    let ledger = ledger_of(run);
    assert_eq!(ledger.files(), &vec![path_of(&["a", "b.txt"])]);
    assert_eq!(ledger.dirs(), &vec![path_of(&["a"])]);
    assert!(ledger.has_file(&path_of(&["a", "b.txt"])));
    assert!(ledger.has_dir(&path_of(&["a"])));
}

#[test]
fn directory_listed_first_is_still_unpacked_last() {
    let mut run = opened();
    assert_eq!(run.step(Event::Entry(EntryKind::Directory)), Action::KeepEntry);
    assert_eq!(run.phase(), Phase::Reading);
    assert!(run.ledger().dirs().is_empty());
    assert_eq!(run.step(Event::Entry(EntryKind::Regular)), Action::UnpackEntry);
    assert_eq!(run.step(Event::Unpacked(path_of(&["a", "b.txt"]))), Action::ReadEntry);
    assert!(run.ledger().has_file(&path_of(&["a", "b.txt"])));
    assert!(run.ledger().dirs().is_empty());
    assert_eq!(run.step(Event::EndOfArchive), Action::UnpackKept(0));
    assert_eq!(run.phase(), Phase::UnpackingDir);
    assert_eq!(run.step(Event::Unpacked(path_of(&["a"]))), Action::Finish);
    let ledger = ledger_of(run);
    assert_eq!(ledger.files(), &vec![path_of(&["a", "b.txt"])]);
    assert_eq!(ledger.dirs(), &vec![path_of(&["a"])]);
}

#[test]
fn directories_are_unpacked_in_the_order_met() {
    let mut run = opened();
    assert_eq!(run.step(Event::Entry(EntryKind::Directory)), Action::KeepEntry);
    assert_eq!(run.step(Event::Entry(EntryKind::Directory)), Action::KeepEntry);
    assert_eq!(run.step(Event::Entry(EntryKind::Directory)), Action::KeepEntry);
    assert_eq!(run.step(Event::EndOfArchive), Action::UnpackKept(0));
    assert_eq!(run.step(Event::Unpacked(path_of(&["x"]))), Action::UnpackKept(1));
    assert_eq!(run.step(Event::Unpacked(path_of(&["x", "y"]))), Action::UnpackKept(2));
    assert_eq!(run.step(Event::Unpacked(path_of(&["z"]))), Action::Finish);
    let ledger = ledger_of(run);
    assert!(ledger.files().is_empty());
    assert_eq!(ledger.dirs(), &vec![path_of(&["x"]), path_of(&["x", "y"]), path_of(&["z"])]);
}

#[test]
fn traversing_entry_is_skipped_and_the_rest_is_unpacked() {
    let mut run = opened();
    // `../../etc/passwd`: the driver refuses it.
    assert_eq!(run.step(Event::Entry(EntryKind::Regular)), Action::UnpackEntry);
    assert_eq!(run.step(Event::Refused), Action::ReadEntry);
    assert_eq!(run.phase(), Phase::Reading);
    assert!(run.ledger().files().is_empty());
    assert_eq!(run.step(Event::Entry(EntryKind::Regular)), Action::UnpackEntry);
    assert_eq!(run.step(Event::Unpacked(path_of(&["ok.txt"]))), Action::ReadEntry);
    assert_eq!(run.step(Event::EndOfArchive), Action::Finish);
    let ledger = ledger_of(run);
    assert_eq!(ledger.files(), &vec![path_of(&["ok.txt"])]);
    assert!(ledger.dirs().is_empty());
    let escaping = EntryPath {
        parts: vec![
            Component::ParentDir,
            Component::ParentDir,
            name("etc"),
            name("passwd"),
        ],
    };
    assert!(escaping.has_parent_dir());
    assert!(!ledger.has_file(&escaping));
    assert!(!ledger.has_file(&path_of(&["etc", "passwd"])));
}

#[test]
fn traversing_directory_is_skipped() {
    let mut run = opened();
    assert_eq!(run.step(Event::Entry(EntryKind::Directory)), Action::KeepEntry);
    assert_eq!(run.step(Event::Entry(EntryKind::Directory)), Action::KeepEntry);
    assert_eq!(run.step(Event::EndOfArchive), Action::UnpackKept(0));
    assert_eq!(run.step(Event::Refused), Action::UnpackKept(1));
    assert_eq!(run.step(Event::Unpacked(path_of(&["d"]))), Action::Finish);
    let ledger = ledger_of(run);
    assert_eq!(ledger.dirs(), &vec![path_of(&["d"])]);
}

#[test]
fn other_entries_are_passed_over() {
    let mut run = opened();
    assert_eq!(run.step(Event::Entry(EntryKind::Other)), Action::ReadEntry);
    assert_eq!(run.phase(), Phase::Reading);
    assert_eq!(run.step(Event::Entry(EntryKind::Other)), Action::ReadEntry);
    assert_eq!(run.step(Event::EndOfArchive), Action::Finish);
    assert_eq!(ledger_of(run), ExtractedFiles::new());
}

#[test]
fn file_path_is_recorded_by_its_names() {
    let mut run = opened();
    run.step(Event::Entry(EntryKind::Regular));
    let given = EntryPath {
        parts: vec![Component::RootDir, Component::CurDir, name("a"), Component::CurDir, name("b")],
    };
    assert_eq!(run.step(Event::Unpacked(given)), Action::ReadEntry);
    assert_eq!(run.ledger().files(), &vec![path_of(&["a", "b"])]);
}

#[test]
fn directory_path_is_recorded_as_given() {
    let mut run = opened();
    run.step(Event::Entry(EntryKind::Directory));
    run.step(Event::EndOfArchive);
    let given = EntryPath { parts: vec![Component::CurDir, name("a")] };
    assert_eq!(run.step(Event::Unpacked(given.duplicate())), Action::Finish);
    assert_eq!(run.ledger().dirs(), &vec![given]);
}

#[test]
fn failure_while_reading_ends_the_extraction() {
    let mut run = opened();
    run.step(Event::Entry(EntryKind::Regular));
    run.step(Event::Unpacked(path_of(&["a"])));
    assert_eq!(run.step(Event::Failed), Action::Abort);
    assert_eq!(run.phase(), Phase::Failed);
    assert_eq!(run.into_ledger(), None);
}

#[test]
fn failure_while_unpacking_ends_the_extraction() {
    let mut run = opened();
    run.step(Event::Entry(EntryKind::Regular));
    assert_eq!(run.step(Event::Failed), Action::Abort);
    assert_eq!(run.step(Event::Entry(EntryKind::Regular)), Action::Abort);
    assert_eq!(run.phase(), Phase::Failed);
}

#[test]
fn failure_while_unpacking_a_directory_ends_the_extraction() {
    let mut run = opened();
    run.step(Event::Entry(EntryKind::Directory));
    assert_eq!(run.step(Event::EndOfArchive), Action::UnpackKept(0));
    assert_eq!(run.step(Event::Failed), Action::Abort);
    assert_eq!(run.into_ledger(), None);
}

#[test]
fn archive_that_cannot_be_opened_fails() {
    let mut run = TarExtraction::new();
    run.step(Event::Probed { exists: true });
    run.step(Event::Resolved { canonical: true });
    assert_eq!(run.step(Event::Failed), Action::Abort);
    assert_eq!(run.into_ledger(), None);
}

#[test]
fn answer_out_of_turn_ends_the_extraction() {
    let mut run = TarExtraction::new();
    assert_eq!(run.step(Event::Opened), Action::Abort);
    assert_eq!(run.phase(), Phase::Failed);

    let mut run = opened();
    assert_eq!(run.step(Event::Unpacked(path_of(&["a"]))), Action::Abort);
    assert_eq!(run.phase(), Phase::Failed);
    assert!(run.ledger().files().is_empty());
}

#[test]
fn nothing_follows_the_end() {
    let mut run = opened();
    assert_eq!(run.step(Event::EndOfArchive), Action::Finish);
    assert_eq!(run.step(Event::Entry(EntryKind::Regular)), Action::Abort);
    assert_eq!(run.into_ledger(), None);
}

#[test]
fn unfinished_extraction_has_no_ledger_to_give() {
    let mut run = opened();
    run.step(Event::Entry(EntryKind::Regular));
    run.step(Event::Unpacked(path_of(&["a"])));
    assert_eq!(run.into_ledger(), None);
}

fn replay() -> ExtractedFiles {
    let mut run = opened();
    run.step(Event::Entry(EntryKind::Directory));
    run.step(Event::Entry(EntryKind::Regular));
    run.step(Event::Unpacked(path_of(&["a", "b.txt"])));
    run.step(Event::Entry(EntryKind::Other));
    run.step(Event::Entry(EntryKind::Regular));
    run.step(Event::Refused);
    run.step(Event::Entry(EntryKind::Regular));
    run.step(Event::Unpacked(path_of(&["c.txt"])));
    run.step(Event::EndOfArchive);
    run.step(Event::Unpacked(path_of(&["a"])));
    ledger_of(run)
}

#[test]
fn same_archive_twice_gives_the_same_ledger() {
    let first = replay();
    let second = replay();
    assert_eq!(first, second);
    assert_eq!(first.files(), &vec![path_of(&["a", "b.txt"]), path_of(&["c.txt"])]);
    assert_eq!(first.dirs(), &vec![path_of(&["a"])]);
}
