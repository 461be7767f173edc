//! Unpacking a tar archive, as a sequence of decisions.
//!
//! The archive is read once, front to back, by a driver that owns the files
//! and the archive reader. The driver does what [`TarExtraction::step`] tells
//! it to do and reports what came of it; every decision is taken here.
//!
//! Regular files are unpacked as they come. Directory entries are kept and
//! unpacked only when the archive has been read to its end: unpacking a
//! directory may take away the permission to write into it, and the files
//! below it create it anyway. Entries of any other kind are passed over.
//! An entry that the driver refuses to unpack, because its path would leave
//! the destination, is passed over too: it is not recorded and it does not
//! end the extraction.

use crate::extracted_files::{ExtractedFiles, Ledger};
use crate::paths::{climbs, normalized, ComponentView, EntryPath};
use vstd::prelude::*;

verus! {

/// The kinds of archive entry that are told apart.
#[derive(Debug, Copy, Clone, PartialEq, Eq, Structural)]
pub enum EntryKind {
    /// A regular file.
    Regular,
    /// A directory.
    Directory,
    /// Anything else: a link, a device, a fifo, an extension header.
    Other,
}

/// How far an extraction has come: what the driver was last asked to do.
#[derive(Debug, Copy, Clone, PartialEq, Eq, Structural)]
pub enum Phase {
    /// To look whether the destination exists.
    Probing,
    /// To create the destination and the directories above it.
    Creating,
    /// To resolve the destination to its canonical path.
    Resolving,
    /// To open the archive.
    Opening,
    /// To read the next entry of the archive.
    Reading,
    /// To unpack the regular file that was just read.
    UnpackingFile,
    /// To unpack one of the directories that were kept.
    UnpackingDir,
    /// To hand out the ledger: the extraction is complete.
    Done,
    /// To give up: the extraction has failed.
    Failed,
}

/// What the driver reports.
#[derive(Debug, Clone, PartialEq, Eq)]
pub enum Event {
    /// The destination was looked for.
    Probed { exists: bool },
    /// The destination was created.
    Created,
    /// The destination was resolved, or it could not be and stays as given.
    Resolved { canonical: bool },
    /// The archive is open.
    Opened,
    /// The archive gave its next entry, of this kind.
    Entry(EntryKind),
    /// The archive has no more entries.
    EndOfArchive,
    /// The entry was unpacked; this is the path that it names.
    Unpacked(EntryPath),
    /// The entry was passed over, not unpacked: its path holds `..`, or
    /// leads nowhere below the destination.
    Refused,
    /// What was asked for could not be done.
    Failed,
}

/// An event, with the path it carries as a sequence of components.
pub enum EventView {
    Probed { exists: bool },
    Created,
    Resolved { canonical: bool },
    Opened,
    Entry(EntryKind),
    EndOfArchive,
    Unpacked(Seq<ComponentView>),
    Refused,
    Failed,
}

impl View for Event {
    type V = EventView;

    open spec fn view(&self) -> EventView {
        match self {
            Event::Probed { exists } => EventView::Probed { exists: *exists },
            Event::Created => EventView::Created,
            Event::Resolved { canonical } => EventView::Resolved { canonical: *canonical },
            Event::Opened => EventView::Opened,
            Event::Entry(kind) => EventView::Entry(*kind),
            Event::EndOfArchive => EventView::EndOfArchive,
            Event::Unpacked(path) => EventView::Unpacked(path@),
            Event::Refused => EventView::Refused,
            Event::Failed => EventView::Failed,
        }
    }
}

/// What the driver is asked to do next.
#[derive(Debug, Copy, Clone, PartialEq, Eq, Structural)]
pub enum Action {
    /// Look whether the destination exists, without following a link.
    /// Answer: `Probed`.
    Probe,
    /// Create the destination and the directories above it.
    /// Answer: `Created`.
    CreateDestination,
    /// Resolve the destination to its canonical path. Answer: `Resolved`,
    /// also where it cannot be resolved.
    Canonicalize,
    /// Open the archive. Entries are to be unpacked below the canonical path
    /// of the destination, or below the destination as it was given.
    /// Answer: `Opened`.
    Open { canonical: bool },
    /// Read the next entry. Answer: `Entry` or `EndOfArchive`.
    ReadEntry,
    /// Unpack the entry that was just read. Answer: `Unpacked` or `Refused`.
    UnpackEntry,
    /// Keep the entry that was just read, behind those kept before, and read
    /// the next entry. Answer: `Entry` or `EndOfArchive`.
    KeepEntry,
    /// Unpack the kept entry of this number, counted from zero.
    /// Answer: `Unpacked` or `Refused`.
    UnpackKept(usize),
    /// Return the ledger.
    Finish,
    /// Return the error.
    Abort,
}

/// The state of an extraction.
pub struct Progress {
    /// What the driver was last asked to do.
    pub phase: Phase,
    /// How many directory entries the driver keeps.
    pub kept: nat,
    /// How many of them have been dealt with.
    pub next: nat,
    /// What has been written so far.
    pub ledger: Ledger,
}

impl Progress {
    /// The state in which an extraction starts: the driver is to `Probe`.
    pub open spec fn initial() -> Progress {
        Progress { phase: Phase::Probing, kept: 0, next: 0, ledger: Ledger::empty() }
    }

    /// The same state in another phase.
    pub open spec fn at(self, phase: Phase) -> Progress {
        Progress { phase, ..self }
    }

    /// The state of an extraction that has failed.
    pub open spec fn failed(self) -> (Progress, Action) {
        (self.at(Phase::Failed), Action::Abort)
    }

    /// Turns to the kept directories: the first one not yet dealt with is
    /// unpacked, and when none is left the extraction is complete.
    pub open spec fn turn_to_kept(self) -> (Progress, Action) {
        if self.next < self.kept && self.next <= usize::MAX {
            (self.at(Phase::UnpackingDir), Action::UnpackKept(self.next as usize))
        } else {
            (self.at(Phase::Done), Action::Finish)
        }
    }
}

/// The decision taken in state `s` on event `e`: the state that follows, and
/// what the driver is to do.
///
/// An event that is no answer to what was asked, and `Failed` in any state,
/// end the extraction.
pub open spec fn step(s: Progress, e: EventView) -> (Progress, Action) {
    match (s.phase, e) {
        (Phase::Probing, EventView::Probed { exists }) => if exists {
            (s.at(Phase::Resolving), Action::Canonicalize)
        } else {
            (s.at(Phase::Creating), Action::CreateDestination)
        },
        (Phase::Creating, EventView::Created) => (s.at(Phase::Resolving), Action::Canonicalize),
        (Phase::Resolving, EventView::Resolved { canonical }) => (
            s.at(Phase::Opening),
            Action::Open { canonical },
        ),
        (Phase::Opening, EventView::Opened) => (s.at(Phase::Reading), Action::ReadEntry),
        (Phase::Reading, EventView::Entry(EntryKind::Regular)) => (
            s.at(Phase::UnpackingFile),
            Action::UnpackEntry,
        ),
        (Phase::Reading, EventView::Entry(EntryKind::Directory)) => if s.kept < usize::MAX {
            (Progress { kept: s.kept + 1, ..s }, Action::KeepEntry)
        } else {
            s.failed()
        },
        (Phase::Reading, EventView::Entry(EntryKind::Other)) => (s, Action::ReadEntry),
        (Phase::Reading, EventView::EndOfArchive) => s.turn_to_kept(),
        (Phase::UnpackingFile, EventView::Unpacked(path)) => (
            Progress { phase: Phase::Reading, ledger: s.ledger.with_file(normalized(path)), ..s },
            Action::ReadEntry,
        ),
        (Phase::UnpackingFile, EventView::Refused) => (s.at(Phase::Reading), Action::ReadEntry),
        (Phase::UnpackingDir, EventView::Unpacked(path)) => if s.next < s.kept {
            Progress { next: s.next + 1, ledger: s.ledger.with_dir(path), ..s }.turn_to_kept()
        } else {
            s.failed()
        },
        (Phase::UnpackingDir, EventView::Refused) => if s.next < s.kept {
            Progress { next: s.next + 1, ..s }.turn_to_kept()
        } else {
            s.failed()
        },
        _ => s.failed(),
    }
}

/// The extraction of one tar archive.
pub struct TarExtraction {
    phase: Phase,
    kept: usize,
    next: usize,
    ledger: ExtractedFiles,
}

impl View for TarExtraction {
    type V = Progress;

    closed spec fn view(&self) -> Progress {
        Progress {
            phase: self.phase,
            kept: self.kept as nat,
            next: self.next as nat,
            ledger: self.ledger@,
        }
    }
}

impl TarExtraction {
    /// A new extraction. The driver starts it with a `Probe`.
    pub fn new() -> (run: TarExtraction)
        ensures
            run@ == Progress::initial(),
    {
        TarExtraction { phase: Phase::Probing, kept: 0, next: 0, ledger: ExtractedFiles::new() }
    }

    /// What the driver was last asked to do.
    pub fn phase(&self) -> (phase: Phase)
        ensures
            phase == self@.phase,
    {
        self.phase
    }

    /// What has been written so far.
    pub fn ledger(&self) -> (ledger: &ExtractedFiles)
        ensures
            ledger@ == self@.ledger,
    {
        &self.ledger
    }

    /// The ledger of a complete extraction. An extraction that has failed,
    /// or is still under way, has none to give.
    pub fn into_ledger(self) -> (ledger: Option<ExtractedFiles>)
        ensures
            match ledger {
                Some(ledger) => self@.phase == Phase::Done && ledger@ == self@.ledger,
                None => self@.phase != Phase::Done,
            },
    {
        if self.phase == Phase::Done {
            Some(self.ledger)
        } else {
            None
        }
    }

    fn fail(&mut self) -> (action: Action)
        ensures
            (final(self)@, action) == old(self)@.failed(),
    {
        self.phase = Phase::Failed;
        Action::Abort
    }

    fn turn_to_kept(&mut self) -> (action: Action)
        ensures
            (final(self)@, action) == old(self)@.turn_to_kept(),
    {
        if self.next < self.kept {
            self.phase = Phase::UnpackingDir;
            Action::UnpackKept(self.next)
        } else {
            self.phase = Phase::Done;
            Action::Finish
        }
    }

    /// Takes in what the driver reports and decides what it does next.
    ///
    /// The path of an unpacked file is recorded by its names alone. That it
    /// holds no `..` is not checked here but demanded: an entry with such a
    /// path is refused, never unpacked, and a driver that reports otherwise
    /// is at fault.
    pub fn step(&mut self, event: Event) -> (action: Action)
        requires
            old(self)@.phase == Phase::UnpackingFile ==> (event@ matches EventView::Unpacked(path)
                ==> !climbs(path)),
        ensures
            (final(self)@, action) == step(old(self)@, event@),
    {
        match self.phase {
            Phase::Probing => match event {
                Event::Probed { exists } => {
                    if exists {
                        self.phase = Phase::Resolving;
                        Action::Canonicalize
                    } else {
                        self.phase = Phase::Creating;
                        Action::CreateDestination
                    }
                },
                _ => self.fail(),
            },
            Phase::Creating => match event {
                Event::Created => {
                    self.phase = Phase::Resolving;
                    Action::Canonicalize
                },
                _ => self.fail(),
            },
            Phase::Resolving => match event {
                Event::Resolved { canonical } => {
                    self.phase = Phase::Opening;
                    Action::Open { canonical }
                },
                _ => self.fail(),
            },
            Phase::Opening => match event {
                Event::Opened => {
                    self.phase = Phase::Reading;
                    Action::ReadEntry
                },
                _ => self.fail(),
            },
            Phase::Reading => match event {
                Event::Entry(EntryKind::Regular) => {
                    self.phase = Phase::UnpackingFile;
                    Action::UnpackEntry
                },
                Event::Entry(EntryKind::Directory) => {
                    if self.kept < usize::MAX {
                        self.kept = self.kept + 1;
                        Action::KeepEntry
                    } else {
                        self.fail()
                    }
                },
                Event::Entry(EntryKind::Other) => Action::ReadEntry,
                Event::EndOfArchive => self.turn_to_kept(),
                _ => self.fail(),
            },
            Phase::UnpackingFile => match event {
                Event::Unpacked(path) => {
                    self.ledger.add_file(path.normalize());
                    self.phase = Phase::Reading;
                    Action::ReadEntry
                },
                Event::Refused => {
                    self.phase = Phase::Reading;
                    Action::ReadEntry
                },
                _ => self.fail(),
            },
            Phase::UnpackingDir => match event {
                Event::Unpacked(path) => {
                    if self.next < self.kept {
                        self.ledger.add_dir(path);
                        self.next = self.next + 1;
                        self.turn_to_kept()
                    } else {
                        self.fail()
                    }
                },
                Event::Refused => {
                    if self.next < self.kept {
                        self.next = self.next + 1;
                        self.turn_to_kept()
                    } else {
                        self.fail()
                    }
                },
                _ => self.fail(),
            },
            Phase::Done => self.fail(),
            Phase::Failed => self.fail(),
        }
    }
}

} // verus!
