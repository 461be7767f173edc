//! The ledger of one extraction: which files and which directories it wrote.

use crate::paths::{final_name, ComponentView, EntryPath};
use vstd::prelude::*;

verus! {

/// The paths written during one extraction, relative to its destination:
/// files and directories apart, each in the order in which they were
/// written.
///
/// A ledger starts empty, only grows, and belongs to one extraction.
#[derive(Debug, Clone, PartialEq, Eq)]
pub struct ExtractedFiles {
    files: Vec<EntryPath>,
    dirs: Vec<EntryPath>,
}

/// What a ledger holds.
pub struct Ledger {
    pub files: Seq<Seq<ComponentView>>,
    pub dirs: Seq<Seq<ComponentView>>,
}

impl Ledger {
    /// The ledger that holds nothing.
    pub open spec fn empty() -> Ledger {
        Ledger { files: Seq::empty(), dirs: Seq::empty() }
    }

    /// The ledger of the one file `name`.
    pub open spec fn single(name: Seq<char>) -> Ledger {
        Ledger { files: seq![seq![ComponentView::Normal(name)]], dirs: Seq::empty() }
    }

    /// The ledger with one more file.
    pub open spec fn with_file(self, path: Seq<ComponentView>) -> Ledger {
        Ledger { files: self.files.push(path), dirs: self.dirs }
    }

    /// The ledger with one more directory.
    pub open spec fn with_dir(self, path: Seq<ComponentView>) -> Ledger {
        Ledger { files: self.files, dirs: self.dirs.push(path) }
    }
}

impl View for ExtractedFiles {
    type V = Ledger;

    closed spec fn view(&self) -> Ledger {
        Ledger {
            files: self.files@.map_values(|path: EntryPath| path@),
            dirs: self.dirs@.map_values(|path: EntryPath| path@),
        }
    }
}

/// Whether `path` is among the first `k` of `paths`.
fn holds(paths: &Vec<EntryPath>, path: &EntryPath) -> (found: bool)
    ensures
        found == paths@.map_values(|held: EntryPath| held@).contains(path@),
{
    let ghost views = paths@.map_values(|held: EntryPath| held@);
    let mut k: usize = 0;
    while k < paths.len()
        invariant
            k <= paths.len(),
            views == paths@.map_values(|held: EntryPath| held@),
            forall|i: int| 0 <= i < k ==> #[trigger] views[i] != path@,
        decreases paths.len() - k,
    {
        if paths[k].same(path) {
            assert(views[k as int] == path@);
            return true;
        }
        k = k + 1;
    }
    false
}

impl ExtractedFiles {
    /// The empty ledger.
    pub fn new() -> (ledger: ExtractedFiles)
        ensures
            ledger@ == Ledger::empty(),
    {
        let ledger = ExtractedFiles { files: Vec::new(), dirs: Vec::new() };
        assert(ledger@.files =~= Seq::empty());
        assert(ledger@.dirs =~= Seq::empty());
        ledger
    }

    /// The ledger of an extraction that writes its whole input to the one
    /// file `destination`: that file, under the name that `destination` ends
    /// in, and nothing else.
    ///
    /// A destination that ends in no name is no file to write to.
    pub fn single_file(destination: &EntryPath) -> (ledger: ExtractedFiles)
        requires
            final_name(destination@) is Some,
        ensures
            ledger@ == Ledger::single(final_name(destination@)->0),
    {
        let mut ledger = ExtractedFiles::new();
        match destination.file_name() {
            Some(name) => {
                ledger.add_file(EntryPath::from_name(name));
            },
            None => {},
        }
        ledger
    }

    /// Records a file.
    pub fn add_file(&mut self, path: EntryPath)
        ensures
            final(self)@ == old(self)@.with_file(path@),
    {
        self.files.push(path);
        assert(self@.files =~= old(self)@.files.push(path@));
    }

    /// Records a directory.
    pub fn add_dir(&mut self, path: EntryPath)
        ensures
            final(self)@ == old(self)@.with_dir(path@),
    {
        self.dirs.push(path);
        assert(self@.dirs =~= old(self)@.dirs.push(path@));
    }

    /// The files recorded, oldest first.
    pub fn files(&self) -> (files: &Vec<EntryPath>)
        ensures
            files@.map_values(|path: EntryPath| path@) == self@.files,
    {
        &self.files
    }

    /// The directories recorded, oldest first.
    pub fn dirs(&self) -> (dirs: &Vec<EntryPath>)
        ensures
            dirs@.map_values(|path: EntryPath| path@) == self@.dirs,
    {
        &self.dirs
    }

    /// Whether `path` was recorded as a file.
    pub fn has_file(&self, path: &EntryPath) -> (found: bool)
        ensures
            found == self@.files.contains(path@),
    {
        holds(&self.files, path)
    }

    /// Whether `path` was recorded as a directory.
    pub fn has_dir(&self, path: &EntryPath) -> (found: bool)
        ensures
            found == self@.dirs.contains(path@),
    {
        holds(&self.dirs, path)
    }
}

} // verus!
