//! Paths as the entries of an archive name them: a sequence of components.
//!
//! The extraction logic never reads a path as text. It asks which kinds of
//! component a path is made of, and keeps or drops components one by one, so
//! a path is held here already split. Two paths are the same path where
//! their components are the same, whatever separators they were written
//! with.

use vstd::prelude::*;

verus! {

/// One component of a path.
#[derive(Debug, Clone, PartialEq, Eq)]
pub enum Component {
    /// A volume or drive prefix, such as `C:`.
    Prefix(String),
    /// The root directory, which makes a path absolute.
    RootDir,
    /// The current directory, `.`.
    CurDir,
    /// The parent directory, `..`.
    ParentDir,
    /// The name of a file or directory.
    Normal(String),
}

/// What a component is, with its text as a sequence of characters.
pub enum ComponentView {
    Prefix(Seq<char>),
    RootDir,
    CurDir,
    ParentDir,
    Normal(Seq<char>),
}

impl View for Component {
    type V = ComponentView;

    open spec fn view(&self) -> ComponentView {
        match self {
            Component::Prefix(text) => ComponentView::Prefix(text@),
            Component::RootDir => ComponentView::RootDir,
            Component::CurDir => ComponentView::CurDir,
            Component::ParentDir => ComponentView::ParentDir,
            Component::Normal(name) => ComponentView::Normal(name@),
        }
    }
}

impl Component {
    /// Whether two components are the same kind of component with the same
    /// text.
    pub fn same(&self, other: &Component) -> (same: bool)
        ensures
            same == (self@ == other@),
    {
        match (self, other) {
            (Component::Prefix(a), Component::Prefix(b)) => *a == *b,
            (Component::RootDir, Component::RootDir) => true,
            (Component::CurDir, Component::CurDir) => true,
            (Component::ParentDir, Component::ParentDir) => true,
            (Component::Normal(a), Component::Normal(b)) => *a == *b,
            _ => false,
        }
    }

    /// A copy of the component.
    pub fn duplicate(&self) -> (copy: Component)
        ensures
            copy@ == self@,
    {
        match self {
            Component::Prefix(text) => Component::Prefix(text.clone()),
            Component::RootDir => Component::RootDir,
            Component::CurDir => Component::CurDir,
            Component::ParentDir => Component::ParentDir,
            Component::Normal(name) => Component::Normal(name.clone()),
        }
    }
}

/// The path of an archive entry, or of a file on disk, split into its
/// components.
#[derive(Debug, Clone, PartialEq, Eq)]
pub struct EntryPath {
    pub parts: Vec<Component>,
}

impl View for EntryPath {
    type V = Seq<ComponentView>;

    open spec fn view(&self) -> Seq<ComponentView> {
        self.parts@.map_values(|part: Component| part@)
    }
}

/// Whether a path holds a parent-directory component, by which it could
/// leave the directory it is resolved in.
pub open spec fn climbs(path: Seq<ComponentView>) -> bool {
    exists|i: int| 0 <= i < path.len() && #[trigger] path[i] is ParentDir
}

/// Whether a path is made of names alone: no prefix, no root, no `.` and no
/// `..`.
pub open spec fn is_plain(path: Seq<ComponentView>) -> bool {
    forall|i: int| 0 <= i < path.len() ==> #[trigger] path[i] is Normal
}

/// The names of a path, in order, without its other components.
pub open spec fn normalized(path: Seq<ComponentView>) -> Seq<ComponentView> {
    path.filter(|part: ComponentView| part is Normal)
}

/// The name that a path ends in, if it ends in one.
pub open spec fn final_name(path: Seq<ComponentView>) -> Option<Seq<char>> {
    if path.len() > 0 && path.last() is Normal {
        Some(path.last()->Normal_0)
    } else {
        None
    }
}

/// A normalized path is plain.
pub proof fn lemma_normalized_is_plain(path: Seq<ComponentView>)
    ensures
        is_plain(normalized(path)),
        !climbs(normalized(path)),
{
    let keep = |part: ComponentView| part is Normal;
    let names = path.filter(keep);
    assert forall|i: int| 0 <= i < names.len() implies #[trigger] names[i] is Normal by {
        path.lemma_filter_pred(keep, i);
    }
}

/// Normalizing a plain path changes nothing.
pub proof fn lemma_normalized_of_plain(path: Seq<ComponentView>)
    requires
        is_plain(path),
    ensures
        normalized(path) == path,
    decreases path.len(),
{
    let keep = |part: ComponentView| part is Normal;
    reveal(Seq::filter);
    if path.len() > 0 {
        lemma_normalized_of_plain(path.drop_last());
        assert(path.last() is Normal);
        assert(path.drop_last().push(path.last()) =~= path);
    } else {
        assert(path.filter(keep) =~= path);
    }
}

impl EntryPath {
    /// The empty path.
    pub fn new() -> (path: EntryPath)
        ensures
            path@ == Seq::<ComponentView>::empty(),
    {
        let path = EntryPath { parts: Vec::new() };
        assert(path@ =~= Seq::<ComponentView>::empty());
        path
    }

    /// The path of one name.
    pub fn from_name(name: String) -> (path: EntryPath)
        ensures
            path@ == seq![ComponentView::Normal(name@)],
    {
        let mut parts: Vec<Component> = Vec::new();
        parts.push(Component::Normal(name));
        let path = EntryPath { parts };
        assert(path@ =~= seq![ComponentView::Normal(name@)]);
        path
    }

    /// Whether two paths have the same components.
    pub fn same(&self, other: &EntryPath) -> (same: bool)
        ensures
            same == (self@ == other@),
    {
        if self.parts.len() != other.parts.len() {
            assert(self@.len() != other@.len());
            return false;
        }
        let mut k: usize = 0;
        while k < self.parts.len()
            invariant
                k <= self.parts.len(),
                self.parts.len() == other.parts.len(),
                forall|i: int| 0 <= i < k ==> #[trigger] self@[i] == other@[i],
            decreases self.parts.len() - k,
        {
            if !self.parts[k].same(&other.parts[k]) {
                assert(self@[k as int] != other@[k as int]);
                return false;
            }
            k = k + 1;
        }
        assert(self@ =~= other@);
        true
    }

    /// A copy of the path.
    pub fn duplicate(&self) -> (copy: EntryPath)
        ensures
            copy@ == self@,
    {
        let mut parts: Vec<Component> = Vec::new();
        let mut k: usize = 0;
        while k < self.parts.len()
            invariant
                k <= self.parts.len(),
                parts@.len() == k,
                forall|i: int| 0 <= i < k ==> (#[trigger] parts@[i])@ == self.parts@[i]@,
            decreases self.parts.len() - k,
        {
            parts.push(self.parts[k].duplicate());
            k = k + 1;
        }
        let copy = EntryPath { parts };
        assert(copy@ =~= self@);
        copy
    }

    /// Whether the path holds a parent-directory component.
    pub fn has_parent_dir(&self) -> (found: bool)
        ensures
            found == climbs(self@),
    {
        let mut k: usize = 0;
        while k < self.parts.len()
            invariant
                k <= self.parts.len(),
                forall|i: int| 0 <= i < k ==> !(#[trigger] self@[i] is ParentDir),
            decreases self.parts.len() - k,
        {
            if let Component::ParentDir = self.parts[k] {
                assert(self@[k as int] is ParentDir);
                return true;
            }
            k = k + 1;
        }
        false
    }

    /// The name that the path ends in. A path that is empty, or ends in a
    /// root, a prefix or `..`, has none.
    pub fn file_name(&self) -> (name: Option<String>)
        ensures
            match name {
                Some(name) => final_name(self@) == Some(name@),
                None => final_name(self@) is None,
            },
    {
        let len = self.parts.len();
        if len == 0 {
            return None;
        }
        assert(self@.last() == self.parts@[len - 1]@);
        match &self.parts[len - 1] {
            Component::Normal(name) => Some(name.clone()),
            _ => None,
        }
    }

    /// The path as it is found below the directory that an archive is
    /// unpacked into: its names, in order. A prefix, a root and `.` do not
    /// lead anywhere else and are left out.
    ///
    /// A path that holds `..` is never unpacked, so there is nothing to
    /// normalize it to.
    pub fn normalize(&self) -> (names: EntryPath)
        requires
            !climbs(self@),
        ensures
            names@ == normalized(self@),
            is_plain(names@),
    {
        let ghost keep = |part: ComponentView| part is Normal;
        let mut parts: Vec<Component> = Vec::new();
        let mut k: usize = 0;
        assert(self@.take(0) =~= Seq::<ComponentView>::empty());
        while k < self.parts.len()
            invariant
                k <= self.parts.len(),
                keep == |part: ComponentView| part is Normal,
                parts@.map_values(|part: Component| part@) == self@.take(k as int).filter(keep),
            decreases self.parts.len() - k,
        {
            let ghost seen = self@.take(k as int);
            proof {
                assert(self@.take(k + 1) =~= seen.push(self@[k as int]));
                seen.lemma_filter_push(self@[k as int], keep);
            }
            if let Component::Normal(name) = &self.parts[k] {
                let ghost before = parts@;
                parts.push(Component::Normal(name.clone()));
                assert(parts@.map_values(|part: Component| part@) =~= before.map_values(
                    |part: Component| part@,
                ).push(self@[k as int]));
            }
            k = k + 1;
        }
        assert(self@.take(k as int) =~= self@);
        proof {
            lemma_normalized_is_plain(self@);
        }
        EntryPath { parts }
    }
}

} // verus!
