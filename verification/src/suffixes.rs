//! Cutting a file name at its last dots.
//!
//! A name such as `pkg-1.0-x86_64.tar.gz` is read from the right: `gz` is its
//! last component, `tar` the one before it, and `pkg-1.0-x86_64` is what is
//! left. No more than two dots are looked at, so a name has one, two or three
//! parts, and the leftmost part may itself hold dots.

use vstd::prelude::*;

verus! {

/// The position of the last `.` in `name`, if it holds one.
pub open spec fn last_dot(name: Seq<char>) -> Option<int>
    decreases name.len(),
{
    if name.len() == 0 {
        None
    } else if name.last() == '.' {
        Some(name.len() - 1)
    } else {
        last_dot(name.drop_last())
    }
}

/// A name as seen from its right end.
pub struct NameTail {
    /// What follows the last dot; the whole name where it has no dot.
    pub last: Seq<char>,
    /// What stands between the last two dots; all that precedes the only dot
    /// where there is just one; nothing where the name has no dot.
    pub second_last: Option<Seq<char>>,
    /// How many parts the name has, from one to three.
    pub parts: nat,
}

/// The name cut at its last dot and at the dot before that.
pub open spec fn name_tail(name: Seq<char>) -> NameTail {
    match last_dot(name) {
        None => NameTail { last: name, second_last: None, parts: 1 },
        Some(i) => {
            let head = name.take(i);
            match last_dot(head) {
                None => NameTail { last: name.skip(i + 1), second_last: Some(head), parts: 2 },
                Some(j) => NameTail {
                    last: name.skip(i + 1),
                    second_last: Some(head.skip(j + 1)),
                    parts: 3,
                },
            }
        },
    }
}

/// `last_dot` finds a dot, no dot follows the one it finds, and it finds
/// none only where there is none.
pub proof fn lemma_last_dot(name: Seq<char>)
    ensures
        match last_dot(name) {
            Some(i) => {
                &&& 0 <= i < name.len()
                &&& name[i] == '.'
                &&& forall|k: int| i < k < name.len() ==> name[k] != '.'
            },
            None => forall|k: int| 0 <= k < name.len() ==> name[k] != '.',
        },
    decreases name.len(),
{
    if name.len() > 0 && name.last() != '.' {
        let front = name.drop_last();
        lemma_last_dot(front);
        assert forall|k: int| 0 <= k < front.len() implies front[k] == name[k] by {}
        match last_dot(front) {
            Some(i) => {
                assert forall|k: int| i < k < name.len() implies name[k] != '.' by {
                    if k < front.len() {
                        assert(front[k] != '.');
                    }
                }
            },
            None => {
                assert forall|k: int| 0 <= k < name.len() implies name[k] != '.' by {
                    if k < front.len() {
                        assert(front[k] != '.');
                    }
                }
            },
        }
    }
}

/// A dot that no dot follows is the one that `last_dot` finds.
pub proof fn lemma_last_dot_at(name: Seq<char>, i: int)
    requires
        0 <= i < name.len(),
        name[i] == '.',
        forall|k: int| i < k < name.len() ==> name[k] != '.',
    ensures
        last_dot(name) == Some(i),
{
    lemma_last_dot(name);
}

/// A name without a dot has no last dot.
pub proof fn lemma_last_dot_none(name: Seq<char>)
    requires
        forall|k: int| 0 <= k < name.len() ==> name[k] != '.',
    ensures
        last_dot(name) is None,
{
    lemma_last_dot(name);
}

/// Finds the last dot among the first `end` characters of `name`.
pub fn find_last_dot(name: &Vec<char>, end: usize) -> (cut: Option<usize>)
    requires
        end <= name.len(),
    ensures
        match cut {
            Some(i) => i < end && last_dot(name@.take(end as int)) == Some(i as int),
            None => last_dot(name@.take(end as int)) is None,
        },
{
    let mut k: usize = end;
    while k > 0
        invariant
            k <= end <= name.len(),
            last_dot(name@.take(end as int)) == last_dot(name@.take(k as int)),
        decreases k,
    {
        let ghost front = name@.take(k as int);
        assert(front.last() == name@[k - 1]);
        if name[k - 1] == '.' {
            return Some(k - 1);
        }
        assert(front.drop_last() =~= name@.take(k - 1));
        k = k - 1;
    }
    None
}

/// Whether `word` holds no dot.
pub open spec fn dotless(word: Seq<char>) -> bool {
    forall|k: int| 0 <= k < word.len() ==> word[k] != '.'
}

/// `stem` with a dot and `word` behind it.
pub open spec fn with_suffix(stem: Seq<char>, word: Seq<char>) -> Seq<char> {
    stem + seq!['.'] + word
}

/// A name that ends in a dot and a dotless word is cut in front of that
/// word; the part before it is the last part of what stands in front of the
/// dot, and the name has one part more than that, up to three.
pub proof fn lemma_tail_with_suffix(stem: Seq<char>, word: Seq<char>)
    requires
        dotless(word),
    ensures
        name_tail(with_suffix(stem, word)).last == word,
        name_tail(with_suffix(stem, word)).second_last == Some(name_tail(stem).last),
        name_tail(with_suffix(stem, word)).parts == if name_tail(stem).parts == 1 {
            2nat
        } else {
            3nat
        },
{
    let name = with_suffix(stem, word);
    let cut = stem.len() as int;
    assert(name[cut] == '.');
    assert forall|k: int| cut < k < name.len() implies name[k] != '.' by {
        assert(name[k] == word[k - cut - 1]);
    }
    lemma_last_dot_at(name, cut);
    assert(name.take(cut) =~= stem);
    assert(name.skip(cut + 1) =~= word);
}

/// A name with a dot is its last part behind what precedes that dot.
pub proof fn lemma_cut_at_last_dot(name: Seq<char>)
    requires
        last_dot(name) is Some,
    ensures
        name == with_suffix(name.take(last_dot(name)->0), name_tail(name).last),
        dotless(name_tail(name).last),
        name_tail(name).second_last == Some(name_tail(name.take(last_dot(name)->0)).last),
        name_tail(name).parts == name_tail(name.take(last_dot(name)->0)).parts + 1
            || name_tail(name).parts == 3,
        name_tail(name).parts >= 2,
{
    lemma_last_dot(name);
    let cut = last_dot(name)->0;
    let last = name.skip(cut + 1);
    assert(name =~= with_suffix(name.take(cut), last));
    assert forall|k: int| 0 <= k < last.len() implies last[k] != '.' by {
        assert(last[k] == name[cut + 1 + k]);
    }
}

} // verus!
