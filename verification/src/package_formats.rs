//! The supported package formats and how they are told apart.

use crate::suffixes::{
    dotless, find_last_dot, last_dot, lemma_cut_at_last_dot, lemma_tail_with_suffix, name_tail,
    with_suffix,
};
use vstd::std_specs::convert::FromSpec;
use vstd::prelude::*;
use vstd::string::StrSliceExecFns;

verus! {

/// The tar-compatible package formats.
#[derive(Debug, Copy, Clone, PartialEq, Eq, Structural)]
pub enum TarBasedFmt {
    /// Download format is TAR (uncompressed)
    Tar,
    /// Download format is TAR + Bzip2
    Tbz2,
    /// Download format is TGZ (TAR + GZip)
    Tgz,
    /// Download format is TAR + XZ
    Txz,
    /// Download format is TAR + Zstd
    Tzstd,
}

/// A package format.
#[derive(Debug, Copy, Clone, PartialEq, Eq, Structural)]
pub enum PkgFmt {
    /// Download format is TAR (uncompressed)
    Tar,
    /// Download format is TAR + Bzip2
    Tbz2,
    /// Download format is TGZ (TAR + GZip)
    Tgz,
    /// Download format is TAR + XZ
    Txz,
    /// Download format is TAR + Zstd
    Tzstd,
    /// Download format is Zip
    Zip,
    /// Download format is raw / binary
    Bin,
    /// Download format is Bzip2 (a single compressed file, no archive)
    Bz2,
}

/// The shape of a package format: a tar archive under some compression, or
/// one of the three formats that are no tar archive.
#[derive(Debug, Copy, Clone, PartialEq, Eq, Structural)]
pub enum PkgFmtDecomposed {
    Tar(TarBasedFmt),
    Bin,
    Zip,
    Bz2,
}

impl PkgFmt {
    /// The shape of each format.
    pub open spec fn spec_decompose(self) -> PkgFmtDecomposed {
        match self {
            PkgFmt::Tar => PkgFmtDecomposed::Tar(TarBasedFmt::Tar),
            PkgFmt::Tbz2 => PkgFmtDecomposed::Tar(TarBasedFmt::Tbz2),
            PkgFmt::Tgz => PkgFmtDecomposed::Tar(TarBasedFmt::Tgz),
            PkgFmt::Txz => PkgFmtDecomposed::Tar(TarBasedFmt::Txz),
            PkgFmt::Tzstd => PkgFmtDecomposed::Tar(TarBasedFmt::Tzstd),
            PkgFmt::Bin => PkgFmtDecomposed::Bin,
            PkgFmt::Zip => PkgFmtDecomposed::Zip,
            PkgFmt::Bz2 => PkgFmtDecomposed::Bz2,
        }
    }

    /// Splits the format into its shape: the tar-based formats carry their
    /// compression, the others stand for themselves.
    pub fn decompose(self) -> (shape: PkgFmtDecomposed)
        ensures
            shape == self.spec_decompose(),
    {
        match self {
            PkgFmt::Tar => PkgFmtDecomposed::Tar(TarBasedFmt::Tar),
            PkgFmt::Tbz2 => PkgFmtDecomposed::Tar(TarBasedFmt::Tbz2),
            PkgFmt::Tgz => PkgFmtDecomposed::Tar(TarBasedFmt::Tgz),
            PkgFmt::Txz => PkgFmtDecomposed::Tar(TarBasedFmt::Txz),
            PkgFmt::Tzstd => PkgFmtDecomposed::Tar(TarBasedFmt::Tzstd),
            PkgFmt::Bin => PkgFmtDecomposed::Bin,
            PkgFmt::Zip => PkgFmtDecomposed::Zip,
            PkgFmt::Bz2 => PkgFmtDecomposed::Bz2,
        }
    }
}

impl Default for PkgFmt {
    /// The format assumed where none is named: a gzip-compressed tar archive.
    fn default() -> (fmt: Self)
        ensures
            fmt == PkgFmt::Tgz,
    {
        PkgFmt::Tgz
    }
}

impl From<TarBasedFmt> for PkgFmt {
    /// Every tar-based format is a package format of the same name.
    fn from(fmt: TarBasedFmt) -> (wide: Self) {
        match fmt {
            TarBasedFmt::Tar => PkgFmt::Tar,
            TarBasedFmt::Tbz2 => PkgFmt::Tbz2,
            TarBasedFmt::Tgz => PkgFmt::Tgz,
            TarBasedFmt::Txz => PkgFmt::Txz,
            TarBasedFmt::Tzstd => PkgFmt::Tzstd,
        }
    }
}

impl vstd::std_specs::convert::FromSpecImpl<TarBasedFmt> for PkgFmt {
    open spec fn obeys_from_spec() -> bool {
        true
    }

    open spec fn from_spec(fmt: TarBasedFmt) -> Self {
        match fmt {
            TarBasedFmt::Tar => PkgFmt::Tar,
            TarBasedFmt::Tbz2 => PkgFmt::Tbz2,
            TarBasedFmt::Tgz => PkgFmt::Tgz,
            TarBasedFmt::Txz => PkgFmt::Txz,
            TarBasedFmt::Tzstd => PkgFmt::Tzstd,
        }
    }
}

impl PkgFmt {
    /// The file extensions by which the format is known, each with its
    /// leading dot, the preferred one first. A raw binary may also carry no
    /// extension at all, which the empty string stands for, or `.exe` where
    /// the target is Windows.
    pub open spec fn spec_extensions(self, is_windows: bool) -> Seq<Seq<char>> {
        match self {
            PkgFmt::Tar => seq![".tar"@],
            PkgFmt::Tbz2 => seq![".tbz2"@, ".tar.bz2"@],
            PkgFmt::Tgz => seq![".tgz"@, ".tar.gz"@],
            PkgFmt::Txz => seq![".txz"@, ".tar.xz"@],
            PkgFmt::Tzstd => seq![".tzstd"@, ".tzst"@, ".tar.zst"@],
            PkgFmt::Bin => if is_windows {
                seq![".bin"@, ""@, ".exe"@]
            } else {
                seq![".bin"@, ""@]
            },
            PkgFmt::Zip => seq![".zip"@],
            PkgFmt::Bz2 => seq![".bz2"@],
        }
    }

    /// List of possible file extensions for the format (with prefix `.`).
    ///
    /// * `is_windows` - if true and `self == PkgFmt::Bin`, then `.exe` is
    ///   listed after the other extensions of a raw binary.
    pub fn extensions(self, is_windows: bool) -> (exts: &'static [&'static str])
        ensures
            exts@.len() == self.spec_extensions(is_windows).len(),
            forall|i: int|
                0 <= i < exts@.len() ==> (#[trigger] exts@[i])@ == self.spec_extensions(
                    is_windows,
                )[i],
    {
        match self {
            PkgFmt::Tar => &[".tar"],
            PkgFmt::Tbz2 => &[".tbz2", ".tar.bz2"],
            PkgFmt::Tgz => &[".tgz", ".tar.gz"],
            PkgFmt::Txz => &[".txz", ".tar.xz"],
            PkgFmt::Tzstd => &[".tzstd", ".tzst", ".tar.zst"],
            PkgFmt::Bin => {
                if is_windows {
                    &[".bin", "", ".exe"]
                } else {
                    &[".bin", ""]
                }
            },
            PkgFmt::Zip => &[".zip"],
            PkgFmt::Bz2 => &[".bz2"],
        }
    }
}

/// What the end of a name says of its format.
pub struct SuffixMatch {
    /// The format that the suffix names.
    pub fmt: PkgFmt,
    /// Whether the suffix is made of two parts, `tar` and a compression, as
    /// in `.tar.gz`, and not of one, as in `.tgz`.
    pub compound: bool,
}

impl SuffixMatch {
    /// How many parts of the name make up the suffix.
    pub open spec fn parts(self) -> nat {
        if self.compound {
            2
        } else {
            1
        }
    }
}

/// The format that the last part of a name stands for, read together with
/// the part before it.
///
/// `tar`, `tbz2`, `tgz`, `txz`, `tzstd`, `tzst`, `exe`, `bin` and `zip` name a
/// format by themselves. `gz`, `xz` and `zst` do so only behind `tar`. `bz2`
/// behind `tar` is a compressed archive, and a compressed single file
/// otherwise.
pub open spec fn suffix_match(last: Seq<char>, second_last: Option<Seq<char>>) -> Option<
    SuffixMatch,
> {
    let after_tar = second_last == Some("tar"@);
    if last == "tar"@ {
        Some(SuffixMatch { fmt: PkgFmt::Tar, compound: false })
    } else if last == "tbz2"@ {
        Some(SuffixMatch { fmt: PkgFmt::Tbz2, compound: false })
    } else if last == "bz2"@ {
        if after_tar {
            Some(SuffixMatch { fmt: PkgFmt::Tbz2, compound: true })
        } else {
            Some(SuffixMatch { fmt: PkgFmt::Bz2, compound: false })
        }
    } else if last == "tgz"@ {
        Some(SuffixMatch { fmt: PkgFmt::Tgz, compound: false })
    } else if last == "gz"@ && after_tar {
        Some(SuffixMatch { fmt: PkgFmt::Tgz, compound: true })
    } else if last == "txz"@ {
        Some(SuffixMatch { fmt: PkgFmt::Txz, compound: false })
    } else if last == "xz"@ && after_tar {
        Some(SuffixMatch { fmt: PkgFmt::Txz, compound: true })
    } else if last == "tzstd"@ || last == "tzst"@ {
        Some(SuffixMatch { fmt: PkgFmt::Tzstd, compound: false })
    } else if last == "zst"@ && after_tar {
        Some(SuffixMatch { fmt: PkgFmt::Tzstd, compound: true })
    } else if last == "exe"@ || last == "bin"@ {
        Some(SuffixMatch { fmt: PkgFmt::Bin, compound: false })
    } else if last == "zip"@ {
        Some(SuffixMatch { fmt: PkgFmt::Zip, compound: false })
    } else {
        None
    }
}

/// The format that a name or URL points to.
///
/// The name is cut at its last two dots and its suffix is looked up. The
/// format found counts only where the name has more parts than the suffix
/// takes up: one part must be left in front of `.zip` or `.tgz`, and one in
/// front of the `.tar` of `.tar.gz`.
pub open spec fn spec_guess_pkg_format(pkg_url: Seq<char>) -> Option<PkgFmt> {
    let tail = name_tail(pkg_url);
    match suffix_match(tail.last, tail.second_last) {
        Some(found) => if found.parts() < tail.parts {
            Some(found.fmt)
        } else {
            None
        },
        None => None,
    }
}

/// The characters of `s`, in order.
fn chars_of(s: &str) -> (chars: Vec<char>)
    ensures
        chars@ == s@,
{
    broadcast use vstd::string::group_string_axioms;

    let mut chars: Vec<char> = Vec::new();
    for c in it: s.chars()
        invariant
            it.seq() == s@,
            chars@ == s@.take(it.index() as int),
    {
        chars.push(c);
    }
    chars
}

/// Whether the characters of `name` from `from` up to `to` spell `word`.
fn spells(name: &Vec<char>, from: usize, to: usize, word: &str) -> (same: bool)
    requires
        from <= to <= name.len(),
    ensures
        same == (name@.subrange(from as int, to as int) == word@),
{
    let ghost part = name@.subrange(from as int, to as int);
    let len = word.unicode_len();
    if to - from != len {
        return false;
    }
    let mut k: usize = 0;
    while k < len
        invariant
            from <= to <= name.len(),
            len == to - from,
            len == word@.len(),
            k <= len,
            part == name@.subrange(from as int, to as int),
            forall|j: int| 0 <= j < k ==> part[j] == word@[j],
        decreases len - k,
    {
        if name[from + k] != word.get_char(k) {
            assert(part[k as int] != word@[k as int]);
            return false;
        }
        k = k + 1;
    }
    assert(part =~= word@);
    true
}

/// Looks up the suffix of `name`, whose last part starts at `last_from` and
/// whose part before that, if there is one, lies between the two positions
/// of `second`.
fn match_suffix(name: &Vec<char>, last_from: usize, second: Option<(usize, usize)>) -> (found:
    Option<SuffixMatch>)
    requires
        last_from <= name.len(),
        second matches Some(span) ==> span.0 <= span.1 <= name.len(),
    ensures
        found == suffix_match(
            name@.subrange(last_from as int, name.len() as int),
            match second {
                Some(span) => Some(name@.subrange(span.0 as int, span.1 as int)),
                None => None,
            },
        ),
{
    let end = name.len();
    let after_tar = match second {
        Some(span) => spells(name, span.0, span.1, "tar"),
        None => false,
    };
    if spells(name, last_from, end, "tar") {
        Some(SuffixMatch { fmt: PkgFmt::Tar, compound: false })
    } else if spells(name, last_from, end, "tbz2") {
        Some(SuffixMatch { fmt: PkgFmt::Tbz2, compound: false })
    } else if spells(name, last_from, end, "bz2") {
        if after_tar {
            Some(SuffixMatch { fmt: PkgFmt::Tbz2, compound: true })
        } else {
            Some(SuffixMatch { fmt: PkgFmt::Bz2, compound: false })
        }
    } else if spells(name, last_from, end, "tgz") {
        Some(SuffixMatch { fmt: PkgFmt::Tgz, compound: false })
    } else if after_tar && spells(name, last_from, end, "gz") {
        Some(SuffixMatch { fmt: PkgFmt::Tgz, compound: true })
    } else if spells(name, last_from, end, "txz") {
        Some(SuffixMatch { fmt: PkgFmt::Txz, compound: false })
    } else if after_tar && spells(name, last_from, end, "xz") {
        Some(SuffixMatch { fmt: PkgFmt::Txz, compound: true })
    } else if spells(name, last_from, end, "tzstd") || spells(name, last_from, end, "tzst") {
        Some(SuffixMatch { fmt: PkgFmt::Tzstd, compound: false })
    } else if after_tar && spells(name, last_from, end, "zst") {
        Some(SuffixMatch { fmt: PkgFmt::Tzstd, compound: true })
    } else if spells(name, last_from, end, "exe") || spells(name, last_from, end, "bin") {
        Some(SuffixMatch { fmt: PkgFmt::Bin, compound: false })
    } else if spells(name, last_from, end, "zip") {
        Some(SuffixMatch { fmt: PkgFmt::Zip, compound: false })
    } else {
        None
    }
}

impl PkgFmt {
    /// Given the pkg-url template, guess the possible pkg-fmt.
    ///
    /// Only the end of `pkg_url` is read: what follows its last dot and, for
    /// the two-part suffixes, what stands between the last two dots. `None`
    /// is returned where the suffix names no format, and where nothing stands
    /// in front of the suffix.
    pub fn guess_pkg_format(pkg_url: &str) -> (guess: Option<Self>)
        ensures
            guess == spec_guess_pkg_format(pkg_url@),
    {
        let name = chars_of(pkg_url);
        let end = name.len();
        let ghost whole = name@;
        assert(whole.take(end as int) =~= whole);
        let (found, parts): (Option<SuffixMatch>, u8) = match find_last_dot(&name, end) {
            None => {
                assert(whole.subrange(0, end as int) =~= whole);
                (match_suffix(&name, 0, None), 1)
            },
            Some(dot) => {
                let ghost head = whole.take(dot as int);
                assert(whole.subrange(dot + 1, end as int) =~= whole.skip(dot + 1));
                match find_last_dot(&name, dot) {
                    None => {
                        assert(whole.subrange(0, dot as int) =~= head);
                        (match_suffix(&name, dot + 1, Some((0, dot))), 2)
                    },
                    Some(before) => {
                        assert(whole.subrange(before + 1, dot as int) =~= head.skip(before + 1));
                        (match_suffix(&name, dot + 1, Some((before + 1, dot))), 3)
                    },
                }
            },
        };
        match found {
            Some(found) => {
                let needed: u8 = if found.compound {
                    2
                } else {
                    1
                };
                if needed < parts {
                    Some(found.fmt)
                } else {
                    None
                }
            },
            None => None,
        }
    }
}

/// Every tar-based format is the shape of the package format it becomes.
pub proof fn lemma_decompose_undoes_from(fmt: TarBasedFmt)
    ensures
        PkgFmt::from_spec(fmt).spec_decompose() == PkgFmtDecomposed::Tar(fmt),
{
}

/// Different tar-based formats become different package formats.
pub proof fn lemma_from_is_injective(a: TarBasedFmt, b: TarBasedFmt)
    requires
        PkgFmt::from_spec(a) == PkgFmt::from_spec(b),
    ensures
        a == b,
{
}

/// The shapes part the formats: no two formats have the same shape, and a
/// format has the shape of a tar archive exactly if it comes from a
/// tar-based format.
pub proof fn lemma_decompose_parts_the_formats(a: PkgFmt, b: PkgFmt)
    ensures
        a.spec_decompose() == b.spec_decompose() ==> a == b,
        a.spec_decompose() is Tar <==> exists|fmt: TarBasedFmt| a == PkgFmt::from_spec(fmt),
{
    if let PkgFmtDecomposed::Tar(fmt) = a.spec_decompose() {
        assert(a == PkgFmt::from_spec(fmt));
    }
}

/// The words that suffixes are made of, letter by letter.
pub proof fn lemma_suffix_words()
    ensures
        "tar"@ == seq!['t', 'a', 'r'],
        "tbz2"@ == seq!['t', 'b', 'z', '2'],
        "bz2"@ == seq!['b', 'z', '2'],
        "tgz"@ == seq!['t', 'g', 'z'],
        "gz"@ == seq!['g', 'z'],
        "txz"@ == seq!['t', 'x', 'z'],
        "xz"@ == seq!['x', 'z'],
        "tzstd"@ == seq!['t', 'z', 's', 't', 'd'],
        "tzst"@ == seq!['t', 'z', 's', 't'],
        "zst"@ == seq!['z', 's', 't'],
        "exe"@ == seq!['e', 'x', 'e'],
        "bin"@ == seq!['b', 'i', 'n'],
        "zip"@ == seq!['z', 'i', 'p'],
{
    reveal_strlit("tar");
    reveal_strlit("tbz2");
    reveal_strlit("bz2");
    reveal_strlit("tgz");
    reveal_strlit("gz");
    reveal_strlit("txz");
    reveal_strlit("xz");
    reveal_strlit("tzstd");
    reveal_strlit("tzst");
    reveal_strlit("zst");
    reveal_strlit("exe");
    reveal_strlit("bin");
    reveal_strlit("zip");
    assert("tar"@ =~= seq!['t', 'a', 'r']);
    assert("tbz2"@ =~= seq!['t', 'b', 'z', '2']);
    assert("bz2"@ =~= seq!['b', 'z', '2']);
    assert("tgz"@ =~= seq!['t', 'g', 'z']);
    assert("gz"@ =~= seq!['g', 'z']);
    assert("txz"@ =~= seq!['t', 'x', 'z']);
    assert("xz"@ =~= seq!['x', 'z']);
    assert("tzstd"@ =~= seq!['t', 'z', 's', 't', 'd']);
    assert("tzst"@ =~= seq!['t', 'z', 's', 't']);
    assert("zst"@ =~= seq!['z', 's', 't']);
    assert("exe"@ =~= seq!['e', 'x', 'e']);
    assert("bin"@ =~= seq!['b', 'i', 'n']);
    assert("zip"@ =~= seq!['z', 'i', 'p']);
}

/// What each word stands for at the end of a name, whatever precedes it
/// or, for the compressions, behind `tar` only.
pub proof fn lemma_suffix_table(second_last: Option<Seq<char>>)
    ensures
        suffix_match("tar"@, second_last) == Some(SuffixMatch { fmt: PkgFmt::Tar, compound: false }),
        suffix_match("tbz2"@, second_last) == Some(
            SuffixMatch { fmt: PkgFmt::Tbz2, compound: false },
        ),
        suffix_match("tgz"@, second_last) == Some(SuffixMatch { fmt: PkgFmt::Tgz, compound: false }),
        suffix_match("txz"@, second_last) == Some(SuffixMatch { fmt: PkgFmt::Txz, compound: false }),
        suffix_match("tzstd"@, second_last) == Some(
            SuffixMatch { fmt: PkgFmt::Tzstd, compound: false },
        ),
        suffix_match("tzst"@, second_last) == Some(
            SuffixMatch { fmt: PkgFmt::Tzstd, compound: false },
        ),
        suffix_match("exe"@, second_last) == Some(SuffixMatch { fmt: PkgFmt::Bin, compound: false }),
        suffix_match("bin"@, second_last) == Some(SuffixMatch { fmt: PkgFmt::Bin, compound: false }),
        suffix_match("zip"@, second_last) == Some(SuffixMatch { fmt: PkgFmt::Zip, compound: false }),
        suffix_match("bz2"@, second_last) == if second_last == Some("tar"@) {
            Some(SuffixMatch { fmt: PkgFmt::Tbz2, compound: true })
        } else {
            Some(SuffixMatch { fmt: PkgFmt::Bz2, compound: false })
        },
        suffix_match("gz"@, second_last) == if second_last == Some("tar"@) {
            Some(SuffixMatch { fmt: PkgFmt::Tgz, compound: true })
        } else {
            None
        },
        suffix_match("xz"@, second_last) == if second_last == Some("tar"@) {
            Some(SuffixMatch { fmt: PkgFmt::Txz, compound: true })
        } else {
            None
        },
        suffix_match("zst"@, second_last) == if second_last == Some("tar"@) {
            Some(SuffixMatch { fmt: PkgFmt::Tzstd, compound: true })
        } else {
            None
        },
{
    lemma_suffix_words();
    let tar = "tar"@;
    let tbz2 = "tbz2"@;
    let bz2 = "bz2"@;
    let tgz = "tgz"@;
    let gz = "gz"@;
    let txz = "txz"@;
    let xz = "xz"@;
    let tzstd = "tzstd"@;
    let tzst = "tzst"@;
    let zst = "zst"@;
    let exe = "exe"@;
    let bin = "bin"@;
    let zip = "zip"@;
    assert(tar[0] == 't' && tar[1] == 'a');
    assert(tbz2[0] == 't');
    assert(bz2[0] == 'b' && bz2[1] == 'z');
    assert(tgz[0] == 't' && tgz[1] == 'g');
    assert(gz[0] == 'g');
    assert(txz[0] == 't' && txz[1] == 'x');
    assert(xz[0] == 'x');
    assert(tzstd[0] == 't');
    assert(tzst[0] == 't');
    assert(zst[0] == 'z' && zst[1] == 's');
    assert(exe[0] == 'e');
    assert(bin[0] == 'b' && bin[1] == 'i');
    assert(zip[0] == 'z' && zip[1] == 'i');
}

/// The extensions, each as the words it is made of.
pub proof fn lemma_extension_words()
    ensures
        ".tar"@ == with_suffix(Seq::empty(), "tar"@),
        ".tbz2"@ == with_suffix(Seq::empty(), "tbz2"@),
        ".tgz"@ == with_suffix(Seq::empty(), "tgz"@),
        ".txz"@ == with_suffix(Seq::empty(), "txz"@),
        ".tzstd"@ == with_suffix(Seq::empty(), "tzstd"@),
        ".tzst"@ == with_suffix(Seq::empty(), "tzst"@),
        ".bin"@ == with_suffix(Seq::empty(), "bin"@),
        ".exe"@ == with_suffix(Seq::empty(), "exe"@),
        ".zip"@ == with_suffix(Seq::empty(), "zip"@),
        ".bz2"@ == with_suffix(Seq::empty(), "bz2"@),
        ".tar.bz2"@ == with_suffix(with_suffix(Seq::empty(), "tar"@), "bz2"@),
        ".tar.gz"@ == with_suffix(with_suffix(Seq::empty(), "tar"@), "gz"@),
        ".tar.xz"@ == with_suffix(with_suffix(Seq::empty(), "tar"@), "xz"@),
        ".tar.zst"@ == with_suffix(with_suffix(Seq::empty(), "tar"@), "zst"@),
        ""@ == Seq::<char>::empty(),
{
    lemma_suffix_words();
    reveal_strlit(".tar");
    reveal_strlit(".tbz2");
    reveal_strlit(".tgz");
    reveal_strlit(".txz");
    reveal_strlit(".tzstd");
    reveal_strlit(".tzst");
    reveal_strlit(".bin");
    reveal_strlit(".exe");
    reveal_strlit(".zip");
    reveal_strlit(".bz2");
    reveal_strlit(".tar.bz2");
    reveal_strlit(".tar.gz");
    reveal_strlit(".tar.xz");
    reveal_strlit(".tar.zst");
    reveal_strlit("");
    assert(".tar"@ =~= with_suffix(Seq::empty(), "tar"@));
    assert(".tbz2"@ =~= with_suffix(Seq::empty(), "tbz2"@));
    assert(".tgz"@ =~= with_suffix(Seq::empty(), "tgz"@));
    assert(".txz"@ =~= with_suffix(Seq::empty(), "txz"@));
    assert(".tzstd"@ =~= with_suffix(Seq::empty(), "tzstd"@));
    assert(".tzst"@ =~= with_suffix(Seq::empty(), "tzst"@));
    assert(".bin"@ =~= with_suffix(Seq::empty(), "bin"@));
    assert(".exe"@ =~= with_suffix(Seq::empty(), "exe"@));
    assert(".zip"@ =~= with_suffix(Seq::empty(), "zip"@));
    assert(".bz2"@ =~= with_suffix(Seq::empty(), "bz2"@));
    assert(".tar.bz2"@ =~= with_suffix(with_suffix(Seq::empty(), "tar"@), "bz2"@));
    assert(".tar.gz"@ =~= with_suffix(with_suffix(Seq::empty(), "tar"@), "gz"@));
    assert(".tar.xz"@ =~= with_suffix(with_suffix(Seq::empty(), "tar"@), "xz"@));
    assert(".tar.zst"@ =~= with_suffix(with_suffix(Seq::empty(), "tar"@), "zst"@));
    assert(""@ =~= Seq::<char>::empty());
}

/// A name that ends in a dot and a word which by itself stands for a format
/// is of that format.
proof fn lemma_guess_single(stem: Seq<char>, word: Seq<char>, fmt: PkgFmt)
    requires
        dotless(word),
        suffix_match(word, Some(name_tail(stem).last)) == Some(
            SuffixMatch { fmt, compound: false },
        ),
    ensures
        spec_guess_pkg_format(stem + with_suffix(Seq::empty(), word)) == Some(fmt),
{
    lemma_tail_with_suffix(stem, word);
    assert(stem + with_suffix(Seq::empty(), word) =~= with_suffix(stem, word));
}

/// A name that ends in `.tar`, a dot and a word which behind `tar` stands
/// for a format is of that format.
proof fn lemma_guess_compound(stem: Seq<char>, word: Seq<char>, fmt: PkgFmt)
    requires
        dotless(word),
        suffix_match(word, Some("tar"@)) == Some(SuffixMatch { fmt, compound: true }),
    ensures
        spec_guess_pkg_format(stem + with_suffix(with_suffix(Seq::empty(), "tar"@), word)) == Some(
            fmt,
        ),
{
    lemma_suffix_words();
    let tar = "tar"@;
    assert(dotless(tar));
    lemma_tail_with_suffix(stem, tar);
    lemma_tail_with_suffix(with_suffix(stem, tar), word);
    assert(stem + with_suffix(with_suffix(Seq::empty(), tar), word) =~= with_suffix(
        with_suffix(stem, tar),
        word,
    ));
}

/// Whether `name` is `stem` followed by the extension of `fmt` that has the
/// number `k`, and that extension is not the empty one.
pub open spec fn ends_in_extension(name: Seq<char>, fmt: PkgFmt, k: int, stem: Seq<char>) -> bool {
    &&& 0 <= k < fmt.spec_extensions(true).len()
    &&& fmt.spec_extensions(true)[k].len() > 0
    &&& name == stem + fmt.spec_extensions(true)[k]
}

/// A name that ends in an extension of a format is guessed to be of that
/// format, whatever stands in front of the extension.
///
/// The empty extension of a raw binary is left out: a name without a suffix
/// says nothing. So is `.bz2` where the name ends in `.tar.bz2`, which is a
/// compressed archive, or is `tar.bz2` and no more.
pub proof fn lemma_guess_finds_extension(fmt: PkgFmt, is_windows: bool, k: int, stem: Seq<char>)
    requires
        0 <= k < fmt.spec_extensions(is_windows).len(),
        fmt.spec_extensions(is_windows)[k].len() > 0,
        fmt == PkgFmt::Bz2 ==> name_tail(stem).last != "tar"@,
    ensures
        spec_guess_pkg_format(stem + fmt.spec_extensions(is_windows)[k]) == Some(fmt),
{
    lemma_suffix_words();
    lemma_extension_words();
    lemma_suffix_table(Some(name_tail(stem).last));
    lemma_suffix_table(Some("tar"@));
    let ext = fmt.spec_extensions(is_windows)[k];
    match fmt {
        PkgFmt::Tar => {
            lemma_guess_single(stem, "tar"@, fmt);
        },
        PkgFmt::Tbz2 => {
            if k == 0 {
                lemma_guess_single(stem, "tbz2"@, fmt);
            } else {
                lemma_guess_compound(stem, "bz2"@, fmt);
            }
        },
        PkgFmt::Tgz => {
            if k == 0 {
                lemma_guess_single(stem, "tgz"@, fmt);
            } else {
                lemma_guess_compound(stem, "gz"@, fmt);
            }
        },
        PkgFmt::Txz => {
            if k == 0 {
                lemma_guess_single(stem, "txz"@, fmt);
            } else {
                lemma_guess_compound(stem, "xz"@, fmt);
            }
        },
        PkgFmt::Tzstd => {
            if k == 0 {
                lemma_guess_single(stem, "tzstd"@, fmt);
            } else if k == 1 {
                lemma_guess_single(stem, "tzst"@, fmt);
            } else {
                lemma_guess_compound(stem, "zst"@, fmt);
            }
        },
        PkgFmt::Bin => {
            if k == 0 {
                lemma_guess_single(stem, "bin"@, fmt);
            } else {
                lemma_guess_single(stem, "exe"@, fmt);
            }
        },
        PkgFmt::Zip => {
            lemma_guess_single(stem, "zip"@, fmt);
        },
        PkgFmt::Bz2 => {
            lemma_guess_single(stem, "bz2"@, fmt);
        },
    }
}

/// A format is guessed only for a name that ends in one of its extensions.
pub proof fn lemma_guess_names_an_extension(name: Seq<char>)
    ensures
        spec_guess_pkg_format(name) matches Some(fmt) ==> exists|k: int, stem: Seq<char>|
            ends_in_extension(name, fmt, k, stem),
{
    if let Some(fmt) = spec_guess_pkg_format(name) {
        lemma_suffix_words();
        lemma_extension_words();
        let tail = name_tail(name);
        let found = suffix_match(tail.last, tail.second_last)->0;
        assert(tail.parts >= 2);
        assert(last_dot(name) is Some);
        lemma_cut_at_last_dot(name);
        let head = name.take(last_dot(name)->0);
        if found.compound {
            assert(tail.parts == 3);
            assert(tail.second_last == Some("tar"@));
            assert(last_dot(head) is Some);
            lemma_cut_at_last_dot(head);
            let stem = head.take(last_dot(head)->0);
            let ext = with_suffix(with_suffix(Seq::empty(), "tar"@), tail.last);
            assert(name =~= stem + ext);
            let k = if fmt == PkgFmt::Tzstd {
                2int
            } else {
                1int
            };
            assert(ends_in_extension(name, fmt, k, stem));
        } else {
            let ext = with_suffix(Seq::empty(), tail.last);
            assert(name =~= head + ext);
            let k = if tail.last == "tzst"@ {
                1int
            } else if tail.last == "exe"@ {
                2int
            } else {
                0int
            };
            assert(ends_in_extension(name, fmt, k, head));
        }
    }
}

} // verus!
