use pkg_extract::package_formats::{PkgFmt, PkgFmtDecomposed, TarBasedFmt};

const ALL: [PkgFmt; 8] = [
    PkgFmt::Tar,
    PkgFmt::Tbz2,
    PkgFmt::Tgz,
    PkgFmt::Txz,
    PkgFmt::Tzstd,
    PkgFmt::Zip,
    PkgFmt::Bin,
    PkgFmt::Bz2,
];

const TAR_BASED: [TarBasedFmt; 5] = [
    TarBasedFmt::Tar,
    TarBasedFmt::Tbz2,
    TarBasedFmt::Tgz,
    TarBasedFmt::Txz,
    TarBasedFmt::Tzstd,
];

#[test]
fn default_is_tgz() {
    assert_eq!(PkgFmt::default(), PkgFmt::Tgz);
}

#[test]
fn decompose_every_variant() {
    assert_eq!(PkgFmt::Tar.decompose(), PkgFmtDecomposed::Tar(TarBasedFmt::Tar));
    assert_eq!(PkgFmt::Tbz2.decompose(), PkgFmtDecomposed::Tar(TarBasedFmt::Tbz2));
    assert_eq!(PkgFmt::Tgz.decompose(), PkgFmtDecomposed::Tar(TarBasedFmt::Tgz));
    assert_eq!(PkgFmt::Txz.decompose(), PkgFmtDecomposed::Tar(TarBasedFmt::Txz));
    assert_eq!(PkgFmt::Tzstd.decompose(), PkgFmtDecomposed::Tar(TarBasedFmt::Tzstd));
    assert_eq!(PkgFmt::Bin.decompose(), PkgFmtDecomposed::Bin);
    assert_eq!(PkgFmt::Zip.decompose(), PkgFmtDecomposed::Zip);
    assert_eq!(PkgFmt::Bz2.decompose(), PkgFmtDecomposed::Bz2);
}

#[test]
fn decompose_undoes_from() {
    for fmt in TAR_BASED {
        assert_eq!(PkgFmt::from(fmt).decompose(), PkgFmtDecomposed::Tar(fmt));
    }
}

#[test]
fn from_tar_based_keeps_the_name() {
    assert_eq!(PkgFmt::from(TarBasedFmt::Tar), PkgFmt::Tar);
    assert_eq!(PkgFmt::from(TarBasedFmt::Tbz2), PkgFmt::Tbz2);
    assert_eq!(PkgFmt::from(TarBasedFmt::Tgz), PkgFmt::Tgz);
    assert_eq!(PkgFmt::from(TarBasedFmt::Txz), PkgFmt::Txz);
    assert_eq!(PkgFmt::from(TarBasedFmt::Tzstd), PkgFmt::Tzstd);
}

#[test]
fn from_tar_based_is_injective() {
    for a in TAR_BASED {
        for b in TAR_BASED {
            assert_eq!(PkgFmt::from(a) == PkgFmt::from(b), a == b);
        }
    }
}

#[test]
fn extensions_of_every_variant() {
    for windows in [false, true] {
        assert_eq!(PkgFmt::Tar.extensions(windows), [".tar"]);
        assert_eq!(PkgFmt::Tbz2.extensions(windows), [".tbz2", ".tar.bz2"]);
        assert_eq!(PkgFmt::Tgz.extensions(windows), [".tgz", ".tar.gz"]);
        assert_eq!(PkgFmt::Txz.extensions(windows), [".txz", ".tar.xz"]);
        assert_eq!(PkgFmt::Tzstd.extensions(windows), [".tzstd", ".tzst", ".tar.zst"]);
        assert_eq!(PkgFmt::Zip.extensions(windows), [".zip"]);
        assert_eq!(PkgFmt::Bz2.extensions(windows), [".bz2"]);
    }
}

#[test]
fn extensions_of_bin_depend_on_the_target() {
    assert_eq!(PkgFmt::Bin.extensions(true), [".bin", "", ".exe"]);
    assert_eq!(PkgFmt::Bin.extensions(false), [".bin", ""]);
}

#[test]
fn extensions_are_never_empty_lists() {
    for fmt in ALL {
        assert!(!fmt.extensions(false).is_empty());
        assert!(!fmt.extensions(true).is_empty());
    }
}

#[test]
fn guess_tar_gz_behind_a_dotted_stem() {
    assert_eq!(PkgFmt::guess_pkg_format("pkg-1.0-x86_64.tar.gz"), Some(PkgFmt::Tgz));
}

#[test]
fn guess_tbz2() {
    assert_eq!(PkgFmt::guess_pkg_format("pkg.tbz2"), Some(PkgFmt::Tbz2));
}

#[test]
fn guess_plain_bz2() {
    assert_eq!(PkgFmt::guess_pkg_format("pkg.bz2"), Some(PkgFmt::Bz2));
}

#[test]
fn guess_tar_bz2() {
    assert_eq!(PkgFmt::guess_pkg_format("archive.tar.bz2"), Some(PkgFmt::Tbz2));
}

#[test]
fn guess_exe() {
    assert_eq!(PkgFmt::guess_pkg_format("tool.exe"), Some(PkgFmt::Bin));
}

#[test]
fn guess_without_extension() {
    assert_eq!(PkgFmt::guess_pkg_format("noextension"), None);
}

#[test]
fn guess_unknown_extension_behind_tar() {
    assert_eq!(PkgFmt::guess_pkg_format("name.tar.unknownext"), None);
}

#[test]
fn guess_bz2_three_ways() {
    assert_eq!(PkgFmt::guess_pkg_format("archive.tar.bz2"), Some(PkgFmt::Tbz2));
    assert_eq!(PkgFmt::guess_pkg_format("file.bz2"), Some(PkgFmt::Bz2));
    assert_eq!(PkgFmt::guess_pkg_format("name.tbz2"), Some(PkgFmt::Tbz2));
}

#[test]
fn guess_every_single_suffix() {
    assert_eq!(PkgFmt::guess_pkg_format("a.tar"), Some(PkgFmt::Tar));
    assert_eq!(PkgFmt::guess_pkg_format("a.tbz2"), Some(PkgFmt::Tbz2));
    assert_eq!(PkgFmt::guess_pkg_format("a.tgz"), Some(PkgFmt::Tgz));
    assert_eq!(PkgFmt::guess_pkg_format("a.txz"), Some(PkgFmt::Txz));
    assert_eq!(PkgFmt::guess_pkg_format("a.tzstd"), Some(PkgFmt::Tzstd));
    assert_eq!(PkgFmt::guess_pkg_format("a.tzst"), Some(PkgFmt::Tzstd));
    assert_eq!(PkgFmt::guess_pkg_format("a.exe"), Some(PkgFmt::Bin));
    assert_eq!(PkgFmt::guess_pkg_format("a.bin"), Some(PkgFmt::Bin));
    assert_eq!(PkgFmt::guess_pkg_format("a.zip"), Some(PkgFmt::Zip));
    assert_eq!(PkgFmt::guess_pkg_format("a.bz2"), Some(PkgFmt::Bz2));
}

#[test]
fn guess_every_compound_suffix() {
    assert_eq!(PkgFmt::guess_pkg_format("a.tar.bz2"), Some(PkgFmt::Tbz2));
    assert_eq!(PkgFmt::guess_pkg_format("a.tar.gz"), Some(PkgFmt::Tgz));
    assert_eq!(PkgFmt::guess_pkg_format("a.tar.xz"), Some(PkgFmt::Txz));
    assert_eq!(PkgFmt::guess_pkg_format("a.tar.zst"), Some(PkgFmt::Tzstd));
}

#[test]
fn guess_compression_without_tar_is_no_archive() {
    assert_eq!(PkgFmt::guess_pkg_format("a.gz"), None);
    assert_eq!(PkgFmt::guess_pkg_format("a.xz"), None);
    assert_eq!(PkgFmt::guess_pkg_format("a.zst"), None);
    assert_eq!(PkgFmt::guess_pkg_format("a.b.gz"), None);
    assert_eq!(PkgFmt::guess_pkg_format("a.tarx.gz"), None);
}

#[test]
fn guess_needs_something_in_front_of_the_suffix() {
    assert_eq!(PkgFmt::guess_pkg_format(""), None);
    assert_eq!(PkgFmt::guess_pkg_format("zip"), None);
    assert_eq!(PkgFmt::guess_pkg_format("tgz"), None);
    assert_eq!(PkgFmt::guess_pkg_format("bz2"), None);
    assert_eq!(PkgFmt::guess_pkg_format("tar.gz"), None);
    assert_eq!(PkgFmt::guess_pkg_format("tar.bz2"), None);
}

#[test]
fn guess_takes_an_empty_stem() {
    assert_eq!(PkgFmt::guess_pkg_format(".zip"), Some(PkgFmt::Zip));
    assert_eq!(PkgFmt::guess_pkg_format(".tar.gz"), Some(PkgFmt::Tgz));
}

#[test]
fn guess_reads_no_further_than_two_dots() {
    assert_eq!(PkgFmt::guess_pkg_format("tool-1.2.3.zip"), Some(PkgFmt::Zip));
    assert_eq!(PkgFmt::guess_pkg_format("a.tar.b.tar.xz"), Some(PkgFmt::Txz));
    assert_eq!(PkgFmt::guess_pkg_format("a.tar.tgz"), Some(PkgFmt::Tgz));
    assert_eq!(PkgFmt::guess_pkg_format("a.zip.txt"), None);
}

#[test]
fn guess_is_case_sensitive() {
    assert_eq!(PkgFmt::guess_pkg_format("a.ZIP"), None);
    assert_eq!(PkgFmt::guess_pkg_format("a.Tar.gz"), None);
}

#[test]
fn guess_of_a_url() {
    assert_eq!(
        PkgFmt::guess_pkg_format("https://example.com/dl/v1.0/tool-x86_64-linux.tar.zst"),
        Some(PkgFmt::Tzstd)
    );
    assert_eq!(PkgFmt::guess_pkg_format("https://example.com/dl/tool"), None);
}

#[test]
fn guess_with_characters_outside_ascii() {
    assert_eq!(PkgFmt::guess_pkg_format("werkzeug-\u{e4}\u{f6}.tar.gz"), Some(PkgFmt::Tgz));
    assert_eq!(PkgFmt::guess_pkg_format("a.z\u{ef}p"), None);
}

#[test]
fn guess_finds_every_extension_of_every_format() {
    for fmt in ALL {
        for ext in fmt.extensions(true) {
            if !ext.is_empty() {
                let name = format!("pkg-1.0{ext}");
                assert_eq!(PkgFmt::guess_pkg_format(&name), Some(fmt));
            }
        }
    }
}
