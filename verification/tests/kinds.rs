use compress_io::compress_type::{get_ctype, CompressThreads, CompressType, KIND_COUNT, MAGIC_LEN};

const ALL_KINDS: [CompressType; 10] = [
    CompressType::Gzip,
    CompressType::Bgzip,
    CompressType::Compress,
    CompressType::Bzip2,
    CompressType::Xz,
    CompressType::Lz4,
    CompressType::Lzma,
    CompressType::Zstd,
    CompressType::NoFilter,
    CompressType::Unknown,
];

#[test]
fn magic_of_compress() {
    assert_eq!(get_ctype(&[0x1f, 0x9d, 0x90, 0x00, 0x00, 0x00]), CompressType::Compress);
    assert_eq!(get_ctype(&[0x1f, 0x9d, 0xff, 0xff, 0xff, 0xff]), CompressType::Compress);
}

#[test]
fn magic_of_gzip() {
    assert_eq!(get_ctype(&[0x1f, 0x8b, 0x08, 0x00, 0x12, 0x34]), CompressType::Gzip);
    assert_eq!(get_ctype(&[0x1f, 0x8b, 0x08, 0x08, 0x00, 0x00]), CompressType::Gzip);
    assert_eq!(get_ctype(&[0x1f, 0x8b, 0x08, 0xfb, 0x00, 0x00]), CompressType::Gzip);
}

#[test]
fn magic_of_bgzip_is_gzip_with_the_extra_field_flag() {
    assert_eq!(get_ctype(&[0x1f, 0x8b, 0x08, 0x04, 0x00, 0x00]), CompressType::Bgzip);
    assert_eq!(get_ctype(&[0x1f, 0x8b, 0x08, 0xff, 0x00, 0x00]), CompressType::Bgzip);
}

#[test]
fn magic_of_bzip2() {
    assert_eq!(get_ctype(b"BZh91A"), CompressType::Bzip2);
    assert_eq!(get_ctype(b"BZh0xx"), CompressType::Bzip2);
    assert_eq!(get_ctype(b"BZh/xx"), CompressType::NoFilter);
    assert_eq!(get_ctype(b"BZh:xx"), CompressType::NoFilter);
    assert_eq!(get_ctype(b"BZH9xx"), CompressType::NoFilter);
}

#[test]
fn magic_of_xz() {
    assert_eq!(get_ctype(&[0xfd, 0x37, 0x7a, 0x58, 0x5a, 0x00]), CompressType::Xz);
    assert_eq!(get_ctype(&[0xfd, 0x37, 0x7a, 0x58, 0x5a, 0x01]), CompressType::NoFilter);
}

#[test]
fn magic_of_zstd() {
    assert_eq!(get_ctype(&[0x28, 0xb5, 0x2f, 0xfd, 0x00, 0x58]), CompressType::Zstd);
}

#[test]
fn magic_of_lz4() {
    assert_eq!(get_ctype(&[0x04, 0x22, 0x4d, 0x18, 0x64, 0x40]), CompressType::Lz4);
}

#[test]
fn magic_of_lzma() {
    assert_eq!(get_ctype(&[0x5d, 0x00, 0x00, 0x80, 0x00, 0xff]), CompressType::Lzma);
    assert_eq!(get_ctype(&[0x5d, 0x00, 0x01, 0x80, 0x00, 0xff]), CompressType::NoFilter);
}

#[test]
fn no_magic_means_no_filter() {
    assert_eq!(get_ctype(b"hello\n"), CompressType::NoFilter);
    assert_eq!(get_ctype(&[0, 0, 0, 0, 0, 0]), CompressType::NoFilter);
    assert_eq!(get_ctype(&[0x1f, 0x8b, 0x07, 0x00, 0x00, 0x00]), CompressType::NoFilter);
    assert_eq!(get_ctype(&[0x1f, 0x00, 0x00, 0x00, 0x00, 0x00]), CompressType::NoFilter);
}

#[test]
fn a_probe_of_another_length_means_no_filter() {
    assert_eq!(MAGIC_LEN, 6);
    assert_eq!(get_ctype(&[]), CompressType::NoFilter);
    assert_eq!(get_ctype(&[0x1f, 0x8b, 0x08]), CompressType::NoFilter);
    assert_eq!(get_ctype(&[0x1f, 0x8b, 0x08, 0x00, 0x00]), CompressType::NoFilter);
    assert_eq!(get_ctype(&[0x1f, 0x8b, 0x08, 0x00, 0x00, 0x00, 0x00]), CompressType::NoFilter);
}

#[test]
fn every_first_byte_is_told_apart() {
    for b in 0..=255u8 {
        let kind = get_ctype(&[b, 0x9d, 0x00, 0x00, 0x00, 0x00]);
        if b == 0x1f {
            assert_eq!(kind, CompressType::Compress);
        } else {
            assert_eq!(kind, CompressType::NoFilter);
        }
    }
}

#[test]
fn extension_tells_the_kind() {
    assert_eq!(CompressType::from_suffix("a.gz"), CompressType::Gzip);
    assert_eq!(CompressType::from_suffix("a.Z"), CompressType::Compress);
    assert_eq!(CompressType::from_suffix("a.bz2"), CompressType::Bzip2);
    assert_eq!(CompressType::from_suffix("a.xz"), CompressType::Xz);
    assert_eq!(CompressType::from_suffix("a.lz4"), CompressType::Lz4);
    assert_eq!(CompressType::from_suffix("a.lzma"), CompressType::Lzma);
    assert_eq!(CompressType::from_suffix("a.zst"), CompressType::Zstd);
    assert_eq!(CompressType::from_suffix("dir.d/sub/archive.tar.gz"), CompressType::Gzip);
    assert_eq!(CompressType::from_suffix("/abs/path/x.y.zst"), CompressType::Zstd);
}

#[test]
fn other_extensions_mean_no_filter() {
    assert_eq!(CompressType::from_suffix("a.txt"), CompressType::NoFilter);
    assert_eq!(CompressType::from_suffix("a"), CompressType::NoFilter);
    assert_eq!(CompressType::from_suffix(""), CompressType::NoFilter);
    assert_eq!(CompressType::from_suffix("a.GZ"), CompressType::NoFilter);
    assert_eq!(CompressType::from_suffix("a.z"), CompressType::NoFilter);
    assert_eq!(CompressType::from_suffix("a.gz.txt"), CompressType::NoFilter);
    assert_eq!(CompressType::from_suffix("a.gz/b"), CompressType::NoFilter);
    assert_eq!(CompressType::from_suffix("a."), CompressType::NoFilter);
}

#[test]
fn a_hidden_file_has_no_extension() {
    assert_eq!(CompressType::from_suffix(".gz"), CompressType::NoFilter);
    assert_eq!(CompressType::from_suffix("dir/.xz"), CompressType::NoFilter);
    assert_eq!(CompressType::from_suffix(".hidden.xz"), CompressType::Xz);
}

#[test]
fn from_suffix_agrees_with_the_extension_of_std() {
    for path in ["a.gz", "a", ".gz", "x/y.bz2", "x.y/z", "a.b.c.xz", "trailing.gz/", "..", "a..zst"] {
        let ext = std::path::Path::new(path).extension().and_then(|e| e.to_str());
        assert_eq!(CompressType::from_suffix(path), CompressType::from_extension(ext), "{}", path);
    }
}

#[test]
fn from_extension_knows_seven_extensions() {
    assert_eq!(CompressType::from_extension(Some("gz")), CompressType::Gzip);
    assert_eq!(CompressType::from_extension(Some("Z")), CompressType::Compress);
    assert_eq!(CompressType::from_extension(Some("bz2")), CompressType::Bzip2);
    assert_eq!(CompressType::from_extension(Some("xz")), CompressType::Xz);
    assert_eq!(CompressType::from_extension(Some("lz4")), CompressType::Lz4);
    assert_eq!(CompressType::from_extension(Some("lzma")), CompressType::Lzma);
    assert_eq!(CompressType::from_extension(Some("zst")), CompressType::Zstd);
    assert_eq!(CompressType::from_extension(Some("")), CompressType::NoFilter);
    assert_eq!(CompressType::from_extension(Some("gzip")), CompressType::NoFilter);
    assert_eq!(CompressType::from_extension(Some("a.gz")), CompressType::NoFilter);
    assert_eq!(CompressType::from_extension(None), CompressType::NoFilter);
}

#[test]
fn suffix_of_each_kind() {
    assert_eq!(CompressType::Gzip.suffix(), "gz");
    assert_eq!(CompressType::Bgzip.suffix(), "gz");
    assert_eq!(CompressType::Compress.suffix(), "Z");
    assert_eq!(CompressType::Bzip2.suffix(), "bz2");
    assert_eq!(CompressType::Xz.suffix(), "xz");
    assert_eq!(CompressType::Lzma.suffix(), "lzma");
    assert_eq!(CompressType::Lz4.suffix(), "lz4");
    assert_eq!(CompressType::Zstd.suffix(), "zst");
    assert_eq!(CompressType::NoFilter.suffix(), "");
    assert_eq!(CompressType::Unknown.suffix(), "");
}

#[test]
fn suffix_leads_back_to_the_kind() {
    for kind in ALL_KINDS {
        let back = CompressType::from_extension(Some(kind.suffix()));
        match kind {
            CompressType::Bgzip => assert_eq!(back, CompressType::Gzip),
            CompressType::NoFilter | CompressType::Unknown => assert_eq!(back, CompressType::NoFilter),
            _ => assert_eq!(back, kind),
        }
    }
}

#[test]
fn name_of_each_kind() {
    let names = [
        "gzip", "bgzip", "compress", "bzip2", "xz", "lz4", "lzma", "zstd", "no filter", "unknown",
    ];
    for (kind, name) in ALL_KINDS.iter().zip(names) {
        assert_eq!(kind.name(), name);
        assert_eq!(kind.to_string(), name);
    }
}

#[test]
fn index_counts_the_kinds() {
    assert_eq!(KIND_COUNT, 10);
    for (i, kind) in ALL_KINDS.iter().enumerate() {
        assert_eq!(kind.index(), i);
    }
}

#[test]
fn default_kind_is_unknown() {
    assert_eq!(CompressType::default(), CompressType::Unknown);
}

#[test]
fn from_str_compares_in_upper_case() {
    assert_eq!(CompressType::from_str("gzip"), None);
    assert_eq!(CompressType::from_str("GZIP"), None);
    assert_eq!(CompressType::from_str("Gzip"), None);
    assert_eq!(CompressType::from_str("bzip2"), None);
    assert_eq!(CompressType::from_str("xz"), None);
    assert_eq!(CompressType::from_str("zstd"), None);
    assert_eq!(CompressType::from_str(""), None);
    assert_eq!(CompressType::from_str("no filter"), None);
}

#[test]
fn threads_default_asks_for_nothing() {
    assert_eq!(CompressThreads::Default.n_threads(), None);
    assert!(matches!(CompressThreads::default(), CompressThreads::Default));
}

#[test]
fn threads_explicit_count_is_kept() {
    assert_eq!(CompressThreads::ExplicitCount(0).n_threads(), Some(0));
    assert_eq!(CompressThreads::ExplicitCount(7).n_threads(), Some(7));
    assert_eq!(CompressThreads::ExplicitCount(usize::MAX).n_threads(), Some(usize::MAX));
}

#[test]
fn threads_by_cores_give_a_count() {
    assert!(CompressThreads::NCores.n_threads().is_some());
    assert!(CompressThreads::NPhysCores.n_threads().is_some());
    assert_eq!(CompressThreads::NCores.n_threads(), Some(num_cpus::get()));
}
