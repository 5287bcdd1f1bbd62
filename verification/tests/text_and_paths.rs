use lap_media::extension::file_extension;
use lap_media::raw_format::{
    is_tiff_path, resolve_raw_format, resolve_raw_profile, PreviewStrategy, RawFormat,
};
use lap_media::text::{
    ascii_lowercase, chars_of, decimal_string, parse_i32, string_from_chars, trim, trim_end_char,
};

fn chars(s: &str) -> Vec<char> {
    s.chars().collect()
}

#[test]
fn extension_is_lower_cased() {
    assert_eq!(file_extension("/photos/DSC_0001.NEF"), Some("nef".to_string()));
    assert_eq!(file_extension("archive.tar.GZ"), Some("gz".to_string()));
    assert_eq!(file_extension("IMG.Cr3"), Some("cr3".to_string()));
}

#[test]
fn extension_absent_cases() {
    assert_eq!(file_extension("README"), None);
    assert_eq!(file_extension(".bashrc"), None);
    assert_eq!(file_extension("dir.d/file"), None);
    assert_eq!(file_extension(""), None);
    assert_eq!(file_extension("/"), None);
    assert_eq!(file_extension("photos/.."), None);
}

#[test]
fn extension_edge_cases() {
    assert_eq!(file_extension("file."), Some(String::new()));
    assert_eq!(file_extension("a/b.JPG/"), Some("jpg".to_string()));
    assert_eq!(file_extension("..x"), Some("x".to_string()));
}

#[test]
fn raw_format_families() {
    assert_eq!(resolve_raw_format("a.nef"), RawFormat::NefLike);
    assert_eq!(resolve_raw_format("a.NRW"), RawFormat::NefLike);
    assert_eq!(resolve_raw_format("a.dng"), RawFormat::Dng);
    assert_eq!(resolve_raw_format("a.tif"), RawFormat::TiffLike);
    assert_eq!(resolve_raw_format("a.Tiff"), RawFormat::TiffLike);
    assert_eq!(resolve_raw_format("a.ARW"), RawFormat::GenericRaw);
    assert_eq!(resolve_raw_format("a.x3f"), RawFormat::GenericRaw);
    assert_eq!(resolve_raw_format("a.mrw"), RawFormat::GenericRaw);
    assert_eq!(resolve_raw_format("a.jpg"), RawFormat::Unknown);
    assert_eq!(resolve_raw_format("noext"), RawFormat::Unknown);
}

#[test]
fn raw_profiles() {
    let generic = resolve_raw_profile("x.cr2");
    assert_eq!(generic.preview_strategy, PreviewStrategy::EmbeddedFirst);
    assert!(generic.prefer_jpeg_thumbnail);
    for path in ["x.nef", "x.dng", "x.tiff", "x.png", "x"] {
        let p = resolve_raw_profile(path);
        assert_eq!(p.preview_strategy, PreviewStrategy::ProcessedWhenEmbeddedTooSmall);
        assert!(p.prefer_jpeg_thumbnail);
    }
}

#[test]
fn tiff_paths() {
    assert!(is_tiff_path("scan.TIF"));
    assert!(is_tiff_path("/a/b/scan.tiff"));
    assert!(!is_tiff_path("scan.tif.nef"));
    assert!(!is_tiff_path("tiff"));
    assert!(!is_tiff_path("scan.dng"));
}

#[test]
fn ascii_lowercase_keeps_non_ascii() {
    let out = ascii_lowercase(&chars("AbÇZ9"));
    assert_eq!(out, chars("abÇz9"));
}

#[test]
fn trimming_white_space() {
    assert_eq!(trim(&chars("  \t+1.5/\n")), chars("+1.5/"));
    assert_eq!(trim(&chars("\u{3000}x\u{a0}")), chars("x"));
    assert_eq!(trim(&chars("   ")), chars(""));
    assert_eq!(trim_end_char(&chars("+1+2//"), '/'), chars("+1+2"));
    assert_eq!(trim_end_char(&chars("///"), '/'), chars(""));
}

#[test]
fn decimal_rendering() {
    assert_eq!(decimal_string(0), "0");
    assert_eq!(decimal_string(7), "7");
    assert_eq!(decimal_string(65535), "65535");
    assert_eq!(decimal_string(u64::MAX), u64::MAX.to_string());
}

#[test]
fn parsing_i32() {
    assert_eq!(parse_i32(&chars("90")), Some(90));
    assert_eq!(parse_i32(&chars("-270")), Some(-270));
    assert_eq!(parse_i32(&chars("+5")), Some(5));
    assert_eq!(parse_i32(&chars("007")), Some(7));
    assert_eq!(parse_i32(&chars("2147483647")), Some(i32::MAX));
    assert_eq!(parse_i32(&chars("-2147483648")), Some(i32::MIN));
    assert_eq!(parse_i32(&chars("2147483648")), None);
    assert_eq!(parse_i32(&chars("-2147483649")), None);
    assert_eq!(parse_i32(&chars("99999999999999999999x")), None);
    assert_eq!(parse_i32(&chars("")), None);
    assert_eq!(parse_i32(&chars("-")), None);
    assert_eq!(parse_i32(&chars(" 9")), None);
    assert_eq!(parse_i32(&chars("9.0")), None);
}

#[test]
fn parsing_matches_std() {
    for s in ["0", "-0", "+0", "12", "-12", "+-1", "1_0", "4294967296", "-1a"] {
        assert_eq!(parse_i32(&chars(s)), s.parse::<i32>().ok(), "{}", s);
    }
}

#[test]
fn chars_round_trip() {
    let cs = chars_of("héllo");
    assert_eq!(cs, chars("héllo"));
    assert_eq!(string_from_chars(&cs), "héllo");
}
