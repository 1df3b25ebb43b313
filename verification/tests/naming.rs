//! Decimal text, path handling, and the collision-free output namer.

use eddit_core::namer::{next_free_candidate, next_output_name, nth_candidate};
use eddit_core::path::{file_name, file_stem, has_extension, join_path, mime_for_path, parent};
use eddit_core::text::{parse_u64, rfind_char, str_eq, u64_to_dec};

#[test]
fn formats_decimals() {
    assert_eq!(u64_to_dec(0), "0");
    assert_eq!(u64_to_dec(7), "7");
    assert_eq!(u64_to_dec(10), "10");
    assert_eq!(u64_to_dec(1234567890), "1234567890");
    assert_eq!(u64_to_dec(u64::MAX), "18446744073709551615");
}

#[test]
fn parses_decimals() {
    assert_eq!(parse_u64("0"), Some(0));
    assert_eq!(parse_u64("00123"), Some(123));
    assert_eq!(parse_u64("18446744073709551615"), Some(u64::MAX));
    assert_eq!(parse_u64("18446744073709551616"), None);
    assert_eq!(parse_u64(""), None);
    assert_eq!(parse_u64("12x"), None);
    assert_eq!(parse_u64("-5"), None);
}

#[test]
fn format_parse_round_trip() {
    for n in [0u64, 1, 9, 10, 99, 100, 4242, u64::MAX] {
        assert_eq!(parse_u64(u64_to_dec(n).as_str()), Some(n));
    }
}

#[test]
fn compares_and_searches_strings() {
    assert!(str_eq("abc", "abc"));
    assert!(!str_eq("abc", "abd"));
    assert!(!str_eq("abc", "ab"));
    assert_eq!(rfind_char("a.b.c", '.'), Some(3));
    assert_eq!(rfind_char("abc", '.'), None);
}

#[test]
fn splits_paths() {
    assert_eq!(file_name("/tmp/video.mp4"), "video.mp4");
    assert_eq!(file_stem("/tmp/video.mp4"), "video");
    assert_eq!(file_stem("C:\\clips\\intro.mov"), "intro");
    assert_eq!(file_stem("noext"), "noext");
    assert_eq!(file_stem("/tmp/.hidden"), ".hidden");
    assert!(has_extension("/tmp/video.mp4"));
    assert!(!has_extension("/tmp/videos"));
    assert_eq!(parent("/tmp/video.mp4"), "/tmp");
    assert_eq!(parent("video.mp4"), ".");
    assert_eq!(parent("/video.mp4"), "/");
    assert_eq!(join_path("/out", "a.mp4"), "/out/a.mp4");
    assert_eq!(join_path("/out/", "a.mp4"), "/out/a.mp4");
    assert_eq!(join_path("", "a.mp4"), "a.mp4");
}

#[test]
fn picks_mime_types() {
    assert_eq!(mime_for_path("/v/a.mp4"), "video/mp4");
    assert_eq!(mime_for_path("/v/a.mkv"), "video/x-matroska");
    assert_eq!(mime_for_path("/v/a.webm"), "video/webm");
    assert_eq!(mime_for_path("/v/a.txt"), "application/octet-stream");
    assert_eq!(mime_for_path("/v/noext"), "application/octet-stream");
}

#[test]
fn numbers_candidates() {
    assert_eq!(nth_candidate("base", 0), "base.mp4");
    assert_eq!(nth_candidate("base", 1), "base_1.mp4");
    assert_eq!(nth_candidate("base", 12), "base_12.mp4");
}

#[test]
fn names_next_free_output() {
    let existing: Vec<String> = Vec::new();
    assert_eq!(next_output_name("base", "/out", &existing), "/out/base.mp4");

    let existing = vec![
        String::from("base.mp4"),
        String::from("base_1.mp4"),
        String::from("base_2.mp4"),
    ];
    assert_eq!(next_free_candidate("base", &existing), "base_3.mp4");
    assert_eq!(next_output_name("base", "/out", &existing), "/out/base_3.mp4");
}

#[test]
fn skips_unrelated_names() {
    let existing = vec![
        String::from("base.mp4"),
        String::from("other.mp4"),
        String::from("base_2.mp4"),
    ];
    // base_1.mp4 is free even though later candidates are taken
    assert_eq!(next_free_candidate("base", &existing), "base_1.mp4");
}

#[test]
fn resolves_file_like_directory() {
    let existing: Vec<String> = Vec::new();
    assert_eq!(
        next_output_name("clip", "/out/chosen.mp4", &existing),
        "/out/clip.mp4"
    );
}
