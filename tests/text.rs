use music_info::error::Error;
use music_info::info_struct::{Metadata, Track};
use music_info::text::{decimal_string, join_texts, parse_decimal, signed_string, text_before, text_eq};

#[test]
fn decimal_rendering() {
    assert_eq!(decimal_string(0), "0");
    assert_eq!(decimal_string(7), "7");
    assert_eq!(decimal_string(2001), "2001");
    assert_eq!(decimal_string(u64::MAX), u64::MAX.to_string());
    assert_eq!(signed_string(-42), "-42");
    assert_eq!(signed_string(i32::MIN), i32::MIN.to_string());
    assert_eq!(signed_string(640), "640");
}

#[test]
fn decimal_parsing_bounds() {
    assert_eq!(parse_decimal("0", 10), Some(0));
    assert_eq!(parse_decimal("10", 10), Some(10));
    assert_eq!(parse_decimal("11", 10), None);
    assert_eq!(parse_decimal("", 10), None);
    assert_eq!(parse_decimal("1a", 10), None);
    assert_eq!(parse_decimal("4294967295", u32::MAX as usize), Some(4294967295));
    assert_eq!(parse_decimal("4294967296", u32::MAX as usize), None);
}

#[test]
fn text_helpers() {
    assert_eq!(text_before("2001-05-14", '-'), "2001");
    assert_eq!(text_before("2001", '-'), "2001");
    assert_eq!(text_before("-x", '-'), "");
    assert!(text_eq("day", "day"));
    assert!(!text_eq("day", "days"));
    let parts = vec!["a".to_string(), "b".to_string()];
    assert_eq!(join_texts(&parts, ", "), "a, b");
    assert_eq!(join_texts(&Vec::new(), ", "), "");
}

#[test]
fn defaults_are_empty() {
    let m = Metadata::default();
    assert_eq!(m.id, None);
    assert_eq!(m.album, "");
    assert_eq!(m.date, 0);
    assert!(m.tracks.is_empty());
    let t = Track::default();
    assert_eq!(t.title, "");
    assert_eq!(t.artist, "");
}

#[test]
fn error_messages() {
    assert_eq!(Error::RateLimited.message(), "http error: 503 resp");
    assert_eq!(Error::FileAccess.message(), "no available tag found");
}

#[test]
fn metadata_display_text() {
    let m = Metadata::new(
        Some("x".to_string()),
        "A".to_string(),
        2001,
        "G".to_string(),
        vec![Track::new("t".to_string(), "a".to_string()), Track::new("u".to_string(), "b".to_string())],
    );
    assert_eq!(
        m.describe(),
        "id: x\nalbum: A\ndate: 2001\ngenre: G\ntracks:\n  track number: 1\n  track title: t\n  track artist: a\n\n  track number: 2\n  track title: u\n  track artist: b\n\n"
    );
    let local = Metadata::new(None, "A".to_string(), 0, String::new(), Vec::new());
    assert_eq!(local.describe(), "album: A\ndate: 0\ngenre: \ntracks:\n");
}

#[test]
fn track_display_text() {
    assert_eq!(Track::new("t".to_string(), "a".to_string()).describe(), "title: t\nartist: a\n");
}
