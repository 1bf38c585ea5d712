use music_info::error::Error;
use music_info::track_index::audio_files_parser;

fn args(items: &[&str]) -> Vec<String> {
    items.iter().map(|s| s.to_string()).collect()
}

fn some(s: &str) -> Option<String> {
    Some(s.to_string())
}

#[test]
fn bare_paths_keep_order_without_gaps() {
    let r = audio_files_parser(args(&["a.flac", "b.flac", "c.flac"])).unwrap();
    assert_eq!(r, vec![some("a.flac"), some("b.flac"), some("c.flac")]);
}

#[test]
fn empty_argument_list_gives_no_slots() {
    let r = audio_files_parser(Vec::new()).unwrap();
    assert!(r.is_empty());
}

#[test]
fn positioned_path_lands_in_its_slot() {
    let r = audio_files_parser(args(&["x.mp3:3"])).unwrap();
    assert_eq!(r, vec![None, None, some("x.mp3")]);
}

#[test]
fn positioned_path_after_bare_ones() {
    let r = audio_files_parser(args(&["a", "b:4"])).unwrap();
    assert_eq!(r, vec![some("a"), None, None, some("b")]);
}

#[test]
fn positioned_slot_regardless_of_place_in_list() {
    let first = audio_files_parser(args(&["t.ogg:5", "a", "b"])).unwrap();
    assert_eq!(first[4], some("t.ogg"));
    let last = audio_files_parser(args(&["a", "b", "t.ogg:5"])).unwrap();
    assert_eq!(last[4], some("t.ogg"));
}

#[test]
fn bare_path_after_positioned_one_follows_it() {
    let r = audio_files_parser(args(&["a:2", "b"])).unwrap();
    assert_eq!(r, vec![None, some("a"), some("b")]);
}

#[test]
fn positions_that_fall_behind_fill_their_slot() {
    let r = audio_files_parser(args(&["a:3", "b:1"])).unwrap();
    assert_eq!(r, vec![some("b"), None, some("a")]);
}

#[test]
fn positioned_entries_in_any_order() {
    let down = audio_files_parser(args(&["b.flac:2", "a.flac:1"])).unwrap();
    assert_eq!(down, vec![some("a.flac"), some("b.flac")]);
    let up = audio_files_parser(args(&["a.flac:1", "b.flac:2"])).unwrap();
    assert_eq!(up, down);
}

#[test]
fn bare_path_then_position_behind_it() {
    let r = audio_files_parser(args(&["x:3", "a", "b:2"])).unwrap();
    assert_eq!(r, vec![None, some("b"), some("x"), some("a")]);
}

#[test]
fn taken_slot_is_a_parse_error() {
    assert_eq!(audio_files_parser(args(&["a:1", "b:1"])), Err(Error::Parse));
    assert_eq!(audio_files_parser(args(&["a", "b:1"])), Err(Error::Parse));
}

#[test]
fn only_last_colon_separates_position() {
    let r = audio_files_parser(args(&["c:/music/x.flac:2"])).unwrap();
    assert_eq!(r, vec![None, some("c:/music/x.flac")]);
}

#[test]
fn zero_position_is_a_parse_error() {
    assert_eq!(audio_files_parser(args(&["a.flac:0"])), Err(Error::Parse));
}

#[test]
fn non_numeric_position_is_a_parse_error() {
    assert_eq!(audio_files_parser(args(&["a", "b.flac:x"])), Err(Error::Parse));
    assert_eq!(audio_files_parser(args(&["b.flac:"])), Err(Error::Parse));
    assert_eq!(audio_files_parser(args(&["b.flac:-1"])), Err(Error::Parse));
}

#[test]
fn overflowing_position_is_a_parse_error() {
    assert_eq!(
        audio_files_parser(args(&["a:99999999999999999999999"])),
        Err(Error::Parse)
    );
}
