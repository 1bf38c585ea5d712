use music_info::error::Error;
use music_info::fileio::taglib::{TagLib, TagRecord, TagSlot};
use music_info::info_struct::{Metadata, Track};

fn record(title: &str, artist: &str, album: &str, year: u32, genre: &str) -> TagRecord {
    TagRecord {
        title: title.to_string(),
        artist: artist.to_string(),
        album: album.to_string(),
        year,
        genre: genre.to_string(),
        track: 0,
    }
}

fn meta(n: usize) -> Metadata {
    let tracks = (0..n)
        .map(|i| Track::new(format!("song {}", i + 1), format!("artist {}", i + 1)))
        .collect();
    Metadata::new(None, "Album".to_string(), 1999, "Rock".to_string(), tracks)
}

#[test]
fn read_takes_release_fields_from_first_file() {
    let lib = TagLib::new(vec![
        TagSlot::Absent,
        TagSlot::Tagged(record("one", "A", "First", 2001, "Pop")),
        TagSlot::Tagged(record("two", "B", "Second", 1990, "Jazz")),
    ]);
    let m = lib.read().unwrap();
    assert_eq!(m.id, None);
    assert_eq!(m.album, "First");
    assert_eq!(m.date, 2001);
    assert_eq!(m.genre, "Pop");
    assert_eq!(m.tracks.len(), 3);
    assert_eq!(m.tracks[1].title, "one");
    assert_eq!(m.tracks[2].artist, "B");
}

#[test]
fn absent_slot_reads_as_empty_track() {
    let lib = TagLib::new(vec![
        TagSlot::Tagged(record("one", "A", "X", 1, "G")),
        TagSlot::Absent,
        TagSlot::Tagged(record("three", "C", "X", 1, "G")),
    ]);
    let m = lib.read().unwrap();
    assert_eq!(m.tracks.len(), 3);
    assert_eq!(m.tracks[1].title, "");
    assert_eq!(m.tracks[1].artist, "");
}

#[test]
fn read_without_any_file_fails() {
    let lib = TagLib::new(vec![TagSlot::Absent, TagSlot::Absent]);
    assert_eq!(lib.read().err(), Some(Error::NoAudioFile));
    assert_eq!(TagLib::new(Vec::new()).read().err(), Some(Error::NoAudioFile));
}

#[test]
fn read_with_unreadable_tags_fails() {
    let lib = TagLib::new(vec![
        TagSlot::Tagged(record("one", "A", "X", 1, "G")),
        TagSlot::Unreadable,
    ]);
    assert_eq!(lib.read().err(), Some(Error::FileAccess));
}

#[test]
fn write_plans_each_present_slot() {
    let lib = TagLib::new(vec![
        TagSlot::Tagged(record("", "", "", 0, "")),
        TagSlot::Absent,
        TagSlot::Tagged(record("", "", "", 0, "")),
    ]);
    let plan = lib.write(&meta(3)).unwrap();
    assert_eq!(plan.len(), 3);
    assert!(plan[1].is_none());
    let third = plan[2].as_ref().unwrap();
    assert_eq!(third.track, 3);
    assert_eq!(third.title, "song 3");
    assert_eq!(third.artist, "artist 3");
    assert_eq!(third.album, "Album");
    assert_eq!(third.year, 1999);
    assert_eq!(third.genre, "Rock");
    assert_eq!(plan[0].as_ref().unwrap().track, 1);
}

#[test]
fn write_with_too_few_tracks_fails() {
    let lib = TagLib::new(vec![
        TagSlot::Tagged(record("", "", "", 0, "")),
        TagSlot::Absent,
        TagSlot::Tagged(record("", "", "", 0, "")),
    ]);
    assert_eq!(lib.write(&meta(2)).err(), Some(Error::Precondition));
}

#[test]
fn write_with_trailing_absent_slots_needs_no_track_for_them() {
    let lib = TagLib::new(vec![TagSlot::Tagged(record("", "", "", 0, "")), TagSlot::Absent]);
    assert!(lib.write(&meta(1)).is_ok());
}

#[test]
fn write_to_unreadable_tags_fails() {
    let lib = TagLib::new(vec![TagSlot::Unreadable]);
    assert_eq!(lib.write(&meta(1)).err(), Some(Error::FileAccess));
}

#[test]
fn write_then_read_round_trip() {
    let before = vec![
        TagSlot::Tagged(record("old", "old", "old", 5, "old")),
        TagSlot::Absent,
        TagSlot::Tagged(record("old", "old", "old", 5, "old")),
    ];
    let m = meta(3);
    let plan = TagLib::new(before).write(&m).unwrap();
    let after: Vec<TagSlot> = plan
        .into_iter()
        .map(|p| match p {
            Some(r) => TagSlot::Tagged(r),
            None => TagSlot::Absent,
        })
        .collect();
    let back = TagLib::new(after).read().unwrap();
    assert_eq!(back.album, m.album);
    assert_eq!(back.date, m.date);
    assert_eq!(back.genre, m.genre);
    assert_eq!(back.tracks.len(), 3);
    assert_eq!(back.tracks[0].title, m.tracks[0].title);
    assert_eq!(back.tracks[2].artist, m.tracks[2].artist);
    assert_eq!(back.tracks[1].title, "");
}
