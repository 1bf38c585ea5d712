use music_info::error::Error;
use music_info::net::content_length;
use music_info::net::music_brainz::inner_structs::{
    ArtistCredit, Cover, CoverArtArchive, Image, Recording, Release,
};
use music_info::net::music_brainz::{
    cover_art_summary, first_medium, join_artist_credit, recording_to_track, release_info,
    release_metadata, release_year, select_cover, MusicBrainz,
};

fn credit(name: &str, join: &str) -> ArtistCredit {
    ArtistCredit { name: name.to_string(), joinphrase: join.to_string() }
}

fn covers(count: i32, front: bool, back: bool, artwork: bool) -> CoverArtArchive {
    CoverArtArchive { count, artwork, front, back }
}

fn release(date: &str, barcode: Option<&str>, cover: CoverArtArchive) -> Release {
    Release {
        id: "r1".to_string(),
        title: "Title".to_string(),
        date: date.to_string(),
        genres: vec!["rock".to_string(), "pop".to_string()],
        cover_art_archive: cover,
        barcode: barcode.map(|b| b.to_string()),
    }
}

#[test]
fn full_date_gives_its_year() {
    assert_eq!(release_year("2001-05-14"), Ok(2001));
}

#[test]
fn bare_year_gives_its_year() {
    assert_eq!(release_year("2001"), Ok(2001));
}

#[test]
fn malformed_date_fails() {
    assert_eq!(release_year(""), Err(Error::Parse));
    assert_eq!(release_year("abcd-01"), Err(Error::Parse));
    assert_eq!(release_year("99999999999"), Err(Error::Parse));
}

#[test]
fn artist_credit_keeps_join_phrases() {
    let credits = vec![credit("A", " & "), credit("B", "")];
    assert_eq!(join_artist_credit(&credits), "A & B");
    assert_eq!(join_artist_credit(&Vec::new()), "");
    let three = vec![credit("A", ", "), credit("B", " feat. "), credit("C", "")];
    assert_eq!(join_artist_credit(&three), "A, B feat. C");
}

#[test]
fn recording_becomes_track() {
    let rec = Recording { title: "Song".to_string(), artist_credit: vec![credit("X", " x "), credit("Y", "")] };
    let t = recording_to_track(&rec);
    assert_eq!(t.title, "Song");
    assert_eq!(t.artist, "X x Y");
}

#[test]
fn cover_summary_lists_flags_in_order() {
    assert_eq!(
        cover_art_summary(&covers(2, true, true, false)),
        Some("count: 2, type: front, back, ".to_string())
    );
    assert_eq!(
        cover_art_summary(&covers(12, true, false, true)),
        Some("count: 12, type: front, artwork".to_string())
    );
    assert_eq!(cover_art_summary(&covers(0, true, true, true)), None);
}

#[test]
fn release_info_has_barcode_then_cover() {
    let r = release("2001", Some("0123"), covers(1, true, false, false));
    let info = release_info(&r);
    assert_eq!(
        info,
        vec![
            ("barcode".to_string(), "0123".to_string()),
            ("cover art".to_string(), "count: 1, type: front, ".to_string())
        ]
    );
    let bare = release("2001", None, covers(0, false, false, false));
    assert!(release_info(&bare).is_empty());
}

#[test]
fn release_metadata_builds_release() {
    let r = release("1999-12-01", None, covers(0, false, false, false));
    let recs = vec![
        Recording { title: "One".to_string(), artist_credit: vec![credit("A", "")] },
        Recording { title: "Two".to_string(), artist_credit: vec![credit("B", "")] },
    ];
    let (m, info) = release_metadata("abc", &r, &recs).unwrap();
    assert_eq!(m.id, Some("abc".to_string()));
    assert_eq!(m.album, "Title");
    assert_eq!(m.date, 1999);
    assert_eq!(m.genre, "rock");
    assert_eq!(m.tracks.len(), 2);
    assert_eq!(m.tracks[1].title, "Two");
    assert!(info.is_empty());
}

#[test]
fn release_metadata_without_genres_has_empty_genre() {
    let mut r = release("1999", None, covers(0, false, false, false));
    r.genres.clear();
    let (m, _) = release_metadata("abc", &r, &Vec::new()).unwrap();
    assert_eq!(m.genre, "");
    assert!(m.tracks.is_empty());
}

#[test]
fn release_metadata_with_bad_date_fails() {
    let r = release("unknown", None, covers(0, false, false, false));
    assert_eq!(release_metadata("abc", &r, &Vec::new()).err(), Some(Error::Parse));
}

#[test]
fn first_medium_is_used() {
    let media = vec![vec!["a".to_string()], vec!["b".to_string()]];
    assert_eq!(first_medium(&media).unwrap(), &vec!["a".to_string()]);
    assert_eq!(first_medium(&Vec::new()).err(), Some(Error::Provider));
}

fn image(front: bool, url: &str) -> Image {
    Image { front, back: false, image: url.to_string() }
}

#[test]
fn front_cover_is_preferred() {
    let c = Cover { images: vec![image(false, "u0"), image(true, "u1"), image(true, "u2")] };
    assert_eq!(select_cover(&c).unwrap(), "u1");
}

#[test]
fn first_cover_without_front() {
    let c = Cover { images: vec![image(false, "u0"), image(false, "u1")] };
    assert_eq!(select_cover(&c).unwrap(), "u0");
    assert_eq!(select_cover(&Cover { images: Vec::new() }).err(), Some(Error::Provider));
}

#[test]
fn open_catalog_requests() {
    let mb = MusicBrainz::new();
    let s = mb.search_request("artist:x");
    assert_eq!(s.url, "http://musicbrainz.org/ws/2/release/");
    assert_eq!(
        s.params,
        vec![("fmt".to_string(), "json".to_string()), ("query".to_string(), "artist:x".to_string())]
    );
    let r = mb.release_request("id1");
    assert_eq!(r.url, "http://musicbrainz.org/ws/2/release/id1");
    assert_eq!(r.params[1], ("inc".to_string(), "recordings+genres".to_string()));
    let rec = mb.recording_request("id2");
    assert_eq!(rec.url, "http://musicbrainz.org/ws/2/recording/id2");
    assert_eq!(rec.params[1], ("inc".to_string(), "artists".to_string()));
    let c = mb.cover_request("id3");
    assert_eq!(c.url, "http://coverartarchive.org/release/id3");
    assert!(c.params.is_empty());
}

#[test]
fn content_length_is_required() {
    assert_eq!(content_length(Some("1024")), Ok(1024));
    assert_eq!(content_length(None), Err(Error::Precondition));
    assert_eq!(content_length(Some("abc")), Err(Error::Precondition));
}

#[test]
fn recordings_of_first_medium_are_requested() {
    let mb = MusicBrainz::new();
    let media = vec![vec!["r1".to_string(), "r2".to_string()], vec!["r3".to_string()]];
    let reqs = mb.recording_requests(&media).unwrap();
    assert_eq!(reqs.len(), 2);
    assert_eq!(reqs[0].url, "http://musicbrainz.org/ws/2/recording/r1");
    assert_eq!(reqs[1].url, "http://musicbrainz.org/ws/2/recording/r2");
    assert_eq!(reqs[1].params[1], ("inc".to_string(), "artists".to_string()));
    assert_eq!(mb.recording_requests(&Vec::new()).err(), Some(Error::Provider));
}
