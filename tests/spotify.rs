use music_info::error::Error;
use music_info::net::spotify::inner_structs::{Album, AlbumSearch, Artist, Image, Item, Tracks};
use music_info::net::spotify::{
    album_info, album_metadata, albums_to_fetch, image_summary, item_to_track, largest_image,
    release_year, track_order,
};

fn item(n: i32, name: &str, artists: &[&str]) -> Item {
    Item {
        track_number: n,
        name: name.to_string(),
        artists: artists.iter().map(|a| Artist { name: a.to_string() }).collect(),
    }
}

fn image(h: i32, w: i32, url: &str) -> Image {
    Image { height: h, width: w, url: url.to_string() }
}

fn album(precision: &str, date: &str, items: Vec<Item>, images: Vec<Image>) -> Album {
    Album {
        genres: vec!["j-pop".to_string(), "anime".to_string()],
        images,
        name: "Name".to_string(),
        release_date: date.to_string(),
        release_date_precision: precision.to_string(),
        tracks: Tracks { items },
        external_ids: vec![("upc".to_string(), "\"0042\"".to_string())],
    }
}

#[test]
fn day_precision_gives_year() {
    assert_eq!(release_year("day", "2001-05-14"), Ok(2001));
}

#[test]
fn year_precision_gives_year() {
    assert_eq!(release_year("year", "2001"), Ok(2001));
}

#[test]
fn month_precision_gives_year() {
    assert_eq!(release_year("month", "2001-05"), Ok(2001));
}

#[test]
fn unknown_precision_gives_zero() {
    assert_eq!(release_year("decade", "2001-05-14"), Ok(0));
    assert_eq!(release_year("", "garbage"), Ok(0));
}

#[test]
fn year_precision_with_full_date_fails() {
    assert_eq!(release_year("year", "2001-05-14"), Err(Error::Parse));
}

#[test]
fn zero_total_fetches_nothing() {
    let s = AlbumSearch { total: 0, ids: vec!["a".to_string()] };
    assert!(albums_to_fetch(&s).is_empty());
    let s = AlbumSearch { total: 2, ids: vec!["a".to_string(), "b".to_string()] };
    assert_eq!(albums_to_fetch(&s), vec!["a".to_string(), "b".to_string()]);
}

#[test]
fn tracks_sorted_by_track_number() {
    let items = vec![item(3, "c", &[]), item(1, "a", &[]), item(2, "b", &[])];
    assert_eq!(track_order(&items), vec![1, 2, 0]);
}

#[test]
fn equal_track_numbers_keep_their_order() {
    let items = vec![item(2, "x", &[]), item(1, "y", &[]), item(2, "z", &[]), item(1, "w", &[])];
    assert_eq!(track_order(&items), vec![1, 3, 0, 2]);
    assert!(track_order(&Vec::new()).is_empty());
}

#[test]
fn artists_joined_with_comma() {
    let t = item_to_track(&item(1, "Song", &["A", "B", "C"]));
    assert_eq!(t.title, "Song");
    assert_eq!(t.artist, "A, B, C");
    assert_eq!(item_to_track(&item(1, "Solo", &[])).artist, "");
}

#[test]
fn image_dimensions_summary() {
    let images = vec![image(640, 640, "a"), image(300, 200, "b"), image(-1, 64, "c")];
    assert_eq!(image_summary(&images), "640 x 640, 300 x 200, -1 x 64");
    assert_eq!(image_summary(&Vec::new()), "");
}

#[test]
fn album_info_image_then_external_ids() {
    let a = album("day", "2001-01-01", Vec::new(), vec![image(64, 64, "u")]);
    assert_eq!(
        album_info(&a),
        vec![
            ("image".to_string(), "64 x 64".to_string()),
            ("upc".to_string(), "\"0042\"".to_string())
        ]
    );
    let bare = album("day", "2001-01-01", Vec::new(), Vec::new());
    assert_eq!(album_info(&bare), vec![("upc".to_string(), "\"0042\"".to_string())]);
}

#[test]
fn album_metadata_sorts_tracks() {
    let a = album(
        "day",
        "2010-03-04",
        vec![item(2, "second", &["B"]), item(1, "first", &["A", "C"])],
        Vec::new(),
    );
    let (m, _) = album_metadata("sp1", &a).unwrap();
    assert_eq!(m.id, Some("sp1".to_string()));
    assert_eq!(m.album, "Name");
    assert_eq!(m.date, 2010);
    assert_eq!(m.genre, "j-pop, anime");
    assert_eq!(m.tracks[0].title, "first");
    assert_eq!(m.tracks[0].artist, "A, C");
    assert_eq!(m.tracks[1].title, "second");
}

#[test]
fn album_metadata_with_bad_year_fails() {
    let a = album("year", "20x1", Vec::new(), Vec::new());
    assert_eq!(album_metadata("sp1", &a).err(), Some(Error::Parse));
}

#[test]
fn largest_image_is_last_of_tallest() {
    let images = vec![image(300, 300, "a"), image(640, 640, "b"), image(64, 64, "c"), image(640, 600, "d")];
    assert_eq!(largest_image(&images).unwrap(), "d");
    assert_eq!(largest_image(&Vec::new()).err(), Some(Error::Provider));
}
