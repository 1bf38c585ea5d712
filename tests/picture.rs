use music_info::error::Error;
use music_info::fileio::json::Json;
use music_info::fileio::picture::Picture;

#[test]
fn mime_guessed_from_file_name() {
    let p = Picture::from_file(vec![1, 2, 3], "cover.png");
    assert_eq!(p.mime, "image/png");
    assert_eq!(p.raw, vec![1, 2, 3]);
    let q = Picture::from_file(Vec::new(), "/some/dir/front.jpg");
    assert_eq!(q.mime, "image/jpeg");
}

#[test]
fn unknown_extension_gives_empty_mime() {
    assert_eq!(Picture::from_file(Vec::new(), "cover").mime, "");
    assert_eq!(Picture::from_file(Vec::new(), "cover.nosuchext").mime, "");
}

#[test]
fn extension_from_mime() {
    let p = Picture::new(Vec::new(), "image/gif".to_string());
    assert_eq!(p.extension(), Ok("gif".to_string()));
    let unknown = Picture::new(Vec::new(), "nothing/known".to_string());
    assert_eq!(unknown.extension(), Err(Error::Precondition));
}

#[test]
fn first_extension_picks_first() {
    let v = vec!["jpg".to_string(), "jpeg".to_string()];
    assert_eq!(Picture::first_extension(Some(v)), Ok("jpg".to_string()));
    assert_eq!(Picture::first_extension(Some(Vec::new())), Err(Error::Precondition));
    assert_eq!(Picture::first_extension(None), Err(Error::Precondition));
}

#[test]
fn mime_or_empty_defaults() {
    assert_eq!(Picture::mime_or_empty(Some("image/png".to_string())), "image/png");
    assert_eq!(Picture::mime_or_empty(None), "");
}

#[test]
fn json_keeps_path() {
    assert_eq!(Json::new("out.json".to_string()).path(), "out.json");
}
