//! The common metadata model shared by local files and remote catalogs.
use vstd::prelude::*;
use crate::text::{decimal_string, decimal_text};

verus! {

/// Supplementary key/value facts of a release, in display order.
pub type AddInfo = Vec<(String, String)>;

pub open spec fn add_info_view(a: Seq<(String, String)>) -> Seq<(Seq<char>, Seq<char>)> {
    a.map_values(|e: (String, String)| (e.0@, e.1@))
}

/// One track of a release.
#[derive(Debug)]
pub struct Track {
    pub title: String,
    pub artist: String,
}

pub struct TrackView {
    pub title: Seq<char>,
    pub artist: Seq<char>,
}

impl View for Track {
    type V = TrackView;

    open spec fn view(&self) -> TrackView {
        TrackView { title: self.title@, artist: self.artist@ }
    }
}

/// A track with empty title and artist.
pub open spec fn empty_track() -> TrackView {
    TrackView { title: Seq::empty(), artist: Seq::empty() }
}

pub open spec fn tracks_view(tracks: Seq<Track>) -> Seq<TrackView> {
    tracks.map_values(|t: Track| t@)
}

impl Track {
    pub fn new(title: String, artist: String) -> (r: Track)
        ensures
            r@ == (TrackView { title: title@, artist: artist@ }),
    {
        Track { title, artist }
    }
}

impl Default for Track {
    fn default() -> (r: Track)
        ensures
            r@ == empty_track(),
    {
        Track { title: String::new(), artist: String::new() }
    }
}

/// A release: album, year, genre and tracks in track-number order.
#[derive(Debug)]
pub struct Metadata {
    pub id: Option<String>,
    pub album: String,
    pub date: u32,
    pub genre: String,
    pub tracks: Vec<Track>,
}

pub struct MetadataView {
    pub id: Option<Seq<char>>,
    pub album: Seq<char>,
    pub date: u32,
    pub genre: Seq<char>,
    pub tracks: Seq<TrackView>,
}

pub open spec fn opt_string_view(o: Option<String>) -> Option<Seq<char>> {
    match o {
        Some(s) => Some(s@),
        None => None,
    }
}

impl View for Metadata {
    type V = MetadataView;

    open spec fn view(&self) -> MetadataView {
        MetadataView {
            id: opt_string_view(self.id),
            album: self.album@,
            date: self.date,
            genre: self.genre@,
            tracks: tracks_view(self.tracks@),
        }
    }
}

impl Metadata {
    pub fn new(id: Option<String>, album: String, date: u32, genre: String, tracks: Vec<Track>) -> (r:
        Metadata)
        ensures
            r@ == (MetadataView {
                id: opt_string_view(id),
                album: album@,
                date,
                genre: genre@,
                tracks: tracks_view(tracks@),
            }),
    {
        Metadata { id, album, date, genre, tracks }
    }
}

impl Default for Metadata {
    fn default() -> (r: Metadata)
        ensures
            r@ == (MetadataView {
                id: None,
                album: Seq::empty(),
                date: 0,
                genre: Seq::empty(),
                tracks: Seq::empty(),
            }),
    {
        let r = Metadata {
            id: None,
            album: String::new(),
            date: 0,
            genre: String::new(),
            tracks: Vec::new(),
        };
        assert(tracks_view(r.tracks@) =~= Seq::<TrackView>::empty());
        r
    }
}

/// How a track is shown.
pub open spec fn track_text(t: TrackView) -> Seq<char> {
    "title: "@ + t.title + "\nartist: "@ + t.artist + "\n"@
}

/// How track number `i + 1` is shown inside a release.
pub open spec fn track_entry(i: nat, t: TrackView) -> Seq<char> {
    "  track number: "@ + decimal_text(i + 1) + "\n  track title: "@ + t.title
        + "\n  track artist: "@ + t.artist + "\n\n"@
}

pub open spec fn tracks_text(tracks: Seq<TrackView>) -> Seq<char>
    decreases tracks.len(),
{
    if tracks.len() == 0 {
        Seq::empty()
    } else {
        tracks_text(tracks.drop_last()) + track_entry((tracks.len() - 1) as nat, tracks.last())
    }
}

/// How a release is shown: its identifier when it has one, its fields, and
/// its numbered tracks.
pub open spec fn metadata_text(m: MetadataView) -> Seq<char> {
    let head = match m.id {
        Some(id) => "id: "@ + id + "\n"@,
        None => Seq::empty(),
    };
    head + "album: "@ + m.album + "\ndate: "@ + decimal_text(m.date as nat) + "\ngenre: "@ + m.genre
        + "\ntracks:\n"@ + tracks_text(m.tracks)
}

impl Track {
    /// The text that shows this track.
    pub fn describe(&self) -> (r: String)
        ensures
            r@ == track_text(self@),
    {
        let mut r = String::from_str("title: ");
        r.append(self.title.as_str());
        r.append("\nartist: ");
        r.append(self.artist.as_str());
        r.append("\n");
        r
    }
}

impl Metadata {
    /// The text that shows this release.
    pub fn describe(&self) -> (r: String)
        ensures
            r@ == metadata_text(self@),
    {
        let mut r = String::new();
        match &self.id {
            Some(id) => {
                r.append("id: ");
                r.append(id.as_str());
                r.append("\n");
            },
            None => {},
        }
        r.append("album: ");
        r.append(self.album.as_str());
        r.append("\ndate: ");
        r.append(decimal_string(self.date as u64).as_str());
        r.append("\ngenre: ");
        r.append(self.genre.as_str());
        r.append("\ntracks:\n");
        let ghost head = r@;
        let ghost tv = tracks_view(self.tracks@);
        let mut i: usize = 0;
        assert(tv.take(0) =~= Seq::<TrackView>::empty());
        assert(head + tracks_text(tv.take(0)) =~= head);
        while i < self.tracks.len()
            invariant
                i <= self.tracks@.len(),
                tv == tracks_view(self.tracks@),
                r@ == head + tracks_text(tv.take(i as int)),
            decreases self.tracks.len() - i,
        {
            let t = &self.tracks[i];
            assert(tv.take(i + 1).drop_last() =~= tv.take(i as int));
            assert(tv.take(i + 1).last() == t@);
            r.append("  track number: ");
            r.append(decimal_string((i + 1) as u64).as_str());
            r.append("\n  track title: ");
            r.append(t.title.as_str());
            r.append("\n  track artist: ");
            r.append(t.artist.as_str());
            r.append("\n\n");
            assert(r@ =~= head + tracks_text(tv.take(i + 1)));
            i = i + 1;
        }
        assert(tv.take(self.tracks.len() as int) =~= tv);
        r
    }
}

} // verus!
