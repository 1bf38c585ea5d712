//! The open catalog: its requests, and its payloads read into the common
//! metadata model.
use vstd::prelude::*;
use crate::error::Error;
use crate::info_struct::{AddInfo, Metadata, MetadataView, Track, TrackView, add_info_view, tracks_view};
use crate::net::Request;
use crate::text::{before_first, bounded_decimal, decimal_string, decimal_text, parse_decimal, text_before};

pub mod inner_structs;

use inner_structs::{ArtistCredit, Cover, CoverArtArchive, Recording, Release};

verus! {

/// The open catalog. It needs no credentials; each of its requests asks for
/// JSON.
pub struct MusicBrainz {}

pub open spec fn pair_view(k: Seq<char>, v: Seq<char>) -> (Seq<char>, Seq<char>) {
    (k, v)
}

pub open spec fn params_view(p: Seq<(String, String)>) -> Seq<(Seq<char>, Seq<char>)> {
    add_info_view(p)
}

/// An artist credit written out: each name followed by its own join phrase.
pub open spec fn credit_text(credits: Seq<ArtistCredit>) -> Seq<char>
    decreases credits.len(),
{
    if credits.len() == 0 {
        Seq::empty()
    } else {
        credit_text(credits.drop_last()) + credits.last().name@ + credits.last().joinphrase@
    }
}

/// The track that a recording gives.
pub open spec fn recording_track(rec: Recording) -> TrackView {
    TrackView { title: rec.title@, artist: credit_text(rec.artist_credit@) }
}

/// The year of a date written `YYYY`, `YYYY-MM` or `YYYY-MM-DD`: the number
/// before the first `-`.
pub open spec fn date_year(date: Seq<char>) -> Option<nat> {
    bounded_decimal(before_first(date, '-'), u32::MAX as nat)
}

pub open spec fn flag_text(flag: bool, text: Seq<char>) -> Seq<char> {
    if flag {
        text
    } else {
        Seq::empty()
    }
}

/// The cover-art summary of a release that has cover images.
pub open spec fn cover_summary(c: CoverArtArchive) -> Option<Seq<char>> {
    if c.count > 0 {
        Some(
            "count: "@ + decimal_text(c.count as nat) + ", type: "@ + flag_text(c.front, "front, "@)
                + flag_text(c.back, "back, "@) + flag_text(c.artwork, "artwork"@),
        )
    } else {
        None
    }
}

/// The additional facts of a release: its barcode, then its cover-art
/// summary, each when there is one.
pub open spec fn release_add_info(release: Release) -> Seq<(Seq<char>, Seq<char>)> {
    let barcode = match release.barcode {
        Some(b) => seq![pair_view("barcode"@, b@)],
        None => Seq::empty(),
    };
    let cover = match cover_summary(release.cover_art_archive) {
        Some(t) => seq![pair_view("cover art"@, t)],
        None => Seq::empty(),
    };
    barcode + cover
}

/// The first genre, or nothing.
pub open spec fn first_genre(genres: Seq<String>) -> Seq<char> {
    if genres.len() > 0 {
        genres[0]@
    } else {
        Seq::empty()
    }
}

/// The release `id` read from its detail and its recordings, in order.
pub open spec fn release_view(id: Seq<char>, release: Release, year: nat, recordings: Seq<Recording>) -> MetadataView {
    MetadataView {
        id: Some(id),
        album: release.title@,
        date: year as u32,
        genre: first_genre(release.genres@),
        tracks: recordings.map_values(|r: Recording| recording_track(r)),
    }
}

/// The cover image to download: the first one flagged front, else the
/// first one.
pub open spec fn chosen_cover(images: Seq<inner_structs::Image>) -> Option<int> {
    if exists|i: int| 0 <= i < images.len() && images[i].front {
        Some(choose|i: int| 0 <= i < images.len() && images[i].front && forall|j: int| 0 <= j < i ==> !images[j].front)
    } else if images.len() > 0 {
        Some(0)
    } else {
        None
    }
}

fn json_request(url: String, key: &str, value: &str) -> (r: Request)
    ensures
        r.url@ == url@,
        params_view(r.params@) == seq![pair_view("fmt"@, "json"@), pair_view(key@, value@)],
{
    let mut params: Vec<(String, String)> = Vec::new();
    params.push((String::from_str("fmt"), String::from_str("json")));
    params.push((String::from_str(key), String::from_str(value)));
    assert(params_view(params@) =~= seq![pair_view("fmt"@, "json"@), pair_view(key@, value@)]);
    Request { url, params }
}

impl MusicBrainz {
    pub fn new() -> (r: MusicBrainz) {
        MusicBrainz {}
    }

    /// The release search for `query`.
    pub fn search_request(&self, query: &str) -> (r: Request)
        ensures
            r.url@ == "http://musicbrainz.org/ws/2/release/"@,
            params_view(r.params@) == seq![pair_view("fmt"@, "json"@), pair_view("query"@, query@)],
    {
        json_request(String::from_str("http://musicbrainz.org/ws/2/release/"), "query", query)
    }

    /// The detail of release `id`, with its recordings and genres.
    pub fn release_request(&self, id: &str) -> (r: Request)
        ensures
            r.url@ == "http://musicbrainz.org/ws/2/release/"@ + id@,
            params_view(r.params@) == seq![
                pair_view("fmt"@, "json"@),
                pair_view("inc"@, "recordings+genres"@),
            ],
    {
        let url = String::from_str("http://musicbrainz.org/ws/2/release/").concat(id);
        json_request(url, "inc", "recordings+genres")
    }

    /// The detail of recording `id`, with its artist credit.
    pub fn recording_request(&self, id: &str) -> (r: Request)
        ensures
            r.url@ == "http://musicbrainz.org/ws/2/recording/"@ + id@,
            params_view(r.params@) == seq![pair_view("fmt"@, "json"@), pair_view("inc"@, "artists"@)],
    {
        let url = String::from_str("http://musicbrainz.org/ws/2/recording/").concat(id);
        json_request(url, "inc", "artists")
    }

    /// The cover listing of release `id`.
    pub fn cover_request(&self, id: &str) -> (r: Request)
        ensures
            r.url@ == "http://coverartarchive.org/release/"@ + id@,
            r.params@.len() == 0,
    {
        let url = String::from_str("http://coverartarchive.org/release/").concat(id);
        Request { url, params: Vec::new() }
    }

    /// The recordings to fetch for a release, in order: one request for
    /// each recording of its first medium.
    pub fn recording_requests(&self, media: &Vec<Vec<String>>) -> (r: Result<Vec<Request>, Error>)
        ensures
            media@.len() == 0 ==> (r matches Err(e) && e == Error::Provider),
            media@.len() > 0 ==> (r matches Ok(v) && v@.len() == media@[0]@.len() && forall|i: int|
                0 <= i < v@.len() ==> {
                    &&& (#[trigger] v@[i]).url@ == "http://musicbrainz.org/ws/2/recording/"@
                        + media@[0]@[i]@
                    &&& params_view(v@[i].params@) == seq![
                        pair_view("fmt"@, "json"@),
                        pair_view("inc"@, "artists"@),
                    ]
                }),
    {
        let ids = match first_medium(media) {
            Ok(ids) => ids,
            Err(e) => return Err(e),
        };
        let mut r: Vec<Request> = Vec::with_capacity(ids.len());
        let mut i: usize = 0;
        while i < ids.len()
            invariant
                media@.len() > 0,
                *ids == media@[0],
                i <= ids@.len(),
                r@.len() == i,
                forall|j: int|
                    0 <= j < i ==> {
                        &&& (#[trigger] r@[j]).url@ == "http://musicbrainz.org/ws/2/recording/"@
                            + ids@[j]@
                        &&& params_view(r@[j].params@) == seq![
                            pair_view("fmt"@, "json"@),
                            pair_view("inc"@, "artists"@),
                        ]
                    },
            decreases ids.len() - i,
        {
            r.push(self.recording_request(ids[i].as_str()));
            i = i + 1;
        }
        Ok(r)
    }
}

/// Writes out an artist credit, keeping the order and join phrases given.
pub fn join_artist_credit(credits: &Vec<ArtistCredit>) -> (r: String)
    ensures
        r@ == credit_text(credits@),
{
    let mut r = String::new();
    let mut i: usize = 0;
    while i < credits.len()
        invariant
            i <= credits@.len(),
            r@ == credit_text(credits@.take(i as int)),
        decreases credits.len() - i,
    {
        assert(credits@.take(i + 1).drop_last() =~= credits@.take(i as int));
        r.append(credits[i].name.as_str());
        r.append(credits[i].joinphrase.as_str());
        i = i + 1;
    }
    assert(credits@.take(credits.len() as int) =~= credits@);
    r
}

/// The track that a recording gives.
pub fn recording_to_track(rec: &Recording) -> (r: Track)
    ensures
        r@ == recording_track(*rec),
{
    Track::new(rec.title.clone(), join_artist_credit(&rec.artist_credit))
}

/// The year of a release date; month and day are dropped.
pub fn release_year(date: &str) -> (r: Result<u32, Error>)
    ensures
        match date_year(date@) {
            Some(y) => r == Ok::<u32, Error>(y as u32),
            None => r == Err::<u32, Error>(Error::Parse),
        },
{
    match parse_decimal(text_before(date, '-'), u32::MAX as usize) {
        Some(y) => Ok(y as u32),
        None => Err(Error::Parse),
    }
}

/// The cover-art summary, when the release has cover images.
pub fn cover_art_summary(c: &CoverArtArchive) -> (r: Option<String>)
    ensures
        match cover_summary(*c) {
            Some(t) => r matches Some(s) && s@ == t,
            None => r is None,
        },
{
    if c.count > 0 {
        let mut s = String::from_str("count: ");
        s.append(decimal_string(c.count as u64).as_str());
        s.append(", type: ");
        let ghost base = s@;
        if c.front {
            s.append("front, ");
        }
        assert(s@ == base + flag_text(c.front, "front, "@));
        let ghost with_front = s@;
        if c.back {
            s.append("back, ");
        }
        assert(s@ == with_front + flag_text(c.back, "back, "@));
        let ghost with_back = s@;
        if c.artwork {
            s.append("artwork");
        }
        assert(s@ == with_back + flag_text(c.artwork, "artwork"@));
        Some(s)
    } else {
        None
    }
}

/// The additional facts of a release.
pub fn release_info(release: &Release) -> (r: AddInfo)
    ensures
        add_info_view(r@) == release_add_info(*release),
{
    let mut r: AddInfo = Vec::new();
    match &release.barcode {
        Some(b) => r.push((String::from_str("barcode"), b.clone())),
        None => {},
    }
    match cover_art_summary(&release.cover_art_archive) {
        Some(t) => r.push((String::from_str("cover art"), t)),
        None => {},
    }
    assert(add_info_view(r@) =~= release_add_info(*release));
    r
}

/// Builds release `id` from its detail and its recordings, in the order of
/// the first medium. Fails when the date does not start with a year.
pub fn release_metadata(id: &str, release: &Release, recordings: &Vec<Recording>) -> (r: Result<
    (Metadata, AddInfo),
    Error,
>)
    ensures
        match date_year(release.date@) {
            Some(y) => r matches Ok(v) && v.0@ == release_view(id@, *release, y, recordings@)
                && add_info_view(v.1@) == release_add_info(*release),
            None => r matches Err(e) && e == Error::Parse,
        },
{
    let date = match release_year(release.date.as_str()) {
        Ok(y) => y,
        Err(e) => return Err(e),
    };
    let mut tracks: Vec<Track> = Vec::with_capacity(recordings.len());
    let mut i: usize = 0;
    while i < recordings.len()
        invariant
            i <= recordings@.len(),
            tracks_view(tracks@) == recordings@.take(i as int).map_values(
                |r: Recording| recording_track(r),
            ),
        decreases recordings.len() - i,
    {
        let ghost prev = tracks_view(tracks@);
        tracks.push(recording_to_track(&recordings[i]));
        assert(tracks_view(tracks@) =~= prev.push(recording_track(recordings@[i as int])));
        assert(recordings@.take(i + 1).map_values(|r: Recording| recording_track(r)) =~= recordings@.take(
            i as int,
        ).map_values(|r: Recording| recording_track(r)).push(recording_track(recordings@[i as int])));
        i = i + 1;
    }
    assert(recordings@.take(recordings.len() as int) =~= recordings@);
    let genre = if release.genres.len() > 0 {
        release.genres[0].clone()
    } else {
        String::new()
    };
    let meta = Metadata::new(
        Some(String::from_str(id)),
        release.title.clone(),
        date,
        genre,
        tracks,
    );
    Ok((meta, release_info(release)))
}

/// The recordings of a release: those of its first medium.
pub fn first_medium(media: &Vec<Vec<String>>) -> (r: Result<&Vec<String>, Error>)
    ensures
        media@.len() > 0 ==> (r matches Ok(v) && *v == media@[0]),
        media@.len() == 0 ==> (r matches Err(e) && e == Error::Provider),
{
    if media.len() > 0 {
        Ok(&media[0])
    } else {
        Err(Error::Provider)
    }
}

/// The URL of the cover image to download.
pub fn select_cover(cover: &Cover) -> (r: Result<&String, Error>)
    ensures
        match chosen_cover(cover.images@) {
            Some(i) => r matches Ok(u) && *u == cover.images@[i].image,
            None => r matches Err(e) && e == Error::Provider,
        },
{
    let n = cover.images.len();
    let mut i: usize = 0;
    while i < n && !cover.images[i].front
        invariant
            n == cover.images@.len(),
            i <= n,
            forall|j: int| 0 <= j < i ==> !cover.images@[j].front,
        decreases n - i,
    {
        i = i + 1;
    }
    if i < n {
        proof {
            let images = cover.images@;
            let k = choose|k: int| 0 <= k < images.len() && images[k].front && forall|j: int| 0 <= j < k ==> !images[j].front;
            assert(0 <= i < images.len() && images[i as int].front && forall|j: int| 0 <= j < i ==> !images[j].front);
            if k < i {
                assert(!images[k].front);
            }
            if k > i {
                assert(!images[i as int].front);
            }
        }
        Ok(&cover.images[i].image)
    } else if n > 0 {
        Ok(&cover.images[0].image)
    } else {
        Err(Error::Provider)
    }
}

} // verus!
