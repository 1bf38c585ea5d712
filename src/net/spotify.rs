//! The token-gated catalog: its requests, and its payloads read into the
//! common metadata model.
use vstd::prelude::*;
use crate::error::Error;
use crate::info_struct::{AddInfo, Metadata, MetadataView, Track, TrackView, add_info_view, tracks_view};
use crate::net::Request;
use crate::net::music_brainz::{date_year, pair_view, params_view};
use crate::net::oauth2::Client;
use crate::text::{bounded_decimal, join_texts, joined, parse_decimal, signed_string, signed_text, text_eq, texts_view};

pub mod inner_structs;

use inner_structs::{Album, AlbumSearch, Image, Item};

verus! {

/// The token-gated catalog, reached through an OAuth2 client.
pub struct Spotify {
    client: Client,
}

/// The year of an album, read according to the precision of its date;
/// an unknown precision gives year 0.
pub open spec fn album_year(precision: Seq<char>, date: Seq<char>) -> Option<nat> {
    if precision == "year"@ {
        bounded_decimal(date, u32::MAX as nat)
    } else if precision == "month"@ || precision == "day"@ {
        date_year(date)
    } else {
        Some(0)
    }
}

/// `order` lists each index below `n` exactly once.
pub open spec fn is_permutation(order: Seq<usize>, n: nat) -> bool {
    &&& order.len() == n
    &&& forall|i: int| 0 <= i < order.len() ==> order[i] < n
    &&& forall|i: int, j: int| 0 <= i < j < order.len() ==> order[i] != order[j]
}

/// Along `order`, keys never decrease, and indices with equal keys keep
/// the order they have in the input.
pub open spec fn stably_sorted(keys: Seq<i32>, order: Seq<usize>) -> bool {
    forall|i: int, j: int|
        0 <= i < j < order.len() ==> {
            ||| keys[order[i] as int] < keys[order[j] as int]
            ||| (keys[order[i] as int] == keys[order[j] as int] && order[i] < order[j])
        }
}

pub open spec fn track_numbers(items: Seq<Item>) -> Seq<i32> {
    items.map_values(|i: Item| i.track_number)
}

/// The track that an album item gives: its name, and its artists' names
/// joined with `, `.
pub open spec fn item_track(item: Item) -> TrackView {
    TrackView {
        title: item.name@,
        artist: joined(item.artists@.map_values(|a: inner_structs::Artist| a.name@), ", "@),
    }
}

pub open spec fn image_text(img: Image) -> Seq<char> {
    signed_text(img.height as int) + " x "@ + signed_text(img.width as int)
}

/// The dimensions of all images, `H x W`, joined with `, `.
pub open spec fn images_text(images: Seq<Image>) -> Seq<char> {
    joined(images.map_values(|i: Image| image_text(i)), ", "@)
}

/// The additional facts of an album: an image summary when it has images,
/// then its external identifiers.
pub open spec fn album_add_info(album: Album) -> Seq<(Seq<char>, Seq<char>)> {
    let image = if album.images@.len() > 0 {
        seq![pair_view("image"@, images_text(album.images@))]
    } else {
        Seq::empty()
    };
    image + add_info_view(album.external_ids@)
}

/// Album `id` read from its detail, with its tracks in the order `order`.
pub open spec fn album_view(id: Seq<char>, album: Album, year: nat, order: Seq<usize>) -> MetadataView {
    MetadataView {
        id: Some(id),
        album: album.name@,
        date: year as u32,
        genre: joined(texts_view(album.genres@), ", "@),
        tracks: order.map_values(|k: usize| item_track(album.tracks.items@[k as int])),
    }
}

/// `k` is the image that a stable sort by height puts last.
pub open spec fn is_largest_image(images: Seq<Image>, k: int) -> bool {
    &&& 0 <= k < images.len()
    &&& forall|j: int| 0 <= j < images.len() ==> images[j].height <= images[k].height
    &&& forall|j: int| k < j < images.len() ==> images[j].height < images[k].height
}

impl Spotify {
    pub fn new(client: Client) -> (r: Spotify)
        ensures
            r.client_spec() == client,
    {
        Spotify { client }
    }

    pub closed spec fn client_spec(&self) -> Client {
        self.client
    }

    pub fn client(&self) -> (r: &Client)
        ensures
            *r == self.client_spec(),
    {
        &self.client
    }

    /// Gives the client, to refresh its token.
    pub fn client_mut(&mut self) -> (r: &mut Client)
        ensures
            *r == old(self).client_spec(),
            final(self).client_spec() == *final(r),
    {
        &mut self.client
    }

    /// The album search for `query`.
    pub fn search_request(&self, query: &str) -> (r: Request)
        ensures
            r.url@ == "https://api.spotify.com/v1/search"@,
            params_view(r.params@) == seq![
                pair_view("q"@, query@),
                pair_view("type"@, "album"@),
                pair_view("market"@, "JP"@),
            ],
    {
        let mut params: Vec<(String, String)> = Vec::new();
        params.push((String::from_str("q"), String::from_str(query)));
        params.push((String::from_str("type"), String::from_str("album")));
        params.push((String::from_str("market"), String::from_str("JP")));
        assert(params_view(params@) =~= seq![
            pair_view("q"@, query@),
            pair_view("type"@, "album"@),
            pair_view("market"@, "JP"@),
        ]);
        Request { url: String::from_str("https://api.spotify.com/v1/search"), params }
    }

    /// The detail of album `id`.
    pub fn album_request(&self, id: &str) -> (r: Request)
        ensures
            r.url@ == "https://api.spotify.com/v1/albums/"@ + id@,
            params_view(r.params@) == seq![pair_view("market"@, "JP"@)],
    {
        let mut params: Vec<(String, String)> = Vec::new();
        params.push((String::from_str("market"), String::from_str("JP")));
        assert(params_view(params@) =~= seq![pair_view("market"@, "JP"@)]);
        let url = String::from_str("https://api.spotify.com/v1/albums/").concat(id);
        Request { url, params }
    }
}

/// The year of an album according to the precision of its release date.
pub fn release_year(precision: &str, date: &str) -> (r: Result<u32, Error>)
    ensures
        match album_year(precision@, date@) {
            Some(y) => r == Ok::<u32, Error>(y as u32),
            None => r == Err::<u32, Error>(Error::Parse),
        },
{
    if text_eq(precision, "year") {
        match parse_decimal(date, u32::MAX as usize) {
            Some(y) => Ok(y as u32),
            None => Err(Error::Parse),
        }
    } else if text_eq(precision, "month") || text_eq(precision, "day") {
        crate::net::music_brainz::release_year(date)
    } else {
        Ok(0)
    }
}

/// The albums that a search asks to fetch: none when it reports no match.
pub fn albums_to_fetch(search: &AlbumSearch) -> (r: Vec<String>)
    ensures
        search.total > 0 ==> texts_view(r@) == texts_view(search.ids@),
        search.total <= 0 ==> r@.len() == 0,
{
    let mut r: Vec<String> = Vec::new();
    if search.total <= 0 {
        return r;
    }
    let mut i: usize = 0;
    while i < search.ids.len()
        invariant
            i <= search.ids@.len(),
            texts_view(r@) == texts_view(search.ids@).take(i as int),
        decreases search.ids.len() - i,
    {
        let ghost prev = texts_view(r@);
        let id = search.ids[i].clone();
        assert(id@ == search.ids@[i as int]@);
        r.push(id);
        assert(texts_view(r@) =~= prev.push(search.ids@[i as int]@));
        assert(texts_view(r@) =~= texts_view(search.ids@).take(i + 1));
        i = i + 1;
    }
    assert(texts_view(search.ids@).take(search.ids.len() as int) =~= texts_view(search.ids@));
    r
}

/// The order of the album's tracks by track number: the indices of `items`
/// sorted stably by their track numbers.
pub fn track_order(items: &Vec<Item>) -> (r: Vec<usize>)
    ensures
        is_permutation(r@, items@.len()),
        stably_sorted(track_numbers(items@), r@),
{
    let ghost keys = track_numbers(items@);
    let n = items.len();
    let mut order: Vec<usize> = Vec::with_capacity(n);
    let mut k: usize = 0;
    while k < n
        invariant
            n == items@.len(),
            keys == track_numbers(items@),
            k <= n,
            is_permutation(order@, k as nat),
            stably_sorted(keys, order@),
        decreases n - k,
    {
        let key = items[k].track_number;
        let mut p: usize = 0;
        while p < order.len() && items[order[p]].track_number <= key
            invariant
                n == items@.len(),
                keys == track_numbers(items@),
                k < n,
                p <= order@.len(),
                is_permutation(order@, k as nat),
                forall|q: int| 0 <= q < p ==> keys[order@[q] as int] <= key,
            decreases order.len() - p,
        {
            p = p + 1;
        }
        let ghost old_order = order@;
        assert(keys[k as int] == key);
        assert(p < old_order.len() ==> keys[old_order[p as int] as int] > key);
        assert forall|q: int| p <= q < old_order.len() implies keys[old_order[q] as int] > key by {
            if q > p {
                assert(keys[old_order[p as int] as int] <= keys[old_order[q] as int]);
            }
        }
        order.insert(p, k);
        assert(order@ == old_order.insert(p as int, k));
        assert forall|i: int, j: int| 0 <= i < j < order@.len() implies {
            ||| keys[order@[i] as int] < keys[order@[j] as int]
            ||| (keys[order@[i] as int] == keys[order@[j] as int] && order@[i] < order@[j])
        } by {
            if j < p {
                assert(order@[i] == old_order[i] && order@[j] == old_order[j]);
            } else if j == p {
                assert(order@[i] == old_order[i]);
            } else if i < p {
                assert(order@[i] == old_order[i] && order@[j] == old_order[j - 1]);
            } else if i == p {
                assert(order@[j] == old_order[j - 1]);
            } else {
                assert(order@[i] == old_order[i - 1] && order@[j] == old_order[j - 1]);
            }
        }
        assert forall|i: int, j: int| 0 <= i < j < order@.len() implies order@[i] != order@[j] by {
            if j < p {
                assert(order@[i] == old_order[i] && order@[j] == old_order[j]);
            } else if j == p {
                assert(order@[i] == old_order[i]);
            } else if i < p {
                assert(order@[i] == old_order[i] && order@[j] == old_order[j - 1]);
            } else if i == p {
                assert(order@[j] == old_order[j - 1]);
            } else {
                assert(order@[i] == old_order[i - 1] && order@[j] == old_order[j - 1]);
            }
        }
        assert forall|i: int| 0 <= i < order@.len() implies order@[i] < k + 1 by {
            if i < p {
                assert(order@[i] == old_order[i]);
            } else if i > p {
                assert(order@[i] == old_order[i - 1]);
            }
        }
        k = k + 1;
    }
    order
}

/// The track that an album item gives.
pub fn item_to_track(item: &Item) -> (r: Track)
    ensures
        r@ == item_track(*item),
{
    let mut names: Vec<String> = Vec::with_capacity(item.artists.len());
    let mut i: usize = 0;
    while i < item.artists.len()
        invariant
            i <= item.artists@.len(),
            texts_view(names@) == item.artists@.map_values(|a: inner_structs::Artist| a.name@).take(
                i as int,
            ),
        decreases item.artists.len() - i,
    {
        let ghost prev = texts_view(names@);
        names.push(item.artists[i].name.clone());
        assert(texts_view(names@) =~= prev.push(item.artists@[i as int].name@));
        assert(texts_view(names@) =~= item.artists@.map_values(
            |a: inner_structs::Artist| a.name@,
        ).take(i + 1));
        i = i + 1;
    }
    assert(item.artists@.map_values(|a: inner_structs::Artist| a.name@).take(
        item.artists.len() as int,
    ) =~= item.artists@.map_values(|a: inner_structs::Artist| a.name@));
    Track::new(item.name.clone(), join_texts(&names, ", "))
}

/// The dimensions of all images, `H x W`, joined with `, `.
pub fn image_summary(images: &Vec<Image>) -> (r: String)
    ensures
        r@ == images_text(images@),
{
    let mut parts: Vec<String> = Vec::with_capacity(images.len());
    let mut i: usize = 0;
    while i < images.len()
        invariant
            i <= images@.len(),
            texts_view(parts@) == images@.map_values(|m: Image| image_text(m)).take(i as int),
        decreases images.len() - i,
    {
        let ghost prev = texts_view(parts@);
        let img = &images[i];
        let part = signed_string(img.height).concat(" x ").concat(signed_string(img.width).as_str());
        parts.push(part);
        assert(texts_view(parts@) =~= prev.push(image_text(images@[i as int])));
        assert(texts_view(parts@) =~= images@.map_values(|m: Image| image_text(m)).take(i + 1));
        i = i + 1;
    }
    assert(images@.map_values(|m: Image| image_text(m)).take(images.len() as int)
        =~= images@.map_values(|m: Image| image_text(m)));
    join_texts(&parts, ", ")
}

/// The additional facts of an album.
pub fn album_info(album: &Album) -> (r: AddInfo)
    ensures
        add_info_view(r@) == album_add_info(*album),
{
    let mut r: AddInfo = Vec::new();
    if album.images.len() > 0 {
        r.push((String::from_str("image"), image_summary(&album.images)));
    }
    let ghost head = add_info_view(r@);
    let mut i: usize = 0;
    while i < album.external_ids.len()
        invariant
            i <= album.external_ids@.len(),
            add_info_view(r@) == head + add_info_view(album.external_ids@).take(i as int),
        decreases album.external_ids.len() - i,
    {
        let ghost prev = add_info_view(r@);
        let (k, v) = (&album.external_ids[i].0, &album.external_ids[i].1);
        r.push((k.clone(), v.clone()));
        assert(add_info_view(r@) =~= prev.push(add_info_view(album.external_ids@)[i as int]));
        assert(add_info_view(r@) =~= head + add_info_view(album.external_ids@).take(i + 1));
        i = i + 1;
    }
    assert(add_info_view(album.external_ids@).take(album.external_ids.len() as int)
        =~= add_info_view(album.external_ids@));
    assert(add_info_view(r@) =~= album_add_info(*album));
    r
}

/// Builds album `id` from its detail, its tracks sorted by track number.
/// Fails when the release date does not hold the year its precision names.
pub fn album_metadata(id: &str, album: &Album) -> (r: Result<(Metadata, AddInfo), Error>)
    ensures
        match album_year(album.release_date_precision@, album.release_date@) {
            Some(y) => r matches Ok(v) && exists|order: Seq<usize>|
                is_permutation(order, album.tracks.items@.len())
                && stably_sorted(track_numbers(album.tracks.items@), order)
                && v.0@ == album_view(id@, *album, y, order)
                && add_info_view(v.1@) == album_add_info(*album),
            None => r matches Err(e) && e == Error::Parse,
        },
{
    let date = match release_year(album.release_date_precision.as_str(), album.release_date.as_str()) {
        Ok(y) => y,
        Err(e) => return Err(e),
    };
    let items = &album.tracks.items;
    let order = track_order(items);
    let mut tracks: Vec<Track> = Vec::with_capacity(order.len());
    let mut i: usize = 0;
    while i < order.len()
        invariant
            i <= order@.len(),
            is_permutation(order@, items@.len()),
            tracks_view(tracks@) == order@.map_values(|k: usize| item_track(items@[k as int])).take(
                i as int,
            ),
        decreases order.len() - i,
    {
        let ghost prev = tracks_view(tracks@);
        tracks.push(item_to_track(&items[order[i]]));
        assert(tracks_view(tracks@) =~= prev.push(item_track(items@[order@[i as int] as int])));
        assert(tracks_view(tracks@) =~= order@.map_values(
            |k: usize| item_track(items@[k as int]),
        ).take(i + 1));
        i = i + 1;
    }
    assert(order@.map_values(|k: usize| item_track(items@[k as int])).take(order.len() as int)
        =~= order@.map_values(|k: usize| item_track(items@[k as int])));
    let meta = Metadata::new(
        Some(String::from_str(id)),
        album.name.clone(),
        date,
        join_texts(&album.genres, ", "),
        tracks,
    );
    let info = album_info(album);
    assert(meta@ == album_view(id@, *album, date as nat, order@));
    Ok((meta, info))
}

/// The URL of the largest cover image: the last of the images with the
/// greatest height.
pub fn largest_image(images: &Vec<Image>) -> (r: Result<&String, Error>)
    ensures
        images@.len() > 0 ==> (r matches Ok(u) && exists|k: int|
            is_largest_image(images@, k) && *u == images@[k].url),
        images@.len() == 0 ==> (r matches Err(e) && e == Error::Provider),
{
    if images.len() == 0 {
        return Err(Error::Provider);
    }
    let mut best: usize = 0;
    let mut i: usize = 1;
    while i < images.len()
        invariant
            0 < i <= images@.len(),
            best < i,
            forall|j: int| 0 <= j < i ==> images@[j].height <= images@[best as int].height,
            forall|j: int| best < j < i ==> images@[j].height < images@[best as int].height,
        decreases images.len() - i,
    {
        if images[i].height >= images[best].height {
            best = i;
        }
        i = i + 1;
    }
    assert(is_largest_image(images@, best as int));
    Ok(&images[best].url)
}

} // verus!
