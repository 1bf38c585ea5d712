//! The parts of token-gated catalog payloads that the resolver reads.
use vstd::prelude::*;

verus! {

#[derive(Debug)]
pub struct Artist {
    pub name: String,
}

#[derive(Debug)]
pub struct Image {
    pub height: i32,
    pub width: i32,
    pub url: String,
}

/// One track of an album.
#[derive(Debug)]
pub struct Item {
    pub track_number: i32,
    pub name: String,
    pub artists: Vec<Artist>,
}

#[derive(Debug)]
pub struct Tracks {
    pub items: Vec<Item>,
}

/// Album detail. `external_ids` holds the provider's external identifiers
/// as key and rendered value, in the provider's order.
#[derive(Debug)]
pub struct Album {
    pub genres: Vec<String>,
    pub images: Vec<Image>,
    pub name: String,
    pub release_date: String,
    pub release_date_precision: String,
    pub tracks: Tracks,
    pub external_ids: Vec<(String, String)>,
}

/// The album part of a search result: the number of matches reported, and
/// the identifiers of the albums listed.
#[derive(Debug)]
pub struct AlbumSearch {
    pub total: i64,
    pub ids: Vec<String>,
}

} // verus!
