//! The parts of open-catalog payloads that the resolver reads.
use vstd::prelude::*;

verus! {

/// Which cover images a release has.
#[derive(Debug)]
pub struct CoverArtArchive {
    pub count: i32,
    pub artwork: bool,
    pub front: bool,
    pub back: bool,
}

/// Release detail.
#[derive(Debug)]
pub struct Release {
    pub id: String,
    pub title: String,
    pub date: String,
    pub genres: Vec<String>,
    pub cover_art_archive: CoverArtArchive,
    pub barcode: Option<String>,
}

/// One fragment of a recording's artist credit.
#[derive(Debug)]
pub struct ArtistCredit {
    pub name: String,
    pub joinphrase: String,
}

/// Recording detail.
#[derive(Debug)]
pub struct Recording {
    pub title: String,
    pub artist_credit: Vec<ArtistCredit>,
}

/// The cover listing of a release.
#[derive(Debug)]
pub struct Cover {
    pub images: Vec<Image>,
}

/// One entry of a cover listing.
#[derive(Debug)]
pub struct Image {
    pub front: bool,
    pub back: bool,
    pub image: String,
}

} // verus!
