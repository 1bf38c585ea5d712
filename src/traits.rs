//! Capabilities that local backends and remote catalogs provide.
use vstd::prelude::*;
use crate::error::Error;
use crate::fileio::picture::Picture;
use crate::info_struct::{AddInfo, Metadata};

verus! {

/// Reads and writes a release's metadata.
pub trait MetaFileIO {
    fn read(&self) -> Result<Metadata, Error>;

    fn write(&self, meta: &Metadata) -> Result<(), Error>;
}

/// Reads and writes a release's cover picture.
pub trait PictureFileIO {
    fn read(&self) -> Result<Picture, Error>;

    fn write(&self, picture: &Picture) -> Result<(), Error>;
}

/// Finds and fetches releases from a catalog.
pub trait FetchMeta {
    fn query(&self, query: &str) -> Result<Vec<(Metadata, AddInfo)>, Error>;

    fn fetch_all(&self, id: &str) -> Result<(Metadata, AddInfo), Error>;

    /// The release alone, without its additional facts.
    fn fetch(&self, id: &str) -> Result<Metadata, Error> {
        match self.fetch_all(id) {
            Ok(found) => Ok(found.0),
            Err(e) => Err(e),
        }
    }
}

/// Fetches a release's cover picture from a catalog.
pub trait FetchPicture {
    fn fetch_picture(&self, id: &str) -> Result<Picture, Error>;
}

} // verus!
