//! Remote catalogs: request policy and payload interpretation.
use vstd::prelude::*;
use crate::error::Error;
use crate::text::{bounded_decimal, parse_decimal};

pub mod music_brainz;
pub mod oauth2;
pub mod retry;
pub mod spotify;

verus! {

/// An HTTP GET request: its URL and query parameters in order.
pub struct Request {
    pub url: String,
    pub params: Vec<(String, String)>,
}

/// The length announced by an image response's Content-Length header, which
/// the catalogs' image downloads require.
pub fn content_length(header: Option<&str>) -> (r: Result<usize, Error>)
    ensures
        match header {
            Some(h) => match bounded_decimal(h@, usize::MAX as nat) {
                Some(v) => r == Ok::<usize, Error>(v as usize),
                None => r == Err::<usize, Error>(Error::Precondition),
            },
            None => r == Err::<usize, Error>(Error::Precondition),
        },
{
    match header {
        Some(h) => match parse_decimal(h, usize::MAX) {
            Some(v) => Ok(v),
            None => Err(Error::Precondition),
        },
        None => Err(Error::Precondition),
    }
}

} // verus!
