//! A cover picture: its bytes and MIME type.
use vstd::prelude::*;
use crate::error::Error;
use crate::info_struct::opt_string_view;

verus! {

/// The MIME type that mime_guess gives for a path, by its extension.
pub uninterp spec fn guessed_mime(path: Seq<char>) -> Option<Seq<char>>;

/// The file extensions that mime_guess knows for a MIME type, in its order.
pub uninterp spec fn mime_extensions_of(mime: Seq<char>) -> Option<Seq<Seq<char>>>;

/// Relies on mime_guess::from_path and MimeGuess::first: the first MIME type
/// known for the path's extension, with no disk access.
#[verifier::external_body]
fn guess_mime(path: &str) -> (r: Option<String>)
    ensures
        opt_string_view(r) == guessed_mime(path@),
{
    mime_guess::from_path(path).first().map(|m| m.as_ref().to_string())
}

/// Relies on mime_guess::get_mime_extensions_str: the extensions known for
/// a MIME type, or none when it is unknown.
#[verifier::external_body]
fn mime_extensions(mime: &str) -> (r: Option<Vec<String>>)
    ensures
        match r {
            Some(v) => mime_extensions_of(mime@) == Some(v@.map_values(|e: String| e@)),
            None => mime_extensions_of(mime@) is None,
        },
{
    mime_guess::get_mime_extensions_str(mime).map(|exts| exts.iter().map(|e| e.to_string()).collect())
}

/// A picture's bytes and MIME type.
pub struct Picture {
    pub raw: Vec<u8>,
    pub mime: String,
}

impl Picture {
    pub fn new(raw: Vec<u8>, mime: String) -> (r: Picture)
        ensures
            r.raw@ == raw@,
            r.mime@ == mime@,
    {
        Picture { raw, mime }
    }

    /// A guessed MIME type, or the empty text when there is none.
    pub fn mime_or_empty(guess: Option<String>) -> (r: String)
        ensures
            r@ == match opt_string_view(guess) {
                Some(m) => m,
                None => Seq::empty(),
            },
    {
        match guess {
            Some(m) => m,
            None => String::new(),
        }
    }

    /// The picture stored in the file `path`, whose bytes are `raw`: its MIME
    /// type is guessed from the file name, and is empty when unknown.
    pub fn from_file(raw: Vec<u8>, path: &str) -> (r: Picture)
        ensures
            r.raw@ == raw@,
            r.mime@ == match guessed_mime(path@) {
                Some(m) => m,
                None => Seq::empty(),
            },
    {
        Picture::new(raw, Picture::mime_or_empty(guess_mime(path)))
    }

    /// The first of the extensions known for a MIME type.
    pub fn first_extension(exts: Option<Vec<String>>) -> (r: Result<String, Error>)
        ensures
            match exts {
                Some(v) => if v@.len() > 0 {
                    r matches Ok(e) && e@ == v@[0]@
                } else {
                    r == Err::<String, Error>(Error::Precondition)
                },
                None => r == Err::<String, Error>(Error::Precondition),
            },
    {
        match exts {
            Some(v) => {
                if v.len() > 0 {
                    Ok(v[0].clone())
                } else {
                    Err(Error::Precondition)
                }
            },
            None => Err(Error::Precondition),
        }
    }

    /// The file extension that this picture is saved under: the first one
    /// known for its MIME type.
    pub fn extension(&self) -> (r: Result<String, Error>)
        ensures
            match mime_extensions_of(self.mime@) {
                Some(v) => if v.len() > 0 {
                    r matches Ok(e) && e@ == v[0]
                } else {
                    r == Err::<String, Error>(Error::Precondition)
                },
                None => r == Err::<String, Error>(Error::Precondition),
            },
    {
        Picture::first_extension(mime_extensions(self.mime.as_str()))
    }
}

} // verus!
