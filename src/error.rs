use vstd::prelude::*;

verus! {

/// Failure kinds of the library.
#[derive(Clone, Copy, Debug, PartialEq, Eq, Structural)]
pub enum Error {
    /// A number in the input text is malformed or out of range.
    Parse,
    /// A file's tag container cannot be read or written.
    FileAccess,
    /// No file of the release could be opened.
    NoAudioFile,
    /// A connection-level failure.
    Transport,
    /// The catalog kept answering 503 after every retry.
    RateLimited,
    /// The catalog answered with another failing status.
    Status(u16),
    /// The catalog reported an error in its payload.
    Provider,
    /// Credentials are missing or the token exchange failed.
    Auth,
    /// An input does not meet what the operation needs.
    Precondition,
}

impl Error {
    /// A short human-readable description.
    pub fn message(&self) -> (r: String) {
        match self {
            Error::Parse => String::from_str("malformed number"),
            Error::FileAccess => String::from_str("no available tag found"),
            Error::NoAudioFile => String::from_str("no audio file could be opened"),
            Error::Transport => String::from_str("http transport error"),
            Error::RateLimited => String::from_str("http error: 503 resp"),
            Error::Status(_) => String::from_str("http error status"),
            Error::Provider => String::from_str("the catalog reported an error"),
            Error::Auth => String::from_str("authorization failed"),
            Error::Precondition => String::from_str("precondition not met"),
        }
    }
}

} // verus!
