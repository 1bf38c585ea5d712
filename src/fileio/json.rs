//! The structured-file representation of a release, at a path.
use vstd::prelude::*;

verus! {

/// A structured file holding a release.
pub struct Json {
    path: String,
}

impl View for Json {
    type V = Seq<char>;

    /// The path of the file.
    closed spec fn view(&self) -> Seq<char> {
        self.path@
    }
}

impl Json {
    pub fn new(path: String) -> (r: Json)
        ensures
            r@ == path@,
    {
        Json { path }
    }

    pub fn path(&self) -> (r: &str)
        ensures
            r@ == self@,
    {
        self.path.as_str()
    }
}

} // verus!
