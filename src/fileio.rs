//! Local files: tags, pictures and the structured-file representation.
use vstd::prelude::*;

pub mod json;
pub mod picture;
pub mod taglib;

verus! {

} // verus!
