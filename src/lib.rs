//! Music release metadata: mapping local files onto track slots, gathering
//! and distributing embedded tags, and turning remote catalog payloads into
//! one common metadata model.
use vstd::prelude::*;

pub mod error;
pub mod fileio;
pub mod info_struct;
pub mod net;
pub mod text;
pub mod track_index;
pub mod traits;

verus! {

} // verus!
