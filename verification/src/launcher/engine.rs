//! What an inference engine says of itself.

use vstd::prelude::*;

verus! {

/// An engine by name and version.
#[derive(Debug, PartialEq, Eq)]
pub struct EngineSpec {
    pub id: String,
    pub display_name: String,
    pub version: String,
}

} // verus!
