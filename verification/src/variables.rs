//! The free-form `variables` section of a manifest: named text values the
//! format carries but no resolution step reads.

use vstd::prelude::*;

verus! {

/// Named text values, in declared order.
#[derive(Debug, Clone, PartialEq, Eq)]
pub struct Variables {
    pub variables: Vec<(String, String)>,
}

} // verus!
