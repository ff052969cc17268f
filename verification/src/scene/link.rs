//! A link between two numbered nodes, with its colour.
use vstd::prelude::*;

verus! {

/// A drawn link: the numbers of its two nodes and an RGB colour.
#[derive(Clone, Copy, Debug, PartialEq, Eq)]
pub struct LinkData {
    pub source_id: u32,
    pub target_id: u32,
    pub color: [u8; 3],
}

} // verus!
