//! A numbered node as it is drawn.
use crate::single::Single;
use vstd::prelude::*;

verus! {

/// A drawn node: its number, world position, radius and RGB colour.
#[derive(Clone, Copy, Debug, PartialEq, Eq)]
pub struct NodeData {
    pub id: u32,
    pub position: [Single; 2],
    pub radius_scale: Single,
    pub color: [u8; 3],
}

} // verus!
