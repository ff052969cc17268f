//! A node of the topology.
use crate::single::Single;
use vstd::prelude::*;

verus! {

/// Map coordinates of a node. The vertical axis of the map points down.
#[derive(Clone, Copy, Debug, PartialEq, Eq)]
pub struct Location {
    pub x: Single,
    pub y: Single,
}

/// What is known of a node besides its names.
#[derive(Clone, Copy, Debug, PartialEq, Eq)]
pub struct Metadata {
    pub location: Location,
}

/// A node of the topology. Services and links refer to it by `element_id`.
#[derive(Debug, PartialEq, Eq)]
pub struct ElementData {
    pub name: String,
    pub node_type: String,
    pub type_variety: String,
    pub metadata: Metadata,
    pub element_id: String,
}

/// A node as plain mathematical data.
pub struct ElementModel {
    pub name: Seq<char>,
    pub node_type: Seq<char>,
    pub type_variety: Seq<char>,
    pub location: Location,
    pub element_id: Seq<char>,
}

impl Location {
    /// The point in world coordinates, whose vertical axis points up: the
    /// same `x`, and `y` with the opposite sign.
    pub open spec fn world_spec(self) -> Location {
        Location { x: self.x, y: self.y.neg_spec() }
    }

    /// The two points have the same coordinates, as numbers.
    pub open spec fn coincides_spec(self, other: Location) -> bool {
        self.x.same_spec(other.x) && self.y.same_spec(other.y)
    }

    /// The point in world coordinates.
    pub fn world(self) -> (w: Location)
        ensures
            w == self.world_spec(),
    {
        Location { x: self.x, y: self.y.neg() }
    }

    /// Whether the two points have the same coordinates.
    pub fn coincides(self, other: Location) -> (r: bool)
        ensures
            r == self.coincides_spec(other),
    {
        self.x.same(other.x) && self.y.same(other.y)
    }
}

impl View for ElementData {
    type V = ElementModel;

    open spec fn view(&self) -> ElementModel {
        ElementModel {
            name: self.name@,
            node_type: self.node_type@,
            type_variety: self.type_variety@,
            location: self.metadata.location,
            element_id: self.element_id@,
        }
    }
}

impl Clone for ElementData {
    /// A copy with the same contents.
    fn clone(&self) -> (copy: ElementData)
        ensures
            copy@ == self@,
    {
        ElementData {
            name: self.name.clone(),
            node_type: self.node_type.clone(),
            type_variety: self.type_variety.clone(),
            metadata: self.metadata,
            element_id: self.element_id.clone(),
        }
    }
}

/// A list of nodes as plain mathematical data.
pub open spec fn elements_view(nodes: Seq<ElementData>) -> Seq<ElementModel> {
    Seq::new(nodes.len(), |i: int| nodes[i]@)
}

} // verus!
