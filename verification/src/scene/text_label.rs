//! A label to be drawn at a point of the world.
use crate::single::Single;
use vstd::prelude::*;

verus! {

/// A text with the world position it belongs to and the radius of the node
/// that it annotates.
#[derive(Debug, PartialEq, Eq)]
pub struct TextLabel {
    pub content: String,
    pub radius_scale: Single,
    pub position: [Single; 2],
}

/// A label as plain mathematical data.
pub struct TextLabelModel {
    pub content: Seq<char>,
    pub radius_scale: Single,
    pub x: Single,
    pub y: Single,
}

impl View for TextLabel {
    type V = TextLabelModel;

    open spec fn view(&self) -> TextLabelModel {
        TextLabelModel {
            content: self.content@,
            radius_scale: self.radius_scale,
            x: self.position[0],
            y: self.position[1],
        }
    }
}

impl Clone for TextLabel {
    /// A copy with the same contents.
    fn clone(&self) -> (copy: TextLabel)
        ensures
            copy@ == self@,
    {
        TextLabel {
            content: self.content.clone(),
            radius_scale: self.radius_scale,
            position: self.position,
        }
    }
}

/// A list of labels as plain mathematical data.
pub open spec fn labels_view(labels: Seq<TextLabel>) -> Seq<TextLabelModel> {
    Seq::new(labels.len(), |i: int| labels[i]@)
}

} // verus!
