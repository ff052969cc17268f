//! Finding a node by its identifier, and the direction between two nodes.
use crate::scene::element::{elements_view, ElementData, ElementModel, Location};
use vstd::prelude::*;

verus! {

/// The index of the node with the given identifier: that of the last such
/// node in the list, `None` where there is none.
pub open spec fn node_index(nodes: Seq<ElementModel>, id: Seq<char>) -> Option<int>
    decreases nodes.len(),
{
    if nodes.len() == 0 {
        None
    } else if nodes.last().element_id == id {
        Some(nodes.len() - 1)
    } else {
        node_index(nodes.drop_last(), id)
    }
}

/// What `node_index` finds: a node with the identifier that no later node
/// shares, or nothing where no node has it.
pub proof fn lemma_node_index(nodes: Seq<ElementModel>, id: Seq<char>)
    ensures
        match node_index(nodes, id) {
            Some(i) => 0 <= i < nodes.len() && nodes[i].element_id == id && forall|j: int|
                i < j < nodes.len() ==> (#[trigger] nodes[j]).element_id != id,
            None => forall|j: int| 0 <= j < nodes.len() ==> (#[trigger] nodes[j]).element_id != id,
        },
    decreases nodes.len(),
{
    if nodes.len() > 0 && nodes.last().element_id != id {
        lemma_node_index(nodes.drop_last(), id);
        let rest = nodes.drop_last();
        match node_index(rest, id) {
            Some(i) => {
                assert forall|j: int| i < j < nodes.len() implies (#[trigger] nodes[j]).element_id
                    != id by {
                    if j < rest.len() {
                        assert(rest[j].element_id != id);
                    }
                }
            },
            None => {
                assert forall|j: int| 0 <= j < nodes.len() implies (#[trigger] nodes[j]).element_id
                    != id by {
                    if j < rest.len() {
                        assert(rest[j].element_id != id);
                    }
                }
            },
        }
    }
}

/// The direction from one map location to another is upward in the world.
pub open spec fn upward(from: Location, to: Location) -> bool {
    to.world_spec().y.ge_spec(from.world_spec().y)
}

/// The index of the node with the given identifier.
pub fn find_node(nodes: &[ElementData], id: &String) -> (found: Option<usize>)
    ensures
        match found {
            Some(i) => i < nodes@.len() && node_index(elements_view(nodes@), id@) == Some(
                i as int,
            ),
            None => node_index(elements_view(nodes@), id@) is None,
        },
{
    let ghost model = elements_view(nodes@);
    let mut i: usize = nodes.len();
    assert(model.take(i as int) =~= model);
    while i > 0
        invariant
            i <= nodes.len(),
            model == elements_view(nodes@),
            node_index(model, id@) == node_index(model.take(i as int), id@),
        decreases i,
    {
        i -= 1;
        let ghost prefix = model.take(i + 1);
        assert(prefix.last() == nodes@[i as int]@);
        assert(prefix.drop_last() =~= model.take(i as int));
        if nodes[i].element_id == *id {
            return Some(i);
        }
    }
    None
}

/// Whether the direction from one map location to another is upward in the
/// world.
pub fn is_upward(from: Location, to: Location) -> (r: bool)
    ensures
        r == upward(from, to),
{
    to.world().y.ge(from.world().y)
}

} // verus!
