//! The nodes that a highlight selection marks.
use crate::layout::nodes::{find_node, node_index};
use crate::scene::defrag_event::snapshot_view;
use crate::scene::element::{elements_view, ElementData, ElementModel};
use crate::scene::service::{path_view, ServiceData, ServiceModel};
use std::collections::HashMap;
use vstd::prelude::*;

verus! {

broadcast use vstd::std_specs::hash::group_hash_axioms;

/// One of the first `upto` positions of the path names the node with index `i`.
pub open spec fn names_node(nodes: Seq<ElementModel>, path: Seq<Seq<char>>, upto: int, i: int) -> bool {
    exists|k: int| 0 <= k < upto && node_index(nodes, #[trigger] path[k]) == Some(i)
}

/// The highlighted id at position `h` is a service of the snapshot whose path
/// names the node with index `i`.
pub open spec fn marked_by(
    nodes: Seq<ElementModel>,
    snapshot: Map<i32, ServiceModel>,
    highlighted: Seq<i32>,
    h: int,
    i: int,
) -> bool {
    snapshot.contains_key(highlighted[h]) && names_node(
        nodes,
        snapshot[highlighted[h]].path,
        snapshot[highlighted[h]].path.len() as int,
        i,
    )
}

/// One of the first `upto` highlighted ids marks the node with index `i`.
pub open spec fn marked_upto(
    nodes: Seq<ElementModel>,
    snapshot: Map<i32, ServiceModel>,
    highlighted: Seq<i32>,
    upto: int,
    i: int,
) -> bool {
    exists|h: int| 0 <= h < upto && #[trigger] marked_by(nodes, snapshot, highlighted, h, i)
}

/// For each node, whether it is drawn in the highlight colour: whether the
/// path of a highlighted service of the snapshot names it.
pub open spec fn node_marks(
    nodes: Seq<ElementModel>,
    snapshot: Map<i32, ServiceModel>,
    highlighted: Seq<i32>,
) -> Seq<bool> {
    Seq::new(
        nodes.len(),
        |i: int| marked_upto(nodes, snapshot, highlighted, highlighted.len() as int, i),
    )
}

/// Marks the nodes that a path names.
fn mark_path(nodes: &[ElementData], path: &Vec<String>, marks: &mut Vec<bool>)
    requires
        old(marks)@.len() == nodes@.len(),
    ensures
        final(marks)@.len() == nodes@.len(),
        forall|i: int|
            0 <= i < nodes@.len() ==> (#[trigger] final(marks)@[i] <==> old(marks)@[i] || names_node(
                elements_view(nodes@),
                path_view(path@),
                path@.len() as int,
                i,
            )),
{
    let ghost nm = elements_view(nodes@);
    let ghost pv = path_view(path@);
    let mut k: usize = 0;
    while k < path.len()
        invariant
            k <= path.len(),
            nm == elements_view(nodes@),
            pv == path_view(path@),
            marks@.len() == nodes@.len(),
            forall|i: int|
                0 <= i < nodes@.len() ==> (#[trigger] marks@[i] <==> old(marks)@[i] || names_node(
                    nm,
                    pv,
                    k as int,
                    i,
                )),
        decreases path.len() - k,
    {
        let ghost before = marks@;
        let found = find_node(nodes, &path[k]);
        match found {
            Some(i) => {
                marks[i] = true;
            },
            None => {},
        }
        proof {
            let hit = node_index(nm, pv[k as int]);
            assert forall|i: int| 0 <= i < nodes@.len() implies (#[trigger] marks@[i]
                <==> old(marks)@[i] || names_node(nm, pv, k + 1, i)) by {
                if names_node(nm, pv, k as int, i) {
                    let w = choose|w: int| 0 <= w < k && node_index(nm, #[trigger] pv[w]) == Some(i);
                    assert(0 <= w < k + 1 && node_index(nm, pv[w]) == Some(i));
                }
                if hit == Some(i) {
                    assert(0 <= k < k + 1 && node_index(nm, pv[k as int]) == Some(i));
                }
                if names_node(nm, pv, k + 1, i) {
                    let w = choose|w: int|
                        0 <= w < k + 1 && node_index(nm, #[trigger] pv[w]) == Some(i);
                    if w < k {
                        assert(names_node(nm, pv, k as int, i));
                    } else {
                        assert(hit == Some(i));
                    }
                }
                assert(before[i] <==> old(marks)@[i] || names_node(nm, pv, k as int, i));
            }
        }
        k += 1;
    }
}

/// For each node, whether the path of a highlighted service of the snapshot
/// names it.
pub fn mark_nodes(nodes: &[ElementData], services: &HashMap<i32, ServiceData>, highlighted: &[i32]) -> (marks:
    Vec<bool>)
    ensures
        marks@ == node_marks(elements_view(nodes@), snapshot_view(services@), highlighted@),
{
    let ghost nm = elements_view(nodes@);
    let ghost snapshot = snapshot_view(services@);
    let mut marks: Vec<bool> = Vec::new();
    let mut n: usize = 0;
    while n < nodes.len()
        invariant
            n <= nodes.len(),
            marks@.len() == n,
            forall|i: int| 0 <= i < n ==> !marks@[i],
        decreases nodes.len() - n,
    {
        marks.push(false);
        n += 1;
    }
    let mut h: usize = 0;
    while h < highlighted.len()
        invariant
            h <= highlighted.len(),
            nm == elements_view(nodes@),
            snapshot == snapshot_view(services@),
            marks@.len() == nodes@.len(),
            forall|i: int|
                0 <= i < nodes@.len() ==> (#[trigger] marks@[i] <==> marked_upto(
                    nm,
                    snapshot,
                    highlighted@,
                    h as int,
                    i,
                )),
        decreases highlighted.len() - h,
    {
        let ghost before = marks@;
        match services.get(&highlighted[h]) {
            Some(service) => {
                mark_path(nodes, &service.path, &mut marks);
            },
            None => {},
        }
        proof {
            assert forall|i: int| 0 <= i < nodes@.len() implies (#[trigger] marks@[i]
                <==> marked_upto(nm, snapshot, highlighted@, h + 1, i)) by {
                let here = marked_by(nm, snapshot, highlighted@, h as int, i);
                assert(marks@[i] <==> before[i] || here);
                if marked_upto(nm, snapshot, highlighted@, h as int, i) {
                    let w = choose|w: int|
                        0 <= w < h && #[trigger] marked_by(nm, snapshot, highlighted@, w, i);
                    assert(0 <= w < h + 1 && marked_by(nm, snapshot, highlighted@, w, i));
                }
                if here {
                    assert(0 <= h < h + 1 && marked_by(nm, snapshot, highlighted@, h as int, i));
                }
                if marked_upto(nm, snapshot, highlighted@, h + 1, i) {
                    let w = choose|w: int|
                        0 <= w < h + 1 && #[trigger] marked_by(nm, snapshot, highlighted@, w, i);
                    if w < h {
                        assert(marked_upto(nm, snapshot, highlighted@, h as int, i));
                    }
                }
            }
        }
        h += 1;
    }
    assert(marks@ =~= node_marks(nm, snapshot, highlighted@));
    marks
}

} // verus!
