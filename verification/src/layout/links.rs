//! The boundaries of the links.
use crate::layout::nodes::{find_node, node_index};
use crate::layout::{Boundary, Warning};
use crate::scene::connection::{connections_view, ConnectionData, ConnectionModel};
use crate::scene::element::{elements_view, ElementData, ElementModel};
use vstd::prelude::*;

verus! {

/// The boundary that the link with index `k` is drawn with: none where an
/// endpoint is unknown or the endpoints coincide.
pub open spec fn link_boundary(nodes: Seq<ElementModel>, links: Seq<ConnectionModel>, k: int) -> Option<
    Boundary,
> {
    match (node_index(nodes, links[k].from_node), node_index(nodes, links[k].to_node)) {
        (Some(s), Some(t)) => if nodes[s].location.coincides_spec(nodes[t].location) {
            None
        } else {
            Some(Boundary { link: k as usize, source: s as usize, target: t as usize })
        },
        _ => None,
    }
}

/// An endpoint of the link with index `k` is not a known node.
pub open spec fn link_unknown(nodes: Seq<ElementModel>, links: Seq<ConnectionModel>, k: int) -> bool {
    node_index(nodes, links[k].from_node) is None || node_index(nodes, links[k].to_node) is None
}

/// The boundaries of the first `n` links, in the order of the links.
pub open spec fn link_boundaries(nodes: Seq<ElementModel>, links: Seq<ConnectionModel>, n: int) -> Seq<
    Boundary,
>
    decreases n,
{
    if n <= 0 {
        Seq::empty()
    } else {
        match link_boundary(nodes, links, n - 1) {
            Some(b) => link_boundaries(nodes, links, n - 1).push(b),
            None => link_boundaries(nodes, links, n - 1),
        }
    }
}

/// The warnings about the first `n` links, in the order of the links.
pub open spec fn link_warnings(nodes: Seq<ElementModel>, links: Seq<ConnectionModel>, n: int) -> Seq<
    Warning,
>
    decreases n,
{
    if n <= 0 {
        Seq::empty()
    } else if link_unknown(nodes, links, n - 1) {
        link_warnings(nodes, links, n - 1).push(Warning::UnknownLinkNode { link: (n - 1) as usize })
    } else {
        link_warnings(nodes, links, n - 1)
    }
}

/// Plans the boundaries of the links, and adds a warning for each link with
/// an unknown endpoint.
pub fn plan_links(nodes: &[ElementData], links: &[ConnectionData], warnings: &mut Vec<Warning>) -> (boundaries:
    Vec<Boundary>)
    ensures
        boundaries@ == link_boundaries(
            elements_view(nodes@),
            connections_view(links@),
            links@.len() as int,
        ),
        final(warnings)@ == old(warnings)@ + link_warnings(
            elements_view(nodes@),
            connections_view(links@),
            links@.len() as int,
        ),
{
    let ghost nm = elements_view(nodes@);
    let ghost lm = connections_view(links@);
    let mut boundaries: Vec<Boundary> = Vec::new();
    let mut k: usize = 0;
    assert(warnings@ =~= old(warnings)@ + link_warnings(nm, lm, 0));
    while k < links.len()
        invariant
            k <= links.len(),
            nm == elements_view(nodes@),
            lm == connections_view(links@),
            boundaries@ == link_boundaries(nm, lm, k as int),
            warnings@ == old(warnings)@ + link_warnings(nm, lm, k as int),
        decreases links.len() - k,
    {
        let source = find_node(nodes, &links[k].from_node);
        let target = find_node(nodes, &links[k].to_node);
        let ghost earlier = link_warnings(nm, lm, k as int);
        match (source, target) {
            (Some(s), Some(t)) => {
                if !nodes[s].metadata.location.coincides(nodes[t].metadata.location) {
                    boundaries.push(Boundary { link: k, source: s, target: t });
                }
            },
            _ => {
                warnings.push(Warning::UnknownLinkNode { link: k });
                assert(warnings@ =~= old(warnings)@ + earlier.push(
                    Warning::UnknownLinkNode { link: k },
                ));
            },
        }
        k += 1;
    }
    boundaries
}

} // verus!
