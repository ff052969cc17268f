//! What holds of every layout: nothing is drawn between coinciding nodes,
//! and a highlight changes emphasis alone.
use crate::lanes::effective_channel;
use crate::layout::links::{link_boundaries, link_boundary};
use crate::layout::marks::marked_by;
use crate::layout::nodes::{lemma_node_index, node_index};
use crate::layout::services::{
    elbow_lanes, elbow_route, emphasis_of, hop_lanes, hop_route, service_plan, services_plan,
};
use crate::layout::{layout_model, Boundary, Emphasis, Lane, Route};
use crate::order::ascending_ids;
use crate::scene::connection::ConnectionModel;
use crate::scene::element::ElementModel;
use crate::scene::service::ServiceModel;
use crate::single::Single;
use vstd::prelude::*;

verus! {

/// The boundary joins two nodes of the list that do not coincide, along a
/// link of the list.
pub open spec fn boundary_sound(nodes: Seq<ElementModel>, links: Seq<ConnectionModel>, b: Boundary) -> bool {
    &&& b.link < links.len()
    &&& b.source < nodes.len()
    &&& b.target < nodes.len()
    &&& !nodes[b.source as int].location.coincides_spec(nodes[b.target as int].location)
}

/// The route runs between nodes of the list, and no line of it joins two
/// nodes that coincide.
pub open spec fn route_sound(nodes: Seq<ElementModel>, route: Route) -> bool {
    match route {
        Route::Hop { source, target, .. } => {
            &&& source < nodes.len()
            &&& target < nodes.len()
            &&& !nodes[source as int].location.coincides_spec(nodes[target as int].location)
        },
        Route::Elbow { previous, middle, next, .. } => {
            &&& previous < nodes.len()
            &&& middle < nodes.len()
            &&& next < nodes.len()
            &&& !nodes[previous as int].location.coincides_spec(nodes[middle as int].location)
            &&& !nodes[middle as int].location.coincides_spec(nodes[next as int].location)
        },
    }
}

/// The lane lies on a channel of the grid and its route is sound.
pub open spec fn lane_sound(nodes: Seq<ElementModel>, capacity: int, lane: Lane) -> bool {
    lane.channel < capacity && route_sound(nodes, lane.route)
}

/// A hop or a link between two nodes at the same coordinates is not drawn.
pub proof fn lemma_coinciding_nodes_emit_nothing(
    nodes: Seq<ElementModel>,
    links: Seq<ConnectionModel>,
    path: Seq<Seq<char>>,
    k: int,
    i: int,
)
    ensures
        node_index(nodes, links[k].from_node) matches Some(s) && node_index(
            nodes,
            links[k].to_node,
        ) matches Some(t) && nodes[s].location.coincides_spec(nodes[t].location) ==> link_boundary(
            nodes,
            links,
            k,
        ) is None,
        node_index(nodes, path[i]) matches Some(s) && node_index(nodes, path[i + 1]) matches Some(
            t,
        ) && nodes[s].location.coincides_spec(nodes[t].location) ==> hop_route(nodes, path, i)
            is None && elbow_route(nodes, path, i) is None && elbow_route(nodes, path, i - 1)
            is None,
{
}

/// Every boundary of the first `n` links is sound.
pub proof fn lemma_link_boundaries_sound(
    nodes: Seq<ElementModel>,
    links: Seq<ConnectionModel>,
    n: int,
)
    requires
        n <= links.len() <= usize::MAX,
        nodes.len() <= usize::MAX,
    ensures
        forall|j: int|
            0 <= j < link_boundaries(nodes, links, n).len() ==> boundary_sound(
                nodes,
                links,
                #[trigger] link_boundaries(nodes, links, n)[j],
            ),
    decreases n,
{
    if n > 0 {
        lemma_link_boundaries_sound(nodes, links, n - 1);
        lemma_node_index(nodes, links[n - 1].from_node);
        lemma_node_index(nodes, links[n - 1].to_node);
        let earlier = link_boundaries(nodes, links, n - 1);
        let all = link_boundaries(nodes, links, n);
        assert forall|j: int| 0 <= j < all.len() implies boundary_sound(
            nodes,
            links,
            #[trigger] all[j],
        ) by {
            if j < earlier.len() {
                assert(all[j] == earlier[j]);
            }
        }
    }
}

/// Every lane of the first `n` hops of a path has a sound route, and carries
/// the service, channel and emphasis that it was planned with.
pub proof fn lemma_hop_lanes_sound(
    nodes: Seq<ElementModel>,
    path: Seq<Seq<char>>,
    service_id: i32,
    channel: u32,
    emphasis: Emphasis,
    n: int,
)
    requires
        nodes.len() <= usize::MAX,
    ensures
        forall|j: int|
            0 <= j < hop_lanes(nodes, path, service_id, channel, emphasis, n).len() ==> {
                let lane = #[trigger] hop_lanes(nodes, path, service_id, channel, emphasis, n)[j];
                &&& route_sound(nodes, lane.route)
                &&& lane.service_id == service_id
                &&& lane.channel == channel
                &&& lane.emphasis == emphasis
            },
    decreases n,
{
    if n > 0 {
        lemma_hop_lanes_sound(nodes, path, service_id, channel, emphasis, n - 1);
        lemma_node_index(nodes, path[n - 1]);
        lemma_node_index(nodes, path[n]);
        let earlier = hop_lanes(nodes, path, service_id, channel, emphasis, n - 1);
        let all = hop_lanes(nodes, path, service_id, channel, emphasis, n);
        assert forall|j: int| 0 <= j < all.len() implies {
            let lane = #[trigger] all[j];
            &&& route_sound(nodes, lane.route)
            &&& lane.service_id == service_id
            &&& lane.channel == channel
            &&& lane.emphasis == emphasis
        } by {
            if j < earlier.len() {
                assert(all[j] == earlier[j]);
            }
        }
    }
}

/// Every lane of the first `n` elbows of a path has a sound route, and
/// carries the service, channel and emphasis that it was planned with.
pub proof fn lemma_elbow_lanes_sound(
    nodes: Seq<ElementModel>,
    path: Seq<Seq<char>>,
    service_id: i32,
    channel: u32,
    emphasis: Emphasis,
    n: int,
)
    requires
        nodes.len() <= usize::MAX,
    ensures
        forall|j: int|
            0 <= j < elbow_lanes(nodes, path, service_id, channel, emphasis, n).len() ==> {
                let lane = #[trigger] elbow_lanes(nodes, path, service_id, channel, emphasis, n)[j];
                &&& route_sound(nodes, lane.route)
                &&& lane.service_id == service_id
                &&& lane.channel == channel
                &&& lane.emphasis == emphasis
            },
    decreases n,
{
    if n > 0 {
        lemma_elbow_lanes_sound(nodes, path, service_id, channel, emphasis, n - 1);
        lemma_node_index(nodes, path[n - 1]);
        lemma_node_index(nodes, path[n]);
        lemma_node_index(nodes, path[n + 1]);
        let earlier = elbow_lanes(nodes, path, service_id, channel, emphasis, n - 1);
        let all = elbow_lanes(nodes, path, service_id, channel, emphasis, n);
        assert forall|j: int| 0 <= j < all.len() implies {
            let lane = #[trigger] all[j];
            &&& route_sound(nodes, lane.route)
            &&& lane.service_id == service_id
            &&& lane.channel == channel
            &&& lane.emphasis == emphasis
        } by {
            if j < earlier.len() {
                assert(all[j] == earlier[j]);
            }
        }
    }
}

/// Every lane of a service's plan is sound, belongs to the service and has
/// the emphasis that the selection gives the service.
pub proof fn lemma_service_plan_sound(
    nodes: Seq<ElementModel>,
    capacity: int,
    highlighted: Seq<i32>,
    service_id: i32,
    service: ServiceModel,
)
    requires
        2 <= capacity <= u32::MAX,
        nodes.len() <= usize::MAX,
    ensures
        forall|j: int|
            0 <= j < service_plan(nodes, capacity, highlighted, service_id, service).lanes.len()
                ==> {
                let lane = #[trigger] service_plan(
                    nodes,
                    capacity,
                    highlighted,
                    service_id,
                    service,
                ).lanes[j];
                &&& lane_sound(nodes, capacity, lane)
                &&& lane.service_id == service_id
                &&& lane.emphasis == emphasis_of(highlighted, service_id)
            },
{
    let channel = effective_channel(capacity, service.wavelength as int) as u32;
    let emphasis = emphasis_of(highlighted, service_id);
    let path = service.path;
    lemma_hop_lanes_sound(nodes, path, service_id, channel, emphasis, path.len() - 1);
    lemma_elbow_lanes_sound(nodes, path, service_id, channel, emphasis, path.len() - 2);
}

/// Every lane of the plan of the first `n` services is sound and has the
/// emphasis that the selection gives its service.
pub proof fn lemma_services_plan_sound(
    nodes: Seq<ElementModel>,
    capacity: int,
    highlighted: Seq<i32>,
    snapshot: Map<i32, ServiceModel>,
    order: Seq<i32>,
    time: Single,
    n: int,
)
    requires
        2 <= capacity <= u32::MAX,
        nodes.len() <= usize::MAX,
    ensures
        forall|j: int|
            0 <= j < services_plan(
                nodes,
                capacity,
                highlighted,
                snapshot,
                order,
                time,
                n,
            ).lanes.len() ==> {
                let lane = #[trigger] services_plan(
                    nodes,
                    capacity,
                    highlighted,
                    snapshot,
                    order,
                    time,
                    n,
                ).lanes[j];
                &&& lane_sound(nodes, capacity, lane)
                &&& lane.emphasis == emphasis_of(highlighted, lane.service_id)
            },
    decreases n,
{
    if n > 0 {
        lemma_services_plan_sound(nodes, capacity, highlighted, snapshot, order, time, n - 1);
        let id = order[n - 1];
        if snapshot.contains_key(id) && snapshot[id].active_at(time) {
            lemma_service_plan_sound(nodes, capacity, highlighted, id, snapshot[id]);
        }
    }
}

/// Degenerate skip. Every boundary and every lane of a layout joins nodes of
/// the node list that do not coincide: between two nodes at the same
/// coordinates nothing is drawn. Every lane lies on a channel of the grid.
pub proof fn lemma_degenerate_skip(
    nodes: Seq<ElementModel>,
    links: Seq<ConnectionModel>,
    snapshot: Map<i32, ServiceModel>,
    time: Single,
    highlighted: Seq<i32>,
    capacity: int,
)
    requires
        2 <= capacity <= u32::MAX,
        nodes.len() <= usize::MAX,
        links.len() <= usize::MAX,
    ensures
        forall|j: int|
            0 <= j < layout_model(
                nodes,
                links,
                snapshot,
                time,
                highlighted,
                capacity,
            ).boundaries.len() ==> boundary_sound(
                nodes,
                links,
                #[trigger] layout_model(
                    nodes,
                    links,
                    snapshot,
                    time,
                    highlighted,
                    capacity,
                ).boundaries[j],
            ),
        forall|j: int|
            0 <= j < layout_model(nodes, links, snapshot, time, highlighted, capacity).lanes.len()
                ==> lane_sound(
                nodes,
                capacity,
                #[trigger] layout_model(nodes, links, snapshot, time, highlighted, capacity).lanes[j],
            ),
{
    let order = ascending_ids(snapshot.dom());
    lemma_link_boundaries_sound(nodes, links, links.len() as int);
    lemma_services_plan_sound(
        nodes,
        capacity,
        highlighted,
        snapshot,
        order,
        time,
        order.len() as int,
    );
}

/// The same lanes, each with the emphasis that the selection gives its
/// service: same order, same services, channels and routes.
pub open spec fn restyled(lanes: Seq<Lane>, highlighted: Seq<i32>) -> Seq<Lane> {
    Seq::new(
        lanes.len(),
        |j: int|
            Lane {
                service_id: lanes[j].service_id,
                channel: lanes[j].channel,
                emphasis: emphasis_of(highlighted, lanes[j].service_id),
                route: lanes[j].route,
            },
    )
}

/// The lanes of a service under a selection are its lanes under no selection,
/// restyled; its warnings do not depend on the selection.
pub proof fn lemma_service_plan_restyled(
    nodes: Seq<ElementModel>,
    capacity: int,
    highlighted: Seq<i32>,
    service_id: i32,
    service: ServiceModel,
)
    ensures
        service_plan(nodes, capacity, highlighted, service_id, service).lanes == restyled(
            service_plan(nodes, capacity, Seq::empty(), service_id, service).lanes,
            highlighted,
        ),
        service_plan(nodes, capacity, highlighted, service_id, service).warnings == service_plan(
            nodes,
            capacity,
            Seq::empty(),
            service_id,
            service,
        ).warnings,
        service_plan(nodes, capacity, Seq::empty(), service_id, service).labels.len() == 0,
{
    let channel = effective_channel(capacity, service.wavelength as int) as u32;
    let lit = emphasis_of(highlighted, service_id);
    let plain = emphasis_of(Seq::empty(), service_id);
    let path = service.path;
    lemma_lanes_restyled(nodes, path, service_id, channel, lit, plain, path.len() - 1);
    lemma_lanes_restyled(nodes, path, service_id, channel, lit, plain, path.len() - 2);
    lemma_lane_tags(nodes, path, service_id, channel, plain, path.len() - 1);
    lemma_lane_tags(nodes, path, service_id, channel, plain, path.len() - 2);
    lemma_lane_tags(nodes, path, service_id, channel, lit, path.len() - 1);
    lemma_lane_tags(nodes, path, service_id, channel, lit, path.len() - 2);
    assert(service_plan(nodes, capacity, highlighted, service_id, service).lanes =~= restyled(
        service_plan(nodes, capacity, Seq::empty(), service_id, service).lanes,
        highlighted,
    ));
}

/// Every hop and elbow lane of a path carries the service, channel and
/// emphasis that it was planned with.
pub proof fn lemma_lane_tags(
    nodes: Seq<ElementModel>,
    path: Seq<Seq<char>>,
    service_id: i32,
    channel: u32,
    emphasis: Emphasis,
    n: int,
)
    ensures
        forall|j: int|
            0 <= j < hop_lanes(nodes, path, service_id, channel, emphasis, n).len() ==> {
                let lane = #[trigger] hop_lanes(nodes, path, service_id, channel, emphasis, n)[j];
                &&& lane.service_id == service_id
                &&& lane.channel == channel
                &&& lane.emphasis == emphasis
            },
        forall|j: int|
            0 <= j < elbow_lanes(nodes, path, service_id, channel, emphasis, n).len() ==> {
                let lane = #[trigger] elbow_lanes(nodes, path, service_id, channel, emphasis, n)[j];
                &&& lane.service_id == service_id
                &&& lane.channel == channel
                &&& lane.emphasis == emphasis
            },
    decreases n,
{
    if n > 0 {
        lemma_lane_tags(nodes, path, service_id, channel, emphasis, n - 1);
        let earlier = hop_lanes(nodes, path, service_id, channel, emphasis, n - 1);
        let all = hop_lanes(nodes, path, service_id, channel, emphasis, n);
        assert forall|j: int| 0 <= j < all.len() implies {
            let lane = #[trigger] all[j];
            &&& lane.service_id == service_id
            &&& lane.channel == channel
            &&& lane.emphasis == emphasis
        } by {
            if j < earlier.len() {
                assert(all[j] == earlier[j]);
            }
        }
        let earlier_elbows = elbow_lanes(nodes, path, service_id, channel, emphasis, n - 1);
        let all_elbows = elbow_lanes(nodes, path, service_id, channel, emphasis, n);
        assert forall|j: int| 0 <= j < all_elbows.len() implies {
            let lane = #[trigger] all_elbows[j];
            &&& lane.service_id == service_id
            &&& lane.channel == channel
            &&& lane.emphasis == emphasis
        } by {
            if j < earlier_elbows.len() {
                assert(all_elbows[j] == earlier_elbows[j]);
            }
        }
    }
}

/// The hops and the elbows of a path have the same routes in any two
/// emphases.
pub proof fn lemma_lanes_restyled(
    nodes: Seq<ElementModel>,
    path: Seq<Seq<char>>,
    service_id: i32,
    channel: u32,
    first: Emphasis,
    second: Emphasis,
    n: int,
)
    ensures
        hop_lanes(nodes, path, service_id, channel, first, n).len() == hop_lanes(
            nodes,
            path,
            service_id,
            channel,
            second,
            n,
        ).len(),
        forall|j: int|
            0 <= j < hop_lanes(nodes, path, service_id, channel, first, n).len() ==> (
            #[trigger] hop_lanes(nodes, path, service_id, channel, first, n)[j]).route == hop_lanes(
                nodes,
                path,
                service_id,
                channel,
                second,
                n,
            )[j].route,
        elbow_lanes(nodes, path, service_id, channel, first, n).len() == elbow_lanes(
            nodes,
            path,
            service_id,
            channel,
            second,
            n,
        ).len(),
        forall|j: int|
            0 <= j < elbow_lanes(nodes, path, service_id, channel, first, n).len() ==> (
            #[trigger] elbow_lanes(nodes, path, service_id, channel, first, n)[j]).route
                == elbow_lanes(nodes, path, service_id, channel, second, n)[j].route,
    decreases n,
{
    if n > 0 {
        lemma_lanes_restyled(nodes, path, service_id, channel, first, second, n - 1);
    }
}

/// The lanes of the first `n` services under a selection are their lanes
/// under no selection, restyled; the warnings are the same.
pub proof fn lemma_services_plan_restyled(
    nodes: Seq<ElementModel>,
    capacity: int,
    highlighted: Seq<i32>,
    snapshot: Map<i32, ServiceModel>,
    order: Seq<i32>,
    time: Single,
    n: int,
)
    ensures
        services_plan(nodes, capacity, highlighted, snapshot, order, time, n).lanes == restyled(
            services_plan(nodes, capacity, Seq::empty(), snapshot, order, time, n).lanes,
            highlighted,
        ),
        services_plan(nodes, capacity, highlighted, snapshot, order, time, n).warnings
            == services_plan(nodes, capacity, Seq::empty(), snapshot, order, time, n).warnings,
        services_plan(nodes, capacity, Seq::empty(), snapshot, order, time, n).labels.len() == 0,
    decreases n,
{
    if n > 0 {
        lemma_services_plan_restyled(nodes, capacity, highlighted, snapshot, order, time, n - 1);
        let id = order[n - 1];
        if snapshot.contains_key(id) && snapshot[id].active_at(time) {
            lemma_service_plan_restyled(nodes, capacity, highlighted, id, snapshot[id]);
        }
    }
    assert(services_plan(nodes, capacity, highlighted, snapshot, order, time, n).lanes =~= restyled(
        services_plan(nodes, capacity, Seq::empty(), snapshot, order, time, n).lanes,
        highlighted,
    ));
}

/// Highlight isolation. A layout under a highlight selection differs from
/// the layout under no selection in colour and thickness alone. The
/// boundaries and the warnings are the same. The lanes are the same lanes in
/// the same order, with the same channels and routes; a lane is highlighted
/// exactly where its service is selected, and dimmed otherwise. A node is
/// marked only where the path of a selected service of the snapshot names
/// it. Under no selection no node is marked and nothing is labelled.
pub proof fn lemma_highlight_isolation(
    nodes: Seq<ElementModel>,
    links: Seq<ConnectionModel>,
    snapshot: Map<i32, ServiceModel>,
    time: Single,
    highlighted: Seq<i32>,
    capacity: int,
)
    ensures
        ({
            let lit = layout_model(nodes, links, snapshot, time, highlighted, capacity);
            let plain = layout_model(nodes, links, snapshot, time, Seq::empty(), capacity);
            &&& lit.boundaries == plain.boundaries
            &&& lit.warnings == plain.warnings
            &&& lit.lanes == restyled(plain.lanes, highlighted)
            &&& lit.lanes.len() == plain.lanes.len()
            &&& forall|j: int|
                0 <= j < lit.lanes.len() ==> {
                    &&& (#[trigger] lit.lanes[j]).service_id == plain.lanes[j].service_id
                    &&& lit.lanes[j].channel == plain.lanes[j].channel
                    &&& lit.lanes[j].route == plain.lanes[j].route
                    &&& (lit.lanes[j].emphasis == Emphasis::Highlighted <==> highlighted.contains(
                        lit.lanes[j].service_id,
                    ))
                }
            &&& lit.node_highlighted.len() == nodes.len()
            &&& forall|i: int|
                0 <= i < nodes.len() && #[trigger] lit.node_highlighted[i] ==> exists|h: int|
                    0 <= h < highlighted.len() && #[trigger] marked_by(
                        nodes,
                        snapshot,
                        highlighted,
                        h,
                        i,
                    )
            &&& plain.node_highlighted.len() == nodes.len()
            &&& forall|i: int| 0 <= i < nodes.len() ==> !(#[trigger] plain.node_highlighted[i])
            &&& plain.labels.len() == 0
        }),
{
    let order = ascending_ids(snapshot.dom());
    lemma_services_plan_restyled(
        nodes,
        capacity,
        highlighted,
        snapshot,
        order,
        time,
        order.len() as int,
    );
}

} // verus!
