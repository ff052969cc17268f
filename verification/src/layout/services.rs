//! The lanes, labels and warnings of the services.
use crate::lanes::{effective_channel, ChannelGrid};
use crate::layout::nodes::{find_node, is_upward, node_index, upward};
use crate::layout::{Emphasis, Lane, Route, Warning, BASE_NODE_RADIUS_BITS};
use crate::scene::element::{elements_view, ElementData, ElementModel, Location};
use crate::scene::service::{path_view, ServiceData, ServiceModel};
use crate::scene::text_label::{labels_view, TextLabel, TextLabelModel};
use crate::single::Single;
use crate::text::{decimal, decimal_text};
use vstd::prelude::*;

verus! {

/// The route of the hop from position `i` of a path to the next: none where
/// one of the two nodes is unknown or the two coincide.
pub open spec fn hop_route(nodes: Seq<ElementModel>, path: Seq<Seq<char>>, i: int) -> Option<Route> {
    match (node_index(nodes, path[i]), node_index(nodes, path[i + 1])) {
        (Some(s), Some(t)) => if nodes[s].location.coincides_spec(nodes[t].location) {
            None
        } else {
            Some(
                Route::Hop {
                    source: s as usize,
                    target: t as usize,
                    upward: upward(nodes[s].location, nodes[t].location),
                },
            )
        },
        _ => None,
    }
}

/// One of the two nodes of the hop from position `i` is unknown.
pub open spec fn hop_unknown(nodes: Seq<ElementModel>, path: Seq<Seq<char>>, i: int) -> bool {
    node_index(nodes, path[i]) is None || node_index(nodes, path[i + 1]) is None
}

/// The route of the elbow inside the node at position `i + 1` of a path:
/// none where one of the three nodes around it is unknown, or where the hop
/// into the node or the hop out of it joins coinciding nodes.
pub open spec fn elbow_route(nodes: Seq<ElementModel>, path: Seq<Seq<char>>, i: int) -> Option<
    Route,
> {
    match (
        node_index(nodes, path[i]),
        node_index(nodes, path[i + 1]),
        node_index(nodes, path[i + 2]),
    ) {
        (Some(p), Some(m), Some(n)) => if nodes[p].location.coincides_spec(nodes[m].location)
            || nodes[m].location.coincides_spec(nodes[n].location) {
            None
        } else {
            Some(
                Route::Elbow {
                    previous: p as usize,
                    middle: m as usize,
                    next: n as usize,
                    upward_in: upward(nodes[p].location, nodes[m].location),
                    upward_out: upward(nodes[m].location, nodes[n].location),
                },
            )
        },
        _ => None,
    }
}

/// One of the three nodes around position `i + 1` is unknown.
pub open spec fn elbow_unknown(nodes: Seq<ElementModel>, path: Seq<Seq<char>>, i: int) -> bool {
    node_index(nodes, path[i]) is None || node_index(nodes, path[i + 1]) is None || node_index(
        nodes,
        path[i + 2],
    ) is None
}

/// The lanes of the first `n` hops of a path.
pub open spec fn hop_lanes(
    nodes: Seq<ElementModel>,
    path: Seq<Seq<char>>,
    service_id: i32,
    channel: u32,
    emphasis: Emphasis,
    n: int,
) -> Seq<Lane>
    decreases n,
{
    if n <= 0 {
        Seq::empty()
    } else {
        let earlier = hop_lanes(nodes, path, service_id, channel, emphasis, n - 1);
        match hop_route(nodes, path, n - 1) {
            Some(route) => earlier.push(Lane { service_id, channel, emphasis, route }),
            None => earlier,
        }
    }
}

/// The lanes of the first `n` elbows of a path.
pub open spec fn elbow_lanes(
    nodes: Seq<ElementModel>,
    path: Seq<Seq<char>>,
    service_id: i32,
    channel: u32,
    emphasis: Emphasis,
    n: int,
) -> Seq<Lane>
    decreases n,
{
    if n <= 0 {
        Seq::empty()
    } else {
        let earlier = elbow_lanes(nodes, path, service_id, channel, emphasis, n - 1);
        match elbow_route(nodes, path, n - 1) {
            Some(route) => earlier.push(Lane { service_id, channel, emphasis, route }),
            None => earlier,
        }
    }
}

/// The warnings about the first `n` hops of a path.
pub open spec fn hop_warnings(
    nodes: Seq<ElementModel>,
    path: Seq<Seq<char>>,
    service_id: i32,
    n: int,
) -> Seq<Warning>
    decreases n,
{
    if n <= 0 {
        Seq::empty()
    } else if hop_unknown(nodes, path, n - 1) {
        hop_warnings(nodes, path, service_id, n - 1).push(
            Warning::UnknownHopNode { service_id, hop: (n - 1) as usize },
        )
    } else {
        hop_warnings(nodes, path, service_id, n - 1)
    }
}

/// The warnings about the first `n` elbows of a path.
pub open spec fn elbow_warnings(
    nodes: Seq<ElementModel>,
    path: Seq<Seq<char>>,
    service_id: i32,
    n: int,
) -> Seq<Warning>
    decreases n,
{
    if n <= 0 {
        Seq::empty()
    } else if elbow_unknown(nodes, path, n - 1) {
        elbow_warnings(nodes, path, service_id, n - 1).push(
            Warning::UnknownElbowNode { service_id, hop: (n - 1) as usize },
        )
    } else {
        elbow_warnings(nodes, path, service_id, n - 1)
    }
}

/// The label of position `order` of a path, at the world position of the
/// node at `location`.
pub open spec fn label_at(location: Location, order: int) -> TextLabelModel {
    TextLabelModel {
        content: decimal(order as nat),
        radius_scale: Single { bits: BASE_NODE_RADIUS_BITS },
        x: location.world_spec().x,
        y: location.world_spec().y,
    }
}

/// The labels of the first `n` positions of a path: one for each position
/// whose node is known, numbered by the position.
pub open spec fn path_labels(nodes: Seq<ElementModel>, path: Seq<Seq<char>>, n: int) -> Seq<
    TextLabelModel,
>
    decreases n,
{
    if n <= 0 {
        Seq::empty()
    } else {
        match node_index(nodes, path[n - 1]) {
            Some(i) => path_labels(nodes, path, n - 1).push(label_at(nodes[i].location, n - 1)),
            None => path_labels(nodes, path, n - 1),
        }
    }
}

/// How a service is drawn under a highlight selection.
pub open spec fn emphasis_of(highlighted: Seq<i32>, service_id: i32) -> Emphasis {
    if highlighted.contains(service_id) {
        Emphasis::Highlighted
    } else if highlighted.len() > 0 {
        Emphasis::Dimmed
    } else {
        Emphasis::Standard
    }
}

/// The warning about a wavelength index, where it is not a channel.
pub open spec fn wavelength_warnings(capacity: int, service_id: i32, wavelength: i32) -> Seq<
    Warning,
> {
    if 0 <= wavelength < capacity {
        Seq::empty()
    } else {
        seq![Warning::WavelengthOutOfRange { service_id, wavelength }]
    }
}

/// What is drawn and reported for a part of the services.
pub struct ServicePlan {
    pub lanes: Seq<Lane>,
    pub labels: Seq<TextLabelModel>,
    pub warnings: Seq<Warning>,
}

impl ServicePlan {
    /// Nothing.
    pub open spec fn empty() -> ServicePlan {
        ServicePlan { lanes: Seq::empty(), labels: Seq::empty(), warnings: Seq::empty() }
    }

    /// This plan followed by another.
    pub open spec fn then_plan(self, next: ServicePlan) -> ServicePlan {
        ServicePlan {
            lanes: self.lanes + next.lanes,
            labels: self.labels + next.labels,
            warnings: self.warnings + next.warnings,
        }
    }
}

/// What is drawn for one active service: its hops in path order, then its
/// elbows in path order, all on its effective channel and in one emphasis;
/// where it is highlighted, a label for each node of its path.
pub open spec fn service_plan(
    nodes: Seq<ElementModel>,
    capacity: int,
    highlighted: Seq<i32>,
    service_id: i32,
    service: ServiceModel,
) -> ServicePlan {
    let channel = effective_channel(capacity, service.wavelength as int) as u32;
    let emphasis = emphasis_of(highlighted, service_id);
    let path = service.path;
    ServicePlan {
        lanes: hop_lanes(nodes, path, service_id, channel, emphasis, path.len() - 1) + elbow_lanes(
            nodes,
            path,
            service_id,
            channel,
            emphasis,
            path.len() - 2,
        ),
        labels: if emphasis == Emphasis::Highlighted {
            path_labels(nodes, path, path.len() as int)
        } else {
            Seq::empty()
        },
        warnings: wavelength_warnings(capacity, service_id, service.wavelength) + hop_warnings(
            nodes,
            path,
            service_id,
            path.len() - 1,
        ) + elbow_warnings(nodes, path, service_id, path.len() - 2),
    }
}

/// Whether `id` is one of the highlighted ids.
pub fn is_highlighted(highlighted: &[i32], id: i32) -> (r: bool)
    ensures
        r == highlighted@.contains(id),
{
    let mut i: usize = 0;
    while i < highlighted.len()
        invariant
            i <= highlighted.len(),
            forall|k: int| 0 <= k < i ==> highlighted@[k] != id,
        decreases highlighted.len() - i,
    {
        if highlighted[i] == id {
            return true;
        }
        i += 1;
    }
    false
}

/// How a service is drawn under a highlight selection.
pub fn emphasis_for(highlighted: &[i32], service_id: i32) -> (emphasis: Emphasis)
    ensures
        emphasis == emphasis_of(highlighted@, service_id),
{
    if is_highlighted(highlighted, service_id) {
        Emphasis::Highlighted
    } else if highlighted.len() > 0 {
        Emphasis::Dimmed
    } else {
        Emphasis::Standard
    }
}

/// Appends the lanes of the hops of a path, and a warning for each hop with
/// an unknown node.
fn plan_hops(
    nodes: &[ElementData],
    path: &Vec<String>,
    service_id: i32,
    channel: u32,
    emphasis: Emphasis,
    lanes: &mut Vec<Lane>,
    warnings: &mut Vec<Warning>,
)
    ensures
        final(lanes)@ == old(lanes)@ + hop_lanes(
            elements_view(nodes@),
            path_view(path@),
            service_id,
            channel,
            emphasis,
            path@.len() - 1,
        ),
        final(warnings)@ == old(warnings)@ + hop_warnings(
            elements_view(nodes@),
            path_view(path@),
            service_id,
            path@.len() - 1,
        ),
{
    let ghost nm = elements_view(nodes@);
    let ghost pv = path_view(path@);
    let hops: usize = if path.len() >= 1 {
        path.len() - 1
    } else {
        0
    };
    let mut i: usize = 0;
    assert(lanes@ =~= old(lanes)@ + hop_lanes(nm, pv, service_id, channel, emphasis, 0));
    assert(warnings@ =~= old(warnings)@ + hop_warnings(nm, pv, service_id, 0));
    while i < hops
        invariant
            i <= hops,
            hops + 1 <= path.len() || hops == 0,
            nm == elements_view(nodes@),
            pv == path_view(path@),
            lanes@ == old(lanes)@ + hop_lanes(nm, pv, service_id, channel, emphasis, i as int),
            warnings@ == old(warnings)@ + hop_warnings(nm, pv, service_id, i as int),
        decreases hops - i,
    {
        let source = find_node(nodes, &path[i]);
        let target = find_node(nodes, &path[i + 1]);
        let ghost earlier_lanes = hop_lanes(nm, pv, service_id, channel, emphasis, i as int);
        let ghost earlier_warnings = hop_warnings(nm, pv, service_id, i as int);
        match (source, target) {
            (Some(s), Some(t)) => {
                let from = nodes[s].metadata.location;
                let to = nodes[t].metadata.location;
                if !from.coincides(to) {
                    let lane = Lane {
                        service_id,
                        channel,
                        emphasis,
                        route: Route::Hop { source: s, target: t, upward: is_upward(from, to) },
                    };
                    lanes.push(lane);
                    assert(lanes@ =~= old(lanes)@ + earlier_lanes.push(lane));
                }
            },
            _ => {
                let warning = Warning::UnknownHopNode { service_id, hop: i };
                warnings.push(warning);
                assert(warnings@ =~= old(warnings)@ + earlier_warnings.push(warning));
            },
        }
        i += 1;
    }
}

/// Appends the lanes of the elbows of a path, and a warning for each elbow
/// with an unknown node.
fn plan_elbows(
    nodes: &[ElementData],
    path: &Vec<String>,
    service_id: i32,
    channel: u32,
    emphasis: Emphasis,
    lanes: &mut Vec<Lane>,
    warnings: &mut Vec<Warning>,
)
    ensures
        final(lanes)@ == old(lanes)@ + elbow_lanes(
            elements_view(nodes@),
            path_view(path@),
            service_id,
            channel,
            emphasis,
            path@.len() - 2,
        ),
        final(warnings)@ == old(warnings)@ + elbow_warnings(
            elements_view(nodes@),
            path_view(path@),
            service_id,
            path@.len() - 2,
        ),
{
    let ghost nm = elements_view(nodes@);
    let ghost pv = path_view(path@);
    let elbows: usize = if path.len() >= 2 {
        path.len() - 2
    } else {
        0
    };
    let mut i: usize = 0;
    assert(lanes@ =~= old(lanes)@ + elbow_lanes(nm, pv, service_id, channel, emphasis, 0));
    assert(warnings@ =~= old(warnings)@ + elbow_warnings(nm, pv, service_id, 0));
    while i < elbows
        invariant
            i <= elbows,
            elbows + 2 <= path.len() || elbows == 0,
            nm == elements_view(nodes@),
            pv == path_view(path@),
            lanes@ == old(lanes)@ + elbow_lanes(nm, pv, service_id, channel, emphasis, i as int),
            warnings@ == old(warnings)@ + elbow_warnings(nm, pv, service_id, i as int),
        decreases elbows - i,
    {
        let previous = find_node(nodes, &path[i]);
        let middle = find_node(nodes, &path[i + 1]);
        let next = find_node(nodes, &path[i + 2]);
        let ghost earlier_lanes = elbow_lanes(nm, pv, service_id, channel, emphasis, i as int);
        let ghost earlier_warnings = elbow_warnings(nm, pv, service_id, i as int);
        match (previous, middle, next) {
            (Some(p), Some(m), Some(n)) => {
                let before = nodes[p].metadata.location;
                let at = nodes[m].metadata.location;
                let after = nodes[n].metadata.location;
                if !before.coincides(at) && !at.coincides(after) {
                    let lane = Lane {
                        service_id,
                        channel,
                        emphasis,
                        route: Route::Elbow {
                            previous: p,
                            middle: m,
                            next: n,
                            upward_in: is_upward(before, at),
                            upward_out: is_upward(at, after),
                        },
                    };
                    lanes.push(lane);
                    assert(lanes@ =~= old(lanes)@ + earlier_lanes.push(lane));
                }
            },
            _ => {
                let warning = Warning::UnknownElbowNode { service_id, hop: i };
                warnings.push(warning);
                assert(warnings@ =~= old(warnings)@ + earlier_warnings.push(warning));
            },
        }
        i += 1;
    }
}

/// Appends a label for each node of a path.
fn plan_labels(nodes: &[ElementData], path: &Vec<String>, labels: &mut Vec<TextLabel>)
    ensures
        labels_view(final(labels)@) == labels_view(old(labels)@) + path_labels(
            elements_view(nodes@),
            path_view(path@),
            path@.len() as int,
        ),
{
    let ghost nm = elements_view(nodes@);
    let ghost pv = path_view(path@);
    let mut k: usize = 0;
    assert(labels_view(labels@) =~= labels_view(old(labels)@) + path_labels(nm, pv, 0));
    while k < path.len()
        invariant
            k <= path.len(),
            nm == elements_view(nodes@),
            pv == path_view(path@),
            labels_view(labels@) == labels_view(old(labels)@) + path_labels(nm, pv, k as int),
        decreases path.len() - k,
    {
        let ghost earlier = path_labels(nm, pv, k as int);
        let ghost before = labels@;
        match find_node(nodes, &path[k]) {
            Some(i) => {
                let world = nodes[i].metadata.location.world();
                let label = TextLabel {
                    content: decimal_text(k),
                    radius_scale: Single::from_bits(BASE_NODE_RADIUS_BITS),
                    position: [world.x, world.y],
                };
                labels.push(label);
                assert(label@ == label_at(nm[i as int].location, k as int));
                assert(labels_view(labels@) =~= labels_view(before).push(label@));
                assert(labels_view(labels@) =~= labels_view(old(labels)@) + earlier.push(label@));
            },
            None => {},
        }
        k += 1;
    }
}

/// Appends what is drawn and reported for one active service.
pub fn plan_service(
    nodes: &[ElementData],
    grid: &ChannelGrid,
    highlighted: &[i32],
    service_id: i32,
    service: &ServiceData,
    lanes: &mut Vec<Lane>,
    labels: &mut Vec<TextLabel>,
    warnings: &mut Vec<Warning>,
)
    ensures
        final(lanes)@ == old(lanes)@ + service_plan(
            elements_view(nodes@),
            grid.capacity_spec(),
            highlighted@,
            service_id,
            service@,
        ).lanes,
        labels_view(final(labels)@) == labels_view(old(labels)@) + service_plan(
            elements_view(nodes@),
            grid.capacity_spec(),
            highlighted@,
            service_id,
            service@,
        ).labels,
        final(warnings)@ == old(warnings)@ + service_plan(
            elements_view(nodes@),
            grid.capacity_spec(),
            highlighted@,
            service_id,
            service@,
        ).warnings,
{
    let ghost nm = elements_view(nodes@);
    let ghost plan = service_plan(nm, grid.capacity_spec(), highlighted@, service_id, service@);
    let (channel, clamped) = grid.effective_channel(service.wavelength);
    let emphasis = emphasis_for(highlighted, service_id);
    if clamped {
        warnings.push(Warning::WavelengthOutOfRange { service_id, wavelength: service.wavelength });
    }
    assert(warnings@ =~= old(warnings)@ + wavelength_warnings(
        grid.capacity_spec(),
        service_id,
        service.wavelength,
    ));
    plan_hops(nodes, &service.path, service_id, channel, emphasis, lanes, warnings);
    plan_elbows(nodes, &service.path, service_id, channel, emphasis, lanes, warnings);
    assert(lanes@ =~= old(lanes)@ + plan.lanes);
    assert(warnings@ =~= old(warnings)@ + plan.warnings);
    match emphasis {
        Emphasis::Highlighted => {
            plan_labels(nodes, &service.path, labels);
        },
        _ => {
            assert(labels_view(labels@) =~= labels_view(old(labels)@) + plan.labels);
        },
    }
}

/// What is drawn and reported for the first `n` ids of `order`: for each id
/// that is a service of the snapshot and active at `time`, its plan, in the
/// order of the ids.
pub open spec fn services_plan(
    nodes: Seq<ElementModel>,
    capacity: int,
    highlighted: Seq<i32>,
    snapshot: Map<i32, ServiceModel>,
    order: Seq<i32>,
    time: Single,
    n: int,
) -> ServicePlan
    decreases n,
{
    if n <= 0 {
        ServicePlan::empty()
    } else {
        let earlier = services_plan(nodes, capacity, highlighted, snapshot, order, time, n - 1);
        let id = order[n - 1];
        if snapshot.contains_key(id) && snapshot[id].active_at(time) {
            earlier.then_plan(service_plan(nodes, capacity, highlighted, id, snapshot[id]))
        } else {
            earlier
        }
    }
}

} // verus!
