//! The layout plan: which lines to draw, between which nodes, on which lane
//! and in which style.
//!
//! The plan is discrete. It names nodes by their index and lanes by their
//! channel, and leaves coordinates to the renderer: a boundary stands for the
//! two rays that frame a link, a hop for one line along a link, an elbow for
//! the short line inside an interior node of a path.
pub mod laws;
pub mod links;
pub mod marks;
pub mod nodes;
pub mod services;

use crate::lanes::ChannelGrid;
use crate::layout::laws::{boundary_sound, lane_sound, lemma_degenerate_skip};
use crate::layout::links::{link_boundaries, link_warnings, plan_links};
use crate::layout::marks::{mark_nodes, node_marks};
use crate::layout::services::{plan_service, service_plan, services_plan};
use crate::order::{ascending_ids, sorted_ids};
use crate::scene::connection::{connections_view, ConnectionData, ConnectionModel};
use crate::scene::defrag_event::{
    reconstruct_state_at_time, replay, snapshot_view, timeline_view, AnyEvent,
};
use crate::scene::element::{elements_view, ElementData, ElementModel};
use crate::scene::service::{ServiceData, ServiceModel};
use crate::scene::text_label::{labels_view, TextLabel, TextLabelModel};
use crate::single::Single;
use std::collections::HashMap;
use vstd::prelude::*;

verus! {

broadcast use vstd::std_specs::hash::group_hash_axioms;

/// The encoding of the radius at which lanes meet a node: 20 world units.
pub const BASE_NODE_RADIUS_BITS: u32 = 0x41a0_0000;

/// How strongly a lane is drawn.
#[derive(Clone, Copy, Debug, PartialEq, Eq)]
pub enum Emphasis {
    /// No highlight is active.
    Standard,
    /// A highlight is active, and the lane's service is not part of it.
    Dimmed,
    /// The lane's service is highlighted: a thick line in a brighter colour.
    Highlighted,
}

/// Where a lane runs. Nodes are named by their index in the node list.
/// A direction is upward where the world `y` of its end is at least that of
/// its start. The renderer turns a lane to one side of an upward direction
/// and to the other side of a downward one, so that a channel keeps its side
/// of a link whichever way the link is walked.
#[derive(Clone, Copy, Debug, PartialEq, Eq)]
pub enum Route {
    /// From the rim of `source` to the rim of `target`.
    Hop { source: usize, target: usize, upward: bool },
    /// Inside `middle`, from where the lane to `next` leaves the rim to where
    /// the lane from `previous` meets it.
    Elbow { previous: usize, middle: usize, next: usize, upward_in: bool, upward_out: bool },
}

/// One line of a service.
#[derive(Clone, Copy, Debug, PartialEq, Eq)]
pub struct Lane {
    pub service_id: i32,
    pub channel: u32,
    pub emphasis: Emphasis,
    pub route: Route,
}

/// The cone of a link: two boundary rays between the rims of two nodes.
/// `link` is the index of the link in the link list.
#[derive(Clone, Copy, Debug, PartialEq, Eq)]
pub struct Boundary {
    pub link: usize,
    pub source: usize,
    pub target: usize,
}

/// Something that the plan left out or adjusted, for the caller to report.
#[derive(Clone, Copy, Debug, PartialEq, Eq)]
pub enum Warning {
    /// An endpoint of the link with this index is not a known node.
    UnknownLinkNode { link: usize },
    /// A node of the hop that starts at this position of the service's path
    /// is not known.
    UnknownHopNode { service_id: i32, hop: usize },
    /// A node around the interior node that follows this position of the
    /// service's path is not known.
    UnknownElbowNode { service_id: i32, hop: usize },
    /// The wavelength index of the service is not a channel of the grid; the
    /// service is drawn on the last channel.
    WavelengthOutOfRange { service_id: i32, wavelength: i32 },
}

/// A layout plan.
#[derive(Debug, PartialEq, Eq)]
pub struct LayoutPlan {
    /// For each node, whether it is drawn in the highlight colour.
    pub node_highlighted: Vec<bool>,
    /// The cones of the links.
    pub boundaries: Vec<Boundary>,
    /// The lines of the services.
    pub lanes: Vec<Lane>,
    /// The labels of the nodes that highlighted services visit.
    pub labels: Vec<TextLabel>,
    /// What was left out or adjusted.
    pub warnings: Vec<Warning>,
}

/// A layout plan as plain mathematical data.
pub struct LayoutModel {
    pub node_highlighted: Seq<bool>,
    pub boundaries: Seq<Boundary>,
    pub lanes: Seq<Lane>,
    pub labels: Seq<TextLabelModel>,
    pub warnings: Seq<Warning>,
}

impl View for LayoutPlan {
    type V = LayoutModel;

    open spec fn view(&self) -> LayoutModel {
        LayoutModel {
            node_highlighted: self.node_highlighted@,
            boundaries: self.boundaries@,
            lanes: self.lanes@,
            labels: labels_view(self.labels@),
            warnings: self.warnings@,
        }
    }
}

/// The layout of a network at a point in time. Every node is marked or not;
/// every link has its boundary; the services of the snapshot that are active
/// at `time` are drawn in ascending order of their ids. The warnings about
/// links come before those about services.
pub open spec fn layout_model(
    nodes: Seq<ElementModel>,
    links: Seq<ConnectionModel>,
    snapshot: Map<i32, ServiceModel>,
    time: Single,
    highlighted: Seq<i32>,
    capacity: int,
) -> LayoutModel {
    let order = ascending_ids(snapshot.dom());
    let services = services_plan(
        nodes,
        capacity,
        highlighted,
        snapshot,
        order,
        time,
        order.len() as int,
    );
    LayoutModel {
        node_highlighted: node_marks(nodes, snapshot, highlighted),
        boundaries: link_boundaries(nodes, links, links.len() as int),
        lanes: services.lanes,
        labels: services.labels,
        warnings: link_warnings(nodes, links, links.len() as int) + services.warnings,
    }
}

/// Plans the layout of a network at `time`: the marks of the nodes, the
/// boundaries of the links, and the lanes and labels of the services of the
/// snapshot that are active at `time`, walked in ascending order of their ids.
pub fn plan_layout(
    nodes: &[ElementData],
    links: &[ConnectionData],
    services: &HashMap<i32, ServiceData>,
    time: Single,
    highlighted: &[i32],
    grid: &ChannelGrid,
) -> (plan: LayoutPlan)
    ensures
        plan@ == layout_model(
            elements_view(nodes@),
            connections_view(links@),
            snapshot_view(services@),
            time,
            highlighted@,
            grid.capacity_spec(),
        ),
        plan.node_highlighted@.len() == nodes@.len(),
        forall|j: int|
            0 <= j < plan.boundaries@.len() ==> boundary_sound(
                elements_view(nodes@),
                connections_view(links@),
                #[trigger] plan.boundaries@[j],
            ),
        forall|j: int|
            0 <= j < plan.lanes@.len() ==> lane_sound(
                elements_view(nodes@),
                grid.capacity_spec(),
                #[trigger] plan.lanes@[j],
            ),
{
    let ghost nm = elements_view(nodes@);
    let ghost snapshot = snapshot_view(services@);
    let ghost capacity = grid.capacity_spec();
    let node_highlighted = mark_nodes(nodes, services, highlighted);
    let mut warnings: Vec<Warning> = Vec::new();
    let boundaries = plan_links(nodes, links, &mut warnings);
    let ghost link_part = warnings@;
    let mut lanes: Vec<Lane> = Vec::new();
    let mut labels: Vec<TextLabel> = Vec::new();
    let order = sorted_ids(services);
    assert(snapshot.dom() =~= services@.dom());
    let mut n: usize = 0;
    assert(labels_view(labels@) =~= Seq::<TextLabelModel>::empty());
    assert(warnings@ =~= link_part + Seq::<Warning>::empty());
    while n < order.len()
        invariant
            n <= order.len(),
            nm == elements_view(nodes@),
            snapshot == snapshot_view(services@),
            capacity == grid.capacity_spec(),
            order@ == ascending_ids(snapshot.dom()),
            node_highlighted@ == node_marks(nm, snapshot, highlighted@),
            boundaries@ == link_boundaries(
                nm,
                connections_view(links@),
                links@.len() as int,
            ),
            link_part == link_warnings(nm, connections_view(links@), links@.len() as int),
            lanes@ == services_plan(nm, capacity, highlighted@, snapshot, order@, time, n as int).lanes,
            labels_view(labels@) == services_plan(
                nm,
                capacity,
                highlighted@,
                snapshot,
                order@,
                time,
                n as int,
            ).labels,
            warnings@ == link_part + services_plan(
                nm,
                capacity,
                highlighted@,
                snapshot,
                order@,
                time,
                n as int,
            ).warnings,
        decreases order.len() - n,
    {
        let id = order[n];
        let ghost earlier = services_plan(
            nm,
            capacity,
            highlighted@,
            snapshot,
            order@,
            time,
            n as int,
        );
        match services.get(&id) {
            Some(service) => {
                if service.is_active_at(time) {
                    let ghost this = service_plan(nm, capacity, highlighted@, id, service@);
                    plan_service(
                        nodes,
                        grid,
                        highlighted,
                        id,
                        service,
                        &mut lanes,
                        &mut labels,
                        &mut warnings,
                    );
                    assert(warnings@ =~= link_part + (earlier.warnings + this.warnings));
                }
            },
            None => {},
        }
        n += 1;
    }
    let channels = grid.capacity();
    let node_count = nodes.len();
    let link_count = links.len();
    proof {
        assert(nm.len() == node_count);
        assert(connections_view(links@).len() == link_count);
        lemma_degenerate_skip(
            nm,
            connections_view(links@),
            snapshot,
            time,
            highlighted@,
            channels as int,
        );
        let model = layout_model(
            nm,
            connections_view(links@),
            snapshot,
            time,
            highlighted@,
            channels as int,
        );
        assert(boundaries@ == model.boundaries);
        assert(lanes@ == model.lanes);
    }
    LayoutPlan { node_highlighted, boundaries, lanes, labels, warnings }
}

/// Plans the lines of a network for the selected time: replays the event log
/// up to `time` and lays out the snapshot that results.
pub fn generate_all_lines_for_current_time(
    nodes: &[ElementData],
    links: &[ConnectionData],
    events: &[AnyEvent],
    time: Single,
    highlighted: &[i32],
    grid: &ChannelGrid,
) -> (plan: LayoutPlan)
    ensures
        plan@ == layout_model(
            elements_view(nodes@),
            connections_view(links@),
            replay(timeline_view(events@), time),
            time,
            highlighted@,
            grid.capacity_spec(),
        ),
        plan.node_highlighted@.len() == nodes@.len(),
        forall|j: int|
            0 <= j < plan.boundaries@.len() ==> boundary_sound(
                elements_view(nodes@),
                connections_view(links@),
                #[trigger] plan.boundaries@[j],
            ),
        forall|j: int|
            0 <= j < plan.lanes@.len() ==> lane_sound(
                elements_view(nodes@),
                grid.capacity_spec(),
                #[trigger] plan.lanes@[j],
            ),
{
    let snapshot = reconstruct_state_at_time(events, time);
    plan_layout(nodes, links, &snapshot, time, highlighted, grid)
}

} // verus!
