use std::collections::HashMap;
use wdmview::highlight::resolve_highlight;
use wdmview::lanes::ChannelGrid;
use wdmview::layout::links::plan_links;
use wdmview::layout::marks::mark_nodes;
use wdmview::layout::nodes::{find_node, is_upward};
use wdmview::layout::services::{emphasis_for, is_highlighted, plan_service};
use wdmview::layout::{
    generate_all_lines_for_current_time, plan_layout, Boundary, Emphasis, Lane, LayoutPlan, Route,
    Warning, BASE_NODE_RADIUS_BITS,
};
use wdmview::order::sorted_ids;
use wdmview::scene::connection::ConnectionData;
use wdmview::scene::defrag_event::{reconstruct_state_at_time, AnyEvent, ReleaseExpiredDetails};
use wdmview::scene::element::{ElementData, Location, Metadata};
use wdmview::scene::service::ServiceData;
use wdmview::scene::text_label::TextLabel;
use wdmview::single::Single;

fn num(v: f32) -> Single {
    Single::from_bits(v.to_bits())
}

fn node(id: &str, x: f32, y: f32) -> ElementData {
    ElementData {
        name: format!("node {}", id),
        node_type: "Roadm".to_string(),
        type_variety: "default".to_string(),
        metadata: Metadata { location: Location { x: num(x), y: num(y) } },
        element_id: id.to_string(),
    }
}

fn link(from: &str, to: &str) -> ConnectionData {
    ConnectionData {
        from_node: from.to_string(),
        to_node: to.to_string(),
        connection_id: format!("{}-{}", from, to),
    }
}

fn route(path: &[&str], wavelength: i32, arrival: f32, departure: f32) -> ServiceData {
    ServiceData {
        source_id: path.first().map(|s| s.to_string()).unwrap_or_default(),
        destination_id: path.last().map(|s| s.to_string()).unwrap_or_default(),
        arrival_time: num(arrival),
        departure_time: num(departure),
        snr_requirement: num(1.0),
        bit_rate_requirement: num(2.0),
        power: num(3.0),
        path: path.iter().map(|s| s.to_string()).collect(),
        wavelength,
        gsnr: num(4.0),
        utilization: num(5.0),
    }
}

fn nodes() -> Vec<ElementData> {
    vec![
        node("A", 0.0, 0.0),
        node("B", 100.0, 0.0),
        node("C", 100.0, -50.0),
        node("C2", 100.0, -50.0),
    ]
}

fn links() -> Vec<ConnectionData> {
    vec![link("A", "B"), link("B", "C"), link("C", "C2"), link("A", "X")]
}

fn services() -> HashMap<i32, ServiceData> {
    let mut m = HashMap::new();
    m.insert(5, route(&["A", "X"], 2, 0.0, 10.0));
    m.insert(1, route(&["A", "B", "C"], 0, 0.0, 10.0));
    m.insert(4, route(&["C", "C2"], 3, 0.0, 10.0));
    m.insert(3, route(&["A", "B"], 1, 6.0, 10.0));
    m.insert(2, route(&["B", "A"], 100, 0.0, 10.0));
    m
}

fn lane(service_id: i32, channel: u32, emphasis: Emphasis, route: Route) -> Lane {
    Lane { service_id, channel, emphasis, route }
}

fn expected_lanes(e1: Emphasis, e2: Emphasis) -> Vec<Lane> {
    vec![
        lane(1, 0, e1, Route::Hop { source: 0, target: 1, upward: true }),
        lane(1, 0, e1, Route::Hop { source: 1, target: 2, upward: true }),
        lane(
            1,
            0,
            e1,
            Route::Elbow { previous: 0, middle: 1, next: 2, upward_in: true, upward_out: true },
        ),
        lane(2, 79, e2, Route::Hop { source: 1, target: 0, upward: true }),
    ]
}

fn expected_warnings() -> Vec<Warning> {
    vec![
        Warning::UnknownLinkNode { link: 3 },
        Warning::WavelengthOutOfRange { service_id: 2, wavelength: 100 },
        Warning::UnknownHopNode { service_id: 5, hop: 0 },
    ]
}

fn label(content: &str, x: f32, y: f32) -> TextLabel {
    TextLabel {
        content: content.to_string(),
        radius_scale: num(20.0),
        position: [num(x), num(y)],
    }
}

#[test]
fn base_radius_is_twenty() {
    assert_eq!(BASE_NODE_RADIUS_BITS, 20.0f32.to_bits());
}

#[test]
fn layout_without_highlight() {
    let plan = plan_layout(&nodes(), &links(), &services(), num(5.0), &[], &ChannelGrid::standard());
    assert_eq!(
        plan,
        LayoutPlan {
            node_highlighted: vec![false, false, false, false],
            boundaries: vec![
                Boundary { link: 0, source: 0, target: 1 },
                Boundary { link: 1, source: 1, target: 2 },
            ],
            lanes: expected_lanes(Emphasis::Standard, Emphasis::Standard),
            labels: vec![],
            warnings: expected_warnings(),
        }
    );
}

#[test]
fn layout_with_highlight() {
    let plan =
        plan_layout(&nodes(), &links(), &services(), num(5.0), &[1], &ChannelGrid::standard());
    assert_eq!(plan.node_highlighted, vec![true, true, true, false]);
    assert_eq!(plan.lanes, expected_lanes(Emphasis::Highlighted, Emphasis::Dimmed));
    assert_eq!(
        plan.labels,
        vec![label("0", 0.0, -0.0), label("1", 100.0, -0.0), label("2", 100.0, 50.0)]
    );
    assert_eq!(plan.warnings, expected_warnings());
}

#[test]
fn highlight_changes_emphasis_only() {
    let grid = ChannelGrid::standard();
    let plain = plan_layout(&nodes(), &links(), &services(), num(5.0), &[], &grid);
    for selection in [vec![1], vec![2], vec![1, 2], vec![77], vec![5, 4, 3]] {
        let lit = plan_layout(&nodes(), &links(), &services(), num(5.0), &selection, &grid);
        assert_eq!(lit.boundaries, plain.boundaries);
        assert_eq!(lit.warnings, plain.warnings);
        assert_eq!(lit.lanes.len(), plain.lanes.len());
        for (a, b) in lit.lanes.iter().zip(plain.lanes.iter()) {
            assert_eq!(a.service_id, b.service_id);
            assert_eq!(a.channel, b.channel);
            assert_eq!(a.route, b.route);
            assert_eq!(b.emphasis, Emphasis::Standard);
            if selection.contains(&a.service_id) {
                assert_eq!(a.emphasis, Emphasis::Highlighted);
            } else {
                assert_eq!(a.emphasis, Emphasis::Dimmed);
            }
        }
    }
}

#[test]
fn highlight_of_an_absent_service_dims_everything() {
    let plan =
        plan_layout(&nodes(), &links(), &services(), num(5.0), &[77], &ChannelGrid::standard());
    assert_eq!(plan.node_highlighted, vec![false, false, false, false]);
    assert_eq!(plan.lanes, expected_lanes(Emphasis::Dimmed, Emphasis::Dimmed));
    assert!(plan.labels.is_empty());
}

#[test]
fn highlighted_service_marks_nodes_even_when_inactive() {
    let plan =
        plan_layout(&nodes(), &links(), &services(), num(20.0), &[2], &ChannelGrid::standard());
    assert!(plan.lanes.is_empty());
    assert!(plan.labels.is_empty());
    assert_eq!(plan.node_highlighted, vec![true, true, false, false]);
}

#[test]
fn services_are_active_from_arrival_up_to_departure() {
    let grid = ChannelGrid::standard();
    let ids = |t: f32| -> Vec<i32> {
        let plan = plan_layout(&nodes(), &links(), &services(), num(t), &[], &grid);
        let mut ids: Vec<i32> = plan.lanes.iter().map(|l| l.service_id).collect();
        ids.dedup();
        ids
    };
    assert_eq!(ids(-1.0), Vec::<i32>::new());
    assert_eq!(ids(0.0), vec![1, 2]);
    assert_eq!(ids(5.9), vec![1, 2]);
    assert_eq!(ids(6.0), vec![1, 2, 3]);
    assert_eq!(ids(9.99), vec![1, 2, 3]);
    assert_eq!(ids(10.0), Vec::<i32>::new());
}

#[test]
fn coinciding_nodes_produce_no_segment() {
    let same = vec![node("P", 7.0, 7.0), node("Q", 7.0, 7.0), node("R", 7.0, 7.0)];
    let wires = vec![link("P", "Q"), link("Q", "R"), link("P", "P")];
    let mut m = HashMap::new();
    m.insert(1, route(&["P", "Q", "R"], 0, 0.0, 10.0));
    m.insert(2, route(&["R", "R"], 0, 0.0, 10.0));
    let plan = plan_layout(&same, &wires, &m, num(1.0), &[1], &ChannelGrid::standard());
    assert!(plan.boundaries.is_empty());
    assert!(plan.lanes.is_empty());
    assert!(plan.warnings.is_empty());
    assert_eq!(plan.node_highlighted, vec![true, true, true]);
    assert_eq!(plan.labels.len(), 3);
}

#[test]
fn zeros_of_either_sign_coincide() {
    let a = Location { x: num(0.0), y: num(-0.0) };
    let b = Location { x: num(-0.0), y: num(0.0) };
    assert!(a.coincides(b));
    let c = Location { x: num(f32::NAN), y: num(0.0) };
    assert!(!c.coincides(c));
    assert!(!a.coincides(Location { x: num(0.0), y: num(1.0e-45) }));
}

#[test]
fn elbow_is_skipped_when_one_of_its_hops_is_degenerate() {
    let ns = vec![node("P", 0.0, 0.0), node("Q", 5.0, 0.0), node("R", 5.0, 0.0)];
    let mut m = HashMap::new();
    m.insert(1, route(&["P", "Q", "R"], 4, 0.0, 10.0));
    let plan = plan_layout(&ns, &[], &m, num(1.0), &[], &ChannelGrid::standard());
    assert_eq!(
        plan.lanes,
        vec![lane(4 - 3, 4, Emphasis::Standard, Route::Hop { source: 0, target: 1, upward: true })]
    );
}

#[test]
fn unknown_nodes_are_reported_and_skipped() {
    let ns = vec![node("P", 0.0, 0.0), node("Q", 5.0, 0.0)];
    let mut m = HashMap::new();
    m.insert(9, route(&["P", "Z", "Q", "P"], 4, 0.0, 10.0));
    let plan = plan_layout(&ns, &[link("Z", "P")], &m, num(1.0), &[9], &ChannelGrid::standard());
    assert_eq!(
        plan.lanes,
        vec![lane(9, 4, Emphasis::Highlighted, Route::Hop { source: 1, target: 0, upward: true })]
    );
    assert_eq!(
        plan.warnings,
        vec![
            Warning::UnknownLinkNode { link: 0 },
            Warning::UnknownHopNode { service_id: 9, hop: 0 },
            Warning::UnknownHopNode { service_id: 9, hop: 1 },
            Warning::UnknownElbowNode { service_id: 9, hop: 0 },
            Warning::UnknownElbowNode { service_id: 9, hop: 1 },
        ]
    );
    assert_eq!(
        plan.labels,
        vec![label("0", 0.0, -0.0), label("2", 5.0, -0.0), label("3", 0.0, -0.0)]
    );
    assert_eq!(plan.node_highlighted, vec![true, true]);
}

#[test]
fn short_paths_draw_nothing() {
    let ns = vec![node("P", 0.0, 0.0), node("Q", 5.0, 0.0)];
    let mut m = HashMap::new();
    m.insert(1, route(&[], 4, 0.0, 10.0));
    m.insert(2, route(&["P"], 4, 0.0, 10.0));
    let plan = plan_layout(&ns, &[], &m, num(1.0), &[], &ChannelGrid::standard());
    assert!(plan.lanes.is_empty());
    assert!(plan.warnings.is_empty());
}

#[test]
fn direction_is_upward_when_world_y_does_not_fall() {
    let low = Location { x: num(0.0), y: num(10.0) };
    let high = Location { x: num(0.0), y: num(-10.0) };
    assert!(is_upward(low, high));
    assert!(!is_upward(high, low));
    assert!(is_upward(low, low));
    assert_eq!(low.world(), Location { x: num(0.0), y: num(-10.0) });
}

#[test]
fn downward_hops_are_flagged() {
    let ns = vec![node("P", 0.0, 0.0), node("Q", 5.0, 20.0), node("R", 9.0, 0.0)];
    let mut m = HashMap::new();
    m.insert(1, route(&["P", "Q", "R"], 4, 0.0, 10.0));
    let plan = plan_layout(&ns, &[], &m, num(1.0), &[], &ChannelGrid::standard());
    assert_eq!(
        plan.lanes,
        vec![
            lane(1, 4, Emphasis::Standard, Route::Hop { source: 0, target: 1, upward: false }),
            lane(1, 4, Emphasis::Standard, Route::Hop { source: 1, target: 2, upward: true }),
            lane(
                1,
                4,
                Emphasis::Standard,
                Route::Elbow {
                    previous: 0,
                    middle: 1,
                    next: 2,
                    upward_in: false,
                    upward_out: true
                }
            ),
        ]
    );
}

#[test]
fn find_node_takes_the_last_of_equal_identifiers() {
    let ns = vec![node("P", 0.0, 0.0), node("Q", 5.0, 0.0), node("P", 9.0, 9.0)];
    assert_eq!(find_node(&ns, &"P".to_string()), Some(2));
    assert_eq!(find_node(&ns, &"Q".to_string()), Some(1));
    assert_eq!(find_node(&ns, &"R".to_string()), None);
    assert_eq!(find_node(&[], &"P".to_string()), None);
}

#[test]
fn sorted_ids_are_ascending() {
    assert_eq!(sorted_ids(&services()), vec![1, 2, 3, 4, 5]);
    let mut m = HashMap::new();
    for id in [i32::MAX, -3, 0, i32::MIN, 17, 4] {
        m.insert(id, route(&["A", "B"], 0, 0.0, 1.0));
    }
    assert_eq!(sorted_ids(&m), vec![i32::MIN, -3, 0, 4, 17, i32::MAX]);
    assert_eq!(sorted_ids(&HashMap::new()), Vec::<i32>::new());
}

#[test]
fn emphasis_depends_on_the_selection() {
    assert_eq!(emphasis_for(&[], 1), Emphasis::Standard);
    assert_eq!(emphasis_for(&[2], 1), Emphasis::Dimmed);
    assert_eq!(emphasis_for(&[2, 1], 1), Emphasis::Highlighted);
    assert!(is_highlighted(&[2, 1], 2));
    assert!(!is_highlighted(&[2, 1], 3));
}

#[test]
fn plan_links_appends_its_warnings() {
    let mut warnings = vec![Warning::WavelengthOutOfRange { service_id: 0, wavelength: -1 }];
    let boundaries = plan_links(&nodes(), &links(), &mut warnings);
    assert_eq!(boundaries.len(), 2);
    assert_eq!(
        warnings,
        vec![
            Warning::WavelengthOutOfRange { service_id: 0, wavelength: -1 },
            Warning::UnknownLinkNode { link: 3 },
        ]
    );
}

#[test]
fn plan_service_appends_to_what_is_there() {
    let grid = ChannelGrid::standard();
    let first = lane(0, 0, Emphasis::Standard, Route::Hop { source: 0, target: 1, upward: true });
    let mut lanes = vec![first];
    let mut labels = vec![label("x", 1.0, 1.0)];
    let mut warnings = Vec::new();
    let service = route(&["B", "A"], -7, 0.0, 1.0);
    plan_service(&nodes(), &grid, &[8], 8, &service, &mut lanes, &mut labels, &mut warnings);
    assert_eq!(
        lanes,
        vec![
            first,
            lane(8, 79, Emphasis::Highlighted, Route::Hop { source: 1, target: 0, upward: true }),
        ]
    );
    assert_eq!(
        labels,
        vec![label("x", 1.0, 1.0), label("0", 100.0, -0.0), label("1", 0.0, -0.0)]
    );
    assert_eq!(warnings, vec![Warning::WavelengthOutOfRange { service_id: 8, wavelength: -7 }]);
}

#[test]
fn mark_nodes_follows_the_paths_of_selected_services() {
    assert_eq!(mark_nodes(&nodes(), &services(), &[]), vec![false; 4]);
    assert_eq!(mark_nodes(&nodes(), &services(), &[4]), vec![false, false, true, true]);
    assert_eq!(mark_nodes(&nodes(), &services(), &[5, 77]), vec![true, false, false, false]);
    assert_eq!(mark_nodes(&nodes(), &services(), &[4, 3]), vec![true, true, true, true]);
}

#[test]
fn every_index_of_a_plan_is_valid() {
    let ns = nodes();
    let plan = plan_layout(&ns, &links(), &services(), num(7.0), &[3], &ChannelGrid::standard());
    assert_eq!(plan.node_highlighted.len(), ns.len());
    for b in plan.boundaries.iter() {
        assert!(b.link < links().len() && b.source < ns.len() && b.target < ns.len());
    }
    for l in plan.lanes.iter() {
        assert!(l.channel < 80);
        match l.route {
            Route::Hop { source, target, .. } => assert!(source < ns.len() && target < ns.len()),
            Route::Elbow { previous, middle, next, .. } => {
                assert!(previous < ns.len() && middle < ns.len() && next < ns.len())
            }
        }
    }
}

#[test]
fn replay_resolve_and_layout_work_together() {
    let log = vec![
        AnyEvent::Allocation {
            timestamp: num(1.0),
            service_id: 1,
            details: route(&["A", "B", "C"], 10, 1.0, 50.0),
        },
        AnyEvent::Allocation {
            timestamp: num(2.0),
            service_id: 2,
            details: route(&["A", "B"], 11, 2.0, 50.0),
        },
        AnyEvent::ReleaseExpired {
            timestamp: num(50.0),
            service_id: 1,
            details: ReleaseExpiredDetails { departure_time: num(50.0) },
        },
    ];
    let resolution = resolve_highlight(&log, 2).unwrap();
    let snapshot = reconstruct_state_at_time(&log, resolution.query_time);
    let plan = plan_layout(
        &nodes(),
        &links(),
        &snapshot,
        resolution.query_time,
        &resolution.related_service_ids,
        &ChannelGrid::standard(),
    );
    let styles: Vec<(i32, Emphasis)> =
        plan.lanes.iter().map(|l| (l.service_id, l.emphasis)).collect();
    assert_eq!(
        styles,
        vec![
            (1, Emphasis::Dimmed),
            (1, Emphasis::Dimmed),
            (1, Emphasis::Dimmed),
            (2, Emphasis::Highlighted),
        ]
    );
    assert_eq!(plan.node_highlighted, vec![true, true, false, false]);
    assert_eq!(plan.labels, vec![label("0", 0.0, -0.0), label("1", 100.0, -0.0)]);
}

#[test]
fn lines_for_a_time_replay_the_log_first() {
    let log = vec![
        AnyEvent::Allocation {
            timestamp: num(1.0),
            service_id: 1,
            details: route(&["A", "B", "C"], 10, 1.0, 50.0),
        },
        AnyEvent::Allocation {
            timestamp: num(2.0),
            service_id: 2,
            details: route(&["A", "B"], 11, 2.0, 50.0),
        },
        AnyEvent::ReleaseExpired {
            timestamp: num(20.0),
            service_id: 1,
            details: ReleaseExpiredDetails { departure_time: num(20.0) },
        },
    ];
    let grid = ChannelGrid::standard();
    for time in [0.0f32, 1.0, 1.5, 2.0, 19.0, 20.0, 49.0, 50.0, 60.0] {
        let direct =
            generate_all_lines_for_current_time(&nodes(), &links(), &log, num(time), &[2], &grid);
        let snapshot = reconstruct_state_at_time(&log, num(time));
        let stepwise = plan_layout(&nodes(), &links(), &snapshot, num(time), &[2], &grid);
        assert_eq!(direct, stepwise);
    }
    let at = |time: f32| -> Vec<i32> {
        let plan =
            generate_all_lines_for_current_time(&nodes(), &links(), &log, num(time), &[], &grid);
        let mut ids: Vec<i32> = plan.lanes.iter().map(|l| l.service_id).collect();
        ids.dedup();
        ids
    };
    assert_eq!(at(0.5), Vec::<i32>::new());
    assert_eq!(at(1.0), vec![1]);
    assert_eq!(at(2.0), vec![1, 2]);
    assert_eq!(at(20.0), vec![2]);
    assert_eq!(at(50.0), Vec::<i32>::new());
}
