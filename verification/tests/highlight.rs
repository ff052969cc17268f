use wdmview::highlight::{resolve_highlight, Resolution};
use wdmview::scene::defrag_event::{
    reconstruct_state_at_time, AnyEvent, ReallocationDetails, ReleaseExpiredDetails,
};
use wdmview::scene::service::ServiceData;
use wdmview::single::Single;

fn at(v: f32) -> Single {
    Single::from_bits(v.to_bits())
}

fn circuit(arrival: f32) -> ServiceData {
    ServiceData {
        source_id: "a".to_string(),
        destination_id: "b".to_string(),
        arrival_time: at(arrival),
        departure_time: at(arrival + 100.0),
        snr_requirement: at(0.0),
        bit_rate_requirement: at(0.0),
        power: at(0.0),
        path: vec!["a".to_string(), "b".to_string()],
        wavelength: 1,
        gsnr: at(0.0),
        utilization: at(0.0),
    }
}

fn allocated(time: f32, id: i32, arrival: f32) -> AnyEvent {
    AnyEvent::Allocation { timestamp: at(time), service_id: id, details: circuit(arrival) }
}

fn reallocated(time: f32, id: i32, from: i32, arrival: f32) -> AnyEvent {
    AnyEvent::Reallocation {
        timestamp: at(time),
        service_id: id,
        details: ReallocationDetails { defrag_service_id: from, service: circuit(arrival) },
    }
}

fn expired(time: f32, id: i32) -> AnyEvent {
    AnyEvent::ReleaseExpired {
        timestamp: at(time),
        service_id: id,
        details: ReleaseExpiredDetails { departure_time: at(time) },
    }
}

#[test]
fn allocation_resolves_to_itself() {
    let log = vec![allocated(1.0, 5, 1.0), allocated(2.0, 6, 2.0)];
    let r = resolve_highlight(&log, 5).unwrap();
    assert_eq!(r.related_service_ids, vec![5]);
    assert_eq!(r.query_time, at(1.0).next_up());
    assert_eq!(r.query_time.to_bits(), 0x3f80_0001);
}

#[test]
fn reallocations_from_the_selection_are_related() {
    let log = vec![
        allocated(1.0, 5, 1.0),
        reallocated(2.0, 7, 5, 2.0),
        reallocated(3.0, 8, 6, 3.0),
        reallocated(4.0, 9, 5, 4.0),
    ];
    let r = resolve_highlight(&log, 5).unwrap();
    assert_eq!(r.related_service_ids, vec![5, 7, 9]);
    assert_eq!(r.query_time, at(1.0).next_up());
}

#[test]
fn reallocation_alone_gives_the_fallback_time() {
    let log = vec![allocated(1.0, 6, 1.0), reallocated(2.0, 7, 5, 2.5), reallocated(3.0, 8, 5, 3.5)];
    let r = resolve_highlight(&log, 5).unwrap();
    assert_eq!(r.related_service_ids, vec![7, 8]);
    assert_eq!(r.query_time, at(2.5).next_up());
}

#[test]
fn allocation_after_a_reallocation_sets_the_time() {
    let log = vec![reallocated(2.0, 7, 5, 2.5), allocated(3.0, 5, 3.0)];
    let r = resolve_highlight(&log, 5).unwrap();
    assert_eq!(r.related_service_ids, vec![7, 5]);
    assert_eq!(r.query_time, at(3.0).next_up());
}

#[test]
fn last_allocation_wins() {
    let log = vec![allocated(1.0, 5, 1.0), expired(2.0, 5), allocated(3.0, 5, 3.0)];
    let r = resolve_highlight(&log, 5).unwrap();
    assert_eq!(r.related_service_ids, vec![5, 5]);
    assert_eq!(r.query_time, at(3.0).next_up());
}

#[test]
fn unknown_selection_is_not_found() {
    let log = vec![allocated(1.0, 5, 1.0), expired(2.0, 4), reallocated(3.0, 4, 5, 3.0)];
    assert_eq!(resolve_highlight(&log, 4), None);
    assert_eq!(resolve_highlight(&log, 99), None);
    let empty: Vec<AnyEvent> = Vec::new();
    assert_eq!(resolve_highlight(&empty, 5), None);
}

#[test]
fn release_of_the_selection_alone_is_not_found() {
    let log = vec![expired(2.0, 5)];
    assert_eq!(resolve_highlight(&log, 5), None);
}

#[test]
fn query_time_includes_the_creating_event() {
    let log = vec![allocated(100.0, 5, 100.0), expired(150.0, 5)];
    let r = resolve_highlight(&log, 5).unwrap();
    assert!(r.query_time.gt(at(100.0)));
    let state = reconstruct_state_at_time(&log, r.query_time);
    assert!(state.contains_key(&5));
    assert!(state.get(&5).unwrap().is_active_at(r.query_time));
}

#[test]
fn infinite_arrival_is_kept() {
    let log = vec![allocated(1.0, 5, f32::INFINITY)];
    let r = resolve_highlight(&log, 5).unwrap();
    assert_eq!(
        r,
        Resolution { related_service_ids: vec![5], query_time: at(f32::INFINITY) }
    );
}
