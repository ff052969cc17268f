//! Resolution of a highlight selection: which services belong to a selected
//! one, and at what time to look at them.
use crate::scene::defrag_event::{
    ascending, cut, lemma_cut_from, timeline_view, AnyEvent, EventModel,
};
use crate::single::{Single, INFINITY_BITS};
use vstd::prelude::*;

verus! {

/// What a selection resolves to.
#[derive(Debug, PartialEq, Eq)]
pub struct Resolution {
    /// The selected service and the services reallocated from it, in the
    /// order of the events that name them.
    pub related_service_ids: Vec<i32>,
    /// The time to query: the least time after the captured arrival time.
    pub query_time: Single,
}

/// The event allocates the selected service.
pub open spec fn allocates(event: EventModel, selected: i32) -> bool {
    event matches EventModel::Allocation { service_id, .. } && service_id == selected
}

/// The event reallocates some service from the selected one.
pub open spec fn reallocates_from(event: EventModel, selected: i32) -> bool {
    event matches EventModel::Reallocation { reallocated_from, .. } && reallocated_from == selected
}

/// The event refers to the selected service in one of the two ways.
pub open spec fn references(event: EventModel, selected: i32) -> bool {
    allocates(event, selected) || reallocates_from(event, selected)
}

/// The arrival time of the service that an allocation or reallocation carries.
pub open spec fn carried_arrival(event: EventModel) -> Single {
    match event {
        EventModel::Allocation { service, .. } => service.arrival_time,
        EventModel::Reallocation { service, .. } => service.arrival_time,
        EventModel::ReleaseExpired { timestamp, .. } => timestamp,
    }
}

/// The ids related to the selection among the first `n` events: the selected
/// id for each allocation of it, and the id of each service reallocated from
/// it, in the order of the events.
pub open spec fn related_ids(log: Seq<EventModel>, selected: i32, n: int) -> Seq<i32>
    decreases n,
{
    if n <= 0 {
        Seq::empty()
    } else if references(log[n - 1], selected) {
        related_ids(log, selected, n - 1).push(log[n - 1].service_id())
    } else {
        related_ids(log, selected, n - 1)
    }
}

/// The arrival time captured from the first `n` events: that of the last
/// allocation of the selected service; where there is none, that of the
/// first reallocation from it; `None` where no event refers to it.
pub open spec fn captured_arrival(log: Seq<EventModel>, selected: i32, n: int) -> Option<Single>
    decreases n,
{
    if n <= 0 {
        None
    } else {
        let earlier = captured_arrival(log, selected, n - 1);
        if allocates(log[n - 1], selected) {
            Some(carried_arrival(log[n - 1]))
        } else if reallocates_from(log[n - 1], selected) && earlier is None {
            Some(carried_arrival(log[n - 1]))
        } else {
            earlier
        }
    }
}

/// An arrival time is captured exactly where some event refers to the
/// selection, and then at least one id is related.
pub proof fn lemma_captured_iff_referenced(log: Seq<EventModel>, selected: i32, n: int)
    requires
        0 <= n <= log.len(),
    ensures
        captured_arrival(log, selected, n) is Some <==> exists|k: int|
            0 <= k < n && references(#[trigger] log[k], selected),
        captured_arrival(log, selected, n) is Some <==> related_ids(log, selected, n).len() > 0,
    decreases n,
{
    if n > 0 {
        lemma_captured_iff_referenced(log, selected, n - 1);
        if references(log[n - 1], selected) {
        } else if captured_arrival(log, selected, n) is Some {
            let k = choose|k: int| 0 <= k < n - 1 && references(#[trigger] log[k], selected);
            assert(0 <= k < n && references(log[k], selected));
        } else {
            assert forall|k: int| 0 <= k < n implies !references(#[trigger] log[k], selected) by {
                if k < n - 1 {
                    assert(!references(log[k], selected));
                }
            }
        }
    }
}

/// Where the selected service is allocated, the captured arrival time is that
/// of its last allocation; otherwise it is that of the first reallocation
/// from it.
pub proof fn lemma_captured_arrival_source(log: Seq<EventModel>, selected: i32, n: int, k: int)
    requires
        0 <= k < n <= log.len(),
        references(log[k], selected),
        allocates(log[k], selected) ==> forall|j: int|
            k < j < n ==> !allocates(#[trigger] log[j], selected),
        !allocates(log[k], selected) ==> (forall|j: int|
            0 <= j < n ==> !allocates(#[trigger] log[j], selected)) && (forall|j: int|
            0 <= j < k ==> !reallocates_from(#[trigger] log[j], selected)),
    ensures
        captured_arrival(log, selected, n) == Some(carried_arrival(log[k])),
    decreases n,
{
    if k < n - 1 {
        assert(!allocates(log[n - 1], selected));
        lemma_captured_arrival_source(log, selected, n - 1, k);
    } else if !allocates(log[k], selected) {
        lemma_captured_iff_referenced(log, selected, k);
        if captured_arrival(log, selected, k) is Some {
            let j = choose|j: int| 0 <= j < k && references(#[trigger] log[j], selected);
            assert(!allocates(log[j], selected));
            assert(!reallocates_from(log[j], selected));
        }
    }
}

/// The query time covers the captured arrival. In a log in ascending order,
/// a replay up to the least time after `arrival` applies every event whose
/// timestamp is at most `arrival`, and with it every earlier event.
pub proof fn lemma_query_time_covers_arrival(log: Seq<EventModel>, arrival: Single, k: int)
    requires
        ascending(log),
        0 <= k < log.len(),
        log[k].timestamp().le_spec(arrival),
    ensures
        k < cut(log, arrival.next_up_spec()),
        !arrival.is_nan() && arrival.rank() < INFINITY_BITS as int ==> arrival.lt_spec(
            arrival.next_up_spec(),
        ),
{
    let query = arrival.next_up_spec();
    lemma_cut_from(log, query, 0);
    let c = cut(log, query);
    if c <= k {
        assert(log[c].timestamp().gt_spec(query));
        assert(log[c].timestamp().le_spec(log[k].timestamp()));
    }
}

/// Resolves the selection of a service. The result is `None` where no
/// allocation of the service and no reallocation from it is in the log.
/// Otherwise it holds the related ids, and as query time the least time after
/// the captured arrival time, so that a replay up to it includes every event
/// up to that arrival.
pub fn resolve_highlight(events: &[AnyEvent], selected_service_id: i32) -> (resolution: Option<
    Resolution,
>)
    ensures
        match resolution {
            Some(r) => {
                &&& captured_arrival(
                    timeline_view(events@),
                    selected_service_id,
                    events@.len() as int,
                ) is Some
                &&& r.query_time == captured_arrival(
                    timeline_view(events@),
                    selected_service_id,
                    events@.len() as int,
                )->0.next_up_spec()
                &&& r.related_service_ids@ == related_ids(
                    timeline_view(events@),
                    selected_service_id,
                    events@.len() as int,
                )
                &&& r.related_service_ids@.len() > 0
            },
            None => captured_arrival(
                timeline_view(events@),
                selected_service_id,
                events@.len() as int,
            ) is None,
        },
        resolution is Some <==> exists|k: int|
            0 <= k < events@.len() && references(
                #[trigger] timeline_view(events@)[k],
                selected_service_id,
            ),
{
    let ghost log = timeline_view(events@);
    let mut related: Vec<i32> = Vec::new();
    let mut arrival: Option<Single> = None;
    let mut i: usize = 0;
    while i < events.len()
        invariant
            i <= events.len(),
            log == timeline_view(events@),
            related@ == related_ids(log, selected_service_id, i as int),
            arrival == captured_arrival(log, selected_service_id, i as int),
        decreases events.len() - i,
    {
        match &events[i] {
            AnyEvent::Allocation { service_id, details, .. } => {
                if *service_id == selected_service_id {
                    related.push(*service_id);
                    arrival = Some(details.arrival_time);
                }
            },
            AnyEvent::Reallocation { service_id, details, .. } => {
                if details.defrag_service_id == selected_service_id {
                    related.push(*service_id);
                    if arrival.is_none() {
                        arrival = Some(details.service.arrival_time);
                    }
                }
            },
            AnyEvent::ReleaseExpired { .. } => {},
        }
        i += 1;
    }
    proof {
        lemma_captured_iff_referenced(log, selected_service_id, events@.len() as int);
    }
    match arrival {
        Some(captured) => Some(
            Resolution { related_service_ids: related, query_time: captured.next_up() },
        ),
        None => None,
    }
}

} // verus!
