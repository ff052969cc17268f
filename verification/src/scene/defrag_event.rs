//! The event log of a network and its replay up to a point in time.
use crate::scene::service::{ServiceData, ServiceModel};
use crate::single::Single;
use std::collections::HashMap;
use vstd::prelude::*;

verus! {

broadcast use vstd::std_specs::hash::group_hash_axioms;

/// The outcome of one defragmentation run, as block counts.
#[derive(Clone, Copy, Debug, PartialEq, Eq)]
pub struct DefragResult {
    pub blocknum1: i32,
    pub blocknum2: i32,
}

/// The new definition of a service, with the service that the reallocation
/// stems from.
#[derive(Debug, PartialEq)]
pub struct ReallocationDetails {
    pub defrag_service_id: i32,
    pub service: ServiceData,
}

/// What a release event carries.
#[derive(Clone, Copy, Debug, PartialEq, Eq)]
pub struct ReleaseExpiredDetails {
    pub departure_time: Single,
}

/// One entry of the event log.
#[allow(inconsistent_fields)]
#[derive(Debug, PartialEq)]
pub enum AnyEvent {
    /// The service becomes active.
    Allocation { timestamp: Single, service_id: i32, details: ServiceData },
    /// The service becomes inactive.
    ReleaseExpired { timestamp: Single, service_id: i32, details: ReleaseExpiredDetails },
    /// The service's definition is replaced.
    Reallocation { timestamp: Single, service_id: i32, details: ReallocationDetails },
}

/// A defragmentation result with the events that led to it.
#[derive(Debug, PartialEq)]
pub struct DefragResponse {
    pub result: DefragResult,
    pub defrag_timeline_events: Vec<AnyEvent>,
}

/// An event as plain mathematical data.
pub enum EventModel {
    Allocation { timestamp: Single, service_id: i32, service: ServiceModel },
    ReleaseExpired { timestamp: Single, service_id: i32, departure_time: Single },
    Reallocation { timestamp: Single, service_id: i32, reallocated_from: i32, service: ServiceModel },
}

impl EventModel {
    /// When the event happened.
    pub open spec fn timestamp(self) -> Single {
        match self {
            EventModel::Allocation { timestamp, .. } => timestamp,
            EventModel::ReleaseExpired { timestamp, .. } => timestamp,
            EventModel::Reallocation { timestamp, .. } => timestamp,
        }
    }

    /// The service that the event is about.
    pub open spec fn service_id(self) -> i32 {
        match self {
            EventModel::Allocation { service_id, .. } => service_id,
            EventModel::ReleaseExpired { service_id, .. } => service_id,
            EventModel::Reallocation { service_id, .. } => service_id,
        }
    }

    /// The event releases service `id`.
    pub open spec fn releases(self, id: i32) -> bool {
        self matches EventModel::ReleaseExpired { service_id, .. } && service_id == id
    }
}

impl View for AnyEvent {
    type V = EventModel;

    open spec fn view(&self) -> EventModel {
        match *self {
            AnyEvent::Allocation { timestamp, service_id, details } => EventModel::Allocation {
                timestamp,
                service_id,
                service: details@,
            },
            AnyEvent::ReleaseExpired { timestamp, service_id, details } => {
                EventModel::ReleaseExpired {
                    timestamp,
                    service_id,
                    departure_time: details.departure_time,
                }
            },
            AnyEvent::Reallocation { timestamp, service_id, details } => EventModel::Reallocation {
                timestamp,
                service_id,
                reallocated_from: details.defrag_service_id,
                service: details.service@,
            },
        }
    }
}

impl Clone for ReallocationDetails {
    /// A copy with the same contents.
    fn clone(&self) -> (copy: ReallocationDetails)
        ensures
            copy.defrag_service_id == self.defrag_service_id,
            copy.service@ == self.service@,
    {
        ReallocationDetails {
            defrag_service_id: self.defrag_service_id,
            service: self.service.clone(),
        }
    }
}

impl From<ReallocationDetails> for ServiceData {
    /// The service that a reallocation carries.
    fn from(details: ReallocationDetails) -> (service: ServiceData) {
        details.service
    }
}

impl vstd::std_specs::convert::FromSpecImpl<ReallocationDetails> for ServiceData {
    open spec fn obeys_from_spec() -> bool {
        true
    }

    open spec fn from_spec(details: ReallocationDetails) -> ServiceData {
        details.service
    }
}

impl Clone for AnyEvent {
    /// A copy with the same contents.
    fn clone(&self) -> (copy: AnyEvent)
        ensures
            copy@ == self@,
    {
        match self {
            AnyEvent::Allocation { timestamp, service_id, details } => AnyEvent::Allocation {
                timestamp: *timestamp,
                service_id: *service_id,
                details: details.clone(),
            },
            AnyEvent::ReleaseExpired { timestamp, service_id, details } => {
                AnyEvent::ReleaseExpired {
                    timestamp: *timestamp,
                    service_id: *service_id,
                    details: *details,
                }
            },
            AnyEvent::Reallocation { timestamp, service_id, details } => AnyEvent::Reallocation {
                timestamp: *timestamp,
                service_id: *service_id,
                details: details.clone(),
            },
        }
    }
}

impl AnyEvent {
    /// When the event happened.
    pub fn timestamp(&self) -> (t: Single)
        ensures
            t == self@.timestamp(),
    {
        match self {
            AnyEvent::Allocation { timestamp, .. } => *timestamp,
            AnyEvent::ReleaseExpired { timestamp, .. } => *timestamp,
            AnyEvent::Reallocation { timestamp, .. } => *timestamp,
        }
    }
}

/// An event log as plain mathematical data.
pub open spec fn timeline_view(events: Seq<AnyEvent>) -> Seq<EventModel> {
    Seq::new(events.len(), |i: int| events[i]@)
}

/// A snapshot as plain mathematical data: each stored service by its model.
pub open spec fn snapshot_view(state: Map<i32, ServiceData>) -> Map<i32, ServiceModel> {
    Map::new(|id: i32| state.contains_key(id), |id: i32| state[id]@)
}

/// The snapshot after one more event.
pub open spec fn apply_event(state: Map<i32, ServiceModel>, event: EventModel) -> Map<
    i32,
    ServiceModel,
> {
    match event {
        EventModel::Allocation { service_id, service, .. } => state.insert(service_id, service),
        EventModel::ReleaseExpired { service_id, .. } => state.remove(service_id),
        EventModel::Reallocation { service_id, service, .. } => state.insert(service_id, service),
    }
}

/// The snapshot after the events `log[from..to]`, in stored order, starting
/// from `state`.
pub open spec fn apply_range(
    state: Map<i32, ServiceModel>,
    log: Seq<EventModel>,
    from: int,
    to: int,
) -> Map<i32, ServiceModel>
    decreases to - from,
{
    if to <= from {
        state
    } else {
        apply_event(apply_range(state, log, from, to - 1), log[to - 1])
    }
}

/// The index of the first event at or after `from` whose timestamp is after
/// `t`; the length of the log where there is none.
pub open spec fn cut_from(log: Seq<EventModel>, t: Single, from: int) -> int
    decreases log.len() - from,
{
    if from < 0 || from >= log.len() || log[from].timestamp().gt_spec(t) {
        from
    } else {
        cut_from(log, t, from + 1)
    }
}

/// How many events a replay up to time `t` applies: all those before the first
/// event whose timestamp is after `t`.
pub open spec fn cut(log: Seq<EventModel>, t: Single) -> int {
    cut_from(log, t, 0)
}

/// The snapshot at time `t`: the events before the first one later than `t`,
/// applied in stored order to an empty snapshot.
pub open spec fn replay(log: Seq<EventModel>, t: Single) -> Map<i32, ServiceModel> {
    apply_range(Map::empty(), log, 0, cut(log, t))
}

/// The timestamps of the log are numbers in non-decreasing order.
pub open spec fn ascending(log: Seq<EventModel>) -> bool {
    forall|i: int, j: int|
        0 <= i <= j < log.len() ==> (#[trigger] log[i]).timestamp().le_spec(
            (#[trigger] log[j]).timestamp(),
        )
}

/// `cut_from` stops at the first late event: it lies between `from` and the
/// end of the log, no event from `from` up to it is later than `t`, and the
/// event at it, if there is one, is later than `t`.
pub proof fn lemma_cut_from(log: Seq<EventModel>, t: Single, from: int)
    requires
        0 <= from <= log.len(),
    ensures
        from <= cut_from(log, t, from) <= log.len(),
        forall|k: int| from <= k < cut_from(log, t, from) ==> !(#[trigger] log[k]).timestamp().gt_spec(t),
        cut_from(log, t, from) < log.len() ==> log[cut_from(log, t, from)].timestamp().gt_spec(t),
    decreases log.len() - from,
{
    if from < log.len() && !log[from].timestamp().gt_spec(t) {
        lemma_cut_from(log, t, from + 1);
    }
}

/// Any index with the three properties of `lemma_cut_from` is the cut.
pub proof fn lemma_cut_unique(log: Seq<EventModel>, t: Single, from: int, k: int)
    requires
        0 <= from <= k <= log.len(),
        forall|j: int| from <= j < k ==> !(#[trigger] log[j]).timestamp().gt_spec(t),
        k < log.len() ==> log[k].timestamp().gt_spec(t),
    ensures
        cut_from(log, t, from) == k,
    decreases k - from,
{
    if from < k {
        lemma_cut_unique(log, t, from + 1, k);
    }
}

/// Replaying `log[from..to]` in two parts gives what replaying it in one does.
pub proof fn lemma_apply_range_split(
    state: Map<i32, ServiceModel>,
    log: Seq<EventModel>,
    from: int,
    mid: int,
    to: int,
)
    requires
        from <= mid <= to,
    ensures
        apply_range(state, log, from, to) == apply_range(
            apply_range(state, log, from, mid),
            log,
            mid,
            to,
        ),
    decreases to - mid,
{
    if mid < to {
        lemma_apply_range_split(state, log, from, mid, to - 1);
    }
}

/// A service that is in the snapshot before `log[from..to]` and not after it
/// was released by one of those events.
pub proof fn lemma_only_release_forgets(
    state: Map<i32, ServiceModel>,
    log: Seq<EventModel>,
    from: int,
    to: int,
    id: i32,
)
    requires
        0 <= from <= to <= log.len(),
        state.contains_key(id),
        !apply_range(state, log, from, to).contains_key(id),
    ensures
        exists|k: int| from <= k < to && (#[trigger] log[k]).releases(id),
    decreases to - from,
{
    if to > from {
        let before = apply_range(state, log, from, to - 1);
        if before.contains_key(id) {
            assert(log[to - 1].releases(id));
        } else {
            lemma_only_release_forgets(state, log, from, to - 1, id);
        }
    }
}

/// The last event about a service decides. After the first `n` events, a
/// service is in the snapshot exactly where some event is about it and the
/// last such event is an allocation or a reallocation, and it is then the
/// service that this event carries.
pub proof fn lemma_last_event_decides(log: Seq<EventModel>, n: int, id: i32, k: int)
    requires
        0 <= n <= log.len(),
        -1 <= k < n,
        k >= 0 ==> log[k].service_id() == id,
        forall|j: int| k < j < n ==> (#[trigger] log[j]).service_id() != id,
    ensures
        k < 0 ==> !apply_range(Map::empty(), log, 0, n).contains_key(id),
        k >= 0 ==> match log[k] {
            EventModel::Allocation { service, .. } => apply_range(
                Map::empty(),
                log,
                0,
                n,
            ).contains_key(id) && apply_range(Map::empty(), log, 0, n)[id] == service,
            EventModel::Reallocation { service, .. } => apply_range(
                Map::empty(),
                log,
                0,
                n,
            ).contains_key(id) && apply_range(Map::empty(), log, 0, n)[id] == service,
            EventModel::ReleaseExpired { .. } => !apply_range(
                Map::empty(),
                log,
                0,
                n,
            ).contains_key(id),
        },
    decreases n,
{
    if n > 0 && k < n - 1 {
        lemma_last_event_decides(log, n - 1, id, k);
        assert(log[n - 1].service_id() != id);
    }
}

/// Monotonic replay. For `t1 <= t2`, the events that a replay up to `t1`
/// applies are a prefix of those that a replay up to `t2` applies, and the
/// later snapshot is the earlier one with the remaining events applied. So a
/// service of the earlier snapshot is missing from the later one only where
/// one of the remaining events releases it; in a log in ascending order the
/// timestamp of that event lies after `t1` and not after `t2`.
pub proof fn lemma_monotonic_replay(log: Seq<EventModel>, t1: Single, t2: Single)
    requires
        t1.le_spec(t2),
    ensures
        0 <= cut(log, t1) <= cut(log, t2) <= log.len(),
        replay(log, t2) == apply_range(replay(log, t1), log, cut(log, t1), cut(log, t2)),
        forall|id: i32|
            replay(log, t1).contains_key(id) && !replay(log, t2).contains_key(id) ==> exists|
                k: int,
            |
                cut(log, t1) <= k < cut(log, t2) && (#[trigger] log[k]).releases(id) && (ascending(
                    log,
                ) ==> t1.lt_spec(log[k].timestamp()) && log[k].timestamp().le_spec(t2)),
{
    let c1 = cut(log, t1);
    let c2 = cut(log, t2);
    lemma_cut_from(log, t1, 0);
    lemma_cut_from(log, t2, 0);
    if c2 < c1 {
        assert(log[c2].timestamp().gt_spec(t2));
        assert(!log[c2].timestamp().gt_spec(t1));
    }
    lemma_apply_range_split(Map::empty(), log, 0, c1, c2);
    assert forall|id: i32|
        replay(log, t1).contains_key(id) && !replay(log, t2).contains_key(id) implies exists|
        k: int,
    |
        c1 <= k < c2 && (#[trigger] log[k]).releases(id) && (ascending(log) ==> t1.lt_spec(
            log[k].timestamp(),
        ) && log[k].timestamp().le_spec(t2)) by {
        lemma_only_release_forgets(replay(log, t1), log, c1, c2, id);
        let k = choose|k: int| c1 <= k < c2 && (#[trigger] log[k]).releases(id);
        if ascending(log) {
            assert(log[c1].timestamp().gt_spec(t1));
            assert(log[c1].timestamp().le_spec(log[k].timestamp()));
            assert(log[k].timestamp().le_spec(log[k].timestamp()));
            assert(!log[k].timestamp().gt_spec(t2));
        }
    }
}

/// Idempotence. A snapshot is a function of the log and the time alone: any
/// two maps that a replay of one log up to one time returns hold the same
/// ids, and under each id services with the same contents.
pub proof fn lemma_replay_idempotent(
    log: Seq<EventModel>,
    t: Single,
    first: Map<i32, ServiceData>,
    second: Map<i32, ServiceData>,
)
    requires
        snapshot_view(first) == replay(log, t),
        snapshot_view(second) == replay(log, t),
    ensures
        first.dom() == second.dom(),
        forall|id: i32| first.contains_key(id) ==> (#[trigger] first[id])@ == second[id]@,
{
    assert forall|id: i32| first.contains_key(id) == second.contains_key(id) by {
        assert(snapshot_view(first).contains_key(id) == first.contains_key(id));
        assert(snapshot_view(second).contains_key(id) == second.contains_key(id));
    }
    assert(first.dom() =~= second.dom());
    assert forall|id: i32| first.contains_key(id) implies (#[trigger] first[id])@
        == second[id]@ by {
        assert(snapshot_view(first)[id] == first[id]@);
        assert(snapshot_view(second)[id] == second[id]@);
    }
}

/// Reconstructs the services that exist at `target_time` by replaying the
/// events in stored order, up to the first one whose timestamp is later than
/// `target_time`. An allocation or reallocation stores the service that it
/// carries under its id, replacing what was there; a release removes the id.
pub fn reconstruct_state_at_time(timeline_events: &[AnyEvent], target_time: Single) -> (state:
    HashMap<i32, ServiceData>)
    ensures
        snapshot_view(state@) == replay(timeline_view(timeline_events@), target_time),
{
    let ghost log = timeline_view(timeline_events@);
    let mut state: HashMap<i32, ServiceData> = HashMap::new();
    let mut i: usize = 0;
    assert(snapshot_view(state@) =~= Map::<i32, ServiceModel>::empty());
    while i < timeline_events.len() && !timeline_events[i].timestamp().gt(target_time)
        invariant
            i <= timeline_events.len(),
            log == timeline_view(timeline_events@),
            forall|k: int| 0 <= k < i ==> !(#[trigger] log[k]).timestamp().gt_spec(target_time),
            snapshot_view(state@) == apply_range(Map::empty(), log, 0, i as int),
        decreases timeline_events.len() - i,
    {
        let ghost before = state@;
        match &timeline_events[i] {
            AnyEvent::Allocation { service_id, details, .. } => {
                let service = details.clone();
                state.insert(*service_id, service);
                assert(snapshot_view(state@) =~= snapshot_view(before).insert(
                    *service_id,
                    details@,
                ));
            },
            AnyEvent::ReleaseExpired { service_id, .. } => {
                state.remove(service_id);
                assert(snapshot_view(state@) =~= snapshot_view(before).remove(*service_id));
            },
            AnyEvent::Reallocation { service_id, details, .. } => {
                let service = ServiceData::from(details.clone());
                state.insert(*service_id, service);
                assert(snapshot_view(state@) =~= snapshot_view(before).insert(
                    *service_id,
                    details.service@,
                ));
            },
        }
        i += 1;
    }
    proof {
        lemma_cut_unique(log, target_time, 0, i as int);
    }
    state
}

} // verus!
