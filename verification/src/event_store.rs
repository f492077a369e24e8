//! The event store's append rule: events of an aggregate are numbered on from
//! its latest version, and an append that expects another version than the
//! latest is refused as a concurrency conflict.
use vstd::prelude::*;
use crate::text::owned;

verus! {

/// A stored event; `data` is a JSON document.
#[derive(Debug, Clone)]
pub struct Event {
    pub id: u128,
    pub aggregate_id: u128,
    pub aggregate_type: String,
    pub event_type: String,
    pub version: i64,
    pub data: String,
    pub created_at: i64,
}

/// An event to append; `data` is a JSON document.
#[derive(Debug, Clone)]
pub struct NewEvent {
    pub event_type: String,
    pub data: String,
}

/// Why the event store refused a request.
#[derive(Debug, Clone, Copy, PartialEq, Eq, Structural)]
pub enum EventStoreError {
    /// No aggregate with this id.
    NotFound(u128),
    /// The aggregate is at `actual`, not at the `expected` version.
    ConcurrencyConflict { expected: i64, actual: i64 },
    /// No event with this id.
    EventNotFound(u128),
}

/// The version an aggregate is at: its latest event's version, 0 when it has none.
pub open spec fn current_version(latest: Option<i64>) -> i64 {
    match latest {
        Some(v) => v,
        None => 0,
    }
}

/// Whether an append expecting `expected` conflicts with the latest version.
pub open spec fn conflicts(latest: Option<i64>, expected: Option<i64>) -> bool {
    expected matches Some(e) && e != current_version(latest)
}

/// Whether `e` is the `k`-th appended event: the `k`-th new event, with the
/// `k`-th id, numbered `k + 1` after the current version.
pub open spec fn is_appended(
    e: Event,
    k: int,
    aggregate_id: u128,
    aggregate_type: Seq<char>,
    latest: Option<i64>,
    events: Seq<NewEvent>,
    ids: Seq<u128>,
    now: i64,
) -> bool {
    &&& e.id == ids[k]
    &&& e.aggregate_id == aggregate_id
    &&& e.aggregate_type@ == aggregate_type
    &&& e.event_type@ == events[k].event_type@
    &&& e.version == current_version(latest) + k + 1
    &&& e.data@ == events[k].data@
    &&& e.created_at == now
}

/// Appends `events` to the aggregate whose latest version is `latest`: nothing
/// for no events; a conflict where `expected_version` is given and differs from
/// the current version (the latest, 0 when none); otherwise the events in order,
/// numbered on from the current version, with the ids `ids`.
pub fn append(
    aggregate_id: u128,
    aggregate_type: &str,
    latest: Option<i64>,
    expected_version: Option<i64>,
    events: &Vec<NewEvent>,
    ids: &Vec<u128>,
    now: i64,
) -> (r: Result<Vec<Event>, EventStoreError>)
    requires
        ids@.len() == events@.len(),
        events@.len() > 0 && !conflicts(latest, expected_version) ==> current_version(latest) + events@.len()
            <= i64::MAX,
    ensures
        events@.len() == 0 ==> (r matches Ok(v) && v@.len() == 0),
        events@.len() > 0 && conflicts(latest, expected_version) ==> r == Err::<Vec<Event>, EventStoreError>(
            EventStoreError::ConcurrencyConflict {
                expected: expected_version->0,
                actual: current_version(latest),
            },
        ),
        events@.len() > 0 && !conflicts(latest, expected_version) ==> (r matches Ok(v) && v@.len()
            == events@.len() && forall|k: int|
            0 <= k < v@.len() ==> is_appended(
                #[trigger] v@[k],
                k,
                aggregate_id,
                aggregate_type@,
                latest,
                events@,
                ids@,
                now,
            )),
{
    if events.len() == 0 {
        return Ok(Vec::new());
    }
    let current: i64 = match latest {
        Some(v) => v,
        None => 0,
    };
    if let Some(expected) = expected_version {
        if current != expected {
            return Err(EventStoreError::ConcurrencyConflict { expected, actual: current });
        }
    }
    let mut version = current;
    let mut inserted: Vec<Event> = Vec::new();
    let mut k: usize = 0;
    while k < events.len()
        invariant
            ids@.len() == events@.len(),
            current == current_version(latest),
            current + events@.len() <= i64::MAX,
            k <= events@.len(),
            version == current + k,
            inserted@.len() == k,
            forall|j: int|
                0 <= j < k ==> is_appended(
                    #[trigger] inserted@[j],
                    j,
                    aggregate_id,
                    aggregate_type@,
                    latest,
                    events@,
                    ids@,
                    now,
                ),
        decreases events.len() - k,
    {
        version = version + 1;
        let e = &events[k];
        inserted.push(
            Event {
                id: ids[k],
                aggregate_id,
                aggregate_type: owned(aggregate_type),
                event_type: e.event_type.clone(),
                version,
                data: e.data.clone(),
                created_at: now,
            },
        );
        k = k + 1;
    }
    Ok(inserted)
}

/// Law (versions run on): the events of an accepted append carry consecutive
/// versions, the first one above the version the aggregate was at.
pub proof fn law_versions_consecutive(
    v: Seq<Event>,
    aggregate_id: u128,
    aggregate_type: Seq<char>,
    latest: Option<i64>,
    events: Seq<NewEvent>,
    ids: Seq<u128>,
    now: i64,
)
    requires
        v.len() == events.len(),
        forall|k: int|
            0 <= k < v.len() ==> is_appended(#[trigger] v[k], k, aggregate_id, aggregate_type, latest, events, ids, now),
    ensures
        v.len() > 0 ==> v[0].version == current_version(latest) + 1,
        forall|k: int| 0 <= k < v.len() - 1 ==> #[trigger] v[k + 1].version == v[k].version + 1,
{
    if v.len() > 0 {
        assert(is_appended(v[0], 0, aggregate_id, aggregate_type, latest, events, ids, now));
    }
    assert forall|k: int| 0 <= k < v.len() - 1 implies #[trigger] v[k + 1].version == v[k].version + 1 by {
        assert(is_appended(v[k], k, aggregate_id, aggregate_type, latest, events, ids, now));
        assert(is_appended(v[k + 1], k + 1, aggregate_id, aggregate_type, latest, events, ids, now));
    }
}

} // verus!
