//! The transactional outbox: domain events appended in the same atomic step
//! as the state change they describe.

use vstd::prelude::*;
use crate::error::ApiError;
use crate::intent::{IntentView, PaymentIntentResponse};

verus! {

/// The kind of a domain event.
#[derive(Clone, Copy, Debug, PartialEq, Eq, Structural)]
pub enum EventType {
    PaymentIntentCreated,
    PaymentIntentSucceeded,
}

/// The wire name of an event kind.
pub open spec fn event_type_text(t: EventType) -> Seq<char> {
    match t {
        EventType::PaymentIntentCreated => "payment_intent.created"@,
        EventType::PaymentIntentSucceeded => "payment_intent.succeeded"@,
    }
}

impl EventType {
    /// The wire name of this event kind.
    pub fn as_str(&self) -> (r: &'static str)
        ensures
            r@ == event_type_text(*self),
    {
        match self {
            EventType::PaymentIntentCreated => "payment_intent.created",
            EventType::PaymentIntentSucceeded => "payment_intent.succeeded",
        }
    }
}

/// The mathematical value of an outbox row.
pub struct EventView {
    pub id: u128,
    pub event_type: EventType,
    pub payload: IntentView,
}

/// An outbox row: its payload is a snapshot of the intent at the moment of
/// the change. Rows are read in the order in which they were appended.
#[derive(Debug)]
pub struct OutboxEvent {
    pub id: u128,
    pub event_type: EventType,
    pub payload: PaymentIntentResponse,
}

impl View for OutboxEvent {
    type V = EventView;

    open spec fn view(&self) -> EventView {
        EventView { id: self.id, event_type: self.event_type, payload: self.payload@ }
    }
}

/// The values of a sequence of outbox rows.
pub open spec fn events_view(s: Seq<OutboxEvent>) -> Seq<EventView> {
    s.map_values(|e: OutboxEvent| e@)
}

/// Whether some row of `s` has the identifier `id`.
pub open spec fn has_event_id(s: Seq<EventView>, id: u128) -> bool {
    exists|i: int| 0 <= i < s.len() && #[trigger] s[i].id == id
}

/// How many rows of `s` are of kind `t` and about the intent `intent_id`.
pub open spec fn count_events(s: Seq<EventView>, t: EventType, intent_id: u128) -> nat
    decreases s.len(),
{
    if s.len() == 0 {
        0
    } else {
        count_events(s.drop_last(), t, intent_id) + if s.last().event_type == t
            && s.last().payload.id == intent_id {
            1nat
        } else {
            0nat
        }
    }
}

/// Whether `id` names a row of `outbox`, by a scan.
pub(crate) fn event_id_taken(outbox: &Vec<OutboxEvent>, id: u128) -> (r: bool)
    ensures
        r == has_event_id(events_view(outbox@), id),
{
    let mut i: usize = 0;
    while i < outbox.len()
        invariant
            i <= outbox@.len(),
            forall|j: int| 0 <= j < i ==> outbox@[j].id != id,
        decreases outbox@.len() - i,
    {
        if outbox[i].id == id {
            assert(events_view(outbox@)[i as int].id == id);
            return true;
        }
        i = i + 1;
    }
    assert forall|j: int| 0 <= j < outbox@.len() implies #[trigger] events_view(outbox@)[j].id != id by {
        assert(events_view(outbox@)[j] == outbox@[j]@);
    }
    false
}

/// Appends one event to the outbox, under a freshly drawn identifier. Fails,
/// appending nothing, when that identifier is already in use.
pub fn insert_event(
    outbox: &mut Vec<OutboxEvent>,
    id: u128,
    event_type: EventType,
    payload: PaymentIntentResponse,
) -> (r: Result<(), ApiError>)
    ensures
        r is Err <==> has_event_id(events_view(old(outbox)@), id),
        r is Err ==> r == Err::<(), ApiError>(ApiError::DuplicateId) && final(outbox)@ == old(outbox)@,
        r is Ok ==> events_view(final(outbox)@) == events_view(old(outbox)@).push(
            EventView { id, event_type, payload: payload@ },
        ),
{
    if event_id_taken(outbox, id) {
        return Err(ApiError::DuplicateId);
    }
    let ghost before = outbox@;
    let e = OutboxEvent { id, event_type, payload };
    outbox.push(e);
    assert(events_view(outbox@) =~= events_view(before).push(e@));
    Ok(())
}

} // verus!
