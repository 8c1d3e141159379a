//! What holds across requests: distinct creates, replayed retries, key
//! conflicts, crash recovery and the single confirmation.

use vstd::prelude::*;
use crate::error::ApiError;
use crate::idempotency::create_endpoint;
use crate::intent::{confirmed_intent, fingerprint, request_valid, IntentStatus, IntentView, RequestView};
use crate::text::{decimal, digit_char, digits, lower_of, trimmed};
use crate::outbox::{count_events, has_event_id, EventType, EventView};
use crate::store::{
    confirm_outcome, create_outcome, has_intent, has_record, intent_index, intent_of,
    lemma_intent_index, lemma_record_index, record_index, record_of, StoreState,
};

verus! {

/// Rows about an intent that no row refers to are counted as none.
proof fn lemma_count_absent(s: Seq<EventView>, t: EventType, id: u128)
    requires
        forall|i: int| 0 <= i < s.len() ==> #[trigger] s[i].payload.id != id,
    ensures
        count_events(s, t, id) == 0,
    decreases s.len(),
{
    if s.len() > 0 {
        assert forall|i: int| 0 <= i < s.drop_last().len() implies #[trigger] s.drop_last()[i].payload.id
            != id by {
            assert(s.drop_last()[i] == s[i]);
        }
        lemma_count_absent(s.drop_last(), t, id);
        assert(s[s.len() - 1].payload.id != id);
    }
}

/// Appending a row adds one to the count of its kind and intent, and nothing
/// to the others.
proof fn lemma_count_push(s: Seq<EventView>, e: EventView, t: EventType, id: u128)
    ensures
        count_events(s.push(e), t, id) == count_events(s, t, id) + if e.event_type == t
            && e.payload.id == id {
            1nat
        } else {
            0nat
        },
{
    assert(s.push(e).drop_last() =~= s);
}

/// A create or a confirmation that fails, for whatever reason, leaves every
/// table as it was: a failed transaction has no partial effect.
pub proof fn lemma_failed_requests_change_nothing(
    s: StoreState,
    key: Option<Seq<char>>,
    req: RequestView,
    id: u128,
    intent_id: u128,
    event_id: u128,
)
    ensures
        create_outcome(s, key, req, intent_id, event_id).1 is Err ==> create_outcome(
            s,
            key,
            req,
            intent_id,
            event_id,
        ).0 == s,
        confirm_outcome(s, id, event_id).1 is Err ==> confirm_outcome(s, id, event_id).0 == s,
{
}

/// A create without an idempotency key succeeds exactly when both freshly
/// drawn identifiers are unused; it then adds one intent, awaiting
/// confirmation, whose identifier no stored intent had. Two such creates in
/// a row make two distinct intents.
pub proof fn lemma_unkeyed_creates_are_distinct(
    s: StoreState,
    req1: RequestView,
    req2: RequestView,
    intent_id1: u128,
    event_id1: u128,
    intent_id2: u128,
    event_id2: u128,
)
    requires
        s.wf(),
        request_valid(req1),
        request_valid(req2),
    ensures
        create_outcome(s, None, req1, intent_id1, event_id1).1 is Ok <==> (!has_intent(
            s.intents,
            intent_id1,
        ) && !has_event_id(s.outbox, event_id1)),
        ({
            let (s1, r1) = create_outcome(s, None, req1, intent_id1, event_id1);
            r1 is Ok ==> {
                let pi = r1->Ok_0.1;
                &&& !has_intent(s.intents, pi.id)
                &&& pi.status == IntentStatus::RequiresConfirmation
                &&& s1.intents == s.intents.push(pi)
            }
        }),
        ({
            let (s1, r1) = create_outcome(s, None, req1, intent_id1, event_id1);
            let (s2, r2) = create_outcome(s1, None, req2, intent_id2, event_id2);
            r1 is Ok && r2 is Ok ==> r1->Ok_0.1.id != r2->Ok_0.1.id
        }),
{
    let (s1, r1) = create_outcome(s, None, req1, intent_id1, event_id1);
    let (s2, r2) = create_outcome(s1, None, req2, intent_id2, event_id2);
    if r1 is Ok && r2 is Ok {
        assert(s1.intents[s.intents.len() as int].id == intent_id1);
    }
}

/// A create under a key that no record holds, when it succeeds, adds exactly
/// one intent and exactly one created event for it; from then on every
/// repetition under that key of a valid request with the same fingerprint
/// (the same request, or one differing only in the case or surrounding
/// whitespace of its currency), whatever identifiers are drawn, returns the
/// same intent and changes nothing.
pub proof fn lemma_keyed_retries_return_same_intent(
    s: StoreState,
    key: Seq<char>,
    req: RequestView,
    retry: RequestView,
    intent_id1: u128,
    event_id1: u128,
    intent_id2: u128,
    event_id2: u128,
)
    requires
        s.wf(),
        request_valid(req),
        request_valid(retry),
        fingerprint(retry) == fingerprint(req),
        !has_record(s.records, key, create_endpoint()),
    ensures
        ({
            let (s1, r1) = create_outcome(s, Some(key), req, intent_id1, event_id1);
            r1 is Ok ==> {
                let pi = r1->Ok_0.1;
                &&& !has_intent(s.intents, pi.id)
                &&& s1.intents == s.intents.push(pi)
                &&& count_events(s1.outbox, EventType::PaymentIntentCreated, pi.id) == 1
                &&& create_outcome(s1, Some(key), retry, intent_id2, event_id2) == (s1, r1)
            }
        }),
{
    let (s1, r1) = create_outcome(s, Some(key), req, intent_id1, event_id1);
    if r1 is Ok {
        let pi = r1->Ok_0.1;
        assert forall|i: int| 0 <= i < s.outbox.len() implies #[trigger] s.outbox[i].payload.id
            != intent_id1 by {
            assert(has_intent(s.intents, s.outbox[i].payload.id));
        }
        lemma_count_absent(s.outbox, EventType::PaymentIntentCreated, intent_id1);
        lemma_count_push(
            s.outbox,
            EventView { id: event_id1, event_type: EventType::PaymentIntentCreated, payload: pi },
            EventType::PaymentIntentCreated,
            intent_id1,
        );
        let n = s.records.len() as int;
        assert forall|i: int, j: int|
            0 <= i < s1.records.len() && 0 <= j < s1.records.len() && #[trigger] s1.records[i].key
                == #[trigger] s1.records[j].key && s1.records[i].endpoint
                == s1.records[j].endpoint implies i == j by {
            if i < n && j == n {
                assert(s.records[i].key == key);
            } else if j < n && i == n {
                assert(s.records[j].key == key);
            }
        }
        lemma_record_index(s1.records, key, create_endpoint(), n);
    }
}

/// Once a key is held by the record of a successful create, a create under
/// the same key with a request of a different fingerprint is refused as a
/// conflict and changes nothing.
pub proof fn lemma_keyed_conflict_changes_nothing(
    s: StoreState,
    key: Seq<char>,
    req1: RequestView,
    req2: RequestView,
    intent_id1: u128,
    event_id1: u128,
    intent_id2: u128,
    event_id2: u128,
)
    requires
        s.wf(),
        request_valid(req1),
        request_valid(req2),
        fingerprint(req1) != fingerprint(req2),
        !has_record(s.records, key, create_endpoint()),
    ensures
        ({
            let (s1, r1) = create_outcome(s, Some(key), req1, intent_id1, event_id1);
            r1 is Ok ==> create_outcome(s1, Some(key), req2, intent_id2, event_id2) == (
                s1,
                Err::<(u16, IntentView), ApiError>(ApiError::IdempotencyConflict),
            )
        }),
{
    let (s1, r1) = create_outcome(s, Some(key), req1, intent_id1, event_id1);
    if r1 is Ok {
        let n = s.records.len() as int;
        assert forall|i: int, j: int|
            0 <= i < s1.records.len() && 0 <= j < s1.records.len() && #[trigger] s1.records[i].key
                == #[trigger] s1.records[j].key && s1.records[i].endpoint
                == s1.records[j].endpoint implies i == j by {
            if i < n && j == n {
                assert(s.records[i].key == key);
            } else if j < n && i == n {
                assert(s.records[j].key == key);
            }
        }
        lemma_record_index(s1.records, key, create_endpoint(), n);
    }
}

/// Crash recovery: when the record holding a key has no stored response but
/// refers to a stored intent, a retry of a request with the matching
/// fingerprint returns that intent, creates nothing, stores the intent as the
/// record's response, and every later retry returns the same from the record.
pub proof fn lemma_crash_recovery(
    s: StoreState,
    key: Seq<char>,
    req: RequestView,
    intent_id1: u128,
    event_id1: u128,
    intent_id2: u128,
    event_id2: u128,
)
    requires
        s.wf(),
        request_valid(req),
        has_record(s.records, key, create_endpoint()),
        record_of(s.records, key).request_hash == fingerprint(req),
        record_of(s.records, key).response_body is None,
        record_of(s.records, key).payment_intent_id is Some,
        has_intent(s.intents, record_of(s.records, key).payment_intent_id.unwrap()),
    ensures
        ({
            let pid = record_of(s.records, key).payment_intent_id.unwrap();
            let (s1, r1) = create_outcome(s, Some(key), req, intent_id1, event_id1);
            &&& r1 == Ok::<(u16, IntentView), ApiError>((201u16, intent_of(s.intents, pid)))
            &&& s1.intents == s.intents
            &&& s1.outbox == s.outbox
            &&& s1.records.len() == s.records.len()
            &&& record_of(s1.records, key).response_body == Some(intent_of(s.intents, pid))
            &&& record_of(s1.records, key).payment_intent_id == Some(pid)
            &&& create_outcome(s1, Some(key), req, intent_id2, event_id2) == (s1, r1)
        }),
{
    let (s1, r1) = create_outcome(s, Some(key), req, intent_id1, event_id1);
    let idx = record_index(s.records, key, create_endpoint());
    assert forall|i: int, j: int|
        0 <= i < s1.records.len() && 0 <= j < s1.records.len() && #[trigger] s1.records[i].key
            == #[trigger] s1.records[j].key && s1.records[i].endpoint
            == s1.records[j].endpoint implies i == j by {
        assert(s1.records[i].key == s.records[i].key);
        assert(s1.records[j].key == s.records[j].key);
    }
    lemma_record_index(s1.records, key, create_endpoint(), idx);
}

/// Confirming an intent that awaits confirmation moves it to `Succeeded` and
/// appends exactly one succeeded event for it (when the drawn event
/// identifier is unused); confirming it again is refused with its status and
/// changes nothing.
pub proof fn lemma_confirm_exactly_once(s: StoreState, id: u128, event_id1: u128, event_id2: u128)
    requires
        s.wf(),
        has_intent(s.intents, id),
        intent_of(s.intents, id).status == IntentStatus::RequiresConfirmation,
        !has_event_id(s.outbox, event_id1),
    ensures
        ({
            let (s1, r1) = confirm_outcome(s, id, event_id1);
            &&& r1 == Ok::<IntentView, ApiError>(confirmed_intent(intent_of(s.intents, id)))
            &&& has_intent(s1.intents, id)
            &&& intent_of(s1.intents, id).status == IntentStatus::Succeeded
            &&& s1.intents.len() == s.intents.len()
            &&& s1.outbox.len() == s.outbox.len() + 1
            &&& count_events(s1.outbox, EventType::PaymentIntentSucceeded, id) == count_events(
                s.outbox,
                EventType::PaymentIntentSucceeded,
                id,
            ) + 1
            &&& confirm_outcome(s1, id, event_id2) == (
                s1,
                Err::<IntentView, ApiError>(ApiError::InvalidState(IntentStatus::Succeeded)),
            )
        }),
{
    let (s1, r1) = confirm_outcome(s, id, event_id1);
    let idx = intent_index(s.intents, id);
    let c = confirmed_intent(s.intents[idx]);
    lemma_count_push(
        s.outbox,
        EventView { id: event_id1, event_type: EventType::PaymentIntentSucceeded, payload: c },
        EventType::PaymentIntentSucceeded,
        id,
    );
    assert forall|i: int, j: int|
        0 <= i < s1.intents.len() && 0 <= j < s1.intents.len() && #[trigger] s1.intents[i].id
            == #[trigger] s1.intents[j].id implies i == j by {
        assert(s1.intents[i].id == s.intents[i].id);
        assert(s1.intents[j].id == s.intents[j].id);
    }
    lemma_intent_index(s1.intents, id, idx);
}

/// Confirming an identifier that no intent has is not found and changes
/// nothing.
pub proof fn lemma_confirm_unknown_not_found(s: StoreState, id: u128, event_id: u128)
    requires
        !has_intent(s.intents, id),
    ensures
        confirm_outcome(s, id, event_id) == (s, Err::<IntentView, ApiError>(ApiError::NotFound)),
{
}

proof fn lemma_digits_shape(n: nat)
    ensures
        digits(n).len() >= 1,
        n >= 10 ==> digits(n).len() >= 2,
        forall|i: int| 0 <= i < digits(n).len() ==> #[trigger] digits(n)[i] != '&' && digits(n)[i] != '-',
    decreases n,
{
    if n >= 10 {
        lemma_digits_shape(n / 10);
        let d = digits(n / 10);
        assert forall|i: int| 0 <= i < digits(n).len() implies #[trigger] digits(n)[i] != '&'
            && digits(n)[i] != '-' by {
            if i < d.len() {
                assert(digits(n)[i] == d[i]);
            }
        }
    }
}

proof fn lemma_digits_injective(a: nat, b: nat)
    requires
        digits(a) == digits(b),
    ensures
        a == b,
    decreases a,
{
    lemma_digits_shape(a);
    lemma_digits_shape(b);
    if a >= 10 && b >= 10 {
        assert(digits(a).drop_last() =~= digits(a / 10));
        assert(digits(b).drop_last() =~= digits(b / 10));
        lemma_digits_injective(a / 10, b / 10);
        assert(digits(a) == digits(a / 10).push(digit_char((a % 10) as int)));
        assert(digits(b) == digits(b / 10).push(digit_char((b % 10) as int)));
        let x = digit_char((a % 10) as int);
        let y = digit_char((b % 10) as int);
        assert(digits(a / 10).push(x).last() == x);
        assert(digits(b / 10).push(y).last() == y);
        assert(x == y);
        assert(a % 10 == b % 10);
        assert(a == 10 * (a / 10) + a % 10) by (nonlinear_arith);
        assert(b == 10 * (b / 10) + b % 10) by (nonlinear_arith);
    } else if a < 10 && b < 10 {
        assert(digits(a) == seq![digit_char(a as int)]);
        assert(digits(b) == seq![digit_char(b as int)]);
        assert(digit_char(a as int) == digits(a)[0]);
        assert(digit_char(b as int) == digits(b)[0]);
    } else if a < 10 {
        assert(digits(a).len() == 1);
    } else {
        assert(digits(b).len() == 1);
    }
}

proof fn lemma_decimal_shape(n: int)
    ensures
        decimal(n).len() >= 1,
        forall|i: int| 0 <= i < decimal(n).len() ==> #[trigger] decimal(n)[i] != '&',
{
    if n < 0 {
        lemma_digits_shape((-n) as nat);
        let d = digits((-n) as nat);
        assert forall|i: int| 0 <= i < decimal(n).len() implies #[trigger] decimal(n)[i] != '&' by {
            if i > 0 {
                assert(decimal(n)[i] == d[i - 1]);
            }
        }
    } else {
        lemma_digits_shape(n as nat);
    }
}

proof fn lemma_decimal_injective(a: int, b: int)
    requires
        decimal(a) == decimal(b),
    ensures
        a == b,
{
    lemma_digits_shape(if a < 0 { (-a) as nat } else { a as nat });
    lemma_digits_shape(if b < 0 { (-b) as nat } else { b as nat });
    if a < 0 && b < 0 {
        assert(decimal(a).drop_first() =~= digits((-a) as nat));
        assert(decimal(b).drop_first() =~= digits((-b) as nat));
        lemma_digits_injective((-a) as nat, (-b) as nat);
    } else if a >= 0 && b >= 0 {
        lemma_digits_injective(a as nat, b as nat);
    } else if a < 0 {
        assert(decimal(a)[0] == '-');
        assert(decimal(b)[0] != '-');
    } else {
        assert(decimal(b)[0] == '-');
        assert(decimal(a)[0] != '-');
    }
}

/// Two create requests have the same fingerprint exactly when their amounts
/// are equal and their currencies are equal once trimmed and lower-cased: a
/// request that differs in either is told apart.
pub proof fn lemma_fingerprint_distinguishes(req1: RequestView, req2: RequestView)
    ensures
        fingerprint(req1) == fingerprint(req2) <==> (req1.amount == req2.amount && lower_of(
            trimmed(req1.currency),
        ) == lower_of(trimmed(req2.currency))),
{
    if fingerprint(req1) == fingerprint(req2) {
        reveal_strlit("amount=");
        reveal_strlit("&currency=");
        let d1 = decimal(req1.amount as int);
        let d2 = decimal(req2.amount as int);
        let c1 = lower_of(trimmed(req1.currency));
        let c2 = lower_of(trimmed(req2.currency));
        let f1 = "amount="@ + d1 + "&currency="@ + c1;
        let f2 = "amount="@ + d2 + "&currency="@ + c2;
        lemma_decimal_shape(req1.amount as int);
        lemma_decimal_shape(req2.amount as int);
        assert(f1 == f2);
        if d1.len() < d2.len() {
            assert(f1[7 + d1.len() as int] == '&');
            assert(f2[7 + d1.len() as int] == d2[d1.len() as int]);
        } else if d2.len() < d1.len() {
            assert(f2[7 + d2.len() as int] == '&');
            assert(f1[7 + d2.len() as int] == d1[d2.len() as int]);
        } else {
            assert(d1 =~= f1.subrange(7, 7 + d1.len() as int));
            assert(d2 =~= f2.subrange(7, 7 + d2.len() as int));
            lemma_decimal_injective(req1.amount as int, req2.amount as int);
            let k = 17 + d1.len() as int;
            assert(c1 =~= f1.subrange(k, f1.len() as int));
            assert(c2 =~= f2.subrange(k, f2.len() as int));
        }
    }
}

} // verus!
