//! The three logical tables (payment intents, idempotency records, outbox
//! events) and the requests that run on them. Each request is one atomic
//! transaction: it either applies all of its writes or leaves every table
//! unchanged.

use vstd::prelude::*;
use crate::error::{confirm_miss_error, ApiError};
use crate::ids::new_uuid;
use crate::idempotency::{
    create_endpoint, create_endpoint_name, resolve, resolve_existing_record, IdempotencyRecord,
    RecordView, Resolution,
};
use crate::intent::{
    check_create_request, confirm_transition, confirmed_intent, created_intent, fingerprint,
    new_payment_intent, request_fingerprint, request_problem, CreatePaymentIntentRequest,
    IntentStatus, IntentView, PaymentIntentResponse, RequestView,
};
use crate::outbox::{
    event_id_taken, events_view, has_event_id, insert_event, EventType, EventView, OutboxEvent,
};

verus! {

/// The mathematical value of the stored state.
pub struct StoreState {
    pub intents: Seq<IntentView>,
    pub records: Seq<RecordView>,
    /// Outbox rows in the order in which they were appended.
    pub outbox: Seq<EventView>,
}

/// The values of a sequence of intent rows.
pub open spec fn intents_view(s: Seq<PaymentIntentResponse>) -> Seq<IntentView> {
    s.map_values(|r: PaymentIntentResponse| r@)
}

/// The values of a sequence of idempotency records.
pub open spec fn records_view(s: Seq<IdempotencyRecord>) -> Seq<RecordView> {
    s.map_values(|r: IdempotencyRecord| r@)
}

/// Whether some intent of `s` has the identifier `id`.
pub open spec fn has_intent(s: Seq<IntentView>, id: u128) -> bool {
    exists|i: int| 0 <= i < s.len() && #[trigger] s[i].id == id
}

/// The position of the intent with identifier `id`, when there is one.
pub open spec fn intent_index(s: Seq<IntentView>, id: u128) -> int {
    choose|i: int| 0 <= i < s.len() && #[trigger] s[i].id == id
}

/// The intent with identifier `id`, when there is one.
pub open spec fn intent_of(s: Seq<IntentView>, id: u128) -> IntentView {
    s[intent_index(s, id)]
}

/// Whether the record `r` is identified by `key` and `endpoint`.
pub open spec fn holds_key(r: RecordView, key: Seq<char>, endpoint: Seq<char>) -> bool {
    r.key == key && r.endpoint == endpoint
}

/// Whether some record of `s` is identified by `key` and `endpoint`.
pub open spec fn has_record(s: Seq<RecordView>, key: Seq<char>, endpoint: Seq<char>) -> bool {
    exists|i: int| 0 <= i < s.len() && holds_key(#[trigger] s[i], key, endpoint)
}

/// The position of the record identified by `key` and `endpoint`, when there
/// is one.
pub open spec fn record_index(s: Seq<RecordView>, key: Seq<char>, endpoint: Seq<char>) -> int {
    choose|i: int| 0 <= i < s.len() && holds_key(#[trigger] s[i], key, endpoint)
}

/// The record of the create endpoint under `key`, when there is one.
pub open spec fn record_of(s: Seq<RecordView>, key: Seq<char>) -> RecordView {
    s[record_index(s, key, create_endpoint())]
}

/// No two intents of `s` share an identifier.
pub open spec fn unique_intent_ids(s: Seq<IntentView>) -> bool {
    forall|i: int, j: int|
        0 <= i < s.len() && 0 <= j < s.len() && #[trigger] s[i].id == #[trigger] s[j].id ==> i == j
}

/// No two records of `s` share a key and an endpoint.
pub open spec fn unique_record_keys(s: Seq<RecordView>) -> bool {
    forall|i: int, j: int|
        0 <= i < s.len() && 0 <= j < s.len() && #[trigger] s[i].key == #[trigger] s[j].key
            && s[i].endpoint == s[j].endpoint ==> i == j
}

/// No two outbox rows of `s` share an identifier.
pub open spec fn unique_event_ids(s: Seq<EventView>) -> bool {
    forall|i: int, j: int|
        0 <= i < s.len() && 0 <= j < s.len() && #[trigger] s[i].id == #[trigger] s[j].id ==> i == j
}

impl StoreState {
    /// No two intents share an identifier, no two records share a key and an
    /// endpoint, no two outbox rows share an identifier, and every outbox row
    /// is about a stored intent.
    pub open spec fn wf(self) -> bool {
        &&& unique_intent_ids(self.intents)
        &&& unique_record_keys(self.records)
        &&& unique_event_ids(self.outbox)
        &&& forall|i: int|
            0 <= i < self.outbox.len() ==> has_intent(self.intents, #[trigger] self.outbox[i].payload.id)
    }
}

/// A create that inserts a new intent, with its created event and, under a
/// key, its idempotency record holding the full response.
pub open spec fn fresh_create(
    s: StoreState,
    key: Option<Seq<char>>,
    req: RequestView,
    intent_id: u128,
    event_id: u128,
) -> (StoreState, Result<(u16, IntentView), ApiError>) {
    if has_intent(s.intents, intent_id) || has_event_id(s.outbox, event_id) {
        (s, Err(ApiError::DuplicateId))
    } else {
        let pi = created_intent(intent_id, req);
        let records = match key {
            None => s.records,
            Some(k) => s.records.push(
                RecordView {
                    key: k,
                    endpoint: create_endpoint(),
                    request_hash: fingerprint(req),
                    response_body: Some(pi),
                    payment_intent_id: Some(intent_id),
                },
            ),
        };
        (
            StoreState {
                intents: s.intents.push(pi),
                records,
                outbox: s.outbox.push(
                    EventView { id: event_id, event_type: EventType::PaymentIntentCreated, payload: pi },
                ),
            },
            Ok((201u16, pi)),
        )
    }
}

/// A create whose key is already held by a record.
pub open spec fn retried_create(s: StoreState, key: Seq<char>, req: RequestView) -> (
    StoreState,
    Result<(u16, IntentView), ApiError>,
) {
    let idx = record_index(s.records, key, create_endpoint());
    let rec = s.records[idx];
    match resolve(rec, fingerprint(req)) {
        Resolution::Conflict => (s, Err(ApiError::IdempotencyConflict)),
        Resolution::Replay => (s, Ok((201u16, rec.response_body.unwrap()))),
        Resolution::Reconstruct(pid) => if has_intent(s.intents, pid) {
            let row = intent_of(s.intents, pid);
            (
                StoreState {
                    records: s.records.update(idx, RecordView { response_body: Some(row), ..rec }),
                    ..s
                },
                Ok((201u16, row)),
            )
        } else {
            (s, Err(ApiError::DanglingReference))
        },
        Resolution::Inconsistent => (s, Err(ApiError::InconsistentRecord)),
    }
}

/// The state after, and the result of, a create request with optional
/// idempotency key `key`, when a new intent would get `intent_id` and its
/// created event `event_id`.
pub open spec fn create_outcome(
    s: StoreState,
    key: Option<Seq<char>>,
    req: RequestView,
    intent_id: u128,
    event_id: u128,
) -> (StoreState, Result<(u16, IntentView), ApiError>) {
    match request_problem(req) {
        Some(e) => (s, Err(ApiError::BadRequest(e))),
        None => match key {
            None => fresh_create(s, None, req, intent_id, event_id),
            Some(k) => if has_record(s.records, k, create_endpoint()) {
                retried_create(s, k, req)
            } else {
                fresh_create(s, Some(k), req, intent_id, event_id)
            },
        },
    }
}

/// The state after, and the result of, confirming the intent `id`, when the
/// succeeded event would get `event_id`.
pub open spec fn confirm_outcome(s: StoreState, id: u128, event_id: u128) -> (
    StoreState,
    Result<IntentView, ApiError>,
) {
    if !has_intent(s.intents, id) {
        (s, Err(ApiError::NotFound))
    } else {
        let idx = intent_index(s.intents, id);
        let row = s.intents[idx];
        if row.status != IntentStatus::RequiresConfirmation {
            (s, Err(ApiError::InvalidState(row.status)))
        } else if has_event_id(s.outbox, event_id) {
            (s, Err(ApiError::DuplicateId))
        } else {
            let c = confirmed_intent(row);
            (
                StoreState {
                    intents: s.intents.update(idx, c),
                    outbox: s.outbox.push(
                        EventView { id: event_id, event_type: EventType::PaymentIntentSucceeded, payload: c },
                    ),
                    ..s
                },
                Ok(c),
            )
        }
    }
}

/// The result of reading the intent `id`.
pub open spec fn get_outcome(s: StoreState, id: u128) -> Result<IntentView, ApiError> {
    if has_intent(s.intents, id) {
        Ok(intent_of(s.intents, id))
    } else {
        Err(ApiError::NotFound)
    }
}

/// The value of a create result.
pub open spec fn created_view(r: Result<(u16, PaymentIntentResponse), ApiError>) -> Result<
    (u16, IntentView),
    ApiError,
> {
    match r {
        Ok((c, p)) => Ok((c, p@)),
        Err(e) => Err(e),
    }
}

/// The value of an intent result.
pub open spec fn intent_result_view(r: Result<PaymentIntentResponse, ApiError>) -> Result<
    IntentView,
    ApiError,
> {
    match r {
        Ok(p) => Ok(p@),
        Err(e) => Err(e),
    }
}

/// The value of an optional key.
pub open spec fn key_view(k: Option<String>) -> Option<Seq<char>> {
    match k {
        Some(s) => Some(s@),
        None => None,
    }
}

pub(crate) proof fn lemma_intent_index(s: Seq<IntentView>, id: u128, i: int)
    requires
        0 <= i < s.len(),
        s[i].id == id,
        unique_intent_ids(s),
    ensures
        has_intent(s, id),
        intent_index(s, id) == i,
{
    let j = intent_index(s, id);
    assert(s[j].id == s[i].id);
}

pub(crate) proof fn lemma_record_index(s: Seq<RecordView>, key: Seq<char>, endpoint: Seq<char>, i: int)
    requires
        0 <= i < s.len(),
        holds_key(s[i], key, endpoint),
        unique_record_keys(s),
    ensures
        has_record(s, key, endpoint),
        record_index(s, key, endpoint) == i,
{
    let j = record_index(s, key, endpoint);
    assert(s[j].key == s[i].key && s[j].endpoint == s[i].endpoint);
}

/// The stored state: payment intents, idempotency records and the outbox.
pub struct PaymentStore {
    intents: Vec<PaymentIntentResponse>,
    records: Vec<IdempotencyRecord>,
    outbox: Vec<OutboxEvent>,
}

impl View for PaymentStore {
    type V = StoreState;

    closed spec fn view(&self) -> StoreState {
        StoreState {
            intents: intents_view(self.intents@),
            records: records_view(self.records@),
            outbox: events_view(self.outbox@),
        }
    }
}

impl PaymentStore {
    /// Whether the stored state keeps its invariants.
    pub open spec fn wf(&self) -> bool {
        self@.wf()
    }

    /// An empty store.
    pub fn new() -> (r: PaymentStore)
        ensures
            r.wf(),
            r@.intents.len() == 0,
            r@.records.len() == 0,
            r@.outbox.len() == 0,
    {
        let r = PaymentStore { intents: Vec::new(), records: Vec::new(), outbox: Vec::new() };
        assert(r@.intents =~= Seq::empty());
        assert(r@.records =~= Seq::empty());
        assert(r@.outbox =~= Seq::empty());
        r
    }

    /// The position of the intent `id`, by a scan.
    fn find_intent(&self, id: u128) -> (r: Option<usize>)
        requires
            self.wf(),
        ensures
            r is None <==> !has_intent(self@.intents, id),
            r is Some ==> r->0 < self@.intents.len() && intent_index(self@.intents, id) == r->0
                && self@.intents[r->0 as int].id == id,
    {
        let mut i: usize = 0;
        while i < self.intents.len()
            invariant
                self.wf(),
                i <= self.intents@.len(),
                forall|j: int| 0 <= j < i ==> self.intents@[j].id != id,
            decreases self.intents@.len() - i,
        {
            if self.intents[i].id == id {
                proof {
                    assert(self@.intents[i as int] == self.intents@[i as int]@);
                    lemma_intent_index(self@.intents, id, i as int);
                }
                return Some(i);
            }
            i = i + 1;
        }
        assert forall|j: int| 0 <= j < self@.intents.len() implies #[trigger] self@.intents[j].id != id by {
            assert(self@.intents[j] == self.intents@[j]@);
        }
        None
    }

    /// The position of the record of `key` on the create endpoint, by a scan.
    fn find_record(&self, key: &String, endpoint: &String) -> (r: Option<usize>)
        requires
            self.wf(),
            endpoint@ == create_endpoint(),
        ensures
            r is None <==> !has_record(self@.records, key@, create_endpoint()),
            r is Some ==> r->0 < self@.records.len() && record_index(
                self@.records,
                key@,
                create_endpoint(),
            ) == r->0,
    {
        let mut i: usize = 0;
        while i < self.records.len()
            invariant
                self.wf(),
                i <= self.records@.len(),
                endpoint@ == create_endpoint(),
                forall|j: int|
                    0 <= j < i ==> !holds_key(#[trigger] self@.records[j], key@, create_endpoint()),
            decreases self.records@.len() - i,
        {
            if self.records[i].key == *key && self.records[i].endpoint == *endpoint {
                proof {
                    assert(self@.records[i as int] == self.records@[i as int]@);
                    lemma_record_index(self@.records, key@, create_endpoint(), i as int);
                }
                return Some(i);
            }
            assert(self@.records[i as int] == self.records@[i as int]@);
            i = i + 1;
        }
        None
    }

    /// Stores an intent row as it is, as a plain insert into the intents table
    /// would; fails, changing nothing, when its identifier is in use.
    pub fn insert_intent_row(&mut self, row: PaymentIntentResponse) -> (r: Result<(), ApiError>)
        requires
            old(self).wf(),
        ensures
            final(self).wf(),
            r is Err <==> has_intent(old(self)@.intents, row.id),
            r is Err ==> r == Err::<(), ApiError>(ApiError::DuplicateId) && final(self)@ == old(self)@,
            r is Ok ==> final(self)@ == (StoreState { intents: old(self)@.intents.push(row@), ..old(self)@ }),
    {
        if self.find_intent(row.id).is_some() {
            return Err(ApiError::DuplicateId);
        }
        let ghost s0 = self@;
        let ghost rv = row@;
        self.intents.push(row);
        proof {
            assert(self@.intents =~= s0.intents.push(rv));
            let v = self@;
            assert forall|i: int| 0 <= i < v.outbox.len() implies has_intent(
                v.intents,
                #[trigger] v.outbox[i].payload.id,
            ) by {
                let w = choose|k: int| 0 <= k < s0.intents.len()
                    && #[trigger] s0.intents[k].id == s0.outbox[i].payload.id;
                assert(v.intents[w].id == v.outbox[i].payload.id);
            }
        }
        Ok(())
    }

    /// Stores an idempotency record as it is, as a plain insert into the
    /// records table would; fails, changing nothing, when its key and endpoint
    /// are in use.
    pub fn insert_idempotency_record(&mut self, rec: IdempotencyRecord) -> (r: Result<(), ApiError>)
        requires
            old(self).wf(),
        ensures
            final(self).wf(),
            r is Err <==> has_record(old(self)@.records, rec.key@, rec.endpoint@),
            r is Err ==> r == Err::<(), ApiError>(ApiError::DuplicateId) && final(self)@ == old(self)@,
            r is Ok ==> final(self)@ == (StoreState { records: old(self)@.records.push(rec@), ..old(self)@ }),
    {
        let mut i: usize = 0;
        while i < self.records.len()
            invariant
                self.wf(),
                i <= self.records@.len(),
                forall|j: int|
                    0 <= j < i ==> !holds_key(#[trigger] self@.records[j], rec.key@, rec.endpoint@),
            decreases self.records@.len() - i,
        {
            assert(self@.records[i as int] == self.records@[i as int]@);
            if self.records[i].key == rec.key && self.records[i].endpoint == rec.endpoint {
                return Err(ApiError::DuplicateId);
            }
            i = i + 1;
        }
        let ghost s0 = self@;
        let ghost rv = rec@;
        self.records.push(rec);
        proof {
            assert(self@.records =~= s0.records.push(rv));
            let v = self@;
            let n = s0.records.len() as int;
            assert forall|a: int, b: int|
                0 <= a < v.records.len() && 0 <= b < v.records.len() && #[trigger] v.records[a].key
                    == #[trigger] v.records[b].key && v.records[a].endpoint
                    == v.records[b].endpoint implies a == b by {
                if a < n && b == n {
                    assert(!holds_key(s0.records[a], rv.key, rv.endpoint));
                } else if b < n && a == n {
                    assert(!holds_key(s0.records[b], rv.key, rv.endpoint));
                }
            }
        }
        Ok(())
    }

    /// The outbox rows, in the order in which they were appended.
    pub fn outbox(&self) -> (r: &Vec<OutboxEvent>)
        ensures
            events_view(r@) == self@.outbox,
    {
        &self.outbox
    }

    /// The number of stored intents.
    pub fn intent_count(&self) -> (r: usize)
        ensures
            r == self@.intents.len(),
    {
        self.intents.len()
    }

    /// The record of the create endpoint under `key`, if any.
    pub fn idempotency_record(&self, key: &String) -> (r: Option<&IdempotencyRecord>)
        requires
            self.wf(),
        ensures
            r is None <==> !has_record(self@.records, key@, create_endpoint()),
            r is Some ==> r->0@ == record_of(self@.records, key@),
    {
        let endpoint = String::from_str(create_endpoint_name());
        match self.find_record(key, &endpoint) {
            None => None,
            Some(i) => {
                proof {
                    assert(self@.records[i as int] == self.records@[i as int]@);
                }
                Some(&self.records[i])
            },
        }
    }

    /// Inserts a new intent for the valid request `req`, its created event
    /// and, under `key`, its idempotency record; or, when either identifier
    /// is taken, changes nothing.
    fn insert_created(
        &mut self,
        key: Option<String>,
        req: &CreatePaymentIntentRequest,
        intent_id: u128,
        event_id: u128,
    ) -> (r: Result<(u16, PaymentIntentResponse), ApiError>)
        requires
            old(self).wf(),
            request_problem(req@) is None,
            key is Some ==> !has_record(old(self)@.records, key->0@, create_endpoint()),
        ensures
            final(self).wf(),
            (final(self)@, created_view(r)) == fresh_create(old(self)@, key_view(key), req@, intent_id, event_id),
    {
        if self.find_intent(intent_id).is_some() || event_id_taken(&self.outbox, event_id) {
            return Err(ApiError::DuplicateId);
        }
        let ghost old_view = self@;
        let pi = new_payment_intent(intent_id, req);
        match insert_event(&mut self.outbox, event_id, EventType::PaymentIntentCreated, pi.snapshot()) {
            Ok(()) => {},
            Err(e) => {
                return Err(e);
            },
        }
        self.intents.push(pi.snapshot());
        match key {
            Some(k) => {
                let rec = IdempotencyRecord {
                    key: k,
                    endpoint: String::from_str(create_endpoint_name()),
                    request_hash: request_fingerprint(req),
                    response_body: Some(pi.snapshot()),
                    payment_intent_id: Some(intent_id),
                };
                let ghost rv = rec@;
                self.records.push(rec);
                assert(self@.records =~= old_view.records.push(rv));
            },
            None => {},
        }
        let ghost pv = created_intent(intent_id, req@);
        assert(self@.intents =~= old_view.intents.push(pv));
        assert(self@.outbox =~= old_view.outbox.push(
            EventView { id: event_id, event_type: EventType::PaymentIntentCreated, payload: pv },
        ));
        proof {
            let v = self@;
            assert forall|i: int| 0 <= i < v.outbox.len() implies has_intent(
                v.intents,
                #[trigger] v.outbox[i].payload.id,
            ) by {
                if i < old_view.outbox.len() {
                    let w = choose|j: int| 0 <= j < old_view.intents.len()
                        && #[trigger] old_view.intents[j].id == old_view.outbox[i].payload.id;
                    assert(v.intents[w].id == v.outbox[i].payload.id);
                } else {
                    assert(v.intents[old_view.intents.len() as int].id == v.outbox[i].payload.id);
                }
            }
        }
        Ok((201, pi))
    }
}

/// Runs a create request as one transaction. Without a key it inserts a new
/// intent and its created event. With a key it reserves the key for the
/// create endpoint and does the same, storing the response in the record; or,
/// when the key is already held, answers from the record: a conflict for a
/// different request, the stored response, or the response rebuilt from the
/// referenced intent (and stored for later retries). `intent_id` and
/// `event_id` are the identifiers freshly drawn for a new intent and its event.
pub fn create_payment_intent_with_ids(
    store: &mut PaymentStore,
    idempotency_key: Option<String>,
    req: CreatePaymentIntentRequest,
    intent_id: u128,
    event_id: u128,
) -> (r: Result<(u16, PaymentIntentResponse), ApiError>)
    requires
        old(store).wf(),
    ensures
        final(store).wf(),
        (final(store)@, created_view(r)) == create_outcome(
            old(store)@,
            key_view(idempotency_key),
            req@,
            intent_id,
            event_id,
        ),
{
    match check_create_request(&req) {
        Ok(()) => {},
        Err(e) => {
            return Err(ApiError::BadRequest(e));
        },
    }
    let key = match idempotency_key {
        None => {
            return store.insert_created(None, &req, intent_id, event_id);
        },
        Some(k) => k,
    };
    let endpoint = String::from_str(create_endpoint_name());
    let idx = match store.find_record(&key, &endpoint) {
        None => {
            return store.insert_created(Some(key), &req, intent_id, event_id);
        },
        Some(i) => i,
    };
    let ghost s0 = store@;
    proof {
        assert(s0.records[idx as int] == store.records@[idx as int]@);
    }
    let hash = request_fingerprint(&req);
    match resolve_existing_record(&store.records[idx], &hash) {
        Resolution::Conflict => Err(ApiError::IdempotencyConflict),
        Resolution::Replay => match &store.records[idx].response_body {
            Some(body) => Ok((201, body.snapshot())),
            None => Err(ApiError::InconsistentRecord),
        },
        Resolution::Reconstruct(pid) => match store.find_intent(pid) {
            None => Err(ApiError::DanglingReference),
            Some(j) => {
                proof {
                    assert(s0.intents[j as int] == store.intents@[j as int]@);
                }
                let row = store.intents[j].snapshot();
                store.records[idx].response_body = Some(store.intents[j].snapshot());
                proof {
                    let rec = s0.records[idx as int];
                    assert(store@.records =~= s0.records.update(
                        idx as int,
                        RecordView { response_body: Some(row@), ..rec },
                    ));
                    assert(store@.intents =~= s0.intents);
                    assert(store@.outbox =~= s0.outbox);
                    let v = store@;
                    assert forall|a: int, b: int|
                        0 <= a < v.records.len() && 0 <= b < v.records.len()
                            && #[trigger] v.records[a].key == #[trigger] v.records[b].key
                            && v.records[a].endpoint == v.records[b].endpoint implies a == b by {
                        assert(v.records[a].key == s0.records[a].key);
                        assert(v.records[b].key == s0.records[b].key);
                    }
                }
                Ok((201, row))
            },
        },
        Resolution::Inconsistent => Err(ApiError::InconsistentRecord),
    }
}

/// Confirms the intent `id` as one transaction: a compare-and-set from
/// `RequiresConfirmation` to `Succeeded` together with a succeeded event
/// under the freshly drawn `event_id`. When the compare-and-set does not
/// apply, the error names why: no such intent, or its current status.
pub fn confirm_payment_intent_with_event_id(store: &mut PaymentStore, id: u128, event_id: u128) -> (r:
    Result<PaymentIntentResponse, ApiError>)
    requires
        old(store).wf(),
    ensures
        final(store).wf(),
        (final(store)@, intent_result_view(r)) == confirm_outcome(old(store)@, id, event_id),
{
    let j = match store.find_intent(id) {
        None => {
            return Err(confirm_miss_error(None));
        },
        Some(j) => j,
    };
    let ghost s0 = store@;
    proof {
        assert(s0.intents[j as int] == store.intents@[j as int]@);
    }
    let current = store.intents[j].status;
    match current {
        IntentStatus::RequiresConfirmation => {},
        _ => {
            return Err(confirm_miss_error(Some(current)));
        },
    }
    let confirmed = confirm_transition(&store.intents[j]);
    match insert_event(
        &mut store.outbox,
        event_id,
        EventType::PaymentIntentSucceeded,
        confirmed.snapshot(),
    ) {
        Ok(()) => {},
        Err(e) => {
            return Err(e);
        },
    }
    store.intents[j].status = IntentStatus::Succeeded;
    proof {
        let c = confirmed_intent(s0.intents[j as int]);
        assert(store@.intents =~= s0.intents.update(j as int, c));
        assert(store@.records =~= s0.records);
        let v = store@;
        assert forall|a: int, b: int|
            0 <= a < v.intents.len() && 0 <= b < v.intents.len() && #[trigger] v.intents[a].id
                == #[trigger] v.intents[b].id implies a == b by {
            assert(v.intents[a].id == s0.intents[a].id);
            assert(v.intents[b].id == s0.intents[b].id);
        }
        assert forall|i: int| 0 <= i < v.outbox.len() implies has_intent(
            v.intents,
            #[trigger] v.outbox[i].payload.id,
        ) by {
            if i < s0.outbox.len() {
                let w = choose|k: int| 0 <= k < s0.intents.len()
                    && #[trigger] s0.intents[k].id == s0.outbox[i].payload.id;
                assert(v.intents[w].id == v.outbox[i].payload.id);
            } else {
                assert(v.intents[j as int].id == v.outbox[i].payload.id);
            }
        }
    }
    Ok(confirmed)
}

/// Reads the intent `id`.
pub fn get_payment_intent(store: &PaymentStore, id: u128) -> (r: Result<PaymentIntentResponse, ApiError>)
    requires
        store.wf(),
    ensures
        intent_result_view(r) == get_outcome(store@, id),
{
    match store.find_intent(id) {
        None => Err(ApiError::NotFound),
        Some(j) => {
            proof {
                assert(store@.intents[j as int] == store.intents@[j as int]@);
            }
            Ok(store.intents[j].snapshot())
        },
    }
}

/// Runs a create request as one transaction, drawing fresh random
/// identifiers for a new intent and its event. Whatever was drawn, the
/// outcome is the one `create_payment_intent_with_ids` gives for it.
pub fn create_payment_intent(
    store: &mut PaymentStore,
    idempotency_key: Option<String>,
    req: CreatePaymentIntentRequest,
) -> (r: Result<(u16, PaymentIntentResponse), ApiError>)
    requires
        old(store).wf(),
    ensures
        final(store).wf(),
        exists|intent_id: u128, event_id: u128|
            (final(store)@, created_view(r)) == #[trigger] create_outcome(
                old(store)@,
                key_view(idempotency_key),
                req@,
                intent_id,
                event_id,
            ),
{
    let intent_id = new_uuid();
    let event_id = new_uuid();
    create_payment_intent_with_ids(store, idempotency_key, req, intent_id, event_id)
}

/// Confirms the intent `id` as one transaction, drawing a fresh random
/// identifier for its event. Whatever was drawn, the outcome is the one
/// `confirm_payment_intent_with_event_id` gives for it.
pub fn confirm_payment_intent(store: &mut PaymentStore, id: u128) -> (r: Result<
    PaymentIntentResponse,
    ApiError,
>)
    requires
        old(store).wf(),
    ensures
        final(store).wf(),
        exists|event_id: u128|
            (final(store)@, intent_result_view(r)) == #[trigger] confirm_outcome(old(store)@, id, event_id),
{
    let event_id = new_uuid();
    confirm_payment_intent_with_event_id(store, id, event_id)
}

} // verus!
