//! Request lifecycle records: which requests are still observed, which state a status
//! message reports for a request, and how a stored record follows those messages.
use vstd::prelude::*;
use crate::text::{ends_with, owned, spec_ends_with, str_eq};

verus! {

/// The fields of a message payload that the lifecycle reads, with the payload's
/// canonical JSON text.
pub struct Payload {
    pub state: Option<String>,
    pub task_request_id: Option<String>,
    pub task_state: Option<String>,
    pub original_error: Option<String>,
    pub text: String,
}

/// A status or result message about a request, as the gateway receives it.
pub struct RequestMessage {
    /// The message's `request_id`, when it is a string.
    pub request_id: Option<String>,
    /// The message's `task_request_id`, when it is a string.
    pub task_request_id: Option<String>,
    /// The message's `original_error`, when it is a string.
    pub original_error: Option<String>,
    /// The message's `value`, when present and not null.
    pub nested: Option<Payload>,
    /// The message itself read as a payload.
    pub body: Payload,
}

/// The stored record of one request.
pub struct RequestRecord {
    pub schema_version: u32,
    pub request_id: String,
    pub session_id: String,
    pub operation: String,
    /// `None` stands for a missing or non-string state.
    pub state: Option<String>,
    pub terminal: bool,
    /// Canonical JSON text of the last payload; `None` stands for null.
    pub value: Option<String>,
    pub original_error: Option<String>,
    pub updated_at_ms: u64,
}

/// How an outgoing request is reserved before it is sent.
pub enum Reservation {
    /// Asset requests are not recorded; they are always allowed.
    NotRecorded,
    /// A record keyed by this id is to be created if none exists yet.
    Record(String),
    /// The request carries no usable id.
    MissingRequestId,
}

/// The requests whose progress is still being recorded.
pub struct RequestHistory {
    ids: Vec<String>,
}

// ---------------------------------------------------------------------------------------
// Model
// ---------------------------------------------------------------------------------------

pub open spec fn is_terminal(state: Seq<char>) -> bool {
    state == "succeeded"@ || state == "failed"@ || state == "cancelled"@
}

pub open spec fn opt_view(value: Option<String>) -> Option<Seq<char>> {
    match value {
        Some(s) => Some(s@),
        None => None,
    }
}

/// The payload a message reports about: its `value` when present, else the message.
pub open spec fn payload_of(message: RequestMessage) -> Payload {
    match message.nested {
        Some(p) => p,
        None => message.body,
    }
}

/// The state a message reports for request `id`: failed when it carries an error, else
/// the payload's state, else the payload's task state when the task is this request,
/// else succeeded for a request result, else nothing.
pub open spec fn state_of(input: Seq<char>, message: RequestMessage, id: Seq<char>) -> Option<
    Seq<char>,
> {
    let p = payload_of(message);
    if message.original_error is Some {
        Some("failed"@)
    } else if p.state is Some {
        Some(p.state->0@)
    } else if p.task_request_id is Some && p.task_request_id->0@ == id && p.task_state is Some {
        Some(p.task_state->0@)
    } else if spec_ends_with(input, "request_result"@) {
        Some("succeeded"@)
    } else {
        None
    }
}

/// The id a message is about: its `request_id`, else its `task_request_id`.
pub open spec fn message_id(message: RequestMessage) -> Option<Seq<char>> {
    match message.request_id {
        Some(id) => Some(id@),
        None => opt_view(message.task_request_id),
    }
}

/// Whether an outgoing output is never recorded.
pub open spec fn unrecorded_output(output: Seq<char>) -> bool {
    spec_ends_with(output, "asset_request"@) || spec_ends_with(output, "snapshot"@)
}

/// The observed set after an outgoing request is begun.
pub open spec fn begin_effect(ids: Set<Seq<char>>, output: Seq<char>, body: RequestMessage) -> Set<
    Seq<char>,
> {
    if unrecorded_output(output) {
        ids
    } else {
        match body.request_id {
            Some(id) => if id@.len() > 0 {
                ids.insert(id@)
            } else {
                ids
            },
            None => ids,
        }
    }
}

/// Whether observing a message queues an update for its request.
pub open spec fn observe_queues(ids: Set<Seq<char>>, input: Seq<char>, message: RequestMessage) -> bool {
    match message_id(message) {
        Some(id) => ids.contains(id) && state_of(input, message, id) is Some,
        None => false,
    }
}

/// The observed set after a message is observed: a request leaves it with its terminal state.
pub open spec fn observe_effect(ids: Set<Seq<char>>, input: Seq<char>, message: RequestMessage) -> Set<
    Seq<char>,
> {
    match message_id(message) {
        Some(id) => if observe_queues(ids, input, message) && is_terminal(
            state_of(input, message, id)->0,
        ) {
            ids.remove(id)
        } else {
            ids
        },
        None => ids,
    }
}

/// The error a record keeps for an update to `state`.
pub open spec fn recorded_error(message: RequestMessage, state: Seq<char>) -> Option<Seq<char>> {
    if message.original_error is Some {
        opt_view(message.original_error)
    } else if state == "failed"@ {
        opt_view(payload_of(message).original_error)
    } else {
        None
    }
}

/// Whether `update_record` changes the record, and the record it leaves.
pub open spec fn update_applies(record: RequestRecord, input: Seq<char>, message: RequestMessage) -> bool {
    match state_of(input, message, record.request_id@) {
        Some(state) => !record.terminal && !(opt_view(record.state) == Some(state) && opt_view(
            record.value,
        ) == Some(payload_of(message).text@)),
        None => false,
    }
}

pub open spec fn updated_record_matches(
    old_record: RequestRecord,
    new_record: RequestRecord,
    input: Seq<char>,
    message: RequestMessage,
) -> bool {
    let state = state_of(input, message, old_record.request_id@)->0;
    &&& opt_view(new_record.state) == Some(state)
    &&& new_record.terminal == is_terminal(state)
    &&& opt_view(new_record.value) == Some(payload_of(message).text@)
    &&& opt_view(new_record.original_error) == recorded_error(message, state)
    &&& new_record.request_id == old_record.request_id
    &&& new_record.session_id == old_record.session_id
    &&& new_record.operation == old_record.operation
    &&& new_record.schema_version == old_record.schema_version
    &&& new_record.updated_at_ms == old_record.updated_at_ms
}

/// Whether some string of `ids` reads `id`.
pub open spec fn contains_id(ids: Seq<String>, id: Seq<char>) -> bool {
    exists|i: int| 0 <= i < ids.len() && ids[i]@ == id
}

proof fn lemma_contains_push(ids: Seq<String>, s: String)
    ensures
        forall|x: Seq<char>| #[trigger] contains_id(ids.push(s), x) <==> (contains_id(ids, x) || s@ == x),
{
    assert forall|x: Seq<char>| #[trigger] contains_id(ids.push(s), x) <==> (contains_id(ids, x) || s@ == x) by {
        if contains_id(ids, x) {
            let i = choose|i: int| 0 <= i < ids.len() && ids[i]@ == x;
            assert(ids.push(s)[i] == ids[i]);
        }
        if s@ == x {
            assert(ids.push(s)[ids.len() as int] == s);
        }
        if contains_id(ids.push(s), x) {
            let i = choose|i: int| 0 <= i < ids.len() + 1 && ids.push(s)[i]@ == x;
            if i < ids.len() {
                assert(ids.push(s)[i] == ids[i]);
            }
        }
    }
}

impl RequestHistory {
    /// The requests still being recorded.
    pub closed spec fn observed(&self) -> Set<Seq<char>> {
        Set::new(|id: Seq<char>| contains_id(self.ids@, id))
    }
}

// ---------------------------------------------------------------------------------------
// Executable
// ---------------------------------------------------------------------------------------

/// Whether a request state is final.
pub fn terminal(state: &str) -> (res: bool)
    ensures
        res == is_terminal(state@),
{
    str_eq(state, "succeeded") || str_eq(state, "failed") || str_eq(state, "cancelled")
}

/// The storage key of a request record.
pub fn key(id: &str) -> (res: String)
    ensures
        res@ == "robot-arm:request:"@ + id@,
{
    let mut res = owned("robot-arm:request:");
    res.append(id);
    res
}

fn clone_opt(value: &Option<String>) -> (res: Option<String>)
    ensures
        opt_view(res) == opt_view(*value),
{
    match value {
        Some(s) => Some(s.clone()),
        None => None,
    }
}

/// The payload a message reports about.
fn payload(message: &RequestMessage) -> (res: &Payload)
    ensures
        *res == payload_of(*message),
{
    match &message.nested {
        Some(p) => p,
        None => &message.body,
    }
}

/// The state a message reports for request `id`, if any.
pub fn request_state(input: &str, value: &RequestMessage, id: &str) -> (res: Option<String>)
    ensures
        opt_view(res) == state_of(input@, *value, id@),
{
    let p = payload(value);
    if value.original_error.is_some() {
        return Some(owned("failed"));
    }
    match &p.state {
        Some(s) => {
            return Some(s.clone());
        },
        None => {},
    }
    match (&p.task_request_id, &p.task_state) {
        (Some(task), Some(task_state)) => {
            if str_eq(task.as_str(), id) {
                return Some(task_state.clone());
            }
        },
        _ => {},
    }
    if ends_with(input, "request_result") {
        Some(owned("succeeded"))
    } else {
        None
    }
}

/// Moves a record to the state a message reports, unless the record is already final or
/// the message repeats the recorded state and payload. Returns whether it changed.
///
/// It returns `false`, leaving the record as it was, exactly when the message reports no
/// state for the record's request, the record is final, or the record already holds that
/// state and payload. Otherwise the record takes the state, whether it is final, the
/// payload, and as its error the message's error, else for a failure the payload's error,
/// else none; its id, session, operation, schema version and update time are kept.
pub fn update_record(record: &mut RequestRecord, input: &str, value: &RequestMessage) -> (changed:
    bool)
    ensures
        changed == update_applies(*old(record), input@, *value),
        changed ==> updated_record_matches(*old(record), *final(record), input@, *value),
        !changed ==> *final(record) == *old(record),
{
    let state = match request_state(input, value, record.request_id.as_str()) {
        Some(s) => s,
        None => {
            return false;
        },
    };
    if record.terminal {
        return false;
    }
    let p = payload(value);
    let same_state = match &record.state {
        Some(s) => *s == state,
        None => false,
    };
    let same_value = match &record.value {
        Some(v) => *v == p.text,
        None => false,
    };
    if same_state && same_value {
        return false;
    }
    let is_final = terminal(state.as_str());
    let error = if value.original_error.is_some() {
        clone_opt(&value.original_error)
    } else if str_eq(state.as_str(), "failed") {
        clone_opt(&p.original_error)
    } else {
        None
    };
    record.state = Some(state);
    record.terminal = is_final;
    record.value = Some(p.text.clone());
    record.original_error = error;
    true
}

/// Applies a queued update to a stored record: only a record of this session changes.
pub fn apply_update(record: &mut RequestRecord, session: &str, input: &str, value: &RequestMessage) -> (changed: bool)
    ensures
        changed == (old(record).session_id@ == session@ && update_applies(*old(record), input@, *value)),
        changed ==> updated_record_matches(*old(record), *final(record), input@, *value),
        !changed ==> *final(record) == *old(record),
{
    if !str_eq(record.session_id.as_str(), session) {
        return false;
    }
    update_record(record, input, value)
}

/// The record that reserves a new request: accepted, not final, no value and no error.
pub fn accepted_record(
    schema_version: u32,
    id: &str,
    session: &str,
    output: &str,
    updated_at_ms: u64,
) -> (record: RequestRecord)
    ensures
        record.schema_version == schema_version,
        record.request_id@ == id@,
        record.session_id@ == session@,
        record.operation@ == output@,
        opt_view(record.state) == Some("accepted"@),
        !record.terminal,
        record.value is None,
        record.original_error is None,
        record.updated_at_ms == updated_at_ms,
{
    RequestRecord {
        schema_version,
        request_id: owned(id),
        session_id: owned(session),
        operation: owned(output),
        state: Some(owned("accepted")),
        terminal: false,
        value: None,
        original_error: None,
        updated_at_ms,
    }
}

/// How an outgoing request is reserved: asset requests are not recorded, other requests
/// need a non-empty id.
pub fn reservation(output: &str, request_id: Option<&str>) -> (res: Reservation)
    ensures
        spec_ends_with(output@, "asset_request"@) ==> res is NotRecorded,
        !spec_ends_with(output@, "asset_request"@) ==> match request_id {
            Some(id) => if id@.len() > 0 {
                res matches Reservation::Record(r) && r@ == id@
            } else {
                res is MissingRequestId
            },
            None => res is MissingRequestId,
        },
{
    if ends_with(output, "asset_request") {
        return Reservation::NotRecorded;
    }
    match request_id {
        Some(id) => {
            if id.unicode_len() > 0 {
                Reservation::Record(owned(id))
            } else {
                Reservation::MissingRequestId
            }
        },
        None => Reservation::MissingRequestId,
    }
}

/// The message a reader sees for a record: a non-final record of another session is
/// reported as unknown, because its outcome was never confirmed.
pub fn read_view(record: RequestRecord, session: &str) -> (res: RequestRecord)
    ensures
        (record.session_id@ != session@ && !record.terminal) ==> {
            &&& opt_view(res.state) == Some("unknown"@)
            &&& opt_view(res.original_error) == Some(
                "服务已重启，未确认该请求的最终执行结果；不会自动重放"@,
            )
            &&& res.request_id == record.request_id
            &&& res.session_id == record.session_id
            &&& res.operation == record.operation
            &&& res.terminal == record.terminal
            &&& res.value == record.value
            &&& res.schema_version == record.schema_version
            &&& res.updated_at_ms == record.updated_at_ms
        },
        !(record.session_id@ != session@ && !record.terminal) ==> res == record,
{
    let mut record = record;
    if !str_eq(record.session_id.as_str(), session) && !record.terminal {
        record.state = Some(owned("unknown"));
        record.original_error = Some(owned("服务已重启，未确认该请求的最终执行结果；不会自动重放"));
    }
    record
}

impl RequestHistory {
    /// A history that tracks no request.
    pub fn new() -> (res: Self)
        ensures
            res.observed() == Set::<Seq<char>>::empty(),
    {
        let res = RequestHistory { ids: Vec::new() };
        assert(res.observed() =~= Set::<Seq<char>>::empty());
        res
    }

    /// Whether the request with this id is still observed.
    pub fn contains(&self, id: &str) -> (res: bool)
        ensures
            res == self.observed().contains(id@),
    {
        let mut i: usize = 0;
        while i < self.ids.len()
            invariant
                i <= self.ids@.len(),
                forall|j: int| 0 <= j < i ==> self.ids@[j]@ != id@,
            decreases self.ids@.len() - i,
        {
            if str_eq(self.ids[i].as_str(), id) {
                return true;
            }
            i += 1;
        }
        assert(!contains_id(self.ids@, id@));
        false
    }

    fn insert(&mut self, id: &str)
        ensures
            final(self).observed() == old(self).observed().insert(id@),
    {
        if !self.contains(id) {
            let s = owned(id);
            proof {
                lemma_contains_push(self.ids@, s);
            }
            self.ids.push(s);
        }
        assert(self.observed() =~= old(self).observed().insert(id@));
    }

    fn remove(&mut self, id: &str)
        ensures
            final(self).observed() == old(self).observed().remove(id@),
    {
        let mut kept: Vec<String> = Vec::new();
        let mut i: usize = 0;
        while i < self.ids.len()
            invariant
                i <= self.ids@.len(),
                forall|x: Seq<char>|
                    #[trigger] contains_id(kept@, x) <==> (x != id@ && contains_id(
                        self.ids@.take(i as int),
                        x,
                    )),
            decreases self.ids@.len() - i,
        {
            proof {
                assert(self.ids@.take(i as int + 1) =~= self.ids@.take(i as int).push(self.ids@[i as int]));
                lemma_contains_push(self.ids@.take(i as int), self.ids@[i as int]);
            }
            if !str_eq(self.ids[i].as_str(), id) {
                let s = self.ids[i].clone();
                proof {
                    lemma_contains_push(kept@, s);
                }
                kept.push(s);
            }
            i += 1;
        }
        proof {
            assert(self.ids@.take(self.ids@.len() as int) =~= self.ids@);
        }
        let ghost old_observed = self.observed();
        self.ids = kept;
        assert(self.observed() =~= old_observed.remove(id@));
    }

    /// Starts tracking an outgoing request, unless its output is never recorded or it
    /// has no id.
    pub fn begin(&mut self, output: &str, body: &RequestMessage)
        ensures
            final(self).observed() == begin_effect(old(self).observed(), output@, *body),
    {
        if ends_with(output, "asset_request") || ends_with(output, "snapshot") {
            return;
        }
        match &body.request_id {
            Some(id) => {
                if id.as_str().unicode_len() > 0 {
                    self.insert(id.as_str());
                }
            },
            None => {},
        }
    }

    /// Observes a message about a observed request; returns whether its update is to be
    /// recorded. A request stops being observed once a final state is observed.
    pub fn observe(&mut self, input: &str, value: &RequestMessage) -> (queued: bool)
        ensures
            queued == observe_queues(old(self).observed(), input@, *value),
            final(self).observed() == observe_effect(old(self).observed(), input@, *value),
    {
        let id: &String = match &value.request_id {
            Some(id) => id,
            None => match &value.task_request_id {
                Some(id) => id,
                None => {
                    return false;
                },
            },
        };
        if !self.contains(id.as_str()) {
            return false;
        }
        let state = match request_state(input, value, id.as_str()) {
            Some(s) => s,
            None => {
                return false;
            },
        };
        if terminal(state.as_str()) {
            self.remove(id.as_str());
        }
        true
    }
}

} // verus!

verus! {

// ---------------------------------------------------------------------------------------
// Laws
// ---------------------------------------------------------------------------------------

/// A record in a final state is never changed by any later message.
pub proof fn final_record_is_never_overwritten(record: RequestRecord, input: Seq<char>, message: RequestMessage)
    requires
        record.terminal,
    ensures
        !update_applies(record, input, message),
{
}

/// Delivering the same message twice changes the record at most once.
pub proof fn repeated_message_changes_nothing(
    record: RequestRecord,
    updated: RequestRecord,
    input: Seq<char>,
    message: RequestMessage,
)
    requires
        update_applies(record, input, message),
        updated_record_matches(record, updated, input, message),
    ensures
        !update_applies(updated, input, message),
{
}

/// Once a final state of a request has been observed, no further message about that
/// request queues an update.
pub proof fn completed_request_leaves_observation(
    ids: Set<Seq<char>>,
    input: Seq<char>,
    message: RequestMessage,
    later_input: Seq<char>,
    later: RequestMessage,
)
    requires
        observe_queues(ids, input, message),
        is_terminal(state_of(input, message, message_id(message)->0)->0),
        message_id(later) == message_id(message),
    ensures
        !observe_queues(observe_effect(ids, input, message), later_input, later),
{
}

/// A request that was begun is observed: the first message reporting a state for it
/// queues an update.
pub proof fn begun_request_is_observed(
    ids: Set<Seq<char>>,
    output: Seq<char>,
    body: RequestMessage,
    input: Seq<char>,
    message: RequestMessage,
)
    requires
        !unrecorded_output(output),
        body.request_id is Some,
        body.request_id->0@.len() > 0,
        message_id(message) == Some(body.request_id->0@),
        state_of(input, message, body.request_id->0@) is Some,
    ensures
        observe_queues(begin_effect(ids, output, body), input, message),
{
}

/// A message is about the request its `request_id` names, else the one its
/// `task_request_id` names: for an observed request, a message naming it either way that
/// reports a state for it queues an update, and a final state stops the observation.
/// A message naming no request queues nothing.
pub proof fn messages_are_matched_by_request_or_task_id(
    ids: Set<Seq<char>>,
    input: Seq<char>,
    message: RequestMessage,
    id: Seq<char>,
)
    ensures
        ({
            ||| (message.request_id is Some && message.request_id->0@ == id)
            ||| (message.request_id is None && message.task_request_id is Some && message.task_request_id->0@ == id)
        }) ==> {
            &&& observe_queues(ids, input, message) == (ids.contains(id) && state_of(input, message, id) is Some)
            &&& (ids.contains(id) && state_of(input, message, id) is Some && is_terminal(state_of(input, message, id)->0))
                ==> !observe_effect(ids, input, message).contains(id)
            &&& !(ids.contains(id) && state_of(input, message, id) is Some && is_terminal(state_of(input, message, id)->0))
                ==> observe_effect(ids, input, message) == ids
        },
        (message.request_id is None && message.task_request_id is None) ==> !observe_queues(ids, input, message)
            && observe_effect(ids, input, message) == ids,
{
}

} // verus!
