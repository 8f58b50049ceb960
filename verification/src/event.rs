//! The event entity and its state-transition rules.
//!
//! An [`Event`] is a pure value: settling operations consume an event and
//! return the transitioned copy. Timestamps are milliseconds since the
//! Unix epoch; identifiers are 128-bit values drawn from random UUIDs.

use vstd::prelude::*;

use crate::clock::now_millis;
use crate::ids::fresh_id;
use crate::text::{ascii_upper_seq, str_eq_ignore_ascii_case};

verus! {

/// Lifecycle state of an event.
///
/// `Scheduled` is the single active state; `Disabled` and `Completed` are
/// settled states. No transition ever leads back into `Scheduled`: only the
/// store's invariant-checked insert paths may produce a `Scheduled` row.
#[derive(Clone, Copy, Debug, PartialEq, Eq, Structural)]
pub enum State {
    Scheduled,
    Disabled,
    Completed,
}

/// Result of applying `disable` to an event in state `s`: a `Scheduled`
/// event becomes `Disabled`; settled events are left unchanged.
pub open spec fn disable_state(s: State) -> State {
    match s {
        State::Scheduled => State::Disabled,
        _ => s,
    }
}

/// Result of applying `complete` to an event in state `s`: every state
/// transitions to `Completed` (idempotently for `Completed` itself).
pub open spec fn complete_state(s: State) -> State {
    State::Completed
}

/// The literal wire form of a state: one of `SCHEDULED`, `DISABLED`,
/// `COMPLETED`.
pub open spec fn state_str(s: State) -> Seq<char> {
    match s {
        State::Scheduled => "SCHEDULED"@,
        State::Disabled => "DISABLED"@,
        State::Completed => "COMPLETED"@,
    }
}

/// The state a string denotes, compared case-insensitively (by ASCII
/// case folding) against the three literal forms.
pub open spec fn state_of(s: Seq<char>) -> Option<State> {
    if ascii_upper_seq(s) == "SCHEDULED"@ {
        Some(State::Scheduled)
    } else if ascii_upper_seq(s) == "DISABLED"@ {
        Some(State::Disabled)
    } else if ascii_upper_seq(s) == "COMPLETED"@ {
        Some(State::Completed)
    } else {
        None
    }
}

proof fn lemma_state_literals_upper_fixed()
    ensures
        ascii_upper_seq("SCHEDULED"@) == "SCHEDULED"@,
        ascii_upper_seq("DISABLED"@) == "DISABLED"@,
        ascii_upper_seq("COMPLETED"@) == "COMPLETED"@,
{
    reveal_strlit("SCHEDULED");
    reveal_strlit("DISABLED");
    reveal_strlit("COMPLETED");
    assert(ascii_upper_seq("SCHEDULED"@) =~= "SCHEDULED"@);
    assert(ascii_upper_seq("DISABLED"@) =~= "DISABLED"@);
    assert(ascii_upper_seq("COMPLETED"@) =~= "COMPLETED"@);
}

impl State {
    /// Renders the state as its literal wire form.
    pub fn as_str(&self) -> (r: &'static str)
        ensures
            r@ == state_str(*self),
    {
        match self {
            State::Scheduled => "SCHEDULED",
            State::Disabled => "DISABLED",
            State::Completed => "COMPLETED",
        }
    }

    /// Parses a state from its wire form, case-insensitively.
    pub fn from_str(s: &str) -> (r: Result<State, &'static str>)
        ensures
            r is Ok <==> state_of(s@) is Some,
            r is Ok ==> state_of(s@) == Some(r->Ok_0),
    {
        proof {
            lemma_state_literals_upper_fixed();
        }
        if str_eq_ignore_ascii_case(s, "SCHEDULED") {
            Ok(State::Scheduled)
        } else if str_eq_ignore_ascii_case(s, "DISABLED") {
            Ok(State::Disabled)
        } else if str_eq_ignore_ascii_case(s, "COMPLETED") {
            Ok(State::Completed)
        } else {
            Err("Invalid state value")
        }
    }
}

/// Rendering a state and parsing it back yields the same state; parsing
/// is also insensitive to ASCII case.
pub proof fn lemma_state_str_round_trip(s: State)
    ensures
        state_of(state_str(s)) == Some(s),
{
    lemma_state_literals_upper_fixed();
    reveal_strlit("SCHEDULED");
    reveal_strlit("DISABLED");
    reveal_strlit("COMPLETED");
    assert("DISABLED"@.len() != "SCHEDULED"@.len());
    assert("COMPLETED"@[0] != "SCHEDULED"@[0]);
    assert("COMPLETED"@.len() != "DISABLED"@.len());
}

/// A named, time-stamped work item. `key` names the schedule within its
/// `namespace`; `value` is an opaque payload document (JSON text, `"null"`
/// when omitted); `id` and `idempotence_key` are generated at creation and
/// immutable afterwards.
#[derive(Debug)]
pub struct Event {
    pub key: String,
    pub value: String,
    pub id: u128,
    pub namespace: String,
    pub idempotence_key: u128,
    pub state: State,
    pub created_at: i64,
    pub scheduled_at: i64,
}

impl Clone for Event {
    fn clone(&self) -> (r: Event)
        ensures
            r == *self,
    {
        Event {
            key: self.key.clone(),
            value: self.value.clone(),
            id: self.id,
            namespace: self.namespace.clone(),
            idempotence_key: self.idempotence_key,
            state: self.state,
            created_at: self.created_at,
            scheduled_at: self.scheduled_at,
        }
    }
}

impl Event {
    /// The same event carried into the given state.
    pub open spec fn spec_with_state(self, state: State) -> Event {
        Event { state, ..self }
    }

    /// The event after `disable`.
    pub open spec fn spec_disabled(self) -> Event {
        self.spec_with_state(disable_state(self.state))
    }

    /// The event after `complete`.
    pub open spec fn spec_completed(self) -> Event {
        self.spec_with_state(complete_state(self.state))
    }

    /// The successor that `next` produces for the given schedule time,
    /// payload, and freshly generated identifiers: same key and namespace,
    /// newly `Scheduled`, payload the given one or, when omitted, the
    /// predecessor's own (by copy).
    pub open spec fn spec_successor(
        self,
        schedule_at: i64,
        value: Option<String>,
        id: u128,
        idempotence_key: u128,
        created_at: i64,
    ) -> Event {
        Event {
            key: self.key,
            value: if value is Some {
                value->0
            } else {
                self.value
            },
            id,
            namespace: self.namespace,
            idempotence_key,
            state: State::Scheduled,
            created_at,
            scheduled_at: schedule_at,
        }
    }

    /// Creates a fresh `Scheduled` event. The identifiers are drawn at
    /// random and `created_at` is read from the clock, so nothing is
    /// promised of those three fields.
    pub fn new(key: String, namespace: String, schedule_at: i64, value: Option<String>) -> (ev:
        Event)
        ensures
            ev.key == key,
            ev.namespace == namespace,
            ev.state == State::Scheduled,
            ev.scheduled_at == schedule_at,
            value is Some ==> ev.value == value->0,
            value is None ==> ev.value@ == "null"@,
    {
        let value: String = match value {
            Some(v) => v,
            None => "null".to_owned(),
        };
        Event {
            key,
            value,
            id: fresh_id(),
            namespace,
            idempotence_key: fresh_id(),
            state: State::Scheduled,
            created_at: now_millis(),
            scheduled_at: schedule_at,
        }
    }

    pub fn key(&self) -> (r: &str)
        ensures
            r@ == self.key@,
    {
        self.key.as_str()
    }

    pub fn value(&self) -> (r: &str)
        ensures
            r@ == self.value@,
    {
        self.value.as_str()
    }

    pub fn id(&self) -> (r: u128)
        ensures
            r == self.id,
    {
        self.id
    }

    pub fn namespace(&self) -> (r: &str)
        ensures
            r@ == self.namespace@,
    {
        self.namespace.as_str()
    }

    pub fn idempotence_key(&self) -> (r: u128)
        ensures
            r == self.idempotence_key,
    {
        self.idempotence_key
    }

    pub fn state(&self) -> (r: State)
        ensures
            r == self.state,
    {
        self.state
    }

    pub fn schedule_at(&self) -> (r: i64)
        ensures
            r == self.scheduled_at,
    {
        self.scheduled_at
    }

    pub fn created_at(&self) -> (r: i64)
        ensures
            r == self.created_at,
    {
        self.created_at
    }

    /// Whether the event still holds the active `Scheduled` state.
    pub fn is_scheduled(&self) -> (r: bool)
        ensures
            r == (self.state == State::Scheduled),
    {
        match self.state {
            State::Scheduled => true,
            _ => false,
        }
    }

    /// Settles a `Scheduled` event into `Disabled`; a no-op on settled
    /// events.
    pub fn disable(self) -> (r: Event)
        ensures
            r == self.spec_disabled(),
    {
        match self.state {
            State::Scheduled => self.change_state(State::Disabled),
            _ => self,
        }
    }

    /// Settles any event into `Completed`; a no-op on `Completed` events.
    pub fn complete(self) -> (r: Event)
        ensures
            r == self.spec_completed(),
    {
        match self.state {
            State::Scheduled | State::Disabled => self.change_state(State::Completed),
            _ => self,
        }
    }

    fn change_state(self, state: State) -> (r: Event)
        ensures
            r == self.spec_with_state(state),
    {
        Event { state, ..self }
    }

    /// Produces the disabled predecessor together with a brand-new
    /// `Scheduled` successor due at `schedule_at`. The successor carries
    /// the given payload or, when omitted, a copy of the predecessor's;
    /// its identifiers are freshly generated, so nothing is promised of
    /// them (see [`lemma_successor_correct`]).
    pub fn next(self, schedule_at: i64, value: Option<String>) -> (pair: (Event, Event))
        ensures
            pair.0 == self.spec_disabled(),
            exists|id: u128, idempotence_key: u128, created_at: i64|
                pair.1 == self.spec_successor(
                    schedule_at,
                    value,
                    id,
                    idempotence_key,
                    created_at,
                ),
    {
        let ghost value_given: Option<String> = value;
        let payload: String = match value {
            Some(v) => v,
            None => self.value.clone(),
        };

        let next = Event {
            key: self.key.clone(),
            id: fresh_id(),
            namespace: self.namespace.clone(),
            idempotence_key: fresh_id(),
            state: State::Scheduled,
            created_at: now_millis(),
            scheduled_at: schedule_at,
            value: payload,
        };
        proof {
            assert(next == self.spec_successor(
                schedule_at,
                value_given,
                next.id,
                next.idempotence_key,
                next.created_at,
            ));
        }
        (self.disable(), next)
    }

    /// Like [`Event::next`], with the successor due `duration`
    /// milliseconds after this event's own `scheduled_at`.
    pub fn next_duration(self, duration: i64, value: Option<String>) -> (pair: (Event, Event))
        requires
            i64::MIN <= self.scheduled_at + duration <= i64::MAX,
        ensures
            pair.0 == self.spec_disabled(),
            ({
                let due = (self.scheduled_at + duration) as i64;
                exists|id: u128, idempotence_key: u128, created_at: i64|
                    pair.1 == #[trigger] self.spec_successor(
                        due,
                        value,
                        id,
                        idempotence_key,
                        created_at,
                    )
            }),
    {
        let schedule_at: i64 = self.scheduled_at + duration;
        self.next(schedule_at, value)
    }
}

/// Settling is idempotent: disabling twice is disabling once, completing
/// twice is completing once, completing a disabled event completes it,
/// and disabling never undoes a completed event.
pub proof fn lemma_settle_idempotent(e: Event)
    ensures
        e.spec_disabled().spec_disabled() == e.spec_disabled(),
        e.spec_completed().spec_completed() == e.spec_completed(),
        e.spec_disabled().spec_completed() == e.spec_completed(),
        e.spec_completed().spec_disabled() == e.spec_completed(),
{
}

/// Successor correctness: for a predecessor that is not yet completed and
/// freshly generated identifiers (which differ from the predecessor's),
/// `next` yields a `Disabled` predecessor and a `Scheduled` successor
/// sharing key and namespace, due at the requested time, with new
/// identifiers, and carrying the given payload or a copy of the
/// predecessor's.
pub proof fn lemma_successor_correct(
    e: Event,
    schedule_at: i64,
    value: Option<String>,
    id: u128,
    idempotence_key: u128,
    created_at: i64,
)
    requires
        e.state != State::Completed,
        id != e.id,
        idempotence_key != e.idempotence_key,
    ensures
        ({
            let p = e.spec_disabled();
            let s = e.spec_successor(schedule_at, value, id, idempotence_key, created_at);
            &&& p.state == State::Disabled
            &&& s.state == State::Scheduled
            &&& s.key == e.key
            &&& s.namespace == e.namespace
            &&& s.scheduled_at == schedule_at
            &&& s.id != e.id
            &&& s.idempotence_key != e.idempotence_key
            &&& value is Some ==> s.value == value->0
            &&& value is None ==> s.value == e.value
        }),
{
}

} // verus!
