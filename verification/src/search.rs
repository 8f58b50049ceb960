//! Search queries over events: a read-only filter/order/paging
//! specification, together with its evaluation predicate.

use vstd::prelude::*;

use crate::event::{Event, State};
use crate::text::str_eq;

verus! {

/// Result ordering of a search: by `scheduled_at` ascending or
/// descending, or in an unspecified (`Rand`) order.
#[derive(Clone, Copy, Debug, PartialEq, Eq, Structural)]
pub enum Order {
    Asc,
    Desc,
    Rand,
}

/// Errors a query-serving component may surface.
#[derive(Clone, Copy, Debug, PartialEq, Eq, Structural)]
pub enum EventRepoErr {
    Connection,
    InvalidState,
}

/// A filter over events in one namespace. Optional parts fall back to
/// defaults: `state` to `[Scheduled]`, `order` to `Asc`, `limit` to 100,
/// the `scheduled_at` range to `[epoch, now]`.
#[derive(Debug)]
pub struct SearchQuery {
    pub namespace: String,
    pub key: Option<String>,
    pub state: Option<Vec<State>>,
    pub order: Option<Order>,
    pub limit: Option<u32>,
    pub scheduled_at_min: Option<i64>,
    pub scheduled_at_max: Option<i64>,
}

impl SearchQuery {
    /// The states the query asks for; `[Scheduled]` when unspecified.
    pub open spec fn states_spec(self) -> Seq<State> {
        match self.state {
            Some(v) => v@,
            None => seq![State::Scheduled],
        }
    }

    /// The requested ordering; ascending when unspecified.
    pub open spec fn order_spec(self) -> Order {
        match self.order {
            Some(o) => o,
            None => Order::Asc,
        }
    }

    /// The result cap; 100 when unspecified.
    pub open spec fn limit_spec(self) -> u32 {
        match self.limit {
            Some(n) => n,
            None => 100,
        }
    }

    /// Lower bound of the `scheduled_at` range; the epoch when
    /// unspecified.
    pub open spec fn min_spec(self) -> i64 {
        match self.scheduled_at_min {
            Some(t) => t,
            None => 0,
        }
    }

    /// Upper bound of the `scheduled_at` range; `now` when unspecified,
    /// so that an unbounded query never surfaces events past the present.
    pub open spec fn max_spec(self, now: i64) -> i64 {
        match self.scheduled_at_max {
            Some(t) => t,
            None => now,
        }
    }

    pub fn namespace(&self) -> (r: &str)
        ensures
            r@ == self.namespace@,
    {
        self.namespace.as_str()
    }

    pub fn key(&self) -> (r: &Option<String>)
        ensures
            r == self.key,
    {
        &self.key
    }

    /// The requested states as an owned vector, applying the default.
    pub fn state(&self) -> (r: Vec<State>)
        ensures
            r@ == self.states_spec(),
    {
        match &self.state {
            Some(v) => copy_states(v),
            None => {
                let mut v: Vec<State> = Vec::new();
                v.push(State::Scheduled);
                proof {
                    assert(v@ =~= seq![State::Scheduled]);
                }
                v
            },
        }
    }

    pub fn order(&self) -> (r: Order)
        ensures
            r == self.order_spec(),
    {
        match &self.order {
            Some(o) => *o,
            None => Order::Asc,
        }
    }

    pub fn limit(&self) -> (r: u32)
        ensures
            r == self.limit_spec(),
    {
        match &self.limit {
            Some(n) => *n,
            None => 100,
        }
    }

    /// The effective `scheduled_at` range `(min, max)`, given the present
    /// instant for the default upper bound.
    pub fn scheduled_at(&self, now: i64) -> (r: (i64, i64))
        ensures
            r.0 == self.min_spec(),
            r.1 == self.max_spec(now),
    {
        let min: i64 = match &self.scheduled_at_min {
            Some(t) => *t,
            None => 0,
        };
        let max: i64 = match &self.scheduled_at_max {
            Some(t) => *t,
            None => now,
        };
        (min, max)
    }
}

fn copy_states(v: &Vec<State>) -> (r: Vec<State>)
    ensures
        r@ == v@,
{
    let mut out: Vec<State> = Vec::new();
    let mut i: usize = 0;
    while i < v.len()
        invariant
            i <= v.len(),
            out@.len() == i,
            forall|j: int| 0 <= j < i ==> out@[j] == v@[j],
        decreases v.len() - i,
    {
        out.push(v[i]);
        i = i + 1;
    }
    proof {
        assert(out@ =~= v@);
    }
    out
}

fn states_contain(v: &Vec<State>, s: State) -> (r: bool)
    ensures
        r == v@.contains(s),
{
    let mut i: usize = 0;
    while i < v.len()
        invariant
            i <= v.len(),
            forall|j: int| 0 <= j < i ==> v@[j] != s,
        decreases v.len() - i,
    {
        if v[i] == s {
            return true;
        }
        i = i + 1;
    }
    false
}

/// Whether `e` satisfies the query's filter: its namespace exactly, its
/// key exactly when one is asked for, its state among the requested
/// states, and its due time within the effective range.
pub open spec fn event_matches(q: SearchQuery, e: Event, now: i64) -> bool {
    &&& e.namespace@ == q.namespace@
    &&& (q.key is Some ==> e.key@ == q.key->0@)
    &&& q.states_spec().contains(e.state)
    &&& q.min_spec() <= e.scheduled_at <= q.max_spec(now)
}

/// Evaluates the query's filter on one event.
pub fn matches_event(q: &SearchQuery, e: &Event, now: i64) -> (r: bool)
    ensures
        r == event_matches(*q, *e, now),
{
    if !str_eq(e.namespace.as_str(), q.namespace.as_str()) {
        return false;
    }
    let key_ok: bool = match &q.key {
        Some(k) => str_eq(e.key.as_str(), k.as_str()),
        None => true,
    };
    if !key_ok {
        return false;
    }
    let state_ok: bool = match &q.state {
        Some(v) => states_contain(v, e.state),
        None => {
            proof {
                assert(seq![State::Scheduled][0] == State::Scheduled);
            }
            match e.state {
                State::Scheduled => true,
                _ => false,
            }
        },
    };
    if !state_ok {
        return false;
    }
    let (min, max) = q.scheduled_at(now);
    min <= e.scheduled_at && e.scheduled_at <= max
}

/// The query's filter as a predicate value, for use with `Seq::filter`.
pub open spec fn search_pred(q: SearchQuery, now: i64) -> spec_fn(Event) -> bool {
    |e: Event| event_matches(q, e, now)
}

/// The ordering a search sorts by: due time, ascending, or descending
/// when `desc` holds.
pub open spec fn time_le(desc: bool, a: Event, b: Event) -> bool {
    if desc {
        a.scheduled_at >= b.scheduled_at
    } else {
        a.scheduled_at <= b.scheduled_at
    }
}

/// [`time_le`] as a relation value, for use with `sorted_by`.
pub open spec fn by_time(desc: bool) -> spec_fn(Event, Event) -> bool {
    |a: Event, b: Event| time_le(desc, a, b)
}

} // verus!
