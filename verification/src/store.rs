//! The event store: the durable home for events, the sole enforcer of the
//! `Scheduled`-uniqueness invariant, and the owner of the atomic
//! settle-and-enqueue-successor operation.
//!
//! The store keeps every row it ever accepted: mutations change a row's
//! `state` field in place and never delete rows. Its central invariant,
//! [`EventStore::wf`], is that for any `(namespace, key)` pair at most one
//! row is `Scheduled`; [`lemma_scheduled_unique`] restates it as a count.

use vstd::prelude::*;
use vstd::pervasive::VecAdditionalExecFns;

use crate::clock::now_millis;
use crate::clock::parse_rfc3339_millis;
use crate::clock::rfc3339_millis;
use crate::event::{Event, State};
use crate::search::{by_time, matches_event, search_pred, time_le, Order, SearchQuery};
use crate::text::str_eq;
use vstd::multiset::Multiset;
use vstd::relations::sorted_by;

verus! {

/// The store's failure taxonomy.
#[derive(Debug, PartialEq)]
pub enum RepoErr {
    /// Storage unreachable; safe to retry.
    Connection,
    /// The uniqueness invariant would be violated; a conflict.
    AlreadyScheduled,
    /// A settle operation asked to move an event back into `Scheduled`.
    IllegalState,
    /// A request field could not be converted (an unparsable timestamp).
    Conversion,
    /// The referenced row does not exist.
    NoResult,
    /// An unclassified storage error, with its description.
    Other(String),
    /// An unclassified storage error without one.
    Unknown,
}

/// A request to create a new `Scheduled` event. `schedule_at` is an
/// RFC 3339 timestamp; `value` an optional payload document.
#[derive(Debug)]
pub struct CreateEvent {
    pub key: String,
    pub value: Option<String>,
    pub namespace: String,
    pub schedule_at: String,
}

impl CreateEvent {
    pub fn new(key: String, value: Option<String>, namespace: String, schedule_at: String) -> (r:
        CreateEvent)
        ensures
            r.key == key,
            r.value == value,
            r.namespace == namespace,
            r.schedule_at == schedule_at,
    {
        CreateEvent { key, value, namespace, schedule_at }
    }

    pub fn key(&self) -> (r: &str)
        ensures
            r@ == self.key@,
    {
        self.key.as_str()
    }

    /// The payload document; `"null"` when omitted.
    pub fn value(&self) -> (r: String)
        ensures
            self.value is Some ==> r == self.value->0,
            self.value is None ==> r@ == "null"@,
    {
        match &self.value {
            Some(v) => v.clone(),
            None => "null".to_owned(),
        }
    }

    pub fn namespace(&self) -> (r: &str)
        ensures
            r@ == self.namespace@,
    {
        self.namespace.as_str()
    }

    /// The requested due time as an instant, or `Conversion` when the
    /// string is not a valid RFC 3339 timestamp.
    pub fn schedule_at(&self) -> (r: Result<i64, RepoErr>)
        ensures
            r is Ok <==> rfc3339_millis(self.schedule_at@) is Some,
            r is Ok ==> Some(r->Ok_0) == rfc3339_millis(self.schedule_at@),
            r is Err ==> r->Err_0 is Conversion,
    {
        match parse_rfc3339_millis(self.schedule_at.as_str()) {
            Some(t) => Ok(t),
            None => Err(RepoErr::Conversion),
        }
    }
}

/// A request to settle the event identified by `(namespace, key, id)`
/// into `state`.
#[derive(Debug)]
pub struct SettleEvent {
    pub key: String,
    pub id: u128,
    pub namespace: String,
    pub state: State,
}

/// A request to settle the event identified by `id` into `state` and
/// atomically enqueue `next` as its `Scheduled` successor.
#[derive(Debug)]
pub struct SettleAndNextEvent {
    pub id: u128,
    pub state: State,
    pub next: CreateEvent,
}

/// Whether `e` holds the `Scheduled` slot of `(namespace, key)`.
pub open spec fn scheduled_match(e: Event, namespace: Seq<char>, key: Seq<char>) -> bool {
    e.state == State::Scheduled && e.namespace@ == namespace && e.key@ == key
}

/// Whether `e` is the row identified by `(namespace, key, id)`.
pub open spec fn ident_match(e: Event, key: Seq<char>, id: u128, namespace: Seq<char>) -> bool {
    e.key@ == key && e.id == id && e.namespace@ == namespace
}

/// The uniqueness invariant, stated pairwise: no two rows are both
/// `Scheduled` for the same `(namespace, key)` pair.
pub open spec fn at_most_one_scheduled(rows: Seq<Event>) -> bool {
    forall|i: int, j: int| #![trigger rows[i], rows[j]]
        0 <= i < j < rows.len() && rows[i].state == State::Scheduled && rows[j].state
            == State::Scheduled ==> !(rows[i].namespace@ == rows[j].namespace@ && rows[i].key@
            == rows[j].key@)
}

/// How many rows hold the `Scheduled` slot of `(namespace, key)`.
pub open spec fn scheduled_count(rows: Seq<Event>, namespace: Seq<char>, key: Seq<char>) -> int
    decreases rows.len(),
{
    if rows.len() == 0 {
        0
    } else {
        scheduled_count(rows.drop_last(), namespace, key) + if scheduled_match(
            rows.last(),
            namespace,
            key,
        ) {
            1int
        } else {
            0int
        }
    }
}

proof fn lemma_scheduled_count_zero(rows: Seq<Event>, namespace: Seq<char>, key: Seq<char>)
    requires
        forall|i: int| #![trigger rows[i]]
            0 <= i < rows.len() ==> !scheduled_match(rows[i], namespace, key),
    ensures
        scheduled_count(rows, namespace, key) == 0,
    decreases rows.len(),
{
    if rows.len() > 0 {
        lemma_scheduled_count_zero(rows.drop_last(), namespace, key);
    }
}

/// The pairwise invariant bounds the count: under
/// [`at_most_one_scheduled`], every `(namespace, key)` pair has zero or
/// one `Scheduled` rows.
pub proof fn lemma_at_most_one_scheduled_count(
    rows: Seq<Event>,
    namespace: Seq<char>,
    key: Seq<char>,
)
    requires
        at_most_one_scheduled(rows),
    ensures
        0 <= scheduled_count(rows, namespace, key) <= 1,
    decreases rows.len(),
{
    if rows.len() > 0 {
        let prefix = rows.drop_last();
        let last = rows.len() - 1;
        assert(at_most_one_scheduled(prefix)) by {
            assert forall|i: int, j: int|
                0 <= i < j < prefix.len() && #[trigger] prefix[i].state == State::Scheduled
                    && #[trigger] prefix[j].state == State::Scheduled implies !(
            prefix[i].namespace@ == prefix[j].namespace@ && prefix[i].key@
                == prefix[j].key@) by {
                assert(prefix[i] == rows[i]);
                assert(prefix[j] == rows[j]);
            }
        }
        lemma_at_most_one_scheduled_count(prefix, namespace, key);
        if scheduled_match(rows.last(), namespace, key) {
            assert forall|i: int| 0 <= i < prefix.len() implies !scheduled_match(
                #[trigger] prefix[i],
                namespace,
                key,
            ) by {
                assert(prefix[i] == rows[i]);
                assert(rows[last] == rows.last());
            }
            lemma_scheduled_count_zero(prefix, namespace, key);
        }
    }
}

/// The store. Rows live in insertion order; the abstract content is
/// [`EventStore::rows`].
#[derive(Debug)]
pub struct EventStore {
    events: Vec<Event>,
}

impl EventStore {
    /// The persisted rows, oldest first.
    pub closed spec fn rows(self) -> Seq<Event> {
        self.events@
    }

    /// Well-formedness: the `Scheduled`-uniqueness invariant holds. Every
    /// operation of the store preserves it.
    pub open spec fn wf(self) -> bool {
        at_most_one_scheduled(self.rows())
    }

    /// An empty store. There is no schema to establish: a fresh store is
    /// ready for use.
    pub fn new() -> (s: EventStore)
        ensures
            s.rows() == Seq::<Event>::empty(),
            s.wf(),
    {
        EventStore { events: Vec::new() }
    }

    /// How many rows the store holds.
    pub fn len(&self) -> (n: usize)
        ensures
            n == self.rows().len(),
    {
        self.events.len()
    }

    fn find_scheduled_except(&self, namespace: &str, key: &str, except: Option<usize>) -> (r:
        Option<usize>)
        ensures
            match r {
                Some(i) => 0 <= i < self.rows().len() && scheduled_match(
                    self.rows()[i as int],
                    namespace@,
                    key@,
                ) && (except is Some ==> i != except->0),
                None => forall|i: int| #![trigger self.rows()[i]]
                    0 <= i < self.rows().len() && (except is Some ==> i != except->0) ==> !scheduled_match(
                        self.rows()[i],
                        namespace@,
                        key@,
                    ),
            },
    {
        let n: usize = self.events.len();
        let mut i: usize = 0;
        while i < n
            invariant
                n == self.rows().len(),
                i <= n,
                forall|j: int| #![trigger self.rows()[j]]
                    0 <= j < i && (except is Some ==> j != except->0) ==> !scheduled_match(
                        self.rows()[j],
                        namespace@,
                        key@,
                    ),
            decreases n - i,
        {
            let skip: bool = match except {
                Some(x) => x == i,
                None => false,
            };
            if !skip {
                let e = &self.events[i];
                if e.is_scheduled() && str_eq(e.namespace.as_str(), namespace) && str_eq(
                    e.key.as_str(),
                    key,
                ) {
                    return Some(i);
                }
            }
            i = i + 1;
        }
        None
    }

    fn find_ident(&self, key: &str, id: u128, namespace: &str) -> (r: Option<usize>)
        ensures
            match r {
                Some(i) => 0 <= i < self.rows().len() && ident_match(
                    self.rows()[i as int],
                    key@,
                    id,
                    namespace@,
                ) && (forall|j: int| #![trigger self.rows()[j]]
                    0 <= j < i ==> !ident_match(self.rows()[j], key@, id, namespace@)),
                None => forall|j: int| #![trigger self.rows()[j]]
                    0 <= j < self.rows().len() ==> !ident_match(self.rows()[j], key@, id, namespace@),
            },
    {
        let n: usize = self.events.len();
        let mut i: usize = 0;
        while i < n
            invariant
                n == self.rows().len(),
                i <= n,
                forall|j: int| #![trigger self.rows()[j]]
                    0 <= j < i ==> !ident_match(self.rows()[j], key@, id, namespace@),
            decreases n - i,
        {
            let e = &self.events[i];
            if e.id == id && str_eq(e.key.as_str(), key) && str_eq(e.namespace.as_str(), namespace)
            {
                return Some(i);
            }
            i = i + 1;
        }
        None
    }

    fn find_by_id(&self, id: u128) -> (r: Option<usize>)
        ensures
            match r {
                Some(i) => 0 <= i < self.rows().len() && self.rows()[i as int].id == id && (
                forall|j: int| #![trigger self.rows()[j]] 0 <= j < i ==> self.rows()[j].id != id),
                None => forall|j: int| #![trigger self.rows()[j]]
                    0 <= j < self.rows().len() ==> self.rows()[j].id != id,
            },
    {
        let n: usize = self.events.len();
        let mut i: usize = 0;
        while i < n
            invariant
                n == self.rows().len(),
                i <= n,
                forall|j: int| #![trigger self.rows()[j]] 0 <= j < i ==> self.rows()[j].id != id,
            decreases n - i,
        {
            if self.events[i].id == id {
                return Some(i);
            }
            i = i + 1;
        }
        None
    }

    /// Point lookup by `(namespace, key, id)`. Absence is not an error:
    /// the result is `Ok(None)` when no row matches.
    pub fn get(&self, key: &str, id: u128, namespace: &str) -> (r: Result<Option<Event>, RepoErr>)
        ensures
            r is Ok,
            match r->Ok_0 {
                Some(ev) => exists|i: int|
                    0 <= i < self.rows().len() && ident_match(
                        #[trigger] self.rows()[i],
                        key@,
                        id,
                        namespace@,
                    ) && ev == self.rows()[i] && (forall|j: int| #![trigger self.rows()[j]]
                        0 <= j < i ==> !ident_match(self.rows()[j], key@, id, namespace@)),
                None => forall|i: int| #![trigger self.rows()[i]]
                    0 <= i < self.rows().len() ==> !ident_match(self.rows()[i], key@, id, namespace@),
            },
    {
        match self.find_ident(key, id, namespace) {
            Some(i) => Ok(Some(self.events[i].clone())),
            None => Ok(None),
        }
    }

    /// Creates a new `Scheduled` event from `event`. Fails `Conversion`
    /// when the timestamp does not parse, and `AlreadyScheduled` when
    /// another row already holds the `Scheduled` slot of the requested
    /// `(namespace, key)`; either failure leaves the store unchanged.
    /// On success the new row is appended and a copy returned.
    pub fn insert(&mut self, event: &CreateEvent) -> (r: Result<Event, RepoErr>)
        requires
            old(self).wf(),
        ensures
            final(self).wf(),
            (r is Err && r->Err_0 is Conversion) <==> rfc3339_millis(event.schedule_at@) is None,
            (r is Err && r->Err_0 is AlreadyScheduled) <==> (rfc3339_millis(event.schedule_at@)
                is Some && exists|i: int|
                0 <= i < old(self).rows().len() && scheduled_match(
                    #[trigger] old(self).rows()[i],
                    event.namespace@,
                    event.key@,
                )),
            r is Err ==> final(self).rows() == old(self).rows() && (r->Err_0 is Conversion
                || r->Err_0 is AlreadyScheduled),
            r is Ok <==> (rfc3339_millis(event.schedule_at@) is Some && forall|i: int|
                0 <= i < old(self).rows().len() ==> !scheduled_match(
                    #[trigger] old(self).rows()[i],
                    event.namespace@,
                    event.key@,
                )),
            r matches Ok(ev) ==> final(self).rows() == old(self).rows().push(ev) && ev.key
                == event.key && ev.namespace == event.namespace && ev.state == State::Scheduled
                && Some(ev.scheduled_at) == rfc3339_millis(event.schedule_at@) && (event.value
                is Some ==> ev.value == event.value->0) && (event.value is None ==> ev.value@
                == "null"@),
    {
        let schedule_at: i64 = match event.schedule_at() {
            Ok(t) => t,
            Err(e) => {
                return Err(e);
            },
        };
        match self.find_scheduled_except(event.namespace.as_str(), event.key.as_str(), None) {
            Some(_) => Err(RepoErr::AlreadyScheduled),
            None => {
                let ev = Event::new(
                    event.key.clone(),
                    event.namespace.clone(),
                    schedule_at,
                    clone_opt_string(&event.value),
                );
                self.events.push(ev.clone());
                proof {
                    let rows0 = old(self).rows();
                    let rows1 = self.rows();
                    assert(rows1 == rows0.push(ev));
                    assert forall|i: int, j: int|
                        0 <= i < j < rows1.len() && #[trigger] rows1[i].state == State::Scheduled
                            && #[trigger] rows1[j].state == State::Scheduled implies !(
                    rows1[i].namespace@ == rows1[j].namespace@ && rows1[i].key@
                        == rows1[j].key@) by {
                        if j == rows0.len() {
                            assert(rows1[j] == ev);
                            assert(rows1[i] == rows0[i]);
                            assert(!scheduled_match(rows0[i], event.namespace@, event.key@));
                        } else {
                            assert(rows1[i] == rows0[i]);
                            assert(rows1[j] == rows0[j]);
                        }
                    }
                }
                Ok(ev)
            },
        }
    }

    /// Transitions the row identified by `update` into `update.state`.
    /// Requesting `Scheduled` always fails `IllegalState`; a missing row
    /// is `Ok(None)`, not an error; in both cases the store is unchanged.
    /// On success the row's state alone is changed, in place, and a copy
    /// of the updated row returned.
    pub fn change_state(&mut self, update: &SettleEvent) -> (r: Result<Option<Event>, RepoErr>)
        requires
            old(self).wf(),
        ensures
            final(self).wf(),
            r is Err <==> update.state == State::Scheduled,
            r is Err ==> r->Err_0 is IllegalState && final(self).rows() == old(self).rows(),
            r matches Ok(None) ==> final(self).rows() == old(self).rows() && (forall|i: int|
                #![trigger old(self).rows()[i]]
                0 <= i < old(self).rows().len() ==> !ident_match(
                    old(self).rows()[i],
                    update.key@,
                    update.id,
                    update.namespace@,
                )),
            update.state != State::Scheduled && (exists|i: int|
                0 <= i < old(self).rows().len() && ident_match(
                    #[trigger] old(self).rows()[i],
                    update.key@,
                    update.id,
                    update.namespace@,
                )) ==> r is Ok && r->Ok_0 is Some,
            r matches Ok(Some(ev)) ==> exists|i: int|
                0 <= i < old(self).rows().len() && ident_match(
                    #[trigger] old(self).rows()[i],
                    update.key@,
                    update.id,
                    update.namespace@,
                ) && (forall|j: int| #![trigger old(self).rows()[j]]
                    0 <= j < i ==> !ident_match(
                        old(self).rows()[j],
                        update.key@,
                        update.id,
                        update.namespace@,
                    )) && ev == old(self).rows()[i].spec_with_state(update.state)
                    && final(self).rows() == old(self).rows().update(i, ev),
    {
        if matches!(update.state, State::Scheduled) {
            return Err(RepoErr::IllegalState);
        }
        match self.find_ident(update.key.as_str(), update.id, update.namespace.as_str()) {
            None => Ok(None),
            Some(i) => {
                let mut ev = self.events[i].clone();
                ev.state = update.state;
                self.events.set(i, ev.clone());
                proof {
                    let rows0 = old(self).rows();
                    let rows1 = self.rows();
                    assert(rows1 == rows0.update(i as int, ev));
                    assert forall|p: int, q: int|
                        0 <= p < q < rows1.len() && #[trigger] rows1[p].state == State::Scheduled
                            && #[trigger] rows1[q].state == State::Scheduled implies !(
                    rows1[p].namespace@ == rows1[q].namespace@ && rows1[p].key@
                        == rows1[q].key@) by {
                        assert(rows1[p] == if p == i as int {
                            ev
                        } else {
                            rows0[p]
                        });
                        assert(rows1[q] == if q == i as int {
                            ev
                        } else {
                            rows0[q]
                        });
                    }
                }
                Ok(Some(ev))
            },
        }
    }
}

impl EventStore {
    /// Atomically settles the row identified by `replace.id` into
    /// `replace.state` and enqueues `replace.next` as a new `Scheduled`
    /// successor. Both effects commit together or neither does: on any
    /// failure — `IllegalState` (a `Scheduled` settle state), `Conversion`
    /// (an unparsable timestamp), `NoResult` (no row with that id), or
    /// `AlreadyScheduled` (a third party already holds the `Scheduled`
    /// slot of the successor's `(namespace, key)`) — the store is exactly
    /// as it was before the call.
    pub fn settle_and_next(&mut self, replace: &SettleAndNextEvent) -> (r: Result<Event, RepoErr>)
        requires
            old(self).wf(),
        ensures
            final(self).wf(),
            r is Err ==> final(self).rows() == old(self).rows(),
            r is Err ==> (r->Err_0 is IllegalState || r->Err_0 is Conversion || r->Err_0
                is NoResult || r->Err_0 is AlreadyScheduled),
            (r is Err && r->Err_0 is IllegalState) <==> replace.state == State::Scheduled,
            (r is Err && r->Err_0 is Conversion) <==> (replace.state != State::Scheduled
                && rfc3339_millis(replace.next.schedule_at@) is None),
            (r is Err && r->Err_0 is NoResult) <==> (replace.state != State::Scheduled
                && rfc3339_millis(replace.next.schedule_at@) is Some && (forall|i: int|
                #![trigger old(self).rows()[i]]
                0 <= i < old(self).rows().len() ==> old(self).rows()[i].id != replace.id)),
            (r is Err && r->Err_0 is AlreadyScheduled) <==> (replace.state != State::Scheduled
                && rfc3339_millis(replace.next.schedule_at@) is Some && (exists|i: int|
                0 <= i < old(self).rows().len() && #[trigger] old(self).rows()[i].id == replace.id
                    && (forall|j: int| #![trigger old(self).rows()[j]]
                    0 <= j < i ==> old(self).rows()[j].id != replace.id) && (exists|k: int|
                    0 <= k < old(self).rows().len() && k != i && scheduled_match(
                        #[trigger] old(self).rows()[k],
                        replace.next.namespace@,
                        replace.next.key@,
                    )))),
            r matches Ok(succ) ==> exists|i: int|
                0 <= i < old(self).rows().len() && #[trigger] old(self).rows()[i].id == replace.id
                    && (forall|j: int| #![trigger old(self).rows()[j]]
                    0 <= j < i ==> old(self).rows()[j].id != replace.id) && (forall|k: int|
                    #![trigger old(self).rows()[k]]
                    0 <= k < old(self).rows().len() && k != i ==> !scheduled_match(
                        old(self).rows()[k],
                        replace.next.namespace@,
                        replace.next.key@,
                    )) && final(self).rows() == old(self).rows().update(
                    i,
                    old(self).rows()[i].spec_with_state(replace.state),
                ).push(succ) && succ.key == replace.next.key && succ.namespace
                    == replace.next.namespace && succ.state == State::Scheduled && Some(
                    succ.scheduled_at,
                ) == rfc3339_millis(replace.next.schedule_at@) && (replace.next.value is Some
                    ==> succ.value == replace.next.value->0) && (replace.next.value is None
                    ==> succ.value@ == "null"@),
    {
        if matches!(replace.state, State::Scheduled) {
            return Err(RepoErr::IllegalState);
        }
        let schedule_at: i64 = match replace.next.schedule_at() {
            Ok(t) => t,
            Err(e) => {
                return Err(e);
            },
        };
        let i: usize = match self.find_by_id(replace.id) {
            Some(i) => i,
            None => {
                return Err(RepoErr::NoResult);
            },
        };
        match self.find_scheduled_except(
            replace.next.namespace.as_str(),
            replace.next.key.as_str(),
            Some(i),
        ) {
            Some(_) => Err(RepoErr::AlreadyScheduled),
            None => {
                let mut settled = self.events[i].clone();
                settled.state = replace.state;
                self.events.set(i, settled);
                let succ = Event::new(
                    replace.next.key.clone(),
                    replace.next.namespace.clone(),
                    schedule_at,
                    clone_opt_string(&replace.next.value),
                );
                self.events.push(succ.clone());
                proof {
                    let rows0 = old(self).rows();
                    let settled_row = rows0[i as int].spec_with_state(replace.state);
                    let mid = rows0.update(i as int, settled_row);
                    let rows1 = self.rows();
                    assert(rows1 == mid.push(succ));
                    assert forall|p: int, q: int|
                        0 <= p < q < rows1.len() && #[trigger] rows1[p].state == State::Scheduled
                            && #[trigger] rows1[q].state == State::Scheduled implies !(
                    rows1[p].namespace@ == rows1[q].namespace@ && rows1[p].key@
                        == rows1[q].key@) by {
                        if q == mid.len() {
                            assert(rows1[q] == succ);
                            assert(rows1[p] == mid[p]);
                            if p != i as int {
                                assert(mid[p] == rows0[p]);
                                assert(!scheduled_match(
                                    rows0[p],
                                    replace.next.namespace@,
                                    replace.next.key@,
                                ));
                            } else {
                                assert(mid[p] == settled_row);
                            }
                        } else {
                            assert(rows1[p] == mid[p]);
                            assert(rows1[q] == mid[q]);
                            assert(mid[p] == if p == i as int {
                                settled_row
                            } else {
                                rows0[p]
                            });
                            assert(mid[q] == if q == i as int {
                                settled_row
                            } else {
                                rows0[q]
                            });
                        }
                    }
                }
                Ok(succ)
            },
        }
    }
}

fn clone_opt_string(v: &Option<String>) -> (r: Option<String>)
    ensures
        r == *v,
{
    match v {
        Some(s) => Some(s.clone()),
        None => None,
    }
}

/// What a search returns for `q` evaluated at instant `now` over `rows`:
/// the rows matching the query's filter, in the requested order (for
/// `Rand`, in an unspecified order), truncated to the query's limit.
pub open spec fn search_post(rows: Seq<Event>, q: SearchQuery, now: i64, out: Seq<Event>) -> bool {
    let filtered = rows.filter(search_pred(q, now));
    exists|perm: Seq<Event>|
        #![trigger perm.to_multiset()]
        perm.to_multiset() == filtered.to_multiset() && out == perm.take(
            vstd::math::min(q.limit_spec() as int, perm.len() as int),
        ) && (q.order_spec() != Order::Rand ==> sorted_by(
            perm,
            by_time(q.order_spec() == Order::Desc),
        ))
}

fn min_index(v: &Vec<Event>, desc: bool) -> (m: usize)
    requires
        v@.len() > 0,
    ensures
        m < v@.len(),
        forall|k: int| #![trigger v@[k]] 0 <= k < v@.len() ==> time_le(desc, v@[m as int], v@[k]),
{
    let mut m: usize = 0;
    let mut i: usize = 1;
    while i < v.len()
        invariant
            m < i <= v@.len(),
            forall|k: int| #![trigger v@[k]] 0 <= k < i ==> time_le(desc, v@[m as int], v@[k]),
        decreases v@.len() - i,
    {
        let better: bool = if desc {
            v[i].scheduled_at > v[m].scheduled_at
        } else {
            v[i].scheduled_at < v[m].scheduled_at
        };
        if better {
            m = i;
        }
        i = i + 1;
    }
    m
}

/// Selection sort by due time: returns the same events (as a multiset),
/// sorted by `scheduled_at`, descending when `desc` holds.
fn sorted_copy(v: Vec<Event>, desc: bool) -> (r: Vec<Event>)
    ensures
        r@.to_multiset() == v@.to_multiset(),
        r@.len() == v@.len(),
        sorted_by(r@, by_time(desc)),
{
    broadcast use vstd::seq_lib::group_to_multiset_ensures;

    let ghost orig: Seq<Event> = v@;
    let mut src = v;
    let mut out: Vec<Event> = Vec::new();
    proof {
        assert(out@.to_multiset().add(src@.to_multiset()) =~= orig.to_multiset());
    }
    while src.len() > 0
        invariant
            out@.to_multiset().add(src@.to_multiset()) == orig.to_multiset(),
            out@.len() + src@.len() == orig.len(),
            sorted_by(out@, by_time(desc)),
            forall|a: int, b: int| #![trigger out@[a], src@[b]]
                0 <= a < out@.len() && 0 <= b < src@.len() ==> time_le(desc, out@[a], src@[b]),
        decreases src.len(),
    {
        let ghost out0 = out@;
        let ghost src0 = src@;
        let m = min_index(&src, desc);
        let e = src.remove(m);
        out.push(e);
        proof {
            broadcast use vstd::seq_lib::group_to_multiset_ensures;

            src0.remove_ensures(m as int);
            assert(src0.contains(e)) by {
                assert(src0[m as int] == e);
            }
            assert(out@.to_multiset().add(src@.to_multiset()) =~= orig.to_multiset());
            assert forall|i: int, j: int| 0 <= i < j < out@.len() implies #[trigger] by_time(desc)(
                out@[i],
                out@[j],
            ) by {
                if j == out0.len() {
                    assert(out@[j] == e);
                    assert(out@[i] == out0[i]);
                    assert(time_le(desc, out0[i], src0[m as int]));
                } else {
                    assert(out@[i] == out0[i]);
                    assert(out@[j] == out0[j]);
                    assert(by_time(desc)(out0[i], out0[j]));
                }
            }
            assert forall|a: int, b: int|
                0 <= a < out@.len() && 0 <= b < src@.len() implies time_le(
                desc,
                #[trigger] out@[a],
                #[trigger] src@[b],
            ) by {
                let b0 = if b < m as int {
                    b
                } else {
                    b + 1
                };
                assert(src@[b] == src0[b0]);
                if a < out0.len() {
                    assert(out@[a] == out0[a]);
                    assert(time_le(desc, out0[a], src0[b0]));
                } else {
                    assert(out@[a] == e);
                    assert(time_le(desc, src0[m as int], src0[b0]));
                }
            }
        }
    }
    proof {
        assert(src@.to_multiset() =~= Multiset::<Event>::empty());
        assert(out@.to_multiset().add(Multiset::<Event>::empty()) =~= out@.to_multiset());
    }
    out
}

impl EventStore {
    /// Evaluates `query` over the store's rows as of instant `now`: the
    /// matching rows (as copies), ordered as requested, truncated to the
    /// query's limit.
    pub fn search_at(&self, query: &SearchQuery, now: i64) -> (r: Vec<Event>)
        ensures
            search_post(self.rows(), *query, now, r@),
    {
        let ghost pred = search_pred(*query, now);
        let n: usize = self.events.len();
        let mut picked: Vec<Event> = Vec::new();
        let mut i: usize = 0;
        proof {
            reveal(Seq::filter);
            assert(self.rows().take(0) =~= Seq::<Event>::empty());
        }
        while i < n
            invariant
                i <= n,
                n == self.rows().len(),
                pred == search_pred(*query, now),
                picked@ == self.rows().take(i as int).filter(pred),
            decreases n - i,
        {
            let e = &self.events[i];
            let ghost picked0 = picked@;
            if matches_event(query, e, now) {
                picked.push(e.clone());
            }
            proof {
                broadcast use vstd::prelude::Seq::lemma_filter_push;

                assert(self.rows().take(i + 1) =~= self.rows().take(i as int).push(
                    self.rows()[i as int],
                ));
                assert(self.rows().take(i + 1).filter(pred) == if pred(self.rows()[i as int]) {
                    self.rows().take(i as int).filter(pred).push(self.rows()[i as int])
                } else {
                    self.rows().take(i as int).filter(pred)
                });
            }
            i = i + 1;
        }
        proof {
            assert(self.rows().take(n as int) =~= self.rows());
        }
        let ghost filtered = self.rows().filter(pred);
        let order = query.order();
        let sorted: Vec<Event> = match order {
            Order::Asc => sorted_copy(picked, false),
            Order::Desc => sorted_copy(picked, true),
            Order::Rand => picked,
        };
        let ghost perm = sorted@;
        proof {
            broadcast use vstd::seq_lib::group_to_multiset_ensures;

        }
        let limit: u32 = query.limit();
        let lim: usize = limit as usize;
        let mut res = sorted;
        if res.len() > lim {
            res.truncate(lim);
            proof {
                assert(res@ =~= perm.take(vstd::math::min(
                    query.limit_spec() as int,
                    perm.len() as int,
                )));
            }
        } else {
            proof {
                assert(res@ =~= perm.take(vstd::math::min(
                    query.limit_spec() as int,
                    perm.len() as int,
                )));
            }
        }
        proof {
            assert(search_post(self.rows(), *query, now, res@)) by {
                assert(perm.to_multiset() == filtered.to_multiset() && res@ == perm.take(
                    vstd::math::min(query.limit_spec() as int, perm.len() as int),
                ) && (query.order_spec() != Order::Rand ==> sorted_by(
                    perm,
                    by_time(query.order_spec() == Order::Desc),
                )));
            }
        }
        res
    }

    /// Evaluates `query` with the present instant as the default upper
    /// bound of the `scheduled_at` range: what [`EventStore::search_at`]
    /// returns for the clock's reading, whatever it was.
    pub fn search(&self, query: &SearchQuery) -> (r: Vec<Event>)
        ensures
            exists|now: i64| #[trigger] search_post(self.rows(), *query, now, r@),
    {
        let now: i64 = now_millis();
        let r = self.search_at(query, now);
        proof {
            assert(search_post(self.rows(), *query, now, r@));
        }
        r
    }
}

/// The central guarantee, as a count: in a well-formed store every
/// `(namespace, key)` pair has zero or one `Scheduled` rows.
pub proof fn lemma_scheduled_unique(s: &EventStore, namespace: Seq<char>, key: Seq<char>)
    requires
        s.wf(),
    ensures
        0 <= scheduled_count(s.rows(), namespace, key) <= 1,
{
    lemma_at_most_one_scheduled_count(s.rows(), namespace, key);
}

} // verus!
