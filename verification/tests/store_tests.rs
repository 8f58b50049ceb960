use schedule_registry::event::State;
use schedule_registry::store::{CreateEvent, EventStore, RepoErr, SettleAndNextEvent, SettleEvent};

fn create(key: &str, at: &str) -> CreateEvent {
    CreateEvent::new(key.to_string(), None, "ns".to_string(), at.to_string())
}

const T0: &str = "2021-06-01T00:00:00Z";
const T1: &str = "2021-06-01T00:00:10Z";
const T2: &str = "2021-06-01T00:01:00Z";

#[test]
fn schedule_at_parses_rfc3339() {
    let c = create("job1", "1970-01-01T00:00:10Z");
    assert_eq!(c.schedule_at(), Ok(10_000));
}

#[test]
fn schedule_at_honours_the_offset() {
    let c = create("job1", "1970-01-01T01:00:00+01:00");
    assert_eq!(c.schedule_at(), Ok(0));
}

#[test]
fn schedule_at_rejects_garbage() {
    let c = create("job1", "next tuesday");
    assert_eq!(c.schedule_at(), Err(RepoErr::Conversion));
}

#[test]
fn create_event_value_defaults_to_null() {
    let c = create("job1", T0);
    assert_eq!(c.value(), "null");
    assert_eq!(c.key(), "job1");
    assert_eq!(c.namespace(), "ns");
}

#[test]
fn insert_returns_the_new_scheduled_event() {
    let mut store = EventStore::new();
    let ev = store.insert(&create("job1", T0)).unwrap();
    assert_eq!(ev.key(), "job1");
    assert_eq!(ev.namespace(), "ns");
    assert_eq!(ev.state(), State::Scheduled);
    assert_eq!(ev.schedule_at(), 1_622_505_600_000);
    assert_eq!(ev.value(), "null");
    assert_eq!(store.len(), 1);
}

#[test]
fn insert_rejects_a_bad_timestamp() {
    let mut store = EventStore::new();
    let r = store.insert(&create("job1", "not a time"));
    assert_eq!(r.unwrap_err(), RepoErr::Conversion);
    assert_eq!(store.len(), 0);
}

#[test]
fn conflict_scenario() {
    let mut store = EventStore::new();
    // a first insert succeeds
    let first = store.insert(&create("job1", T0)).unwrap();
    // a second insert for the same (namespace, key) conflicts
    let second = store.insert(&create("job1", T1));
    assert_eq!(second.unwrap_err(), RepoErr::AlreadyScheduled);
    assert_eq!(store.len(), 1);
    // settling the first frees the slot
    let settled = store
        .change_state(&SettleEvent {
            key: "job1".to_string(),
            id: first.id(),
            namespace: "ns".to_string(),
            state: State::Completed,
        })
        .unwrap()
        .unwrap();
    assert_eq!(settled.state(), State::Completed);
    // now a third insert with the same key succeeds
    let third = store.insert(&create("job1", T2)).unwrap();
    assert_eq!(third.state(), State::Scheduled);
    assert_ne!(third.id(), first.id());
}

#[test]
fn same_key_in_another_namespace_is_independent() {
    let mut store = EventStore::new();
    store.insert(&create("job1", T0)).unwrap();
    let other = CreateEvent::new(
        "job1".to_string(),
        None,
        "other".to_string(),
        T0.to_string(),
    );
    assert!(store.insert(&other).is_ok());
}

#[test]
fn get_finds_by_namespace_key_and_id() {
    let mut store = EventStore::new();
    let ev = store.insert(&create("job1", T0)).unwrap();
    let found = store.get("job1", ev.id(), "ns").unwrap().unwrap();
    assert_eq!(found.id(), ev.id());
    assert_eq!(found.idempotence_key(), ev.idempotence_key());
    assert_eq!(found.created_at(), ev.created_at());
    assert!(store.get("job1", ev.id(), "other").unwrap().is_none());
    assert!(store.get("job2", ev.id(), "ns").unwrap().is_none());
    assert!(store.get("job1", ev.id() ^ 1, "ns").unwrap().is_none());
}

#[test]
fn change_state_to_scheduled_always_fails() {
    let mut store = EventStore::new();
    let ev = store.insert(&create("job1", T0)).unwrap();
    for state in [State::Scheduled, State::Disabled, State::Completed] {
        // bring the row into each state first (Scheduled is the initial one)
        if state != State::Scheduled {
            store
                .change_state(&SettleEvent {
                    key: "job1".to_string(),
                    id: ev.id(),
                    namespace: "ns".to_string(),
                    state,
                })
                .unwrap();
        }
        let r = store.change_state(&SettleEvent {
            key: "job1".to_string(),
            id: ev.id(),
            namespace: "ns".to_string(),
            state: State::Scheduled,
        });
        assert_eq!(r.unwrap_err(), RepoErr::IllegalState);
    }
}

#[test]
fn change_state_of_a_missing_row_is_none() {
    let mut store = EventStore::new();
    let r = store.change_state(&SettleEvent {
        key: "job1".to_string(),
        id: 7,
        namespace: "ns".to_string(),
        state: State::Disabled,
    });
    assert!(r.unwrap().is_none());
}

#[test]
fn settle_and_next_replaces_atomically() {
    let mut store = EventStore::new();
    let first = store.insert(&create("job1", T0)).unwrap();
    let succ = store
        .settle_and_next(&SettleAndNextEvent {
            id: first.id(),
            state: State::Completed,
            next: create("job1", T1),
        })
        .unwrap();
    assert_eq!(succ.key(), "job1");
    assert_eq!(succ.state(), State::Scheduled);
    assert_ne!(succ.id(), first.id());
    assert_eq!(store.len(), 2);
    // the predecessor now holds exactly the requested settle state
    let pred = store.get("job1", first.id(), "ns").unwrap().unwrap();
    assert_eq!(pred.state(), State::Completed);
}

#[test]
fn settle_and_next_rolls_back_on_conflict() {
    let mut store = EventStore::new();
    let a = store.insert(&create("job1", T0)).unwrap();
    let b = store.insert(&create("job2", T0)).unwrap();
    // job1's Scheduled slot is taken by a third party (event a)
    let r = store.settle_and_next(&SettleAndNextEvent {
        id: b.id(),
        state: State::Disabled,
        next: create("job1", T1),
    });
    assert_eq!(r.unwrap_err(), RepoErr::AlreadyScheduled);
    // the referenced event is unchanged and no successor appeared
    let b_after = store.get("job2", b.id(), "ns").unwrap().unwrap();
    assert_eq!(b_after.state(), State::Scheduled);
    assert_eq!(store.len(), 2);
    let a_after = store.get("job1", a.id(), "ns").unwrap().unwrap();
    assert_eq!(a_after.state(), State::Scheduled);
}

#[test]
fn settle_and_next_may_reuse_the_predecessors_slot() {
    let mut store = EventStore::new();
    let first = store.insert(&create("job1", T0)).unwrap();
    // the predecessor itself holds job1's slot; settling it frees the slot
    // for the successor within the same atomic step
    let succ = store
        .settle_and_next(&SettleAndNextEvent {
            id: first.id(),
            state: State::Disabled,
            next: create("job1", T1),
        })
        .unwrap();
    assert_eq!(succ.state(), State::Scheduled);
    let pred = store.get("job1", first.id(), "ns").unwrap().unwrap();
    assert_eq!(pred.state(), State::Disabled);
}

#[test]
fn settle_and_next_rejects_a_scheduled_settle_state() {
    let mut store = EventStore::new();
    let first = store.insert(&create("job1", T0)).unwrap();
    let r = store.settle_and_next(&SettleAndNextEvent {
        id: first.id(),
        state: State::Scheduled,
        next: create("job1", T1),
    });
    assert_eq!(r.unwrap_err(), RepoErr::IllegalState);
}

#[test]
fn settle_and_next_of_a_missing_row_is_no_result() {
    let mut store = EventStore::new();
    let r = store.settle_and_next(&SettleAndNextEvent {
        id: 7,
        state: State::Completed,
        next: create("job1", T1),
    });
    assert_eq!(r.unwrap_err(), RepoErr::NoResult);
}

#[test]
fn settle_and_next_rejects_a_bad_timestamp() {
    let mut store = EventStore::new();
    let first = store.insert(&create("job1", T0)).unwrap();
    let r = store.settle_and_next(&SettleAndNextEvent {
        id: first.id(),
        state: State::Completed,
        next: create("job1", "soon"),
    });
    assert_eq!(r.unwrap_err(), RepoErr::Conversion);
    let unchanged = store.get("job1", first.id(), "ns").unwrap().unwrap();
    assert_eq!(unchanged.state(), State::Scheduled);
}
