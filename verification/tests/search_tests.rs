use schedule_registry::event::State;
use schedule_registry::search::{Order, SearchQuery};
use schedule_registry::store::{CreateEvent, EventStore, SettleAndNextEvent};

fn query(namespace: &str) -> SearchQuery {
    SearchQuery {
        namespace: namespace.to_string(),
        key: None,
        state: None,
        order: None,
        limit: None,
        scheduled_at_min: None,
        scheduled_at_max: None,
    }
}

fn create(key: &str, at: &str) -> CreateEvent {
    CreateEvent::new(key.to_string(), None, "ns".to_string(), at.to_string())
}

const T: &str = "2021-06-01T00:00:00Z";
const T_PLUS_10S: &str = "2021-06-01T00:00:10Z";
const T_MILLIS: i64 = 1_622_505_600_000;

#[test]
fn query_defaults() {
    let q = query("ns");
    assert_eq!(q.namespace(), "ns");
    assert_eq!(q.state(), vec![State::Scheduled]);
    assert_eq!(q.order(), Order::Asc);
    assert_eq!(q.limit(), 100);
    assert_eq!(q.scheduled_at(9_999), (0, 9_999));
}

#[test]
fn query_explicit_parts_override_the_defaults() {
    let q = SearchQuery {
        namespace: "ns".to_string(),
        key: Some("job1".to_string()),
        state: Some(vec![State::Disabled, State::Completed]),
        order: Some(Order::Desc),
        limit: Some(2),
        scheduled_at_min: Some(5),
        scheduled_at_max: Some(50),
    };
    assert_eq!(q.key(), &Some("job1".to_string()));
    assert_eq!(q.state(), vec![State::Disabled, State::Completed]);
    assert_eq!(q.order(), Order::Desc);
    assert_eq!(q.limit(), 2);
    assert_eq!(q.scheduled_at(9_999), (5, 50));
}

/// Search filtering scenario: A (key job1, Scheduled, due T+10s) and its
/// predecessor B (key job1, Disabled, due T).
#[test]
fn search_filters_by_state() {
    let mut store = EventStore::new();
    let b = store.insert(&create("job1", T)).unwrap();
    let a = store
        .settle_and_next(&SettleAndNextEvent {
            id: b.id(),
            state: State::Disabled,
            next: create("job1", T_PLUS_10S),
        })
        .unwrap();

    // default state filter is [Scheduled]: exactly A
    let scheduled = store.search(&query("ns"));
    assert_eq!(scheduled.len(), 1);
    assert_eq!(scheduled[0].id(), a.id());
    assert_eq!(scheduled[0].schedule_at(), T_MILLIS + 10_000);

    // [Disabled, Completed]: exactly B
    let settled = store.search(&SearchQuery {
        state: Some(vec![State::Disabled, State::Completed]),
        ..query("ns")
    });
    assert_eq!(settled.len(), 1);
    assert_eq!(settled[0].id(), b.id());
    assert_eq!(settled[0].state(), State::Disabled);
}

#[test]
fn search_filters_by_namespace_and_key() {
    let mut store = EventStore::new();
    store.insert(&create("job1", T)).unwrap();
    store.insert(&create("job2", T)).unwrap();
    let other = CreateEvent::new("job1".to_string(), None, "other".to_string(), T.to_string());
    store.insert(&other).unwrap();

    let all_ns = store.search(&query("ns"));
    assert_eq!(all_ns.len(), 2);
    assert!(all_ns.iter().all(|e| e.namespace() == "ns"));

    let only_job1 = store.search(&SearchQuery {
        key: Some("job1".to_string()),
        ..query("ns")
    });
    assert_eq!(only_job1.len(), 1);
    assert_eq!(only_job1[0].key(), "job1");

    assert_eq!(store.search(&query("nowhere")).len(), 0);
}

#[test]
fn search_respects_the_time_range() {
    let mut store = EventStore::new();
    store.insert(&create("job1", T)).unwrap();
    store.insert(&create("job2", T_PLUS_10S)).unwrap();

    let early = store.search(&SearchQuery {
        scheduled_at_max: Some(T_MILLIS + 5_000),
        ..query("ns")
    });
    assert_eq!(early.len(), 1);
    assert_eq!(early[0].key(), "job1");

    let late = store.search(&SearchQuery {
        scheduled_at_min: Some(T_MILLIS + 5_000),
        ..query("ns")
    });
    assert_eq!(late.len(), 1);
    assert_eq!(late[0].key(), "job2");

    // an event due in the far future is not surfaced by default (max = now)
    store.insert(&create("job3", "2999-01-01T00:00:00Z")).unwrap();
    let visible = store.search(&query("ns"));
    assert!(visible.iter().all(|e| e.key() != "job3"));
}

#[test]
fn search_orders_by_due_time() {
    let mut store = EventStore::new();
    store.insert(&create("job2", T_PLUS_10S)).unwrap();
    store.insert(&create("job1", T)).unwrap();
    store.insert(&create("job3", "2021-06-01T00:01:00Z")).unwrap();

    let asc = store.search(&query("ns"));
    let keys: Vec<&str> = asc.iter().map(|e| e.key()).collect();
    assert_eq!(keys, vec!["job1", "job2", "job3"]);

    let desc = store.search(&SearchQuery {
        order: Some(Order::Desc),
        ..query("ns")
    });
    let keys: Vec<&str> = desc.iter().map(|e| e.key()).collect();
    assert_eq!(keys, vec!["job3", "job2", "job1"]);
}

#[test]
fn search_truncates_to_the_limit_after_ordering() {
    let mut store = EventStore::new();
    store.insert(&create("job2", T_PLUS_10S)).unwrap();
    store.insert(&create("job1", T)).unwrap();
    store.insert(&create("job3", "2021-06-01T00:01:00Z")).unwrap();

    let capped = store.search(&SearchQuery {
        limit: Some(2),
        ..query("ns")
    });
    let keys: Vec<&str> = capped.iter().map(|e| e.key()).collect();
    assert_eq!(keys, vec!["job1", "job2"]);

    let zero = store.search(&SearchQuery {
        limit: Some(0),
        ..query("ns")
    });
    assert!(zero.is_empty());
}

#[test]
fn random_order_returns_the_same_events() {
    let mut store = EventStore::new();
    let a = store.insert(&create("job1", T)).unwrap();
    let b = store.insert(&create("job2", T_PLUS_10S)).unwrap();

    let mut got: Vec<u128> = store
        .search(&SearchQuery {
            order: Some(Order::Rand),
            ..query("ns")
        })
        .iter()
        .map(|e| e.id())
        .collect();
    got.sort();
    let mut want = vec![a.id(), b.id()];
    want.sort();
    assert_eq!(got, want);
}

#[test]
fn search_at_uses_the_given_instant() {
    let mut store = EventStore::new();
    store.insert(&create("job1", T)).unwrap();
    // as of an instant before T, nothing is due yet
    assert!(store.search_at(&query("ns"), T_MILLIS - 1).is_empty());
    // as of T itself the event is visible
    assert_eq!(store.search_at(&query("ns"), T_MILLIS).len(), 1);
}
