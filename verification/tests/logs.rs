use locagate::logs::{build_log_entry, keep_newest, LogCache, RequestDetails, RequestLogEntry, RequestLogStore, TunnelRequest};

fn entry(id: &str, status: u16, ts: u64) -> RequestLogEntry {
    RequestLogEntry {
        tunnel_id: "t1".to_string(),
        request_id: id.to_string(),
        method: "GET".to_string(),
        path: "/".to_string(),
        status,
        duration_ms: 0,
        timestamp: ts,
        category: "fetch".to_string(),
    }
}

fn ids(store: &RequestLogStore) -> Vec<String> {
    store.list().into_iter().map(|e| e.request_id).collect()
}

#[test]
fn new_store_is_empty() {
    let store = RequestLogStore::new();
    assert!(store.list().is_empty());
}

#[test]
fn upsert_appends_new_requests_in_order() {
    let mut store = RequestLogStore::new();
    store.upsert(entry("a", 0, 1), 10);
    store.upsert(entry("b", 0, 2), 10);
    assert_eq!(ids(&store), vec!["a", "b"]);
}

#[test]
fn upsert_replaces_in_place() {
    let mut store = RequestLogStore::new();
    store.upsert(entry("a", 0, 1), 10);
    store.upsert(entry("b", 0, 2), 10);
    store.upsert(entry("a", 200, 3), 10);
    let list = store.list();
    assert_eq!(list.len(), 2);
    assert_eq!(list[0].request_id, "a");
    assert_eq!(list[0].status, 200);
    assert_eq!(list[1].request_id, "b");
}

#[test]
fn upsert_drops_oldest_beyond_limit() {
    let mut store = RequestLogStore::new();
    for (i, id) in ["a", "b", "c", "d"].iter().enumerate() {
        store.upsert(entry(id, 0, i as u64), 3);
    }
    assert_eq!(ids(&store), vec!["b", "c", "d"]);
    // a smaller limit trims more on the next new request
    store.upsert(entry("e", 0, 9), 1);
    assert_eq!(ids(&store), vec!["e"]);
}

#[test]
fn upsert_with_zero_limit_keeps_nothing_new() {
    let mut store = RequestLogStore::new();
    store.upsert(entry("a", 0, 1), 0);
    assert!(store.list().is_empty());
}

#[test]
fn read_after_upsert() {
    let mut store = RequestLogStore::new();
    store.upsert(entry("a", 0, 1), 2);
    store.upsert(entry("b", 0, 1), 2);
    store.upsert(entry("c", 404, 1), 2);
    let list = store.list();
    let found: Vec<_> = list.iter().filter(|e| e.request_id == "c").collect();
    assert_eq!(found.len(), 1);
    assert_eq!(found[0].status, 404);
}

#[test]
fn clear_empties_the_store() {
    let mut store = RequestLogStore::new();
    store.upsert(entry("a", 0, 1), 10);
    store.clear();
    assert!(store.list().is_empty());
}

#[test]
fn build_log_entry_copies_and_categorizes() {
    let req = TunnelRequest {
        id: "r1".to_string(),
        method: "POST".to_string(),
        path: "/api".to_string(),
        headers: vec![],
        body: None,
    };
    let e = build_log_entry("tun", &req, 201, 15, 99);
    assert_eq!(e.tunnel_id, "tun");
    assert_eq!(e.request_id, "r1");
    assert_eq!(e.method, "POST");
    assert_eq!(e.path, "/api");
    assert_eq!(e.status, 201);
    assert_eq!(e.duration_ms, 15);
    assert_eq!(e.timestamp, 99);
    assert_eq!(e.category, "fetch");
}

fn details(ts: u64) -> RequestDetails {
    RequestDetails {
        url: format!("u{}", ts),
        local_url: String::new(),
        request_headers: vec![],
        request_body: None,
        response_headers: vec![],
        response_body: None,
        timestamp: ts,
    }
}

#[test]
fn cache_evicts_oldest_when_full() {
    let mut cache = LogCache::new();
    cache.record("a".to_string(), details(5), 2);
    cache.record("b".to_string(), details(3), 2);
    cache.record("c".to_string(), details(7), 2);
    assert_eq!(cache.len(), 2);
    assert!(cache.get("b").is_none());
    assert_eq!(cache.get("a").unwrap().timestamp, 5);
    assert_eq!(cache.get("c").unwrap().url, "u7");
}

#[test]
fn cache_limit_is_at_least_one() {
    let mut cache = LogCache::new();
    cache.record("a".to_string(), details(1), 0);
    cache.record("b".to_string(), details(2), 0);
    assert_eq!(cache.len(), 1);
    assert!(cache.get("a").is_none());
    assert!(cache.get("b").is_some());
}

#[test]
fn cache_replaces_same_request() {
    let mut cache = LogCache::new();
    cache.record("a".to_string(), details(1), 10);
    cache.record("a".to_string(), details(2), 10);
    assert_eq!(cache.len(), 1);
    assert_eq!(cache.get("a").unwrap().timestamp, 2);
}

#[test]
fn cache_tie_evicts_first() {
    let mut cache = LogCache::new();
    cache.record("a".to_string(), details(1), 2);
    cache.record("b".to_string(), details(1), 2);
    cache.record("c".to_string(), details(4), 2);
    assert!(cache.get("a").is_none());
    assert!(cache.get("b").is_some());
}

#[test]
fn upsert_adds_only_the_entry() {
    let mut store = RequestLogStore::new();
    store.upsert(entry("a", 0, 1), 3);
    store.upsert(entry("b", 0, 2), 3);
    let before = ids(&store);
    store.upsert(entry("c", 0, 3), 3);
    for id in ids(&store) {
        assert!(id == "c" || before.contains(&id));
    }
}

#[test]
fn clearing_the_cache_discards_details() {
    let mut cache = LogCache::new();
    cache.record("a".to_string(), details(1), 10);
    cache.record("b".to_string(), details(2), 10);
    cache.clear();
    assert_eq!(cache.len(), 0);
    assert!(cache.get("a").is_none());
}

#[test]
fn the_interface_keeps_the_newest_lines() {
    let mut lines = vec![entry("a", 0, 1), entry("a", 200, 2), entry("b", 0, 3)];
    keep_newest(&mut lines, 2);
    let ids: Vec<(String, u16)> = lines.iter().map(|e| (e.request_id.clone(), e.status)).collect();
    assert_eq!(ids, vec![("a".to_string(), 200), ("b".to_string(), 0)]);
    keep_newest(&mut lines, 5);
    assert_eq!(lines.len(), 2);
    keep_newest(&mut lines, 0);
    assert!(lines.is_empty());
}
