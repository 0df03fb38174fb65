use ratelimit_scheduler::{
    feedback_request, outcome_for_response, request_for, BoundedQueue, ItemRequest, Outcome,
    QueueItem, QueueItemFeedback, RunCfg, Window,
};

fn item(id: &str, endpoint: &str, payload: Option<serde_json::Value>) -> QueueItem {
    QueueItem { endpoint: endpoint.to_string(), id: id.to_string(), payload }
}

fn k_one() -> serde_json::Value {
    let mut m = serde_json::Map::new();
    m.insert("k".to_string(), serde_json::Value::from(1));
    serde_json::Value::Object(m)
}

fn feedback(id: &str, status: u16) -> QueueItemFeedback {
    QueueItemFeedback { id: id.to_string(), status }
}

/// A deterministic transport: 200 for "/x", 429 with `Retry-After: 1` for
/// "/y", 500 otherwise.
fn mock(endpoint: &str) -> (u16, Option<&'static str>) {
    match endpoint {
        "/x" => (200, None),
        "/y" => (429, Some("1")),
        _ => (500, None),
    }
}

fn run_batch(items: Vec<QueueItem>, now: u64) -> (Vec<QueueItemFeedback>, Vec<u64>) {
    let mut reports = Vec::new();
    let mut waits = Vec::new();
    for it in items {
        let (status, retry) = mock(&it.endpoint);
        match outcome_for_response(it.id, status, retry, now, 20) {
            Outcome::Report(fb) => reports.push(fb),
            Outcome::Backoff { until } => waits.push(until),
        }
    }
    (reports, waits)
}

#[test]
fn get_without_payload() {
    match request_for(item("a", "/x", None)) {
        ItemRequest::Get { url } => assert_eq!(url, "/x"),
        ItemRequest::Post { .. } => panic!("expected a GET"),
    }
}

#[test]
fn post_with_payload() {
    match request_for(item("b", "/y", Some(k_one()))) {
        ItemRequest::Post { url, body } => {
            assert_eq!(url, "/y");
            assert_eq!(body, k_one());
        }
        ItemRequest::Get { .. } => panic!("expected a POST"),
    }
}

#[test]
fn non_throttled_status_is_reported() {
    for status in [200u16, 404, 500, 503] {
        match outcome_for_response("a".to_string(), status, Some("5"), 1000, 20) {
            Outcome::Report(fb) => assert_eq!(fb, feedback("a", status)),
            Outcome::Backoff { .. } => panic!("unexpected backoff"),
        }
    }
}

#[test]
fn throttled_status_backs_off() {
    match outcome_for_response("a".to_string(), 429, Some("7"), 1000, 20) {
        Outcome::Backoff { until } => assert_eq!(until, 1007),
        Outcome::Report(_) => panic!("a throttled call is not reported"),
    }
    match outcome_for_response("a".to_string(), 429, None, 1000, 20) {
        Outcome::Backoff { until } => assert_eq!(until, 1020),
        Outcome::Report(_) => panic!("a throttled call is not reported"),
    }
}

#[test]
fn two_items_one_throttled() {
    let cfg = RunCfg::new("t".to_string(), 2, "http://queue".to_string(), 10, 20).unwrap();
    let mut window = Window::new(cfg.max_inflight);
    assert!(window.try_admit());
    assert!(window.try_admit());
    assert!(!window.try_admit());
    let items = vec![item("a", "/x", None), item("b", "/y", Some(k_one()))];
    let (reports, waits) = run_batch(items, 1000);
    assert_eq!(reports, vec![feedback("a", 200)]);
    assert_eq!(waits, vec![1001]);
    window.release();
    window.release();
    assert_eq!(window.in_flight_count(), 0);
}

#[test]
fn reordered_batch_gives_same_feedback() {
    let a = vec![item("a", "/x", None), item("b", "/y", None), item("c", "/z", None)];
    let b = vec![item("c", "/z", None), item("a", "/x", None), item("b", "/y", None)];
    let (mut ra, _) = run_batch(a, 1000);
    let (mut rb, _) = run_batch(b, 1000);
    assert_eq!(rb[0], feedback("c", 500));
    ra.sort_by(|x, y| x.id.cmp(&y.id));
    rb.sort_by(|x, y| x.id.cmp(&y.id));
    assert_eq!(ra, rb);
    assert_eq!(ra, vec![feedback("a", 200), feedback("c", 500)]);
}

#[test]
fn window_never_exceeds_budget() {
    let mut w = Window::new(3);
    for _ in 0..10 {
        w.try_admit();
        assert!(w.in_flight_count() <= 3);
    }
    assert_eq!(w.in_flight_count(), 3);
    assert!(!w.has_room());
    w.release();
    assert!(w.has_room());
    assert!(w.try_admit());
    for _ in 0..5 {
        w.release();
    }
    assert_eq!(w.in_flight_count(), 0);
}

#[test]
fn config_needs_a_slot() {
    assert!(RunCfg::new("t".to_string(), 0, "u".to_string(), 10, 20).is_none());
    let c = RunCfg::new("t".to_string(), 1, "u".to_string(), 10, 20).unwrap();
    assert_eq!(c.max_inflight, 1);
    assert_eq!(c.default_delay, 20);
}

#[test]
fn feedback_wrapped_alone() {
    let r = feedback_request(feedback("a", 200));
    assert_eq!(r.items, vec![feedback("a", 200)]);
}

#[test]
fn batch_enqueued_in_order_up_to_capacity() {
    let mut q: BoundedQueue<u32> = BoundedQueue::new(2);
    let mut pending = vec![1, 2, 3, 4, 5];
    assert_eq!(q.fill_from(&mut pending), 2);
    assert!(q.is_full());
    assert_eq!(pending, vec![3, 4, 5]);
    assert_eq!(q.pop(), Some(1));
    assert_eq!(q.fill_from(&mut pending), 1);
    assert_eq!(pending, vec![4, 5]);
    let mut out = Vec::new();
    while let Some(x) = q.pop() {
        out.push(x);
        q.fill_from(&mut pending);
        assert!(q.len() <= 2);
    }
    assert_eq!(out, vec![2, 3, 4, 5]);
    assert!(pending.is_empty());
}

#[test]
fn full_queue_hands_item_back() {
    let mut q: BoundedQueue<u32> = BoundedQueue::new(1);
    assert_eq!(q.push(7), Ok(()));
    assert_eq!(q.push(8), Err(8));
    assert_eq!(q.pop(), Some(7));
    assert_eq!(q.pop(), None);
}

#[test]
fn bearer_authorization() {
    let c = RunCfg::new("abc123".to_string(), 1, "u".to_string(), 10, 20).unwrap();
    assert_eq!(c.authorization(), "Bearer abc123");
}
