use aptabase::config::Config;
use aptabase::dispatcher::{record_outcome, DeliveryResult, EventDispatcher};
use aptabase::event::Event;
use aptabase::sys::SystemProperties;

fn test_sys_info() -> SystemProperties {
    SystemProperties {
        is_debug: true,
        os_name: "Linux".to_string(),
        os_version: "6.1".to_string(),
        locale: "en-US".to_string(),
        engine_name: "WebKitGTK".to_string(),
        engine_version: "2.40".to_string(),
    }
}

fn test_event(name: &str) -> Event {
    Event {
        timestamp: "2026-02-13T12:00:00Z".to_string(),
        session_id: "0123456789abcdef0123456789abcdef0123".to_string(),
        event_name: name.to_string(),
        system_props: test_sys_info(),
        app_version: "1.0.0".to_string(),
        sdk_version: "aptabase@0.1.0".to_string(),
        props: None,
    }
}

fn test_dispatcher() -> EventDispatcher {
    EventDispatcher::new(&Config::default())
}

#[test]
fn queue_is_fifo() {
    let mut d = test_dispatcher();
    d.enqueue(test_event("e1"));
    d.enqueue(test_event("e2"));
    d.enqueue(test_event("e3"));
    let batch = d.dequeue_many(3);
    let names: Vec<&str> = batch.iter().map(|e| e.event_name.as_str()).collect();
    assert_eq!(names, vec!["e1", "e2", "e3"]);
    assert!(d.is_empty());
}

#[test]
fn dequeue_respects_cap_and_order() {
    let mut d = test_dispatcher();
    for i in 0..7 {
        d.enqueue(test_event(&format!("e{}", i)));
    }
    let batch = d.dequeue_many(5);
    assert_eq!(batch.len(), 5);
    assert_eq!(batch[0].event_name, "e0");
    assert_eq!(batch[4].event_name, "e4");
    let rest = d.dequeue_many(5);
    assert_eq!(rest.len(), 2);
    assert_eq!(rest[0].event_name, "e5");
    assert_eq!(rest[1].event_name, "e6");
    assert!(d.is_empty());
    assert_eq!(d.dequeue_many(5).len(), 0);
}

#[test]
fn enqueue_many_preserves_order() {
    let mut d = test_dispatcher();
    d.enqueue(test_event("head"));
    d.enqueue_many(vec![test_event("a"), test_event("b"), test_event("c")]);
    let batch = d.dequeue_many(10);
    let names: Vec<&str> = batch.iter().map(|e| e.event_name.as_str()).collect();
    assert_eq!(names, vec!["head", "a", "b", "c"]);
}

#[test]
fn server_error_requeues_whole_batch() {
    let mut d = test_dispatcher();
    for i in 0..3 {
        d.enqueue(test_event(&format!("e{}", i)));
    }
    d.flush_with(&vec![DeliveryResult::Status(500)]);
    assert_eq!(d.len(), 3);
    let batch = d.dequeue_many(25);
    let names: Vec<&str> = batch.iter().map(|e| e.event_name.as_str()).collect();
    assert_eq!(names, vec!["e0", "e1", "e2"]);
}

#[test]
fn transport_failure_requeues_whole_batch() {
    let mut d = test_dispatcher();
    for _ in 0..4 {
        d.enqueue(test_event("x"));
    }
    d.flush_with(&vec![DeliveryResult::TransportFailure]);
    assert_eq!(d.len(), 4);
}

#[test]
fn client_error_drops_whole_batch() {
    let mut d = test_dispatcher();
    for _ in 0..3 {
        d.enqueue(test_event("x"));
    }
    d.flush_with(&vec![DeliveryResult::Status(400)]);
    assert_eq!(d.len(), 0);
    assert!(d.is_empty());
}

#[test]
fn success_drains_the_queue() {
    let mut d = test_dispatcher();
    for _ in 0..3 {
        d.enqueue(test_event("x"));
    }
    d.flush_with(&vec![DeliveryResult::Status(200)]);
    assert!(d.is_empty());
}

#[test]
fn mixed_outcomes_keep_only_retryable_batches() {
    let mut d = test_dispatcher();
    // 30 events: one full batch of 25 and one of 5.
    for i in 0..30 {
        d.enqueue(test_event(&format!("e{}", i)));
    }
    // First batch hits a server error, second one a client error.
    d.flush_with(&vec![DeliveryResult::Status(503), DeliveryResult::Status(404)]);
    assert_eq!(d.len(), 25);
    let batch = d.dequeue_many(25);
    assert_eq!(batch[0].event_name, "e0");
    assert_eq!(batch[24].event_name, "e24");
}

#[test]
fn all_retryable_over_several_batches_keeps_everything() {
    let mut d = test_dispatcher();
    for i in 0..30 {
        d.enqueue(test_event(&format!("e{}", i)));
    }
    d.flush_with(&vec![DeliveryResult::Status(500), DeliveryResult::Status(599)]);
    assert_eq!(d.len(), 30);
    let first = d.dequeue_many(25);
    assert_eq!(first[0].event_name, "e0");
    let second = d.dequeue_many(25);
    assert_eq!(second[4].event_name, "e29");
}

#[test]
fn record_outcome_keeps_batch_only_when_retryable() {
    let mut failed: Vec<Event> = Vec::new();
    record_outcome(&mut failed, vec![test_event("a")], &DeliveryResult::Status(200));
    assert_eq!(failed.len(), 0);
    record_outcome(&mut failed, vec![test_event("b")], &DeliveryResult::Status(404));
    assert_eq!(failed.len(), 0);
    record_outcome(&mut failed, vec![test_event("c")], &DeliveryResult::Status(500));
    assert_eq!(failed.len(), 1);
    record_outcome(&mut failed, vec![test_event("d")], &DeliveryResult::TransportFailure);
    assert_eq!(failed.len(), 2);
    assert_eq!(failed[0].event_name, "c");
    assert_eq!(failed[1].event_name, "d");
}

#[test]
fn flush_on_empty_queue_is_a_no_op() {
    let mut d = test_dispatcher();
    d.flush_with(&Vec::new());
    assert!(d.is_empty());
    d.enqueue(test_event("x"));
    let kept = d.dequeue_many(1);
    assert_eq!(kept.len(), 1);
}

#[test]
fn dispatcher_keeps_configured_url() {
    let cfg = Config::new(
        "A-US-abc".to_string(),
        aptabase::config::InitOptions { host: None, flush_interval: None },
    );
    let d = EventDispatcher::new(&cfg);
    assert_eq!(d.url(), "https://us.aptabase.com/api/v0/events");
}
