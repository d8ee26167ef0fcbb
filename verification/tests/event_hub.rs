//! The queue of events.
use teams_cli::event_hub::{DrainStep, EventHub, CAPACITY};

/// Drains at most `max` events; `arrives` is what comes while the drain waits.
fn drain_wait(hub: &mut EventHub, max: usize, timeout_ms: u64, arrives: Option<&str>) -> Vec<String> {
    if let DrainStep::Wait(ms) = hub.drain_wait(timeout_ms) {
        assert_eq!(ms, timeout_ms);
        if let Some(e) = arrives {
            hub.publish(e.to_string());
        }
    }
    hub.drain(max)
}

#[test]
fn wait_wakes_on_publish_and_zero_timeout_never_blocks() {
    let mut hub = EventHub::new();
    hub.drain(1024);
    let got = drain_wait(&mut hub, 64, 5000, Some(r#"{"kind":"wake"}"#));
    assert_eq!(got.len(), 1);

    hub.publish("a".to_string());
    hub.publish("b".to_string());
    assert_eq!(drain_wait(&mut hub, 64, 0, None).len(), 2);
    assert!(drain_wait(&mut hub, 64, 0, None).is_empty());
    assert_eq!(hub.len(), 0);
}

#[test]
fn drains_hand_out_the_oldest_first() {
    let mut hub = EventHub::new();
    for e in ["a", "b", "c"] {
        hub.publish(e.to_string());
    }
    assert!(matches!(hub.drain_wait(100), DrainStep::Now));
    assert_eq!(hub.drain(2), vec!["a", "b"]);
    assert_eq!(hub.drain(0), Vec::<String>::new());
    assert_eq!(hub.drain(usize::MAX), vec!["c"]);
    assert!(matches!(hub.drain_wait(100), DrainStep::Wait(100)));
}

#[test]
fn full_hubs_drop_the_oldest_event() {
    let mut hub = EventHub::new();
    for i in 0..CAPACITY + 2 {
        hub.publish(i.to_string());
    }
    assert_eq!(hub.len(), CAPACITY);
    let all = hub.drain(usize::MAX);
    assert_eq!(all[0], "2");
    assert_eq!(all[CAPACITY - 1], (CAPACITY + 1).to_string());
}
