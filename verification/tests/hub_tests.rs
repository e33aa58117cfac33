use pm2_monitor::event::{Envelope, LogEvent, Payload, ProcessRecord};
use pm2_monitor::hub::Hub;
use pm2_monitor::hub::offer;

fn log_env(n: u64) -> Envelope {
    let ev = LogEvent {
        app: b"a".to_vec(),
        process_id: b"1".to_vec(),
        message: format!("L{}", n).into_bytes(),
        timestamp: b"2023-01-02 03:04:05".to_vec(),
        log_type: b"out".to_vec(),
    };
    Envelope::log_event(ev, n as u128)
}

fn stats_env(name: &str, t: u128) -> Envelope {
    let rec = ProcessRecord {
        name: name.to_string(),
        id: 0,
        pid: 0,
        uptime: 0,
        status: "online".to_string(),
        restart: 0,
        user: "".to_string(),
        cpu_text: "0".to_string(),
        mem: 0,
    };
    Envelope::stats_event(vec![rec], t)
}

fn log_message(e: &Envelope) -> Vec<u8> {
    match &e.payload {
        Payload::Log(ev) => ev.message.clone(),
        Payload::Stats(_) => panic!("expected a log envelope"),
    }
}

fn stats_name(e: &Envelope) -> String {
    match &e.payload {
        Payload::Stats(s) => s.records[0].name.clone(),
        Payload::Log(_) => panic!("expected a stats envelope"),
    }
}

#[test]
fn ring_keeps_last_three_and_join_replays_them() {
    // Capacity three; five log events; a later viewer sees exactly the
    // last three, oldest first.
    let mut hub = Hub::new(3);
    for n in 1..=5u64 {
        hub.handle_log(log_env(n));
    }
    assert_eq!(hub.ring.len(), 3);
    hub.handle_join(42);
    assert_eq!(log_message(&hub.pop_log(42).unwrap()), b"L3".to_vec());
    assert_eq!(log_message(&hub.pop_log(42).unwrap()), b"L4".to_vec());
    assert_eq!(log_message(&hub.pop_log(42).unwrap()), b"L5".to_vec());
    assert!(hub.pop_log(42).is_none());
}

#[test]
fn join_before_any_eviction_replays_all_in_order() {
    let mut hub = Hub::new(10);
    for n in 1..=4u64 {
        hub.handle_log(log_env(n));
    }
    hub.handle_join(7);
    for n in 1..=4u64 {
        let got = hub.pop_log(7).unwrap();
        assert_eq!(log_message(&got), format!("L{}", n).into_bytes());
    }
    assert!(hub.pop_log(7).is_none());
}

#[test]
fn stats_slot_stays_unseeded_until_first_stats() {
    let mut hub = Hub::new(4);
    hub.handle_join(1);
    assert!(hub.take_stats(1).is_none());
    hub.handle_stats(stats_env("web", 10));
    let got = hub.take_stats(1).expect("slot seeded by first stats event");
    assert_eq!(stats_name(&got), "web");
    assert!(hub.take_stats(1).is_none());
}

#[test]
fn snapshot_is_latest_never_stale() {
    let mut hub = Hub::new(4);
    hub.handle_join(1);
    hub.handle_stats(stats_env("first", 1));
    hub.handle_stats(stats_env("second", 2));
    // The unconsumed first value was overwritten, not queued.
    let got = hub.take_stats(1).unwrap();
    assert_eq!(stats_name(&got), "second");
    assert!(hub.take_stats(1).is_none());
    // A later joiner is seeded with the latest snapshot too.
    hub.handle_join(2);
    assert_eq!(stats_name(&hub.take_stats(2).unwrap()), "second");
}

#[test]
fn saturated_viewer_never_blocks_others() {
    // Viewer 1 stalls (never reads); viewer 2 reads promptly. After a
    // thousand events, viewer 2 saw every event, viewer 1 holds at most
    // its queue capacity, and stats still reach both.
    let cap = 5usize;
    let mut hub = Hub::new(cap);
    hub.handle_join(1);
    hub.handle_join(2);
    let mut received: u64 = 0;
    for n in 1..=1000u64 {
        hub.handle_log(log_env(n));
        while let Some(e) = hub.pop_log(2) {
            received += 1;
            assert_eq!(log_message(&e), format!("L{}", received).into_bytes());
        }
    }
    assert_eq!(received, 1000);
    assert_eq!(hub.viewers[0].log_queue.len(), cap);
    assert_eq!(hub.ring.len(), cap);
    hub.handle_stats(stats_env("still-delivered", 9));
    assert_eq!(stats_name(&hub.take_stats(1).unwrap()), "still-delivered");
    assert_eq!(stats_name(&hub.take_stats(2).unwrap()), "still-delivered");
}

#[test]
fn leave_removes_viewer_and_is_idempotent() {
    let mut hub = Hub::new(3);
    hub.handle_join(1);
    hub.handle_join(2);
    assert_eq!(hub.viewers.len(), 2);
    hub.handle_leave(1);
    assert_eq!(hub.viewers.len(), 1);
    assert_eq!(hub.viewers[0].id, 2);
    // A duplicate leave signal finds nothing and changes nothing.
    hub.handle_leave(1);
    assert_eq!(hub.viewers.len(), 1);
    // No further event is delivered against the departed viewer.
    hub.handle_log(log_env(1));
    hub.handle_stats(stats_env("after", 3));
    assert!(hub.pop_log(1).is_none());
    assert!(hub.take_stats(1).is_none());
    assert_eq!(hub.viewers.len(), 1);
}

#[test]
fn rejoin_replaces_stale_registration() {
    let mut hub = Hub::new(3);
    hub.handle_join(1);
    hub.handle_log(log_env(1));
    hub.handle_join(1);
    assert_eq!(hub.viewers.len(), 1);
    // The fresh registration replays the ring from the start.
    assert_eq!(log_message(&hub.pop_log(1).unwrap()), b"L1".to_vec());
    assert!(hub.pop_log(1).is_none());
}

#[test]
fn log_delivery_preserves_order_with_gaps_under_pressure() {
    let cap = 2usize;
    let mut hub = Hub::new(cap);
    hub.handle_join(1);
    for n in 1..=4u64 {
        hub.handle_log(log_env(n));
    }
    // The queue kept the first two and dropped the rest: FIFO, no blocking.
    assert_eq!(log_message(&hub.pop_log(1).unwrap()), b"L1".to_vec());
    assert_eq!(log_message(&hub.pop_log(1).unwrap()), b"L2".to_vec());
    assert!(hub.pop_log(1).is_none());
}

#[test]
fn offer_accepts_until_capacity() {
    let mut q: Vec<u64> = Vec::new();
    assert!(offer(&mut q, 2, 10));
    assert!(offer(&mut q, 2, 11));
    assert!(!offer(&mut q, 2, 12));
    assert_eq!(q, vec![10, 11]);
}
