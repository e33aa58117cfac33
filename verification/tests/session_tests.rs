use pm2_monitor::event::{Envelope, LogEvent, Payload, ProcessRecord};
use pm2_monitor::session::{Phase, Session, SessionAction, SessionEvent};

#[test]
fn session_streams_after_registration() {
    let mut s = Session::connect();
    assert_eq!(s.phase, Phase::Connected);
    let a = s.advance(SessionEvent::Registered);
    assert_eq!(a, SessionAction::Stay);
    assert_eq!(s.phase, Phase::Streaming);
}

#[test]
fn write_failure_signals_leave_then_closes() {
    let mut s = Session::connect();
    s.advance(SessionEvent::Registered);
    let a = s.advance(SessionEvent::WriteFailed);
    assert_eq!(a, SessionAction::SignalLeave);
    assert_eq!(s.phase, Phase::Closing);
    let a = s.advance(SessionEvent::LeaveAcknowledged);
    assert_eq!(a, SessionAction::CloseTransport);
    assert_eq!(s.phase, Phase::Closed);
}

#[test]
fn liveness_timeout_and_peer_close_also_tear_down() {
    for ev in [SessionEvent::LivenessTimeout, SessionEvent::PeerClosed] {
        let mut s = Session::connect();
        s.advance(SessionEvent::Registered);
        assert_eq!(s.advance(ev), SessionAction::SignalLeave);
        assert_eq!(s.phase, Phase::Closing);
    }
}

#[test]
fn failure_before_registration_ends_silently() {
    let mut s = Session::connect();
    let a = s.advance(SessionEvent::WriteFailed);
    assert_eq!(a, SessionAction::Stay);
    assert_eq!(s.phase, Phase::Closed);
}

#[test]
fn leave_is_signaled_at_most_once_over_a_noisy_run() {
    let mut s = Session::connect();
    let mut signals = 0;
    let run = [
        SessionEvent::Registered,
        SessionEvent::Registered,
        SessionEvent::PeerClosed,
        SessionEvent::WriteFailed,
        SessionEvent::LivenessTimeout,
        SessionEvent::LeaveAcknowledged,
        SessionEvent::WriteFailed,
    ];
    for ev in run {
        if s.advance(ev) == SessionAction::SignalLeave {
            signals += 1;
        }
    }
    assert_eq!(signals, 1);
    assert_eq!(s.phase, Phase::Closed);
}

#[test]
fn closed_is_terminal() {
    let mut s = Session::connect();
    s.advance(SessionEvent::WriteFailed);
    for ev in [SessionEvent::Registered, SessionEvent::WriteFailed, SessionEvent::PeerClosed] {
        assert_eq!(s.advance(ev), SessionAction::Stay);
        assert_eq!(s.phase, Phase::Closed);
    }
}

#[test]
fn envelope_constructors_tag_and_timestamp() {
    let ev = LogEvent {
        app: b"a".to_vec(),
        process_id: b"1".to_vec(),
        message: b"m".to_vec(),
        timestamp: b"2023-01-02 03:04:05".to_vec(),
        log_type: b"out".to_vec(),
    };
    let e = Envelope::log_event(ev, 77);
    assert_eq!(e.emitted_at, 77);
    match &e.payload {
        Payload::Log(inner) => assert_eq!(inner.message, b"m".to_vec()),
        Payload::Stats(_) => panic!("expected a log envelope"),
    }

    let rec = ProcessRecord {
        name: "web".to_string(),
        id: 1,
        pid: 2,
        uptime: 3,
        status: "online".to_string(),
        restart: 4,
        user: "u".to_string(),
        cpu_text: "0".to_string(),
        mem: 5,
    };
    let e = Envelope::stats_event(vec![rec], 88);
    assert_eq!(e.emitted_at, 88);
    match &e.payload {
        Payload::Stats(snap) => {
            assert_eq!(snap.captured_at, 88);
            assert_eq!(snap.records.len(), 1);
            assert_eq!(snap.records[0].name, "web");
        },
        Payload::Log(_) => panic!("expected a stats envelope"),
    }

    // A cloned envelope carries the same content.
    let c = e.clone();
    match (&c.payload, &e.payload) {
        (Payload::Stats(a), Payload::Stats(b)) => {
            assert_eq!(a.records[0].name, b.records[0].name);
            assert_eq!(a.captured_at, b.captured_at);
        },
        _ => panic!("clone changed the payload kind"),
    }
}

#[test]
fn fresh_sessions_get_distinct_ids() {
    let a = Session::connect();
    let b = Session::connect();
    assert_ne!(a.viewer_id, b.viewer_id);
}
