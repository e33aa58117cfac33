//! The viewer session's lifecycle: a small state machine that decides,
//! from the current phase and one observed event, the next phase and the
//! one action the transport layer must perform. The surrounding I/O —
//! waiting on the outbound buffers, the liveness timer and the transport
//! — stays outside; this module owns only the decisions.

use vstd::prelude::*;

verus! {

/// The phase of one viewer session, from connection to teardown.
#[derive(Clone, Copy, Debug, PartialEq, Eq, Structural)]
pub enum Phase {
    /// The transport is up; the session is not yet registered with the hub.
    Connected,
    /// Registered: events flow from the hub's buffers to the transport.
    Streaming,
    /// Tearing down: the hub has been told the viewer left.
    Closing,
    /// Terminal: the session task ends.
    Closed,
}

/// One event a session can observe.
#[derive(Clone, Copy, Debug, PartialEq, Eq, Structural)]
pub enum SessionEvent {
    /// The hub accepted the registration.
    Registered,
    /// A transport write failed: the remote end is gone.
    WriteFailed,
    /// No responsive signal arrived within the liveness timeout.
    LivenessTimeout,
    /// The remote end closed the connection.
    PeerClosed,
    /// The hub acknowledged the leave signal.
    LeaveAcknowledged,
}

/// The one action the transport layer performs after a step.
#[derive(Clone, Copy, Debug, PartialEq, Eq, Structural)]
pub enum SessionAction {
    /// Nothing to do.
    Stay,
    /// Tell the hub, exactly once, that this viewer left.
    SignalLeave,
    /// Attempt a graceful transport close.
    CloseTransport,
}

/// The transition table. A failure while streaming signals the leave and
/// enters `Closing`; from `Closing` the next step closes the transport
/// and ends in the terminal `Closed`. A failure before registration
/// succeeded ends the session silently: there is nothing to deregister.
pub open spec fn step_session(p: Phase, ev: SessionEvent) -> (Phase, SessionAction) {
    match p {
        Phase::Connected => match ev {
            SessionEvent::Registered => (Phase::Streaming, SessionAction::Stay),
            _ => (Phase::Closed, SessionAction::Stay),
        },
        Phase::Streaming => match ev {
            SessionEvent::WriteFailed => (Phase::Closing, SessionAction::SignalLeave),
            SessionEvent::LivenessTimeout => (Phase::Closing, SessionAction::SignalLeave),
            SessionEvent::PeerClosed => (Phase::Closing, SessionAction::SignalLeave),
            _ => (Phase::Streaming, SessionAction::Stay),
        },
        Phase::Closing => (Phase::Closed, SessionAction::CloseTransport),
        Phase::Closed => (Phase::Closed, SessionAction::Stay),
    }
}

/// How many leave signals a session starting in `p` emits over a run.
pub open spec fn leave_signals(p: Phase, evs: Seq<SessionEvent>) -> nat
    decreases evs.len(),
{
    if evs.len() == 0 {
        0
    } else {
        let (next, action) = step_session(p, evs.first());
        (if action == SessionAction::SignalLeave {
            1nat
        } else {
            0nat
        }) + leave_signals(next, evs.drop_first())
    }
}

/// Once closing or closed, a session never signals a leave again.
proof fn lemma_no_signal_after_closing(p: Phase, evs: Seq<SessionEvent>)
    requires
        p == Phase::Closing || p == Phase::Closed,
    ensures
        leave_signals(p, evs) == 0,
    decreases evs.len(),
{
    if evs.len() > 0 {
        lemma_no_signal_after_closing(Phase::Closed, evs.drop_first());
    }
}

/// The leave signal is sent at most once: over any run of events from
/// any phase, a session emits at most one `SignalLeave`.
pub proof fn lemma_leave_signaled_at_most_once(p: Phase, evs: Seq<SessionEvent>)
    ensures
        leave_signals(p, evs) <= 1,
    decreases evs.len(),
{
    if evs.len() > 0 {
        let (next, action) = step_session(p, evs.first());
        if action == SessionAction::SignalLeave {
            lemma_no_signal_after_closing(next, evs.drop_first());
        } else {
            lemma_leave_signaled_at_most_once(next, evs.drop_first());
        }
    }
}

/// An event that tears a streaming session down: a failed transport
/// write, a liveness timeout, or the remote end closing.
pub open spec fn is_failure(ev: SessionEvent) -> bool {
    ||| ev == SessionEvent::WriteFailed
    ||| ev == SessionEvent::LivenessTimeout
    ||| ev == SessionEvent::PeerClosed
}

/// The leave signal is sent exactly once when it is owed: a streaming
/// session that observes any failure over a run emits one `SignalLeave`,
/// no more and no fewer.
pub proof fn lemma_failure_while_streaming_signals_exactly_once(evs: Seq<SessionEvent>)
    requires
        exists|k: int| 0 <= k < evs.len() && is_failure(#[trigger] evs[k]),
    ensures
        leave_signals(Phase::Streaming, evs) == 1,
    decreases evs.len(),
{
    if is_failure(evs.first()) {
        let (next, action) = step_session(Phase::Streaming, evs.first());
        lemma_no_signal_after_closing(next, evs.drop_first());
    } else {
        let k = choose|k: int| 0 <= k < evs.len() && is_failure(#[trigger] evs[k]);
        assert(is_failure(evs.drop_first()[k - 1]));
        lemma_failure_while_streaming_signals_exactly_once(evs.drop_first());
    }
}

/// Relies on uuid::Uuid::new_v4, read back as the underlying integer: a
/// freshly generated random identifier; nothing is promised of its value.
#[verifier::external_body]
fn fresh_viewer_id() -> u128 {
    uuid::Uuid::new_v4().as_u128()
}

/// One viewer session: its identity for the hub's registry, and its
/// current phase.
pub struct Session {
    pub viewer_id: u128,
    pub phase: Phase,
}

impl Session {
    /// Begins a session for a newly upgraded connection: a fresh random
    /// identifier, not yet registered with the hub.
    pub fn connect() -> (s: Session)
        ensures
            s.phase == Phase::Connected,
    {
        Session { viewer_id: fresh_viewer_id(), phase: Phase::Connected }
    }

    /// Feeds one observed event to the state machine and returns the
    /// action the transport layer must perform.
    pub fn advance(&mut self, ev: SessionEvent) -> (action: SessionAction)
        ensures
            (final(self).phase, action) == step_session(old(self).phase, ev),
            final(self).viewer_id == old(self).viewer_id,
    {
        let (next, action) = Self::step(self.phase, ev);
        self.phase = next;
        action
    }

    /// The transition table as executable code.
    pub fn step(p: Phase, ev: SessionEvent) -> (r: (Phase, SessionAction))
        ensures
            r == step_session(p, ev),
    {
        match p {
            Phase::Connected => match ev {
                SessionEvent::Registered => (Phase::Streaming, SessionAction::Stay),
                _ => (Phase::Closed, SessionAction::Stay),
            },
            Phase::Streaming => match ev {
                SessionEvent::WriteFailed => (Phase::Closing, SessionAction::SignalLeave),
                SessionEvent::LivenessTimeout => (Phase::Closing, SessionAction::SignalLeave),
                SessionEvent::PeerClosed => (Phase::Closing, SessionAction::SignalLeave),
                _ => (Phase::Streaming, SessionAction::Stay),
            },
            Phase::Closing => (Phase::Closed, SessionAction::CloseTransport),
            Phase::Closed => (Phase::Closed, SessionAction::Stay),
        }
    }
}

} // verus!
