//! Laws of the broadcast hub, stated over whole event histories: what
//! the cached snapshot, the recent-log ring and the per-viewer buffers
//! hold after any sequence of events, not just after one step.

use vstd::prelude::*;
use crate::event::EnvelopeView;
use crate::hub::{
    HubView, ViewerView, offer_spec, lemma_step_stats_wf, lemma_step_log_wf, lemma_step_join_wf,
    lemma_step_leave_wf,
};

verus! {

/// One event the hub can process.
pub ghost enum HubEvent {
    Stats(EnvelopeView),
    Log(EnvelopeView),
    Join(u128),
    Leave(u128),
}

/// An event carrying the kind of payload its class calls for.
pub open spec fn event_ok(ev: HubEvent) -> bool {
    match ev {
        HubEvent::Stats(e) => e.is_stats(),
        HubEvent::Log(e) => e.is_log(),
        HubEvent::Join(_) => true,
        HubEvent::Leave(_) => true,
    }
}

/// The hub state after one event.
pub open spec fn apply_event(h: HubView, ev: HubEvent) -> HubView {
    match ev {
        HubEvent::Stats(e) => h.step_stats(e),
        HubEvent::Log(e) => h.step_log(e),
        HubEvent::Join(id) => h.step_join(id),
        HubEvent::Leave(id) => h.step_leave(id),
    }
}

/// The hub state after a whole history of events, processed in order.
pub open spec fn fold_events(h: HubView, evs: Seq<HubEvent>) -> HubView
    decreases evs.len(),
{
    if evs.len() == 0 {
        h
    } else {
        fold_events(apply_event(h, evs.first()), evs.drop_first())
    }
}

/// The hub state after a sequence of stats events.
pub open spec fn fold_stats(h: HubView, es: Seq<EnvelopeView>) -> HubView
    decreases es.len(),
{
    if es.len() == 0 {
        h
    } else {
        fold_stats(h.step_stats(es.first()), es.drop_first())
    }
}

/// The hub state after a sequence of log events.
pub open spec fn fold_logs(h: HubView, es: Seq<EnvelopeView>) -> HubView
    decreases es.len(),
{
    if es.len() == 0 {
        h
    } else {
        fold_logs(h.step_log(es.first()), es.drop_first())
    }
}

/// The most recent `cap` entries of `s`, in arrival order — all of `s` if
/// it is short enough.
pub open spec fn recent(s: Seq<EnvelopeView>, cap: nat) -> Seq<EnvelopeView> {
    if s.len() <= cap {
        s
    } else {
        s.subrange(s.len() - cap, s.len() as int)
    }
}

/// Latest wins: after processing any non-empty sequence of stats events,
/// the hub's cached snapshot is exactly the last event processed — never
/// a stale or merged value.
pub proof fn lemma_snapshot_latest_wins(h: HubView, es: Seq<EnvelopeView>)
    requires
        es.len() > 0,
    ensures
        fold_stats(h, es).snapshot == Some(es.last()),
    decreases es.len(),
{
    if es.len() == 1 {
        assert(fold_stats(h.step_stats(es.first()), es.drop_first()) == h.step_stats(es.first()));
    } else {
        lemma_snapshot_latest_wins(h.step_stats(es.first()), es.drop_first());
        assert(es.drop_first().last() == es.last());
    }
}

/// Re-trimming an already trimmed sequence after appending more entries
/// trims to the same result.
proof fn lemma_recent_absorb(a: Seq<EnvelopeView>, b: Seq<EnvelopeView>, cap: nat)
    ensures
        recent(recent(a, cap) + b, cap) == recent(a + b, cap),
{
    let ra = recent(a, cap);
    if a.len() <= cap {
        assert(ra + b =~= a + b);
    } else {
        let d = a.len() - cap;
        if b.len() == 0 {
            assert(ra + b =~= ra);
            assert(recent(a + b, cap) =~= ra) by {
                assert(a + b =~= a);
            }
        } else {
            let lhs = (ra + b).subrange(b.len() as int, (ra.len() + b.len()) as int);
            let rhs = (a + b).subrange(
                (a.len() + b.len() - cap) as int,
                (a.len() + b.len()) as int,
            );
            assert(recent(ra + b, cap) == lhs);
            assert(recent(a + b, cap) == rhs);
            assert forall|i: int| 0 <= i < cap implies #[trigger] lhs[i] == rhs[i] by {
                if b.len() + i < cap {
                    assert((ra + b)[b.len() + i] == a[d + b.len() + i]);
                    assert((a + b)[a.len() + b.len() - cap + i] == a[d + b.len() + i]);
                } else {
                    assert((ra + b)[b.len() + i] == b[b.len() + i - cap]);
                    assert((a + b)[a.len() + b.len() - cap + i] == b[b.len() + i - cap]);
                }
            }
            assert(lhs =~= rhs);
        }
    }
}

/// The ring holds the most recent entries: after any sequence of log
/// events, the recent-log ring is exactly the most recent `cap` of the
/// entries ever arrived, in arrival order — so it never exceeds its
/// configured capacity. The capacity, the cached snapshot and the number
/// of registered viewers are untouched by log traffic.
pub proof fn lemma_ring_holds_most_recent(h: HubView, es: Seq<EnvelopeView>)
    requires
        h.ring.len() <= h.cap,
    ensures
        fold_logs(h, es).ring == recent(h.ring + es, h.cap),
        fold_logs(h, es).ring.len() <= h.cap,
        fold_logs(h, es).cap == h.cap,
        fold_logs(h, es).snapshot == h.snapshot,
        fold_logs(h, es).viewers.len() == h.viewers.len(),
    decreases es.len(),
{
    if es.len() == 0 {
        assert(h.ring + es =~= h.ring);
    } else {
        let e = es.first();
        let h1 = h.step_log(e);
        assert(h1.ring == recent(h.ring.push(e), h.cap));
        lemma_ring_holds_most_recent(h1, es.drop_first());
        lemma_recent_absorb(h.ring.push(e), es.drop_first(), h.cap);
        assert(h.ring.push(e) + es.drop_first() =~= h.ring + es);
    }
}

/// Join-time replay: a viewer joining a fresh hub after `n <= cap` log
/// events receives exactly those `n` events, in order, on its log queue —
/// and, no stats having ever been ingested, its stats slot stays unseeded.
pub proof fn lemma_join_replays_ring(cap: nat, es: Seq<EnvelopeView>, id: u128)
    requires
        1 <= cap,
        es.len() <= cap,
    ensures
        ({
            let joined = fold_logs(HubView::init(cap), es).step_join(id);
            &&& joined.viewers.len() == 1
            &&& joined.viewers.last() == (ViewerView {
                id: id,
                stats_slot: None,
                log_queue: es,
            })
        }),
{
    reveal(Seq::filter);
    let h0 = HubView::init(cap);
    lemma_ring_holds_most_recent(h0, es);
    assert(h0.ring + es =~= es);
    let folded = fold_logs(h0, es);
    assert(folded.viewers =~= Seq::<ViewerView>::empty());
    assert(folded.viewers.filter(|v: ViewerView| v.id != id) =~= Seq::<ViewerView>::empty());
}

/// A stale snapshot is never shown to a new viewer once a newer one
/// exists: a viewer joining after any stats traffic is seeded with the
/// snapshot of the last stats event processed, and with nothing else.
pub proof fn lemma_join_after_stats_sees_latest(h: HubView, es: Seq<EnvelopeView>, id: u128)
    requires
        es.len() > 0,
    ensures
        ({
            let joined = fold_stats(h, es).step_join(id);
            &&& joined.viewers.len() > 0
            &&& joined.viewers.last().id == id
            &&& joined.viewers.last().stats_slot == Some(es.last())
        }),
{
    lemma_snapshot_latest_wins(h, es);
}

/// Stats delivery is per-viewer and never consults the log backlog: after
/// a stats event, every registered viewer's slot holds exactly that event
/// — whatever its log queue held, full or not — and its log queue is
/// untouched.
pub proof fn lemma_stats_unblocked_by_backlog(h: HubView, e: EnvelopeView, i: int)
    requires
        0 <= i < h.viewers.len(),
    ensures
        h.step_stats(e).viewers[i].stats_slot == Some(e),
        h.step_stats(e).viewers[i].log_queue == h.viewers[i].log_queue,
        h.step_stats(e).viewers[i].id == h.viewers[i].id,
{
}

/// Log delivery is per-viewer: after a log event, each viewer's queue is
/// its own queue with the event appended if it had room and unchanged if
/// it was full — no viewer's outcome depends on any other viewer, and a
/// saturated viewer costs the others nothing.
pub proof fn lemma_backpressure_isolation(h: HubView, e: EnvelopeView, i: int)
    requires
        0 <= i < h.viewers.len(),
    ensures
        h.step_log(e).viewers[i].log_queue == offer_spec(h.viewers[i].log_queue, h.cap, e),
        h.viewers[i].log_queue.len() >= h.cap ==> h.step_log(e).viewers[i].log_queue
            == h.viewers[i].log_queue,
        h.viewers[i].log_queue.len() < h.cap ==> h.step_log(e).viewers[i].log_queue
            == h.viewers[i].log_queue.push(e),
        h.step_log(e).viewers[i].stats_slot == h.viewers[i].stats_slot,
        h.step_log(e).viewers[i].id == h.viewers[i].id,
{
}

/// A burst of log events fills a viewer's queue in arrival order and
/// stops at capacity: afterwards the queue holds what it already held,
/// followed by the first events of the burst, exactly as many as it had
/// room for. Order is kept, drops happen only past capacity, and no more
/// than `cap` entries are ever pending.
pub proof fn lemma_burst_fills_queue_in_order(h: HubView, es: Seq<EnvelopeView>, i: int)
    requires
        0 <= i < h.viewers.len(),
    ensures
        ({
            let q = h.viewers[i].log_queue;
            let room: int = if q.len() >= h.cap {
                0
            } else if h.cap - q.len() <= es.len() {
                h.cap - q.len()
            } else {
                es.len() as int
            };
            fold_logs(h, es).viewers[i].log_queue == q + es.take(room)
        }),
    decreases es.len(),
{
    let q = h.viewers[i].log_queue;
    let room: int = if q.len() >= h.cap {
        0
    } else if h.cap - q.len() <= es.len() {
        h.cap - q.len()
    } else {
        es.len() as int
    };
    if es.len() == 0 {
        assert(q + es.take(room) =~= q);
    } else {
        let e = es.first();
        let rest = es.drop_first();
        let h1 = h.step_log(e);
        assert(h1.viewers[i].log_queue == offer_spec(q, h.cap, e));
        assert(h1.cap == h.cap);
        lemma_burst_fills_queue_in_order(h1, rest, i);
        let q1 = h1.viewers[i].log_queue;
        let room1: int = if q1.len() >= h.cap {
            0
        } else if h.cap - q1.len() <= rest.len() {
            h.cap - q1.len()
        } else {
            rest.len() as int
        };
        if q.len() < h.cap {
            assert(q1 == q.push(e));
            assert(room1 == room - 1);
            assert(q.push(e) + rest.take(room1) =~= q + es.take(room)) by {
                assert(es.take(room)[0] == e);
            }
        } else {
            assert(q1 == q);
            assert(q + rest.take(room1) =~= q + es.take(room));
        }
    }
}

/// Filtering changes nothing when every entry passes.
proof fn lemma_filter_fixed(s: Seq<ViewerView>, pred: spec_fn(ViewerView) -> bool)
    requires
        forall|k: int| 0 <= k < s.len() ==> pred(#[trigger] s[k]),
    ensures
        s.filter(pred) == s,
    decreases s.len(),
{
    reveal(Seq::filter);
    if s.len() > 0 {
        lemma_filter_fixed(s.drop_last(), pred);
        assert(s.drop_last().push(s.last()) =~= s);
    }
}

/// Leaving is idempotent: a duplicate leave signal finds no viewer and
/// changes nothing.
pub proof fn lemma_leave_idempotent(h: HubView, id: u128)
    ensures
        h.step_leave(id).step_leave(id) == h.step_leave(id),
{
    broadcast use vstd::seq_lib::group_filter_ensures;

    let pred = |v: ViewerView| v.id != id;
    let kept = h.viewers.filter(pred);
    assert forall|k: int| 0 <= k < kept.len() implies pred(#[trigger] kept[k]) by {}
    lemma_filter_fixed(kept, pred);
}

/// After a leave, the viewer is gone from the registry, and neither stats
/// nor log fan-out ever touches it again: both deliver to registered
/// viewers only, and they keep the registry exactly as it was.
pub proof fn lemma_no_delivery_after_leave(h: HubView, id: u128, e: EnvelopeView)
    ensures
        !h.step_leave(id).has_viewer(id),
        h.step_leave(id).step_stats(e).viewer_ids() == h.step_leave(id).viewer_ids(),
        h.step_leave(id).step_log(e).viewer_ids() == h.step_leave(id).viewer_ids(),
        !h.step_leave(id).step_stats(e).has_viewer(id),
        !h.step_leave(id).step_log(e).has_viewer(id),
{
    broadcast use vstd::seq_lib::group_filter_ensures;

    let pred = |v: ViewerView| v.id != id;
    let left = h.step_leave(id);
    assert(!left.has_viewer(id)) by {
        if left.has_viewer(id) {
            let k = choose|k: int|
                0 <= k < left.viewer_ids().len() && left.viewer_ids()[k] == id;
            assert(pred(left.viewers[k]));
        }
    }
    assert(left.step_stats(e).viewer_ids() =~= left.viewer_ids());
    assert(left.step_log(e).viewer_ids() =~= left.viewer_ids());
}

/// The hub's invariant holds after any history of well-kinded events: in
/// every reachable state the ring and every viewer queue respect the one
/// configured capacity, and registered ids stay distinct.
pub proof fn lemma_invariant_preserved(h: HubView, evs: Seq<HubEvent>)
    requires
        h.wf(),
        forall|k: int| 0 <= k < evs.len() ==> event_ok(#[trigger] evs[k]),
    ensures
        fold_events(h, evs).wf(),
    decreases evs.len(),
{
    if evs.len() > 0 {
        let h1 = apply_event(h, evs.first());
        assert(event_ok(evs.first()));
        match evs.first() {
            HubEvent::Stats(e) => lemma_step_stats_wf(h, e),
            HubEvent::Log(e) => lemma_step_log_wf(h, e),
            HubEvent::Join(id) => lemma_step_join_wf(h, id),
            HubEvent::Leave(id) => lemma_step_leave_wf(h, id),
        }
        lemma_invariant_preserved(h1, evs.drop_first());
    }
}

} // verus!
