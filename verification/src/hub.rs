//! The broadcast hub: the single writer over the viewer registry and the
//! cached state. It consumes stats events, log events and viewer
//! lifecycle signals, and fills per-viewer outbound buffers — a
//! latest-wins stats slot and a bounded FIFO log queue per viewer — with
//! a non-blocking drop-on-full policy, so that one saturated viewer never
//! delays delivery to any other.

use vstd::prelude::*;
use crate::event::{Envelope, EnvelopeView};

verus! {

/// One registered viewer: its identity and its two outbound buffers.
pub struct Viewer {
    pub id: u128,
    pub stats_slot: Option<Envelope>,
    pub log_queue: Vec<Envelope>,
}

/// Mathematical image of a `Viewer`.
pub ghost struct ViewerView {
    pub id: u128,
    pub stats_slot: Option<EnvelopeView>,
    pub log_queue: Seq<EnvelopeView>,
}

impl View for Viewer {
    type V = ViewerView;

    open spec fn view(&self) -> ViewerView {
        ViewerView {
            id: self.id,
            stats_slot: match self.stats_slot {
                Some(e) => Some(e@),
                None => None,
            },
            log_queue: self.log_queue@.map_values(|e: Envelope| e@),
        }
    }
}

/// Mathematical image of a `Hub`.
pub ghost struct HubView {
    pub cap: nat,
    pub snapshot: Option<EnvelopeView>,
    pub ring: Seq<EnvelopeView>,
    pub viewers: Seq<ViewerView>,
}

/// Appends `e` to `q` if there is room under `cap`, else leaves `q`
/// unchanged: the best-effort, never-blocking delivery policy.
pub open spec fn offer_spec(q: Seq<EnvelopeView>, cap: nat, e: EnvelopeView) -> Seq<EnvelopeView> {
    if q.len() < cap {
        q.push(e)
    } else {
        q
    }
}

/// Appends `value` to `queue` only if there is room under `cap`; a full
/// queue is left unchanged, never waited on. Returns whether the value
/// was accepted: the one best-effort delivery primitive behind every
/// per-viewer enqueue.
pub fn offer<T>(queue: &mut Vec<T>, cap: usize, value: T) -> (accepted: bool)
    ensures
        accepted == (old(queue)@.len() < cap),
        accepted ==> final(queue)@ == old(queue)@.push(value),
        !accepted ==> final(queue)@ == old(queue)@,
{
    if queue.len() < cap {
        queue.push(value);
        true
    } else {
        false
    }
}

/// Appends `e` to the ring, evicting the oldest entries so that at most
/// `cap` remain: the drop-oldest ring policy.
pub open spec fn ring_push_spec(r: Seq<EnvelopeView>, cap: nat, e: EnvelopeView) -> Seq<
    EnvelopeView,
> {
    let grown = r.push(e);
    if grown.len() <= cap {
        grown
    } else {
        grown.subrange(grown.len() - cap, grown.len() as int)
    }
}

impl HubView {
    /// The ids of the registered viewers, in registration order.
    pub open spec fn viewer_ids(self) -> Seq<u128> {
        self.viewers.map_values(|v: ViewerView| v.id)
    }

    /// Whether a viewer with this id is registered.
    pub open spec fn has_viewer(self, id: u128) -> bool {
        self.viewer_ids().contains(id)
    }

    /// The hub's invariant: a positive capacity bounds both the ring and
    /// every viewer's log queue; ids are distinct; the cached snapshot and
    /// every stats slot hold stats envelopes, the ring and every log queue
    /// hold log envelopes.
    pub open spec fn wf(self) -> bool {
        &&& self.cap >= 1
        &&& self.ring.len() <= self.cap
        &&& (forall|k: int| 0 <= k < self.ring.len() ==> (#[trigger] self.ring[k]).is_log())
        &&& (self.snapshot matches Some(e) ==> e.is_stats())
        &&& (forall|i: int|
            0 <= i < self.viewers.len() ==> (#[trigger] self.viewers[i]).log_queue.len()
                <= self.cap)
        &&& (forall|i: int|
            0 <= i < self.viewers.len() ==> ((#[trigger] self.viewers[i]).stats_slot matches Some(
                e,
            ) ==> e.is_stats()))
        &&& (forall|i: int, k: int|
            0 <= i < self.viewers.len() && 0 <= k < self.viewers[i].log_queue.len() ==> (
            #[trigger] self.viewers[i].log_queue[k]).is_log())
        &&& (forall|i: int, j: int|
            0 <= i < j < self.viewers.len() ==> (#[trigger] self.viewers[i].id) != (
            #[trigger] self.viewers[j].id))
    }

    /// A fresh hub with capacity `cap`: no snapshot, no recent logs, no
    /// viewers.
    pub open spec fn init(cap: nat) -> HubView {
        HubView { cap: cap, snapshot: None, ring: Seq::empty(), viewers: Seq::empty() }
    }

    /// A stats event replaces the cached snapshot and overwrites every
    /// viewer's stats slot, whatever that slot held: latest wins, and no
    /// viewer's log backlog is consulted.
    pub open spec fn step_stats(self, e: EnvelopeView) -> HubView {
        HubView {
            snapshot: Some(e),
            viewers: self.viewers.map_values(
                |v: ViewerView|
                    ViewerView { id: v.id, stats_slot: Some(e), log_queue: v.log_queue },
            ),
            ..self
        }
    }

    /// A log event enters the ring (evicting the oldest if full) and is
    /// offered to every viewer's log queue, dropped for exactly the
    /// viewers whose queue is full.
    pub open spec fn step_log(self, e: EnvelopeView) -> HubView {
        HubView {
            ring: ring_push_spec(self.ring, self.cap, e),
            viewers: self.viewers.map_values(
                |v: ViewerView|
                    ViewerView {
                        id: v.id,
                        stats_slot: v.stats_slot,
                        log_queue: offer_spec(v.log_queue, self.cap, e),
                    },
            ),
            ..self
        }
    }

    /// The viewer a join registers: its stats slot seeded with the cached
    /// snapshot if one exists, its log queue replaying the whole ring in
    /// arrival order.
    pub open spec fn seeded_viewer(self, id: u128) -> ViewerView {
        ViewerView { id: id, stats_slot: self.snapshot, log_queue: self.ring }
    }

    /// A join registers a seeded viewer under `id`; a stale viewer with
    /// the same id, if any, is discarded first.
    pub open spec fn step_join(self, id: u128) -> HubView {
        HubView {
            viewers: self.viewers.filter(|v: ViewerView| v.id != id).push(self.seeded_viewer(id)),
            ..self
        }
    }

    /// A leave deregisters the viewer and discards its buffers; a second
    /// leave with the same id finds nothing and changes nothing.
    pub open spec fn step_leave(self, id: u128) -> HubView {
        HubView { viewers: self.viewers.filter(|v: ViewerView| v.id != id), ..self }
    }
}

/// The broadcast hub's state: the configured capacity (one bound for the
/// ring and for every per-viewer log queue), the last ingested snapshot,
/// the recent-log ring in arrival order, and the viewer registry.
pub struct Hub {
    pub cap: usize,
    pub snapshot: Option<Envelope>,
    pub ring: Vec<Envelope>,
    pub viewers: Vec<Viewer>,
}

impl View for Hub {
    type V = HubView;

    open spec fn view(&self) -> HubView {
        HubView {
            cap: self.cap as nat,
            snapshot: match self.snapshot {
                Some(e) => Some(e@),
                None => None,
            },
            ring: self.ring@.map_values(|e: Envelope| e@),
            viewers: self.viewers@.map_values(|v: Viewer| v@),
        }
    }
}

impl Hub {
    /// The hub's invariant, stated of its mathematical image.
    pub open spec fn wf(self) -> bool {
        self@.wf()
    }

    /// Creates an empty hub with capacity `cap`.
    pub fn new(cap: usize) -> (h: Hub)
        requires
            cap >= 1,
        ensures
            h@ == HubView::init(cap as nat),
            h.wf(),
    {
        let h = Hub { cap: cap, snapshot: None, ring: Vec::new(), viewers: Vec::new() };
        proof {
            assert(h@.ring =~= HubView::init(cap as nat).ring);
            assert(h@.viewers =~= HubView::init(cap as nat).viewers);
            assert(h@ =~= HubView::init(cap as nat));
        }
        h
    }

    /// Processes one stats event: cache it and deliver it to every
    /// viewer's stats slot, overwriting any unconsumed value.
    pub fn handle_stats(&mut self, env: Envelope)
        requires
            old(self).wf(),
            env@.is_stats(),
        ensures
            final(self)@ == old(self)@.step_stats(env@),
            final(self).wf(),
    {
        let ghost target = old(self)@.step_stats(env@);
        let mut i: usize = 0;
        let n = self.viewers.len();
        while i < n
            invariant
                n == self.viewers@.len(),
                i <= n,
                self.cap == old(self).cap,
                self.snapshot == old(self).snapshot,
                self.ring == old(self).ring,
                old(self)@.viewers.len() == n,
                target.viewers.len() == n,
                target == old(self)@.step_stats(env@),
                forall|k: int|
                    0 <= k < i ==> (#[trigger] self.viewers@[k])@ == target.viewers[k],
                forall|k: int| i <= k < n ==> (#[trigger] self.viewers@[k])@ == old(self)@.viewers[k],
            decreases n - i,
        {
            self.viewers[i].stats_slot = Some(env.clone());
            proof {
                assert((self.viewers@[i as int])@ == target.viewers[i as int]);
            }
            i = i + 1;
        }
        self.snapshot = Some(env);
        proof {
            assert(self@.viewers =~= target.viewers);
            assert(self@.ring =~= target.ring);
            assert(self@ =~= target);
            lemma_step_stats_wf(old(self)@, env@);
        }
    }

    /// Processes one log event: append it to the recent-log ring, evicting
    /// the oldest entry if the ring is full, and offer it to every
    /// viewer's log queue, dropping it for exactly the viewers whose queue
    /// is full — never waiting on any viewer.
    pub fn handle_log(&mut self, env: Envelope)
        requires
            old(self).wf(),
            env@.is_log(),
        ensures
            final(self)@ == old(self)@.step_log(env@),
            final(self).wf(),
    {
        let ghost target = old(self)@.step_log(env@);
        if self.ring.len() >= self.cap {
            self.ring.remove(0);
        }
        self.ring.push(env.clone());
        proof {
            assert(self@.ring =~= target.ring);
        }
        let mut i: usize = 0;
        let n = self.viewers.len();
        while i < n
            invariant
                n == self.viewers@.len(),
                i <= n,
                self.cap == old(self).cap,
                self.snapshot == old(self).snapshot,
                self@.ring == target.ring,
                self@.viewers.len() == n,
                old(self)@.viewers.len() == n,
                target.viewers.len() == n,
                target == old(self)@.step_log(env@),
                forall|k: int|
                    0 <= k < i ==> (#[trigger] self.viewers@[k])@ == target.viewers[k],
                forall|k: int| i <= k < n ==> (#[trigger] self.viewers@[k])@ == old(self)@.viewers[k],
            decreases n - i,
        {
            offer(&mut self.viewers[i].log_queue, self.cap, env.clone());
            proof {
                assert((self.viewers@[i as int])@.log_queue =~= offer_spec(
                    old(self)@.viewers[i as int].log_queue,
                    old(self)@.cap,
                    env@,
                ));
                assert((self.viewers@[i as int])@ == target.viewers[i as int]);
            }
            i = i + 1;
        }
        proof {
            assert(self@.viewers =~= target.viewers);
            assert(self@ =~= target);
            lemma_step_log_wf(old(self)@, env@);
        }
    }

    /// Registers a viewer under `id`: seed its stats slot with the cached
    /// snapshot if one exists (and leave it empty otherwise), replay the
    /// whole recent-log ring into its log queue in arrival order, and drop
    /// any stale viewer that still sat in the registry under the same id.
    pub fn handle_join(&mut self, id: u128)
        requires
            old(self).wf(),
        ensures
            final(self)@ == old(self)@.step_join(id),
            final(self).wf(),
            final(self)@.has_viewer(id),
    {
        self.remove_viewer(id);
        let slot = match &self.snapshot {
            Some(e) => Some(e.clone()),
            None => None,
        };
        let mut queue: Vec<Envelope> = Vec::new();
        let mut i: usize = 0;
        let n = self.ring.len();
        while i < n
            invariant
                n == self.ring@.len(),
                i <= n,
                queue@.len() == i,
                forall|k: int| 0 <= k < i ==> (#[trigger] queue@[k])@ == self@.ring[k],
            decreases n - i,
        {
            let e = self.ring[i].clone();
            queue.push(e);
            i = i + 1;
        }
        let viewer = Viewer { id: id, stats_slot: slot, log_queue: queue };
        proof {
            assert(viewer@.log_queue =~= self@.ring);
            assert(viewer@ == self@.seeded_viewer(id));
        }
        self.viewers.push(viewer);
        proof {
            assert(self@.viewers =~= old(self)@.step_join(id).viewers);
            assert(self@ =~= old(self)@.step_join(id));
            lemma_step_join_wf(old(self)@, id);
            assert(self@.viewer_ids()[self@.viewers.len() - 1] == id);
        }
    }

    /// Deregisters the viewer with this id, discarding its buffers. A
    /// duplicate leave signal finds no such viewer and changes nothing.
    pub fn handle_leave(&mut self, id: u128)
        requires
            old(self).wf(),
        ensures
            final(self)@ == old(self)@.step_leave(id),
            final(self).wf(),
            !final(self)@.has_viewer(id),
    {
        self.remove_viewer(id);
        proof {
            lemma_step_leave_wf(old(self)@, id);
            lemma_filter_removes_id(old(self)@.viewers, id);
        }
    }

    /// Removes every registry entry carrying `id`.
    fn remove_viewer(&mut self, id: u128)
        ensures
            final(self)@.viewers == old(self)@.viewers.filter(|v: ViewerView| v.id != id),
            final(self).cap == old(self).cap,
            final(self).snapshot == old(self).snapshot,
            final(self).ring == old(self).ring,
            final(self)@.cap == old(self)@.cap,
            final(self)@.snapshot == old(self)@.snapshot,
            final(self)@.ring == old(self)@.ring,
    {
        let mut kept: Vec<Viewer> = Vec::new();
        let mut i: usize = 0;
        let n = self.viewers.len();
        while i < n
            invariant
                n == self.viewers@.len(),
                i <= n,
                kept@.map_values(|v: Viewer| v@) == self@.viewers.subrange(0, i as int).filter(
                    |v: ViewerView| v.id != id,
                ),
            decreases n - i,
        {
            proof {
                assert(self@.viewers.subrange(0, i + 1) =~= self@.viewers.subrange(0, i as int)
                    .push(self@.viewers[i as int]));
                seq_filter_push(
                    self@.viewers.subrange(0, i as int),
                    self@.viewers[i as int],
                    |v: ViewerView| v.id != id,
                );
            }
            let keep = self.viewers[i].id != id;
            if keep {
                let v = self.viewers[i].clone();
                kept.push(v);
                proof {
                    assert(kept@.map_values(|v: Viewer| v@) =~= self@.viewers.subrange(
                        0,
                        i + 1,
                    ).filter(|v: ViewerView| v.id != id));
                }
            } else {
                proof {
                    assert(kept@.map_values(|v: Viewer| v@) =~= self@.viewers.subrange(
                        0,
                        i + 1,
                    ).filter(|v: ViewerView| v.id != id));
                }
            }
            i = i + 1;
        }
        proof {
            assert(self@.viewers.subrange(0, n as int) =~= self@.viewers);
        }
        self.viewers = kept;
    }

    /// Hands the session the pending stats envelope of viewer `id`, if
    /// any, emptying the slot: the consuming side of the latest-wins slot.
    pub fn take_stats(&mut self, id: u128) -> (r: Option<Envelope>)
        requires
            old(self).wf(),
        ensures
            final(self).wf(),
            final(self)@.cap == old(self)@.cap,
            final(self)@.snapshot == old(self)@.snapshot,
            final(self)@.ring == old(self)@.ring,
            final(self)@.viewers.len() == old(self)@.viewers.len(),
            forall|i: int|
                0 <= i < old(self)@.viewers.len() && (#[trigger] old(self)@.viewers[i]).id != id
                    ==> final(self)@.viewers[i] == old(self)@.viewers[i],
            forall|i: int|
                0 <= i < old(self)@.viewers.len() && (#[trigger] old(self)@.viewers[i]).id == id
                    ==> {
                    &&& (match r {
                        Some(e) => old(self)@.viewers[i].stats_slot == Some(e@),
                        None => old(self)@.viewers[i].stats_slot is None,
                    })
                    &&& final(self)@.viewers[i] == (ViewerView {
                        id: old(self)@.viewers[i].id,
                        stats_slot: None,
                        log_queue: old(self)@.viewers[i].log_queue,
                    })
                },
            !old(self)@.has_viewer(id) ==> r is None && final(self)@ == old(self)@,
    {
        let n = self.viewers.len();
        let mut i: usize = 0;
        while i < n
            invariant
                old(self).wf(),
                n == self.viewers@.len(),
                i <= n,
                forall|k: int| 0 <= k < i ==> (#[trigger] self.viewers@[k]).id != id,
                *self == *old(self),
            decreases n - i,
        {
            if self.viewers[i].id == id {
                let taken = self.viewers[i].stats_slot.take();
                proof {
                    let prev = old(self)@;
                    assert(prev.viewer_ids()[i as int] == id);
                    assert(self@.viewers =~= prev.viewers.update(
                        i as int,
                        self@.viewers[i as int],
                    ));
                    assert forall|k: int|
                        0 <= k < prev.viewers.len() && prev.viewers[k].id == id implies k
                        == i as int by {
                        if k != i as int {
                            if k < i as int {
                                assert(prev.viewers[k].id != prev.viewers[i as int].id);
                            } else {
                                assert(prev.viewers[i as int].id != prev.viewers[k].id);
                            }
                        }
                    }
                    assert(self@.wf());
                }
                return taken;
            }
            i = i + 1;
        }
        proof {
            assert(!old(self)@.has_viewer(id)) by {
                if old(self)@.has_viewer(id) {
                    let k = choose|k: int|
                        0 <= k < old(self)@.viewer_ids().len() && old(self)@.viewer_ids()[k] == id;
                    assert((self.viewers@[k]).id == id);
                }
            }
        }
        None
    }

    /// Hands the session the oldest pending log envelope of viewer `id`,
    /// if any: the consuming side of the bounded FIFO queue.
    pub fn pop_log(&mut self, id: u128) -> (r: Option<Envelope>)
        requires
            old(self).wf(),
        ensures
            final(self).wf(),
            final(self)@.cap == old(self)@.cap,
            final(self)@.snapshot == old(self)@.snapshot,
            final(self)@.ring == old(self)@.ring,
            final(self)@.viewers.len() == old(self)@.viewers.len(),
            forall|i: int|
                0 <= i < old(self)@.viewers.len() && (#[trigger] old(self)@.viewers[i]).id != id
                    ==> final(self)@.viewers[i] == old(self)@.viewers[i],
            forall|i: int|
                0 <= i < old(self)@.viewers.len() && (#[trigger] old(self)@.viewers[i]).id == id
                    ==> {
                    &&& (match r {
                        Some(e) => old(self)@.viewers[i].log_queue.len() > 0 && e@ == old(self)@.viewers[i].log_queue[0],
                        None => old(self)@.viewers[i].log_queue.len() == 0,
                    })
                    &&& final(self)@.viewers[i] == (ViewerView {
                        id: old(self)@.viewers[i].id,
                        stats_slot: old(self)@.viewers[i].stats_slot,
                        log_queue: if old(self)@.viewers[i].log_queue.len() > 0 {
                            old(self)@.viewers[i].log_queue.drop_first()
                        } else {
                            old(self)@.viewers[i].log_queue
                        },
                    })
                },
            !old(self)@.has_viewer(id) ==> r is None && final(self)@ == old(self)@,
    {
        let n = self.viewers.len();
        let mut i: usize = 0;
        while i < n
            invariant
                old(self).wf(),
                n == self.viewers@.len(),
                i <= n,
                forall|k: int| 0 <= k < i ==> (#[trigger] self.viewers@[k]).id != id,
                *self == *old(self),
            decreases n - i,
        {
            if self.viewers[i].id == id {
                proof {
                    let prev = old(self)@;
                    assert(prev.viewer_ids()[i as int] == id);
                    assert forall|k: int|
                        0 <= k < prev.viewers.len() && prev.viewers[k].id == id implies k
                        == i as int by {
                        if k != i as int {
                            if k < i as int {
                                assert(prev.viewers[k].id != prev.viewers[i as int].id);
                            } else {
                                assert(prev.viewers[i as int].id != prev.viewers[k].id);
                            }
                        }
                    }
                }
                if self.viewers[i].log_queue.len() == 0 {
                    proof {
                        assert(self@.viewers =~= old(self)@.viewers);
                        assert(self@ =~= old(self)@);
                    }
                    return None;
                }
                let taken = self.viewers[i].log_queue.remove(0);
                proof {
                    assert((self.viewers@[i as int])@.log_queue =~= old(self)@.viewers[
                        i as int
                    ].log_queue.drop_first());
                    assert(self@.viewers =~= old(self)@.viewers.update(
                        i as int,
                        self@.viewers[i as int],
                    ));
                    assert(self@.wf());
                }
                return Some(taken);
            }
            i = i + 1;
        }
        proof {
            assert(!old(self)@.has_viewer(id)) by {
                if old(self)@.has_viewer(id) {
                    let k = choose|k: int|
                        0 <= k < old(self)@.viewer_ids().len() && old(self)@.viewer_ids()[k] == id;
                    assert((self.viewers@[k]).id == id);
                }
            }
        }
        None
    }
}


impl Clone for Viewer {
    fn clone(&self) -> (r: Self)
        ensures
            r@ == self@,
    {
        let mut queue: Vec<Envelope> = Vec::new();
        let mut i: usize = 0;
        let n = self.log_queue.len();
        while i < n
            invariant
                n == self.log_queue@.len(),
                i <= n,
                queue@.len() == i,
                forall|k: int| 0 <= k < i ==> (#[trigger] queue@[k])@ == self@.log_queue[k],
            decreases n - i,
        {
            queue.push(self.log_queue[i].clone());
            i = i + 1;
        }
        let slot = match &self.stats_slot {
            Some(e) => Some(e.clone()),
            None => None,
        };
        let r = Viewer { id: self.id, stats_slot: slot, log_queue: queue };
        proof {
            assert(r@.log_queue =~= self@.log_queue);
            assert(r@ =~= self@);
        }
        r
    }
}

/// Filtering on a pushed element appends it exactly when it passes.
proof fn seq_filter_push<A>(s: Seq<A>, x: A, pred: spec_fn(A) -> bool)
    ensures
        s.push(x).filter(pred) == if pred(x) {
            s.filter(pred).push(x)
        } else {
            s.filter(pred)
        },
    decreases s.len(),
{
    reveal(Seq::filter);
    assert(s.push(x).drop_last() =~= s);
}

/// After removing `id`, no registry entry carries it.
proof fn lemma_filter_removes_id(viewers: Seq<ViewerView>, id: u128)
    ensures
        !viewers.filter(|v: ViewerView| v.id != id).map_values(|v: ViewerView| v.id).contains(id),
{
    broadcast use vstd::seq_lib::group_filter_ensures;

    let pred = |v: ViewerView| v.id != id;
    let kept = viewers.filter(pred);
    let ids = kept.map_values(|v: ViewerView| v.id);
    if ids.contains(id) {
        let k = choose|k: int| 0 <= k < ids.len() && ids[k] == id;
        assert(pred(kept[k]));
    }
}

/// A stats step keeps the hub well-formed.
pub proof fn lemma_step_stats_wf(h: HubView, e: EnvelopeView)
    requires
        h.wf(),
        e.is_stats(),
    ensures
        h.step_stats(e).wf(),
{
}

/// A log step keeps the hub well-formed.
pub proof fn lemma_step_log_wf(h: HubView, e: EnvelopeView)
    requires
        h.wf(),
        e.is_log(),
    ensures
        h.step_log(e).wf(),
{
    let r = ring_push_spec(h.ring, h.cap, e);
    assert forall|k: int| 0 <= k < r.len() implies (#[trigger] r[k]).is_log() by {
        if h.ring.len() < h.cap {
        } else {
            assert(r[k] == h.ring.push(e)[k + h.ring.len() + 1 - h.cap]);
        }
    }
}

/// Filtering keeps every entry an entry of the registry it started
/// from, and keeps distinct ids distinct.
proof fn lemma_filter_viewers(s: Seq<ViewerView>, pred: spec_fn(ViewerView) -> bool)
    requires
        forall|a: int, b: int| 0 <= a < b < s.len() ==> (#[trigger] s[a].id) != (#[trigger] s[b].id),
    ensures
        forall|k: int|
            0 <= k < s.filter(pred).len() ==> exists|m: int|
                0 <= m < s.len() && s[m] == #[trigger] s.filter(pred)[k],
        forall|a: int, b: int|
            0 <= a < b < s.filter(pred).len() ==> (#[trigger] s.filter(pred)[a].id) != (
            #[trigger] s.filter(pred)[b].id),
    decreases s.len(),
{
    reveal(Seq::filter);
    if s.len() == 0 {
    } else {
        let rest = s.drop_last();
        let last = s.last();
        assert forall|a: int, b: int|
            0 <= a < b < rest.len() implies (#[trigger] rest[a].id) != (#[trigger] rest[b].id) by {
            assert(s[a].id != s[b].id);
        }
        lemma_filter_viewers(rest, pred);
        let kept = s.filter(pred);
        let kept_rest = rest.filter(pred);
        if pred(last) {
            assert(kept == kept_rest.push(last));
            assert forall|k: int|
                0 <= k < kept.len() implies exists|m: int|
                    0 <= m < s.len() && s[m] == #[trigger] kept[k] by {
                if k < kept_rest.len() {
                    let m = choose|m: int| 0 <= m < rest.len() && rest[m] == kept_rest[k];
                    assert(s[m] == kept[k]);
                } else {
                    assert(s[s.len() - 1] == kept[k]);
                }
            }
            assert forall|a: int, b: int|
                0 <= a < b < kept.len() implies (#[trigger] kept[a].id) != (
            #[trigger] kept[b].id) by {
                if b < kept_rest.len() {
                    assert(kept_rest[a].id != kept_rest[b].id);
                } else {
                    let m = choose|m: int| 0 <= m < rest.len() && rest[m] == kept_rest[a];
                    assert(s[m].id != s[s.len() - 1].id);
                }
            }
        } else {
            assert(kept == kept_rest);
            assert forall|k: int|
                0 <= k < kept.len() implies exists|m: int|
                    0 <= m < s.len() && s[m] == #[trigger] kept[k] by {
                let m = choose|m: int| 0 <= m < rest.len() && rest[m] == kept_rest[k];
                assert(s[m] == kept[k]);
            }
        }
    }
}

/// A join keeps the hub well-formed.
pub proof fn lemma_step_join_wf(h: HubView, id: u128)
    requires
        h.wf(),
    ensures
        h.step_join(id).wf(),
{
    broadcast use vstd::seq_lib::group_filter_ensures;

    let pred = |v: ViewerView| v.id != id;
    let kept = h.viewers.filter(pred);
    lemma_filter_viewers(h.viewers, pred);
    let joined = h.step_join(id).viewers;
    assert forall|i: int|
        0 <= i < joined.len() implies {
        &&& (#[trigger] joined[i]).log_queue.len() <= h.cap
        &&& (joined[i].stats_slot matches Some(e) ==> e.is_stats())
        &&& (forall|k: int|
            0 <= k < joined[i].log_queue.len() ==> (#[trigger] joined[i].log_queue[k]).is_log())
    } by {
        if i < kept.len() {
            let m = choose|m: int| 0 <= m < h.viewers.len() && h.viewers[m] == kept[i];
            assert(h.viewers[m].log_queue.len() <= h.cap);
            assert(h.viewers[m].stats_slot matches Some(e) ==> e.is_stats());
            assert(forall|k: int|
                0 <= k < h.viewers[m].log_queue.len() ==> (#[trigger] h.viewers[m].log_queue[k]).is_log());
        }
    }
    assert forall|i: int, j: int|
        0 <= i < j < joined.len() implies (#[trigger] joined[i].id) != (
    #[trigger] joined[j].id) by {
        if j < kept.len() {
            assert(kept[i].id != kept[j].id);
        } else {
            assert(pred(kept[i]));
        }
    }
}

/// A leave keeps the hub well-formed.
pub proof fn lemma_step_leave_wf(h: HubView, id: u128)
    requires
        h.wf(),
    ensures
        h.step_leave(id).wf(),
{
    broadcast use vstd::seq_lib::group_filter_ensures;

    let pred = |v: ViewerView| v.id != id;
    let kept = h.viewers.filter(pred);
    lemma_filter_viewers(h.viewers, pred);
    assert forall|i: int|
        0 <= i < kept.len() implies {
        &&& (#[trigger] kept[i]).log_queue.len() <= h.cap
        &&& (kept[i].stats_slot matches Some(e) ==> e.is_stats())
        &&& (forall|k: int|
            0 <= k < kept[i].log_queue.len() ==> (#[trigger] kept[i].log_queue[k]).is_log())
    } by {
        let m = choose|m: int| 0 <= m < h.viewers.len() && h.viewers[m] == kept[i];
        assert(h.viewers[m].log_queue.len() <= h.cap);
        assert(h.viewers[m].stats_slot matches Some(e) ==> e.is_stats());
        assert(forall|k: int|
            0 <= k < h.viewers[m].log_queue.len() ==> (#[trigger] h.viewers[m].log_queue[k]).is_log());
    }
}

} // verus!
