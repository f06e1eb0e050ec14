//! Inter-hart interrupt (IPI) requests and the send/handle protocol.
use vstd::prelude::*;

use crate::mem::HartData;
use crate::mmio::Mmio;
use crate::platform::QEMU;

verus! {

/// The kind of work that one hart asks of another.
#[derive(Clone, Copy, PartialEq, Eq, Structural, Debug)]
#[allow(non_camel_case_types)]
pub enum IPIReq {
    /// Raise the supervisor software interrupt on the destination.
    S_IPI,
    /// Synchronise the destination's instruction stream.
    FENCE_I,
    /// Flush the destination's address-translation caches.
    SFENCE_VMA,
}


/// Whether hart `d` is in the bitmask `mask`.
pub open spec fn in_mask(mask: u64, d: int) -> bool {
    (mask >> (d as u64)) & 1u64 == 1u64
}

fn mask_has(mask: u64, d: usize) -> (r: bool)
    requires
        d < 64,
    ensures
        r == in_mask(mask, d as int),
{
    (mask >> (d as u64)) & 1u64 == 1u64
}

/// The harts below `n` that `mask` names, in ascending order: the order in
/// which a sender posts requests and then waits on them.
pub fn targets(mask: u64, n: usize) -> (r: Vec<usize>)
    requires
        n <= 64,
    ensures
        forall|i: int| 0 <= i < r@.len() ==> #[trigger] r@[i] < n && in_mask(mask, r@[i] as int),
        forall|i: int, j: int| 0 <= i < j < r@.len() ==> r@[i] < r@[j],
        forall|d: int| 0 <= d < n && in_mask(mask, d) ==> r@.contains(d as usize),
{
    let mut r: Vec<usize> = Vec::new();
    let mut d: usize = 0;
    while d < n
        invariant
            d <= n <= 64,
            forall|i: int| 0 <= i < r@.len() ==> #[trigger] r@[i] < d && in_mask(mask, r@[i] as int),
            forall|i: int, j: int| 0 <= i < j < r@.len() ==> r@[i] < r@[j],
            forall|e: int| 0 <= e < d && in_mask(mask, e) ==> r@.contains(e as usize),
        decreases n - d,
    {
        if mask_has(mask, d) {
            let ghost before = r@;
            r.push(d);
            proof {
                assert(r@ == before.push(d));
                assert forall|e: int| 0 <= e < d + 1 && in_mask(mask, e) implies r@.contains(e as usize) by {
                    if e == d {
                        assert(r@[r@.len() - 1] == e as usize);
                    } else {
                        assert(before.contains(e as usize));
                        let k = choose|k: int| 0 <= k < before.len() && before[k] == e as usize;
                        assert(r@[k] == e as usize);
                    }
                }
            }
        }
        d = d + 1;
    }
    r
}

/// Where a hart stands in sending an IPI.
#[derive(Clone, Copy, PartialEq, Eq, Structural, Debug)]
pub enum SendPhase {
    /// Not sending.
    Idle,
    /// Spinning on the send lock; serves its own incoming request meanwhile.
    Acquiring { mask: u64, req: IPIReq },
    /// Holds the lock; posts the request to the harts of `mask` from `next` on,
    /// in ascending order, serving itself inline.
    Delivering { mask: u64, req: IPIReq, next: usize },
    /// Holds the lock; waits, in ascending order from `next`, until every
    /// destination has served its request.
    Waiting { mask: u64, req: IPIReq, next: usize },
    /// Released the lock after every destination was served; the send has
    /// returned.
    Done,
}

pub open spec fn holds_lock(p: SendPhase) -> bool {
    p is Delivering || p is Waiting
}

pub open spec fn phase_mask(p: SendPhase) -> u64 {
    match p {
        SendPhase::Acquiring { mask, .. } => mask,
        SendPhase::Delivering { mask, .. } => mask,
        SendPhase::Waiting { mask, .. } => mask,
        _ => 0,
    }
}

pub open spec fn phase_req(p: SendPhase) -> IPIReq {
    match p {
        SendPhase::Acquiring { req, .. } => req,
        SendPhase::Delivering { req, .. } => req,
        SendPhase::Waiting { req, .. } => req,
        _ => IPIReq::S_IPI,
    }
}

/// Hart `s`, in phase `p`, has posted a request to hart `d` that `s` has not
/// yet seen served.
pub open spec fn posted(p: SendPhase, s: int, d: int) -> bool {
    match p {
        SendPhase::Delivering { mask, next, .. } => d != s && in_mask(mask, d) && d < next,
        SendPhase::Waiting { mask, next, .. } => d != s && in_mask(mask, d) && d >= next,
        _ => false,
    }
}

/// What a sender observed just before its next decision.
#[derive(Clone, Copy, PartialEq, Eq, Structural, Debug)]
pub enum SendEvent {
    /// The outcome of a test-and-set of the send lock, and whether this
    /// hart's own software interrupt was found raised when the lock was busy.
    Lock { acquired: bool, own_signal: bool },
    /// Whether the slot of the destination being waited on is still pending.
    Slot { pending: bool },
    /// Nothing was observed.
    Nothing,
}

/// What a sender does next.
#[derive(Clone, Copy, PartialEq, Eq, Structural, Debug)]
pub enum SendAction {
    /// Nothing to do but move on.
    Nothing,
    /// Pause, then observe again.
    Spin,
    /// Serve this hart's own pending request (see `serve`).
    ServeOwn,
    /// Carry the request out on this hart, without signalling anyone.
    ExecuteInline(IPIReq),
    /// Write `req` into `dest`'s slot, mark it pending, and raise `dest`'s
    /// software interrupt.
    Post { dest: usize, req: IPIReq },
    /// Release the send lock; the send then returns.
    ReleaseLock,
}

/// The sender's decision, for hart `me` of `n`, in phase `p`, having observed
/// `ev`:
/// - spinning on the lock: take it when the test-and-set succeeded; otherwise
///   serve its own request if its signal is raised (this breaks the cycle of
///   two harts sending to each other), or spin;
/// - delivering: go through the harts in ascending order, serving itself
///   inline and posting to every other hart of the mask; after the last,
///   start waiting;
/// - waiting: go through the harts in ascending order, moving past each one
///   outside the mask, itself, or whose slot is no longer pending; after the
///   last, release the lock.
pub open spec fn sender_step_spec(me: int, n: int, p: SendPhase, ev: SendEvent) -> (SendPhase, SendAction) {
    match p {
        SendPhase::Acquiring { mask, req } => match ev {
            SendEvent::Lock { acquired, own_signal } => if acquired {
                (SendPhase::Delivering { mask, req, next: 0 }, SendAction::Nothing)
            } else if own_signal {
                (p, SendAction::ServeOwn)
            } else {
                (p, SendAction::Spin)
            },
            _ => (p, SendAction::Spin),
        },
        SendPhase::Delivering { mask, req, next } => if next >= n {
            (SendPhase::Waiting { mask, req, next: 0 }, SendAction::Nothing)
        } else if !in_mask(mask, next as int) {
            (SendPhase::Delivering { mask, req, next: (next + 1) as usize }, SendAction::Nothing)
        } else if next == me {
            (SendPhase::Delivering { mask, req, next: (next + 1) as usize }, SendAction::ExecuteInline(req))
        } else {
            (SendPhase::Delivering { mask, req, next: (next + 1) as usize }, SendAction::Post { dest: next, req })
        },
        SendPhase::Waiting { mask, req, next } => if next >= n {
            (SendPhase::Done, SendAction::ReleaseLock)
        } else {
            let pending = match ev {
                SendEvent::Slot { pending } => pending,
                _ => true,
            };
            if !in_mask(mask, next as int) || next == me || !pending {
                (SendPhase::Waiting { mask, req, next: (next + 1) as usize }, SendAction::Nothing)
            } else {
                (p, SendAction::Spin)
            }
        },
        _ => (p, SendAction::Nothing),
    }
}

/// One decision of a sender; the hart carries out the action and observes
/// what the next decision needs.
pub fn sender_step(me: usize, n: usize, p: SendPhase, ev: SendEvent) -> (r: (SendPhase, SendAction))
    requires
        me < n <= 64,
    ensures
        r == sender_step_spec(me as int, n as int, p, ev),
{
    match p {
        SendPhase::Acquiring { mask, req } => match ev {
            SendEvent::Lock { acquired, own_signal } => {
                if acquired {
                    (SendPhase::Delivering { mask, req, next: 0 }, SendAction::Nothing)
                } else if own_signal {
                    (p, SendAction::ServeOwn)
                } else {
                    (p, SendAction::Spin)
                }
            },
            _ => (p, SendAction::Spin),
        },
        SendPhase::Delivering { mask, req, next } => {
            if next >= n {
                (SendPhase::Waiting { mask, req, next: 0 }, SendAction::Nothing)
            } else if !mask_has(mask, next) {
                (SendPhase::Delivering { mask, req, next: next + 1 }, SendAction::Nothing)
            } else if next == me {
                (SendPhase::Delivering { mask, req, next: next + 1 }, SendAction::ExecuteInline(req))
            } else {
                (SendPhase::Delivering { mask, req, next: next + 1 }, SendAction::Post { dest: next, req })
            }
        },
        SendPhase::Waiting { mask, req, next } => {
            if next >= n {
                (SendPhase::Done, SendAction::ReleaseLock)
            } else {
                let pending = match ev {
                    SendEvent::Slot { pending } => pending,
                    _ => true,
                };
                if !mask_has(mask, next) || next == me || !pending {
                    (SendPhase::Waiting { mask, req, next: next + 1 }, SendAction::Nothing)
                } else {
                    (p, SendAction::Spin)
                }
            }
        },
        _ => (p, SendAction::Nothing),
    }
}

/// The destination side, run from the hart's trap path: if its slot is
/// pending, takes the request and frees the slot. The hart then carries the
/// request out, performs the returned store (which clears its software
/// interrupt), and only then publishes the freed slot.
pub fn serve(slot: &mut HartData, platform: &QEMU) -> (r: Option<(IPIReq, Mmio)>)
    requires
        platform.wf(),
    ensures
        old(slot).ipi_pending ==> r == Some((
            old(slot).ipi_req,
            Mmio::W32 { addr: platform.clint.msip_addr(platform.hartid), word: 0 },
        )) && *final(slot) == (HartData { ipi_pending: false, ..*old(slot) }),
        !old(slot).ipi_pending ==> r is None && *final(slot) == *old(slot),
{
    match slot.ipi_handle() {
        Some(req) => Some((req, platform.clear_ipi())),
        None => None,
    }
}

/// All harts of a machine, their control blocks, what each is doing in the
/// IPI protocol, and the global send lock (with the hart that holds it). Each
/// call of `step` is one atomic action of one hart; any interleaving of steps
/// is a possible run of the concurrent protocol.
pub struct IpiSystem {
    pub harts: Vec<HartData>,
    pub phases: Vec<SendPhase>,
    pub lock: Option<usize>,
}

impl IpiSystem {
    pub open spec fn n(&self) -> int {
        self.harts@.len() as int
    }

    /// Hart `h` is delivering or waiting exactly when it holds the lock, and
    /// its position never runs past the harts.
    pub open spec fn phase_ok(&self, h: int) -> bool {
        &&& (holds_lock(self.phases@[h]) <==> self.lock == Some(h as usize))
        &&& match self.phases@[h] {
            SendPhase::Delivering { next, .. } => next <= self.n(),
            SendPhase::Waiting { next, .. } => next <= self.n(),
            _ => true,
        }
    }

    /// Hart `d`'s slot is pending only if the lock holder posted into it a
    /// request of the kind it is sending, `d` being in its mask and not the
    /// holder itself.
    pub open spec fn slot_ok(&self, d: int) -> bool {
        self.harts@[d].ipi_pending ==> {
            &&& self.lock is Some
            &&& posted(self.phases@[self.lock->0 as int], self.lock->0 as int, d)
            &&& self.harts@[d].ipi_req == phase_req(self.phases@[self.lock->0 as int])
        }
    }

    /// The protocol's invariant.
    pub open spec fn wf(&self) -> bool {
        &&& 1 <= self.n() <= 64
        &&& self.phases@.len() == self.n()
        &&& self.lock matches Some(s) ==> s < self.n()
        &&& forall|h: int| 0 <= h < self.n() ==> #[trigger] self.phase_ok(h)
        &&& forall|d: int| 0 <= d < self.n() ==> #[trigger] self.slot_ok(d)
    }

    /// What hart `h` observes before its next decision.
    pub open spec fn event_of(&self, h: int) -> SendEvent {
        match self.phases@[h] {
            SendPhase::Acquiring { .. } => SendEvent::Lock {
                acquired: self.lock is None,
                own_signal: self.harts@[h].ipi_pending,
            },
            SendPhase::Waiting { next, .. } => SendEvent::Slot {
                pending: next < self.n() && self.harts@[next as int].ipi_pending,
            },
            _ => SendEvent::Nothing,
        }
    }

    /// What one step of hart `h` does: the harts' control blocks, the phases
    /// and the lock afterwards, and the request `h` carried out. A hart that
    /// is not sending serves its own slot (its trap path); a sender takes the
    /// decision `sender_step_spec` on what it observes and carries out its
    /// action.
    pub open spec fn step_spec(&self, h: int) -> (Seq<HartData>, Seq<SendPhase>, Option<usize>, Option<IPIReq>) {
        let hs = self.harts@;
        let ps = self.phases@;
        let serve = if hs[h].ipi_pending {
            (hs.update(h, HartData { ipi_pending: false, ..hs[h] }), ps, self.lock, Some(hs[h].ipi_req))
        } else {
            (hs, ps, self.lock, None)
        };
        if ps[h] is Idle || ps[h] is Done {
            serve
        } else {
            let (p2, a) = sender_step_spec(h, self.n(), ps[h], self.event_of(h));
            let ps2 = ps.update(h, p2);
            match a {
                SendAction::ServeOwn => serve,
                SendAction::ExecuteInline(k) => (hs, ps2, self.lock, Some(k)),
                SendAction::Post { dest, req } => (
                    hs.update(dest as int, HartData { ipi_req: req, ipi_pending: true, ..hs[dest as int] }),
                    ps2,
                    self.lock,
                    None,
                ),
                SendAction::ReleaseLock => (hs, ps2, None, None),
                SendAction::Spin => (hs, ps, self.lock, None),
                SendAction::Nothing => (
                    hs,
                    ps2,
                    if ps[h] is Acquiring {
                        Some(h as usize)
                    } else {
                        self.lock
                    },
                    None,
                ),
            }
        }
    }

    /// `n` harts, none of them sending, every slot empty.
    pub fn new(n: usize) -> (r: IpiSystem)
        requires
            1 <= n <= 64,
        ensures
            r.wf(),
            r.n() == n,
            r.lock is None,
            forall|h: int| 0 <= h < n ==> r.phases@[h] == SendPhase::Idle,
            forall|h: int| 0 <= h < n ==> !r.harts@[h].ipi_pending,
    {
        let mut harts: Vec<HartData> = Vec::new();
        let mut phases: Vec<SendPhase> = Vec::new();
        let mut i: usize = 0;
        while i < n
            invariant
                i <= n,
                harts@.len() == i,
                phases@.len() == i,
                forall|h: int| 0 <= h < i ==> phases@[h] == SendPhase::Idle,
                forall|h: int| 0 <= h < i ==> !harts@[h].ipi_pending,
            decreases n - i,
        {
            harts.push(HartData::new());
            phases.push(SendPhase::Idle);
            i = i + 1;
        }
        let r = IpiSystem { harts, phases, lock: None };
        assert forall|h: int| 0 <= h < r.n() implies #[trigger] r.phase_ok(h) by {}
        assert forall|d: int| 0 <= d < r.n() implies #[trigger] r.slot_ok(d) by {}
        r
    }

    /// Hart `h` starts sending `req` to the harts of `mask` (harts beyond the
    /// machine are ignored).
    pub fn begin_send(&mut self, h: usize, mask: u64, req: IPIReq)
        requires
            old(self).wf(),
            h < old(self).n(),
            old(self).phases@[h as int] is Idle || old(self).phases@[h as int] is Done,
        ensures
            final(self).wf(),
            final(self).harts@ == old(self).harts@,
            final(self).lock == old(self).lock,
            final(self).phases@ == old(self).phases@.update(h as int, SendPhase::Acquiring { mask, req }),
    {
        proof {
            assert(old(self).phase_ok(h as int));
        }
        self.phases.set(h, SendPhase::Acquiring { mask, req });
        proof {
            assert forall|g: int| 0 <= g < self.n() implies #[trigger] self.phase_ok(g) by {
                assert(old(self).phase_ok(g));
            }
            assert forall|d: int| 0 <= d < self.n() implies #[trigger] self.slot_ok(d) by {
                assert(old(self).slot_ok(d));
            }
        }
    }

    /// Hart `h` sends `req` to the harts of `mask` while every other hart
    /// runs its trap path: each round, every hart takes one step, in
    /// ascending order, until the send returns. It returns the rounds taken,
    /// at most `n * (3n + 4)`, and the log of requests carried out, as
    /// (hart, request): every hart of the mask carried `req` out exactly
    /// once (the sender inline, every other hart by serving its slot) and no
    /// other hart carried anything out. By then every slot is clear and the
    /// lock is free.
    pub fn send_ipi(&mut self, h: usize, mask: u64, req: IPIReq) -> (r: (usize, Vec<(usize, IPIReq)>))
        requires
            old(self).wf(),
            h < old(self).n(),
            forall|g: int| 0 <= g < old(self).n() ==> (#[trigger] old(self).phases@[g] is Idle || old(self).phases@[g] is Done),
        ensures
            final(self).wf(),
            final(self).n() == old(self).n(),
            final(self).phases@[h as int] is Done,
            forall|g: int| 0 <= g < final(self).n() && g != h ==> #[trigger] final(self).phases@[g] == old(self).phases@[g],
            forall|d: int| 0 <= d < final(self).n() ==> !(#[trigger] final(self).harts@[d]).ipi_pending,
            final(self).lock is None,
            r.0 <= old(self).n() * (3 * old(self).n() + 4),
            forall|i: int| 0 <= i < r.1@.len() ==> (#[trigger] r.1@[i]).1 == req && r.1@[i].0 < old(self).n(),
            forall|d: int| 0 <= d < old(self).n() ==> #[trigger] times(r.1@, d) == if in_mask(mask, d) {
                1int
            } else {
                0
            },
            // A send to oneself alone touches no hart's slot and is carried
            // out once, inline, by the sender.
            mask == 1u64 << (h as u64) ==> final(self).harts@ == old(self).harts@,
            mask == 1u64 << (h as u64) ==> forall|d: int|
                0 <= d < old(self).n() ==> #[trigger] times(r.1@, d) == if d == h {
                    1int
                } else {
                    0
                },
    {
        let ghost p0 = self.phases@;
        let ghost h0 = self.harts@;
        let ghost self_only = mask == 1u64 << (h as u64);
        proof {
            if self.lock is Some {
                let s = self.lock->0 as int;
                assert(self.phase_ok(s));
            }
            assert forall|d: int| 0 <= d < self.n() implies !(#[trigger] self.harts@[d]).ipi_pending by {
                assert(self.slot_ok(d));
            }
        }
        self.begin_send(h, mask, req);
        let n = self.harts.len();
        let ghost m0 = measure(self.harts@, self.phases@);
        proof {
            lemma_step_lowers_measure(*self, h as int);
        }
        let mut rounds: usize = 0;
        let mut log: Vec<(usize, IPIReq)> = Vec::new();
        while !self.is_done(h)
            invariant
                self.wf(),
                self.n() == n,
                h < n,
                p0.len() == n,
                forall|g: int| 0 <= g < n && g != h ==> #[trigger] self.phases@[g] == p0[g],
                forall|g: int| 0 <= g < n ==> (#[trigger] p0[g] is Idle || p0[g] is Done),
                !(self.phases@[h as int] is Idle),
                self_only ==> self.harts@ == h0,
                self_only == (mask == 1u64 << (h as u64)),
                self_only && !(self.phases@[h as int] is Done) ==> phase_mask(self.phases@[h as int]) == mask,
                !(self.phases@[h as int] is Done) ==> phase_mask(self.phases@[h as int]) == mask && phase_req(
                    self.phases@[h as int],
                ) == req,
                forall|i: int| 0 <= i < log@.len() ==> (#[trigger] log@[i]).1 == req && log@[i].0 < n,
                forall|d: int| 0 <= d < n ==> #[trigger] times(log@, d) == served_bit(
                    self.phases@[h as int],
                    mask,
                    h as int,
                    d,
                    self.harts@[d].ipi_pending,
                ),
                forall|d: int| 0 <= d < n ==> !(#[trigger] h0[d]).ipi_pending,
                h0.len() == n,
                0 <= measure(self.harts@, self.phases@),
                rounds + measure(self.harts@, self.phases@) <= m0,
                m0 <= n * (3 * n + 4),
            decreases measure(self.harts@, self.phases@),
        {
            let ghost s0 = *self;
            let ghost m_start = measure(self.harts@, self.phases@);
            let mut g: usize = 0;
            while g < n
                invariant
                    self.wf(),
                    self.n() == n,
                    h < n,
                    g <= n,
                    s0.wf(),
                    s0.n() == n,
                    !(s0.phases@[h as int] is Idle || s0.phases@[h as int] is Done),
                    p0.len() == n,
                    forall|k: int| 0 <= k < n && k != h ==> #[trigger] self.phases@[k] == p0[k],
                    forall|k: int| 0 <= k < n ==> (#[trigger] p0[k] is Idle || p0[k] is Done),
                    !(self.phases@[h as int] is Idle),
                    self_only ==> self.harts@ == h0,
                    self_only == (mask == 1u64 << (h as u64)),
                    self_only && !(self.phases@[h as int] is Done) ==> phase_mask(self.phases@[h as int]) == mask,
                    !(self.phases@[h as int] is Done) ==> phase_mask(self.phases@[h as int]) == mask && phase_req(
                        self.phases@[h as int],
                    ) == req,
                    forall|i: int| 0 <= i < log@.len() ==> (#[trigger] log@[i]).1 == req && log@[i].0 < n,
                    forall|d: int| 0 <= d < n ==> #[trigger] times(log@, d) == served_bit(
                        self.phases@[h as int],
                        mask,
                        h as int,
                        d,
                        self.harts@[d].ipi_pending,
                    ),
                    forall|d: int| 0 <= d < n ==> !(#[trigger] h0[d]).ipi_pending,
                    h0.len() == n,
                    0 <= measure(self.harts@, self.phases@),
                    measure(self.harts@, self.phases@) <= m_start,
                    m_start == measure(s0.harts@, s0.phases@),
                    (self.harts@, self.phases@, self.lock) != (s0.harts@, s0.phases@, s0.lock) ==> measure(
                        self.harts@,
                        self.phases@,
                    ) < m_start,
                    (self.harts@, self.phases@, self.lock) == (s0.harts@, s0.phases@, s0.lock) ==> forall|k: int|
                        0 <= k < g ==> {
                            let (hs, ps, l, _) = #[trigger] s0.step_spec(k);
                            (hs, ps, l) == (s0.harts@, s0.phases@, s0.lock)
                        },
                decreases n - g,
            {
                let ghost before = *self;
                proof {
                    lemma_step_lowers_measure(*self, g as int);
                    assert(self.phase_ok(h as int));
                    if self_only && g == h && !(self.phases@[h as int] is Done) {
                        lemma_self_send_posts_nothing(*self, h as int);
                    }
                    lemma_served_step(*self, h as int, g as int, mask, req);
                }
                let done = self.step(g);
                let ghost log0 = log@;
                match done {
                    Some(k) => {
                        log.push((g, k));
                    },
                    None => {},
                }
                proof {
                    assert forall|d: int| 0 <= d < n implies #[trigger] times(log@, d) == served_bit(
                        self.phases@[h as int],
                        mask,
                        h as int,
                        d,
                        self.harts@[d].ipi_pending,
                    ) by {
                        let (hs, ps, l, rr) = before.step_spec(g as int);
                        assert(self.harts@ == hs && self.phases@ == ps && done == rr);
                        assert(times(log0, d) == served_bit(
                            before.phases@[h as int],
                            mask,
                            h as int,
                            d,
                            before.harts@[d].ipi_pending,
                        ));
                        if done is Some {
                            assert(log@.drop_last() =~= log0);
                            assert(times(log@, d) == times(log0, d) + if g == d {
                                1int
                            } else {
                                0
                            });
                        } else {
                            assert(log@ == log0);
                        }
                    }
                }
                proof {
                    if self_only {
                        assert forall|d: int| 0 <= d < n implies #[trigger] self.harts@[d] == h0[d] by {
                            assert(before.harts@[d] == h0[d]);
                            if d != g {
                                if g == h && !(before.phases@[h as int] is Done) {
                                    assert(before.step_spec(h as int).0[d] == before.harts@[d]);
                                }
                            }
                        }
                        assert(self.harts@ =~= h0);
                    }
                }
                proof {
                    lemma_step_lowers_measure(*self, g as int);
                    if (self.harts@, self.phases@, self.lock) == (s0.harts@, s0.phases@, s0.lock) {
                        if (before.harts@, before.phases@, before.lock) != (s0.harts@, s0.phases@, s0.lock) {
                            // The measure dropped below the start and came back: impossible.
                            assert(measure(before.harts@, before.phases@) < m_start);
                        }
                        assert(before.step_spec(g as int) == s0.step_spec(g as int));
                    }
                }
                g = g + 1;
            }
            proof {
                if (self.harts@, self.phases@, self.lock) == (s0.harts@, s0.phases@, s0.lock) {
                    lemma_no_deadlock(s0, h as int);
                    let k = choose|k: int|
                        0 <= k < s0.n() && {
                            let (hs, ps, l, _) = #[trigger] s0.step_spec(k);
                            (hs, ps, l) != (s0.harts@, s0.phases@, s0.lock)
                        };
                    assert(s0.step_spec(k).0 == s0.harts@);
                }
            }
            proof {
                assert(n * (3 * n + 4) <= 64 * (3 * 64 + 4)) by (nonlinear_arith)
                    requires
                        n <= 64,
                ;
            }
            rounds = rounds + 1;
        }
        proof {
            if self.lock is Some {
                let s = self.lock->0 as int;
                assert(self.phase_ok(s));
            }
            assert forall|d: int| 0 <= d < self.n() implies !(#[trigger] self.harts@[d]).ipi_pending by {
                assert(self.slot_ok(d));
            }
            if self_only {
                assert forall|d: int| 0 <= d < n implies #[trigger] times(log@, d) == if d == h {
                    1int
                } else {
                    0
                } by {
                    lemma_self_only_mask(h as u64, d as u64);
                }
            }
        }
        (rounds, log)
    }

    /// Whether every sender of `sends` has finished.
    pub fn all_done(&self, sends: &Vec<(usize, u64, IPIReq)>) -> (r: bool)
        requires
            forall|j: int| 0 <= j < sends@.len() ==> (#[trigger] sends@[j]).0 < self.phases@.len(),
        ensures
            r == forall|j: int| 0 <= j < sends@.len() ==> (#[trigger] self.phases@[sends@[j].0 as int]) is Done,
    {
        let mut j: usize = 0;
        while j < sends.len()
            invariant
                j <= sends@.len(),
                forall|k: int| 0 <= k < sends@.len() ==> (#[trigger] sends@[k]).0 < self.phases@.len(),
                forall|k: int| 0 <= k < j ==> (#[trigger] self.phases@[sends@[k].0 as int]) is Done,
            decreases sends@.len() - j,
        {
            if !self.is_done(sends[j].0) {
                return false;
            }
            j = j + 1;
        }
        true
    }

    /// Several harts send at once, each `(hart, mask, request)` of `sends`,
    /// the senders distinct and their masks disjoint, while every other hart
    /// runs its trap path: each round, every hart takes one step, in
    /// ascending order, until every send has returned. It returns the rounds
    /// taken, at most `n * (3n + 4)`, and the log of requests carried out, as
    /// (hart, sender, request): every hart of each sender's mask carried that
    /// sender's request out exactly once, and nothing else was carried out.
    /// By then every slot is clear and the lock is free.
    pub fn send_all(&mut self, sends: &Vec<(usize, u64, IPIReq)>) -> (r: (usize, Vec<(usize, usize, IPIReq)>))
        requires
            old(self).wf(),
            forall|g: int| 0 <= g < old(self).n() ==> (#[trigger] old(self).phases@[g] is Idle || old(self).phases@[g] is Done),
            sends_ok(sends@, old(self).n()),
        ensures
            final(self).wf(),
            final(self).n() == old(self).n(),
            forall|j: int| 0 <= j < sends@.len() ==> (#[trigger] final(self).phases@[sends@[j].0 as int]) is Done,
            forall|g: int| 0 <= g < old(self).n() && !is_sender(sends@, g) ==> #[trigger] final(self).phases@[g] == old(self).phases@[g],
            forall|d: int| 0 <= d < final(self).n() ==> !(#[trigger] final(self).harts@[d]).ipi_pending,
            final(self).lock is None,
            r.0 <= old(self).n() * (3 * old(self).n() + 4),
            forall|i: int| 0 <= i < r.1@.len() ==> (#[trigger] r.1@[i]).0 < old(self).n(),
            forall|i: int, j: int|
                0 <= i < r.1@.len() && 0 <= j < sends@.len() && (#[trigger] r.1@[i]).1 == (#[trigger] sends@[j]).0
                    ==> r.1@[i].2 == sends@[j].2,
            forall|j: int, d: int|
                0 <= j < sends@.len() && 0 <= d < old(self).n() ==> #[trigger] times_from(r.1@, d, (#[trigger] sends@[j]).0 as int)
                    == if in_mask(sends@[j].1, d) {
                    1int
                } else {
                    0
                },
    {
        let ghost p0 = self.phases@;
        let ghost ss = sends@;
        let n = self.harts.len();
        let mut j: usize = 0;
        while j < sends.len()
            invariant
                self.wf(),
                self.n() == n,
                ss == sends@,
                sends_ok(ss, n as int),
                j <= ss.len(),
                p0.len() == n,
                forall|g: int| 0 <= g < n ==> (#[trigger] p0[g] is Idle || p0[g] is Done),
                forall|g: int| 0 <= g < n && !is_sender(ss, g) ==> #[trigger] self.phases@[g] == p0[g],
                forall|k: int| j <= k < ss.len() ==> #[trigger] self.phases@[ss[k].0 as int] == p0[ss[k].0 as int],
                forall|k: int| 0 <= k < j ==> #[trigger] self.phases@[ss[k].0 as int] == (SendPhase::Acquiring {
                    mask: ss[k].1,
                    req: ss[k].2,
                }),
            decreases ss.len() - j,
        {
            let (h, mask, req) = sends[j];
            proof {
                assert(ss[j as int].0 == h);
                assert(self.phases@[h as int] == p0[h as int]);
            }
            self.begin_send(h, mask, req);
            proof {
                assert forall|k: int| j + 1 <= k < ss.len() implies #[trigger] self.phases@[ss[k].0 as int]
                    == p0[ss[k].0 as int] by {
                    assert(ss[k].0 != ss[j as int].0);
                }
                assert forall|k: int| 0 <= k < j + 1 implies #[trigger] self.phases@[ss[k].0 as int] == (
                SendPhase::Acquiring { mask: ss[k].1, req: ss[k].2 }) by {
                    if k < j {
                        assert(ss[k].0 != ss[j as int].0);
                    }
                }
                assert forall|g: int| 0 <= g < n && !is_sender(ss, g) implies #[trigger] self.phases@[g] == p0[g] by {
                    assert(g != ss[j as int].0);
                }
            }
            j = j + 1;
        }
        let ghost m0 = measure(self.harts@, self.phases@);
        proof {
            lemma_step_lowers_measure(*self, 0);
            if self.lock is Some {
                assert(self.phase_ok(self.lock->0 as int));
                assert(is_sender(ss, self.lock->0 as int));
            }
            assert forall|d: int| 0 <= d < n implies !(#[trigger] self.harts@[d]).ipi_pending by {
                assert(self.slot_ok(d));
            }
        }
        let mut rounds: usize = 0;
        let mut log: Vec<(usize, usize, IPIReq)> = Vec::new();
        while !self.all_done(sends)
            invariant
                self.wf(),
                self.n() == n,
                ss == sends@,
                sends_ok(ss, n as int),
                p0.len() == n,
                forall|g: int| 0 <= g < n ==> (#[trigger] p0[g] is Idle || p0[g] is Done),
                forall|g: int| 0 <= g < n && !is_sender(ss, g) ==> #[trigger] self.phases@[g] == p0[g],
                forall|k: int| 0 <= k < ss.len() ==> !(#[trigger] self.phases@[ss[k].0 as int] is Idle),
                forall|k: int|
                    0 <= k < ss.len() && !(#[trigger] self.phases@[ss[k].0 as int] is Done) ==> phase_mask(
                        self.phases@[ss[k].0 as int],
                    ) == ss[k].1 && phase_req(self.phases@[ss[k].0 as int]) == ss[k].2,
                forall|i: int| 0 <= i < log@.len() ==> (#[trigger] log@[i]).0 < n,
                forall|i: int, k: int|
                    0 <= i < log@.len() && 0 <= k < ss.len() && (#[trigger] log@[i]).1 == (#[trigger] ss[k]).0
                        ==> log@[i].2 == ss[k].2,
                forall|k: int, d: int|
                    0 <= k < ss.len() && 0 <= d < n ==> #[trigger] times_from(log@, d, (#[trigger] ss[k]).0 as int)
                        == served_bit(self.phases@[ss[k].0 as int], ss[k].1, ss[k].0 as int, d, self.harts@[d].ipi_pending),
                0 <= measure(self.harts@, self.phases@),
                rounds + measure(self.harts@, self.phases@) <= m0,
                m0 <= n * (3 * n + 4),
            decreases measure(self.harts@, self.phases@),
        {
            let ghost s0 = *self;
            let ghost m_start = measure(self.harts@, self.phases@);
            let ghost busy = choose|k: int| 0 <= k < ss.len() && !(self.phases@[ss[k].0 as int] is Done);
            let mut g: usize = 0;
            while g < n
                invariant
                    self.wf(),
                    self.n() == n,
                    g <= n,
                    ss == sends@,
                    sends_ok(ss, n as int),
                    s0.wf(),
                    s0.n() == n,
                    0 <= busy < ss.len(),
                    !(s0.phases@[ss[busy].0 as int] is Idle || s0.phases@[ss[busy].0 as int] is Done),
                    p0.len() == n,
                    forall|k: int| 0 <= k < n ==> (#[trigger] p0[k] is Idle || p0[k] is Done),
                    forall|k: int| 0 <= k < n && !is_sender(ss, k) ==> #[trigger] self.phases@[k] == p0[k],
                    forall|k: int| 0 <= k < ss.len() ==> !(#[trigger] self.phases@[ss[k].0 as int] is Idle),
                    forall|k: int|
                        0 <= k < ss.len() && !(#[trigger] self.phases@[ss[k].0 as int] is Done) ==> phase_mask(
                            self.phases@[ss[k].0 as int],
                        ) == ss[k].1 && phase_req(self.phases@[ss[k].0 as int]) == ss[k].2,
                    forall|i: int| 0 <= i < log@.len() ==> (#[trigger] log@[i]).0 < n,
                    forall|i: int, k: int|
                        0 <= i < log@.len() && 0 <= k < ss.len() && (#[trigger] log@[i]).1 == (#[trigger] ss[k]).0
                            ==> log@[i].2 == ss[k].2,
                    forall|k: int, d: int|
                        0 <= k < ss.len() && 0 <= d < n ==> #[trigger] times_from(log@, d, (#[trigger] ss[k]).0 as int)
                            == served_bit(self.phases@[ss[k].0 as int], ss[k].1, ss[k].0 as int, d, self.harts@[d].ipi_pending),
                    0 <= measure(self.harts@, self.phases@),
                    measure(self.harts@, self.phases@) <= m_start,
                    m_start == measure(s0.harts@, s0.phases@),
                    (self.harts@, self.phases@, self.lock) != (s0.harts@, s0.phases@, s0.lock) ==> measure(
                        self.harts@,
                        self.phases@,
                    ) < m_start,
                    (self.harts@, self.phases@, self.lock) == (s0.harts@, s0.phases@, s0.lock) ==> forall|k: int|
                        0 <= k < g ==> {
                            let (hs, ps, l, _) = #[trigger] s0.step_spec(k);
                            (hs, ps, l) == (s0.harts@, s0.phases@, s0.lock)
                        },
                decreases n - g,
            {
                let ghost before = *self;
                let ghost log0 = log@;
                proof {
                    lemma_step_lowers_measure(*self, g as int);
                    assert forall|k: int| 0 <= k < ss.len() implies {
                        let (hs, ps, l, r) = before.step_spec(g as int);
                        let snd = (#[trigger] ss[k]).0 as int;
                        &&& (r is Some && author(before.lock, g as int) == snd) ==> r == Some(ss[k].2)
                        &&& !(ps[snd] is Idle)
                        &&& !(ps[snd] is Done) ==> phase_mask(ps[snd]) == ss[k].1 && phase_req(ps[snd]) == ss[k].2
                        &&& forall|d: int|
                            0 <= d < n ==> #[trigger] served_bit(ps[snd], ss[k].1, snd, d, hs[d].ipi_pending)
                                == served_bit(before.phases@[snd], ss[k].1, snd, d, before.harts@[d].ipi_pending)
                                + if r is Some && d == g && author(before.lock, g as int) == snd {
                                1int
                            } else {
                                0
                            }
                    } by {
                        let snd = ss[k].0 as int;
                        assert(ss[k] == sends@[k]);
                        assert forall|q: int|
                            0 <= q < n && q != snd && !(#[trigger] before.phases@[q] is Idle || before.phases@[q] is Done)
                                implies disjoint(phase_mask(before.phases@[q]), ss[k].1) by {
                            assert(is_sender(ss, q));
                            let k2 = choose|k2: int| 0 <= k2 < ss.len() && #[trigger] ss[k2].0 == q;
                            assert(ss[k2].0 == q);
                            assert(k2 != k);
                        }
                        lemma_served_step_among(before, snd, g as int, ss[k].1, ss[k].2);
                    }
                }
                let tag = match self.lock {
                    Some(x) => x,
                    None => g,
                };
                let done = self.step(g);
                match done {
                    Some(kind) => {
                        log.push((g, tag, kind));
                    },
                    None => {},
                }
                proof {
                    let (hs, ps, l, rr) = before.step_spec(g as int);
                    assert(self.harts@ == hs && self.phases@ == ps && done == rr);
                    assert(tag == author(before.lock, g as int));
                    assert forall|k: int, d: int| 0 <= k < ss.len() && 0 <= d < n implies #[trigger] times_from(
                        log@,
                        d,
                        (#[trigger] ss[k]).0 as int,
                    ) == served_bit(self.phases@[ss[k].0 as int], ss[k].1, ss[k].0 as int, d, self.harts@[d].ipi_pending) by {
                        let snd = ss[k].0 as int;
                        let _ = before.step_spec(g as int);
                        assert(served_bit(ps[snd], ss[k].1, snd, d, hs[d].ipi_pending) == served_bit(
                            before.phases@[snd],
                            ss[k].1,
                            snd,
                            d,
                            before.harts@[d].ipi_pending,
                        ) + if rr is Some && d == g && author(before.lock, g as int) == snd {
                            1int
                        } else {
                            0
                        });
                        assert(times_from(log0, d, snd) == served_bit(
                            before.phases@[snd],
                            ss[k].1,
                            snd,
                            d,
                            before.harts@[d].ipi_pending,
                        ));
                        if done is Some {
                            assert(log@.drop_last() =~= log0);
                        } else {
                            assert(log@ == log0);
                        }
                    }
                    assert forall|i: int, k: int|
                        0 <= i < log@.len() && 0 <= k < ss.len() && (#[trigger] log@[i]).1 == (#[trigger] ss[k]).0
                            implies log@[i].2 == ss[k].2 by {
                        if i < log0.len() {
                            assert(log@[i] == log0[i]);
                        } else {
                            let _ = before.step_spec(g as int);
                        }
                    }
                    assert forall|i: int| 0 <= i < log@.len() implies (#[trigger] log@[i]).0 < n by {
                        if i < log0.len() {
                            assert(log@[i] == log0[i]);
                        }
                    }
                    assert forall|q: int| 0 <= q < ss.len() implies !(#[trigger] self.phases@[ss[q].0 as int] is Idle) by {
                        let _ = before.step_spec(g as int);
                    }
                    assert forall|q: int|
                        0 <= q < ss.len() && !(#[trigger] self.phases@[ss[q].0 as int] is Done) implies phase_mask(
                            self.phases@[ss[q].0 as int],
                        ) == ss[q].1 && phase_req(self.phases@[ss[q].0 as int]) == ss[q].2 by {
                        let _ = before.step_spec(g as int);
                    }
                    assert forall|q: int| 0 <= q < n && !is_sender(ss, q) implies #[trigger] self.phases@[q] == p0[q] by {
                        assert(before.phases@[q] == p0[q]);
                        assert(before.phase_ok(q));
                    }
                    lemma_step_lowers_measure(*self, g as int);
                    if (self.harts@, self.phases@, self.lock) == (s0.harts@, s0.phases@, s0.lock) {
                        if (before.harts@, before.phases@, before.lock) != (s0.harts@, s0.phases@, s0.lock) {
                            assert(measure(before.harts@, before.phases@) < m_start);
                        }
                        assert(before.step_spec(g as int) == s0.step_spec(g as int));
                    }
                }
                g = g + 1;
            }
            proof {
                if (self.harts@, self.phases@, self.lock) == (s0.harts@, s0.phases@, s0.lock) {
                    lemma_no_deadlock(s0, ss[busy].0 as int);
                    let k = choose|k: int|
                        0 <= k < s0.n() && {
                            let (hs, ps, l, _) = #[trigger] s0.step_spec(k);
                            (hs, ps, l) != (s0.harts@, s0.phases@, s0.lock)
                        };
                    assert(s0.step_spec(k).0 == s0.harts@);
                }
                assert(n * (3 * n + 4) <= 64 * (3 * 64 + 4)) by (nonlinear_arith)
                    requires
                        n <= 64,
                ;
            }
            rounds = rounds + 1;
        }
        proof {
            if self.lock is Some {
                let s = self.lock->0 as int;
                assert(self.phase_ok(s));
                if is_sender(ss, s) {
                    let k = choose|k: int| 0 <= k < ss.len() && #[trigger] ss[k].0 == s;
                    assert(self.phases@[ss[k].0 as int] is Done);
                }
            }
            assert forall|d: int| 0 <= d < self.n() implies !(#[trigger] self.harts@[d]).ipi_pending by {
                assert(self.slot_ok(d));
            }
            assert forall|k: int, d: int| 0 <= k < ss.len() && 0 <= d < n implies #[trigger] times_from(
                log@,
                d,
                (#[trigger] sends@[k]).0 as int,
            ) == if in_mask(sends@[k].1, d) {
                1int
            } else {
                0
            } by {
                assert(ss[k] == sends@[k]);
                assert(self.phases@[ss[k].0 as int] is Done);
            }
        }
        (rounds, log)
    }

    /// Whether hart `h` has finished its send.
    pub fn is_done(&self, h: usize) -> (r: bool)
        requires
            h < self.phases@.len(),
        ensures
            r == (self.phases@[h as int] is Done),
    {
        match self.phases[h] {
            SendPhase::Done => true,
            _ => false,
        }
    }

    /// One atomic action of hart `h`. Returns the request that `h` carried
    /// out in this step, if any.
    ///
    /// - Not sending, or spinning on the lock: serve its own pending request if
    ///   there is one (the spinning sender's self-service breaks the cycle of
    ///   two harts sending to each other); a spinning sender that finds the
    ///   lock free takes it instead.
    /// - Delivering: serve itself inline, or post into the next destination's
    ///   slot; after the last hart, start waiting.
    /// - Waiting: move past the next destination once its slot is clear; after
    ///   the last hart, release the lock.
    pub fn step(&mut self, h: usize) -> (r: Option<IPIReq>)
        requires
            old(self).wf(),
            h < old(self).n(),
        ensures
            final(self).wf(),
            final(self).n() == old(self).n(),
            (final(self).harts@, final(self).phases@, final(self).lock, r) == old(self).step_spec(h as int),
            // A request carried out is the one meant for this hart by the
            // lock holder that targeted it.
            r matches Some(k) ==> (old(self).lock matches Some(s) && in_mask(
                phase_mask(old(self).phases@[s as int]),
                h as int,
            ) && k == phase_req(old(self).phases@[s as int])),
            // A send returns only once no slot is pending.
            !(old(self).phases@[h as int] is Done) && final(self).phases@[h as int] is Done
                ==> forall|d: int| 0 <= d < final(self).n() ==> !(#[trigger] final(self).harts@[d]).ipi_pending,
            // Only a delivering hart fills a slot, only for a hart of its
            // mask, and never its own.
            forall|d: int|
                0 <= d < old(self).n() && !old(self).harts@[d].ipi_pending && (
                #[trigger] final(self).harts@[d]).ipi_pending ==> d != h && old(
                self,
            ).phases@[h as int] is Delivering && in_mask(phase_mask(old(self).phases@[h as int]), d),
            // Other harts' phases do not change.
            forall|g: int| 0 <= g < old(self).n() && g != h ==> #[trigger] final(self).phases@[g] == old(self).phases@[g],
    {
        let n = self.harts.len();
        proof {
            assert(self.phase_ok(h as int));
        }
        let phase = self.phases[h];
        match phase {
            SendPhase::Idle | SendPhase::Done => self.serve_own(h),
            SendPhase::Acquiring { .. } => {
                let ev = SendEvent::Lock {
                    acquired: self.lock.is_none(),
                    own_signal: self.harts[h].ipi_pending,
                };
                let (p2, a) = sender_step(h, n, phase, ev);
                match a {
                    SendAction::ServeOwn => self.serve_own(h),
                    SendAction::Spin => None,
                    _ => {
                        self.lock = Some(h);
                        self.phases.set(h, p2);
                        proof {
                            assert forall|g: int| 0 <= g < self.n() implies #[trigger] self.phase_ok(g) by {
                                assert(old(self).phase_ok(g));
                            }
                            assert forall|d: int| 0 <= d < self.n() implies #[trigger] self.slot_ok(d) by {
                                assert(old(self).slot_ok(d));
                            }
                        }
                        None
                    },
                }
            },
            SendPhase::Delivering { next, .. } => {
                let (p2, a) = sender_step(h, n, phase, SendEvent::Nothing);
                match a {
                    SendAction::Post { dest, req } => {
                        proof {
                            assert(old(self).slot_ok(next as int));
                        }
                        let mut slot = self.harts[dest];
                        slot.ipi_set(req);
                        self.harts.set(dest, slot);
                        self.phases.set(h, p2);
                        proof {
                            self.lemma_holder_advances(*old(self), h as int);
                        }
                        None
                    },
                    SendAction::ExecuteInline(k) => {
                        // The sender is its own destination: served inline,
                        // with no slot and no signal.
                        self.phases.set(h, p2);
                        proof {
                            self.lemma_holder_advances(*old(self), h as int);
                        }
                        Some(k)
                    },
                    _ => {
                        self.phases.set(h, p2);
                        proof {
                            self.lemma_holder_advances(*old(self), h as int);
                        }
                        None
                    },
                }
            },
            SendPhase::Waiting { next, .. } => {
                let ev = SendEvent::Slot { pending: next < n && !self.harts[next].ipi_wait() };
                let (p2, a) = sender_step(h, n, phase, ev);
                match a {
                    SendAction::ReleaseLock => {
                        self.lock = None;
                        self.phases.set(h, p2);
                        proof {
                            assert forall|g: int| 0 <= g < self.n() implies #[trigger] self.phase_ok(g) by {
                                assert(old(self).phase_ok(g));
                            }
                            assert forall|d: int| 0 <= d < self.n() implies !(#[trigger] self.harts@[d]).ipi_pending by {
                                assert(old(self).slot_ok(d));
                            }
                            assert forall|d: int| 0 <= d < self.n() implies #[trigger] self.slot_ok(d) by {
                                assert(old(self).slot_ok(d));
                            }
                        }
                        None
                    },
                    SendAction::Spin => None,
                    _ => {
                        proof {
                            assert(old(self).slot_ok(next as int));
                        }
                        self.phases.set(h, p2);
                        proof {
                            self.lemma_holder_advances(*old(self), h as int);
                        }
                        None
                    },
                }
            },
        }
    }

    /// The lock holder `h` moved its position on, and either changed no slot
    /// or posted its request into the slot of one hart that its new position
    /// counts as posted; every slot it had posted into still counts as
    /// posted. The invariant is kept.
    proof fn lemma_holder_advances(&self, old_s: IpiSystem, h: int)
        requires
            old_s.wf(),
            0 <= h < old_s.n(),
            old_s.lock == Some(h as usize),
            self.lock == old_s.lock,
            self.harts@.len() == old_s.harts@.len(),
            forall|d: int| 0 <= d < old_s.n() && #[trigger] self.harts@[d] != old_s.harts@[d] ==> {
                &&& !old_s.harts@[d].ipi_pending
                &&& self.harts@[d] == (HartData { ipi_req: phase_req(old_s.phases@[h]), ipi_pending: true, ..old_s.harts@[d] })
                &&& posted(self.phases@[h], h, d)
            },
            self.phases@ == old_s.phases@.update(h, self.phases@[h]),
            holds_lock(self.phases@[h]),
            phase_req(self.phases@[h]) == phase_req(old_s.phases@[h]),
            self.phase_ok(h),
            forall|d: int|
                0 <= d < old_s.n() && old_s.harts@[d].ipi_pending && posted(old_s.phases@[h], h, d)
                    ==> posted(self.phases@[h], h, d),
        ensures
            self.wf(),
    {
        assert forall|g: int| 0 <= g < self.n() implies #[trigger] self.phase_ok(g) by {
            assert(old_s.phase_ok(g));
        }
        assert forall|d: int| 0 <= d < self.n() implies #[trigger] self.slot_ok(d) by {
            assert(old_s.slot_ok(d));
            if self.harts@[d] != old_s.harts@[d] {
            }
        }
    }

    /// Hart `h`, while not holding the lock, serves its own pending request.
    fn serve_own(&mut self, h: usize) -> (r: Option<IPIReq>)
        requires
            old(self).wf(),
            h < old(self).n(),
            !holds_lock(old(self).phases@[h as int]),
        ensures
            final(self).wf(),
            final(self).phases@ == old(self).phases@,
            final(self).lock == old(self).lock,
            final(self).n() == old(self).n(),
            r matches Some(k) ==> old(self).harts@[h as int].ipi_pending && (old(self).lock matches Some(s) && in_mask(
                phase_mask(old(self).phases@[s as int]),
                h as int,
            ) && k == phase_req(old(self).phases@[s as int])),
            forall|d: int| 0 <= d < old(self).n() ==> (#[trigger] final(self).harts@[d]).ipi_pending ==> old(self).harts@[d].ipi_pending,
            forall|d: int| 0 <= d < old(self).n() && d != h ==> #[trigger] final(self).harts@[d] == old(self).harts@[d],
            old(self).harts@[h as int].ipi_pending ==> final(self).harts@ == old(self).harts@.update(
                h as int,
                HartData { ipi_pending: false, ..old(self).harts@[h as int] },
            ) && r == Some(old(self).harts@[h as int].ipi_req),
            !old(self).harts@[h as int].ipi_pending ==> final(self).harts@ == old(self).harts@ && r is None,
    {
        proof {
            assert(old(self).slot_ok(h as int));
        }
        let mut slot = self.harts[h];
        let r = slot.ipi_handle();
        self.harts.set(h, slot);
        proof {
            assert forall|g: int| 0 <= g < self.n() implies #[trigger] self.phase_ok(g) by {
                assert(old(self).phase_ok(g));
            }
            assert forall|d: int| 0 <= d < self.n() implies #[trigger] self.slot_ok(d) by {
                assert(old(self).slot_ok(d));
            }
        }
        r
    }
}


/// The mask that names hart `h` alone names no other hart.
proof fn lemma_self_only_mask(h: u64, d: u64)
    requires
        h < 64,
        d < 64,
    ensures
        in_mask(1u64 << h, d as int) <==> d == h,
{
    assert(((1u64 << h) >> d) & 1u64 == 1u64 <==> d == h) by (bit_vector)
        requires
            h < 64,
            d < 64,
    ;
}

/// A send to oneself alone involves no other hart: no step of the sender
/// touches another hart's slot, and the request is served inline.
pub proof fn lemma_self_send_posts_nothing(sys: IpiSystem, h: int)
    requires
        sys.wf(),
        0 <= h < sys.n(),
        phase_mask(sys.phases@[h]) == 1u64 << (h as u64),
    ensures
        forall|d: int| 0 <= d < sys.n() && d != h ==> (#[trigger] sys.step_spec(h).0[d]) == sys.harts@[d],
{
    assert(sys.phase_ok(h));
    match sys.phases@[h] {
        SendPhase::Delivering { mask, req, next } => {
            if next < sys.n() && next != h {
                lemma_self_only_mask(h as u64, next as u64);
            }
        },
        _ => {},
    }
}

/// Whether hart `g` is one of the senders of `sends`.
pub open spec fn is_sender(sends: Seq<(usize, u64, IPIReq)>, g: int) -> bool {
    exists|j: int| 0 <= j < sends.len() && #[trigger] sends[j].0 == g
}

/// The sends name harts of the machine, no hart twice, and pairwise
/// disjoint masks.
pub open spec fn sends_ok(sends: Seq<(usize, u64, IPIReq)>, n: int) -> bool {
    &&& forall|j: int| 0 <= j < sends.len() ==> (#[trigger] sends[j]).0 < n
    &&& forall|j: int, k: int|
        0 <= j < sends.len() && 0 <= k < sends.len() && j != k ==> (#[trigger] sends[j]).0 != (#[trigger] sends[k]).0
            && disjoint(sends[j].1, sends[k].1)
}

/// Two masks that name no hart in common.
pub open spec fn disjoint(a: u64, b: u64) -> bool {
    forall|d: int| 0 <= d < 64 ==> !(#[trigger] in_mask(a, d) && in_mask(b, d))
}

/// With only two harts `a` and `b` sending, to disjoint masks, a pending slot
/// of a hart in `a`'s mask holds `a`'s kind of request: the send lock keeps
/// `b` from ever writing it.
pub proof fn lemma_disjoint_senders(sys: IpiSystem, a: int, b: int, d: int)
    requires
        sys.wf(),
        0 <= a < sys.n(),
        0 <= b < sys.n(),
        0 <= d < sys.n(),
        disjoint(phase_mask(sys.phases@[a]), phase_mask(sys.phases@[b])),
        forall|g: int| 0 <= g < sys.n() && g != a && g != b ==> !holds_lock(#[trigger] sys.phases@[g]),
        sys.harts@[d].ipi_pending,
        in_mask(phase_mask(sys.phases@[a]), d),
    ensures
        sys.harts@[d].ipi_req == phase_req(sys.phases@[a]),
        sys.lock == Some(a as usize),
{
    assert(sys.slot_ok(d));
    let s = sys.lock->0 as int;
    assert(sys.phase_ok(s));
    assert(in_mask(phase_mask(sys.phases@[s]), d));
    assert(in_mask(phase_mask(sys.phases@[a]), d) && in_mask(phase_mask(sys.phases@[b]), d) ==> false);
}

/// No deadlock: while some hart is sending, some hart has a step that
/// changes the state. The lock holder always moves on unless it waits on a
/// pending destination, and that destination, not holding the lock, can
/// serve its slot; with the lock free, any spinning sender takes it.
pub proof fn lemma_no_deadlock(sys: IpiSystem, g: int)
    requires
        sys.wf(),
        0 <= g < sys.n(),
        !(sys.phases@[g] is Idle || sys.phases@[g] is Done),
    ensures
        exists|h: int|
            0 <= h < sys.n() && {
                let (hs, ps, l, _) = #[trigger] sys.step_spec(h);
                (hs, ps, l) != (sys.harts@, sys.phases@, sys.lock)
            },
{
    assert(sys.phase_ok(g));
    match sys.lock {
        None => {
            // g is spinning on the free lock and takes it.
            let (hs, ps, l, _) = sys.step_spec(g);
            assert(l == Some(g as usize));
        },
        Some(s) => {
            let s = s as int;
            assert(sys.phase_ok(s));
            match sys.phases@[s] {
                SendPhase::Waiting { mask, req, next } => {
                    if next < sys.n() && in_mask(mask, next as int) && next != s
                        && sys.harts@[next as int].ipi_pending {
                        let d = next as int;
                        assert(sys.phase_ok(d));
                        let (hs, ps, l, _) = sys.step_spec(d);
                        assert(hs[d] != sys.harts@[d]);
                    } else {
                        let (hs, ps, l, _) = sys.step_spec(s);
                        assert(ps[s] != sys.phases@[s]);
                    }
                },
                _ => {
                    let (hs, ps, l, _) = sys.step_spec(s);
                    assert(ps[s] != sys.phases@[s]);
                },
            }
        },
    }
}

/// A sender's remaining work in phase `p` on `n` harts: a spinning sender
/// has a whole send ahead; each delivery, each wait, and serving a slot move
/// it down.
pub open spec fn phase_weight(p: SendPhase, n: int) -> int {
    match p {
        SendPhase::Acquiring { .. } => 3 * n + 3,
        SendPhase::Delivering { next, .. } => 3 * n + 2 - 2 * next,
        SendPhase::Waiting { next, .. } => n + 1 - next,
        _ => 0,
    }
}

pub open spec fn phase_sum(ps: Seq<SendPhase>, n: int) -> int
    decreases ps.len(),
{
    if ps.len() == 0 {
        0
    } else {
        phase_sum(ps.drop_last(), n) + phase_weight(ps.last(), n)
    }
}

pub open spec fn pending_count(hs: Seq<HartData>) -> int
    decreases hs.len(),
{
    if hs.len() == 0 {
        0
    } else {
        pending_count(hs.drop_last()) + if hs.last().ipi_pending {
            1int
        } else {
            0
        }
    }
}

/// The work left in the whole machine.
pub open spec fn measure(hs: Seq<HartData>, ps: Seq<SendPhase>) -> int {
    phase_sum(ps, hs.len() as int) + pending_count(hs)
}

proof fn lemma_phase_sum_update(ps: Seq<SendPhase>, n: int, i: int, p: SendPhase)
    requires
        0 <= i < ps.len(),
    ensures
        phase_sum(ps.update(i, p), n) == phase_sum(ps, n) - phase_weight(ps[i], n) + phase_weight(p, n),
    decreases ps.len(),
{
    if i < ps.len() - 1 {
        lemma_phase_sum_update(ps.drop_last(), n, i, p);
        assert(ps.update(i, p).drop_last() =~= ps.drop_last().update(i, p));
    } else {
        assert(ps.update(i, p).drop_last() =~= ps.drop_last());
    }
}

proof fn lemma_pending_count_update(hs: Seq<HartData>, i: int, d: HartData)
    requires
        0 <= i < hs.len(),
    ensures
        pending_count(hs.update(i, d)) == pending_count(hs) - (if hs[i].ipi_pending {
            1int
        } else {
            0
        }) + (if d.ipi_pending {
            1int
        } else {
            0
        }),
    decreases hs.len(),
{
    if i < hs.len() - 1 {
        lemma_pending_count_update(hs.drop_last(), i, d);
        assert(hs.update(i, d).drop_last() =~= hs.drop_last().update(i, d));
    } else {
        assert(hs.update(i, d).drop_last() =~= hs.drop_last());
    }
}

proof fn lemma_phase_sum_nonneg(ps: Seq<SendPhase>, n: int)
    requires
        forall|h: int| 0 <= h < ps.len() ==> match #[trigger] ps[h] {
            SendPhase::Delivering { next, .. } => next <= n,
            SendPhase::Waiting { next, .. } => next <= n,
            _ => true,
        },
        n >= 0,
    ensures
        0 <= phase_sum(ps, n) <= ps.len() * (3 * n + 3),
    decreases ps.len(),
{
    if ps.len() > 0 {
        assert forall|h: int| 0 <= h < ps.drop_last().len() implies match #[trigger] ps.drop_last()[h] {
            SendPhase::Delivering { next, .. } => next <= n,
            SendPhase::Waiting { next, .. } => next <= n,
            _ => true,
        } by {
            assert(ps.drop_last()[h] == ps[h]);
        }
        lemma_phase_sum_nonneg(ps.drop_last(), n);
        let last = ps[ps.len() - 1];
        assert(ps.last() == last);
        assert(0 <= phase_weight(last, n) <= 3 * n + 3);
        assert((ps.len() - 1) * (3 * n + 3) + (3 * n + 3) == ps.len() * (3 * n + 3)) by (nonlinear_arith);
    }
}

proof fn lemma_pending_count_bounds(hs: Seq<HartData>)
    ensures
        0 <= pending_count(hs) <= hs.len(),
    decreases hs.len(),
{
    if hs.len() > 0 {
        lemma_pending_count_bounds(hs.drop_last());
    }
}

/// Bounded progress: every step that changes the machine's state lowers the
/// work left, which starts at most `n * (3n + 4)`. So once sends have begun,
/// at most that many state-changing steps pass before every sender is done
/// and every slot is clear (and, by `lemma_no_deadlock`, a state-changing
/// step exists until then).
pub proof fn lemma_step_lowers_measure(sys: IpiSystem, h: int)
    requires
        sys.wf(),
        0 <= h < sys.n(),
    ensures
        0 <= measure(sys.harts@, sys.phases@) <= sys.n() * (3 * sys.n() + 4),
        ({
            let (hs, ps, l, _) = sys.step_spec(h);
            (hs, ps, l) != (sys.harts@, sys.phases@, sys.lock) ==> measure(hs, ps) < measure(
                sys.harts@,
                sys.phases@,
            )
        }),
{
    let n = sys.n();
    assert forall|g: int| 0 <= g < sys.phases@.len() implies match #[trigger] sys.phases@[g] {
        SendPhase::Delivering { next, .. } => next <= n,
        SendPhase::Waiting { next, .. } => next <= n,
        _ => true,
    } by {
        assert(sys.phase_ok(g));
    }
    lemma_phase_sum_nonneg(sys.phases@, n);
    lemma_pending_count_bounds(sys.harts@);
    assert(n * (3 * n + 3) + n == n * (3 * n + 4)) by (nonlinear_arith);
    let hs0 = sys.harts@;
    let ps0 = sys.phases@;
    let (hs, ps, l, _) = sys.step_spec(h);
    assert(sys.phase_ok(h));
    if hs0[h].ipi_pending {
        lemma_pending_count_update(hs0, h, HartData { ipi_pending: false, ..hs0[h] });
    }
    match ps0[h] {
        SendPhase::Acquiring { mask, req } => {
            lemma_phase_sum_update(ps0, n, h, SendPhase::Delivering { mask, req, next: 0 });
        },
        SendPhase::Delivering { mask, req, next } => {
            lemma_phase_sum_update(ps0, n, h, SendPhase::Waiting { mask, req, next: 0 });
            if next < n {
                lemma_phase_sum_update(ps0, n, h, SendPhase::Delivering { mask, req, next: (next + 1) as usize });
                if in_mask(mask, next as int) && next != h {
                    assert(sys.slot_ok(next as int));
                    lemma_pending_count_update(
                        hs0,
                        next as int,
                        HartData { ipi_req: req, ipi_pending: true, ..hs0[next as int] },
                    );
                }
            }
        },
        SendPhase::Waiting { mask, req, next } => {
            lemma_phase_sum_update(ps0, n, h, SendPhase::Done);
            if next < n {
                lemma_phase_sum_update(ps0, n, h, SendPhase::Waiting { mask, req, next: (next + 1) as usize });
            }
        },
        _ => {},
    }
}

/// Whether hart `d` has carried out the request of sender `h`, which is in
/// phase `p` sending to `mask`, given whether `d`'s slot is pending: 1 once
/// it has, else 0. The sender serves itself inline when its delivery passes
/// it; another hart has served once the sender posted to it and its slot is
/// clear again.
pub open spec fn served_bit(p: SendPhase, mask: u64, h: int, d: int, pending: bool) -> int {
    if !in_mask(mask, d) {
        0
    } else {
        match p {
            SendPhase::Delivering { next, .. } => if d == h {
                if h < next {
                    1
                } else {
                    0
                }
            } else if d < next && !pending {
                1
            } else {
                0
            },
            SendPhase::Waiting { next, .. } => if d == h || d < next || !pending {
                1
            } else {
                0
            },
            SendPhase::Done => 1,
            _ => 0,
        }
    }
}

/// How many times hart `d` appears in a log of requests carried out.
pub open spec fn times(log: Seq<(usize, IPIReq)>, d: int) -> int
    decreases log.len(),
{
    if log.len() == 0 {
        0
    } else {
        times(log.drop_last(), d) + if log.last().0 == d {
            1int
        } else {
            0
        }
    }
}

/// With `h` the only sender, one step of hart `g` changes which harts have
/// served `h`'s request exactly by the request `g` carried out, which is
/// `h`'s.
proof fn lemma_served_step(s: IpiSystem, h: int, g: int, mask: u64, req: IPIReq)
    requires
        s.wf(),
        0 <= h < s.n(),
        0 <= g < s.n(),
        forall|k: int| 0 <= k < s.n() && k != h ==> (#[trigger] s.phases@[k] is Idle || s.phases@[k] is Done),
        !(s.phases@[h] is Idle),
        !(s.phases@[h] is Done) ==> phase_mask(s.phases@[h]) == mask && phase_req(s.phases@[h]) == req,
    ensures
        ({
            let (hs, ps, l, r) = s.step_spec(g);
            &&& r matches Some(k) ==> k == req
            &&& !(ps[h] is Idle)
            &&& !(ps[h] is Done) ==> phase_mask(ps[h]) == mask && phase_req(ps[h]) == req
            &&& forall|d: int|
                0 <= d < s.n() ==> #[trigger] served_bit(ps[h], mask, h, d, hs[d].ipi_pending) == served_bit(
                    s.phases@[h],
                    mask,
                    h,
                    d,
                    s.harts@[d].ipi_pending,
                ) + if r is Some && d == g {
                    1int
                } else {
                    0
                }
        }),
{
    assert(s.phase_ok(h));
    assert(s.phase_ok(g));
    if s.lock is Some {
        assert(s.phase_ok(s.lock->0 as int));
    }
    assert(s.slot_ok(g));
    assert(s.slot_ok(h));
    let (hs, ps, l, r) = s.step_spec(g);
    assert forall|d: int| 0 <= d < s.n() implies #[trigger] served_bit(ps[h], mask, h, d, hs[d].ipi_pending)
        == served_bit(s.phases@[h], mask, h, d, s.harts@[d].ipi_pending) + if r is Some && d == g {
        1int
    } else {
        0
    } by {
        assert(s.slot_ok(d));
    }
}

/// How many times hart `d` appears in a log of (hart, sender, request)
/// entries with sender `snd`.
pub open spec fn times_from(log: Seq<(usize, usize, IPIReq)>, d: int, snd: int) -> int
    decreases log.len(),
{
    if log.len() == 0 {
        0
    } else {
        times_from(log.drop_last(), d, snd) + if log.last().0 == d && log.last().1 == snd {
            1int
        } else {
            0
        }
    }
}

/// The sender whose request a step of hart `g` carries out: the lock holder
/// (which is `g` itself when it serves itself inline).
pub open spec fn author(lock: Option<usize>, g: int) -> int {
    match lock {
        Some(s) => s as int,
        None => g,
    }
}

/// With every other active sender's mask disjoint from sender `snd`'s, one
/// step of hart `g` changes which harts have served `snd`'s request exactly
/// by the request `g` carried out when `snd` is its author; that request is
/// `snd`'s.
proof fn lemma_served_step_among(s: IpiSystem, snd: int, g: int, mask: u64, req: IPIReq)
    requires
        s.wf(),
        0 <= snd < s.n(),
        0 <= g < s.n(),
        !(s.phases@[snd] is Idle),
        !(s.phases@[snd] is Done) ==> phase_mask(s.phases@[snd]) == mask && phase_req(s.phases@[snd]) == req,
        forall|k: int|
            0 <= k < s.n() && k != snd && !(#[trigger] s.phases@[k] is Idle || s.phases@[k] is Done)
                ==> disjoint(phase_mask(s.phases@[k]), mask),
    ensures
        ({
            let (hs, ps, l, r) = s.step_spec(g);
            &&& (r is Some && author(s.lock, g) == snd) ==> r == Some(req)
            &&& !(ps[snd] is Idle)
            &&& !(ps[snd] is Done) ==> phase_mask(ps[snd]) == mask && phase_req(ps[snd]) == req
            &&& forall|d: int|
                0 <= d < s.n() ==> #[trigger] served_bit(ps[snd], mask, snd, d, hs[d].ipi_pending) == served_bit(
                    s.phases@[snd],
                    mask,
                    snd,
                    d,
                    s.harts@[d].ipi_pending,
                ) + if r is Some && d == g && author(s.lock, g) == snd {
                    1int
                } else {
                    0
                }
        }),
{
    assert(s.phase_ok(snd));
    assert(s.phase_ok(g));
    if s.lock is Some {
        assert(s.phase_ok(s.lock->0 as int));
    }
    assert(s.slot_ok(g));
    let (hs, ps, l, r) = s.step_spec(g);
    assert forall|d: int| 0 <= d < s.n() implies #[trigger] served_bit(ps[snd], mask, snd, d, hs[d].ipi_pending)
        == served_bit(s.phases@[snd], mask, snd, d, s.harts@[d].ipi_pending) + if r is Some && d == g && author(
        s.lock,
        g,
    ) == snd {
        1int
    } else {
        0
    } by {
        assert(s.slot_ok(d));
        if s.lock is Some {
            let hd = s.lock->0 as int;
            if hd != snd && s.harts@[d].ipi_pending {
                assert(in_mask(phase_mask(s.phases@[hd]), d));
                assert(!(in_mask(phase_mask(s.phases@[hd]), d) && in_mask(mask, d)));
            }
        }
    }
    if r is Some && author(s.lock, g) == snd && g != snd {
        let hd = s.lock->0 as int;
        assert(s.harts@[g].ipi_pending);
    }
}

} // verus!
