//! Per-hart storage: a control block and a private stack for each hart.
use vstd::prelude::*;

use crate::ipi::IPIReq;
use crate::platform::QEMU;

verus! {

/// A hart's control block: its pending-IPI slot and its platform instance,
/// built once the boot sequence reaches it.
#[derive(Clone, Copy, PartialEq, Eq, Structural, Debug)]
pub struct HartData {
    /// The kind of the request in the slot; meaningful only while pending.
    pub ipi_req: IPIReq,
    /// Whether a request waits for this hart. Any sender may set it while it
    /// is clear; only the owning hart clears it.
    pub ipi_pending: bool,
    pub platform: Option<QEMU>,
}

impl HartData {
    /// An empty slot and no platform yet.
    pub fn new() -> (r: HartData)
        ensures
            !r.ipi_pending,
            r.ipi_req == IPIReq::S_IPI,
            r.platform is None,
    {
        HartData { ipi_req: IPIReq::S_IPI, ipi_pending: false, platform: None }
    }

    /// This hart's platform instance, once it has been built.
    pub fn platform(&self) -> (r: &QEMU)
        requires
            self.platform is Some,
        ensures
            *r == self.platform->0,
    {
        self.platform.as_ref().unwrap()
    }

    /// Posts a request into the slot, which must be free.
    pub fn ipi_set(&mut self, req: IPIReq)
        requires
            !old(self).ipi_pending,
        ensures
            *final(self) == (HartData { ipi_req: req, ipi_pending: true, ..*old(self) }),
    {
        self.ipi_req = req;
        self.ipi_pending = true;
    }

    /// One poll of a sender waiting on this slot: `true` once the request has
    /// been served.
    pub fn ipi_wait(&self) -> (done: bool)
        ensures
            done == !self.ipi_pending,
    {
        !self.ipi_pending
    }

    /// One poll of the owning hart: takes the pending request, if there is
    /// one, and frees the slot.
    pub fn ipi_handle(&mut self) -> (r: Option<IPIReq>)
        ensures
            old(self).ipi_pending ==> r == Some(old(self).ipi_req) && *final(self) == (HartData {
                ipi_pending: false,
                ..*old(self)
            }),
            !old(self).ipi_pending ==> r is None && *final(self) == *old(self),
    {
        if self.ipi_pending {
            self.ipi_pending = false;
            Some(self.ipi_req)
        } else {
            None
        }
    }
}

/// A hart's private stack of `N` bytes.
pub struct HartStack<const N: usize> {
    pub bytes: [u8; N],
}

impl<const N: usize> HartStack<N> {
    pub fn new() -> (r: Self)
        ensures
            r.bytes@ == Seq::new(N as nat, |i: int| 0u8),
    {
        let r = HartStack { bytes: [0u8; N] };
        assert(r.bytes@ =~= Seq::new(N as nat, |i: int| 0u8));
        r
    }
}

/// One hart's block of storage: the control block, then the stack, which
/// grows down from the block's end.
pub struct HartStorage<const N: usize> {
    pub data: HartData,
    pub stack: HartStack<N>,
}

impl<const N: usize> HartStorage<N> {
    pub fn new() -> (r: Self)
        ensures
            !r.data.ipi_pending,
            r.data.ipi_req == IPIReq::S_IPI,
            r.data.platform is None,
            r.stack.bytes@ == Seq::new(N as nat, |i: int| 0u8),
    {
        HartStorage { data: HartData::new(), stack: HartStack::new() }
    }
}

/// The initial stack pointer of hart `hartid` when each hart's block of
/// storage is `block_size` bytes and the blocks lie one after another from
/// `base`: the end of that hart's block. `None` if it lies beyond the
/// address space.
pub fn stack_top(base: usize, hartid: usize, block_size: usize) -> (r: Option<usize>)
    ensures
        base + (hartid + 1) * block_size <= usize::MAX ==> r == Some(
            (base + (hartid + 1) * block_size) as usize,
        ),
        base + (hartid + 1) * block_size > usize::MAX ==> r is None,
{
    if hartid == usize::MAX {
        assert(base + (hartid + 1) * block_size > usize::MAX || block_size == 0) by (nonlinear_arith)
            requires
                hartid == usize::MAX,
        ;
        if block_size == 0 {
            return Some(base);
        }
        return None;
    }
    let blocks = hartid + 1;
    if block_size != 0 && blocks > usize::MAX / block_size {
        assert(blocks * block_size > usize::MAX) by (nonlinear_arith)
            requires
                block_size != 0,
                blocks > usize::MAX / block_size,
        ;
        return None;
    }
    assert(blocks * block_size <= usize::MAX) by (nonlinear_arith)
        requires
            block_size == 0 || blocks <= usize::MAX / block_size,
    ;
    let end = blocks * block_size;
    if end > usize::MAX - base {
        None
    } else {
        Some(base + end)
    }
}

} // verus!
