//! The core-local interruptor: each hart's timer comparator and
//! software-interrupt register.
use vstd::prelude::*;

use crate::mmio::Mmio;

verus! {

/// Offset of the first hart's 64-bit timer comparator.
pub const MTIMECMP_OFFSET: usize = 0x4000;

/// Offset of the shared 64-bit timer.
pub const MTIME_OFFSET: usize = 0xbff8;

/// Harts that the comparator bank has room for.
pub const CLINT_MAX_HARTS: usize = 4095;

/// Comparator value that keeps a hart's timer quiet: far in the future, yet
/// clear of the top bits that some emulators mishandle.
pub const TIMER_IDLE: u64 = 0x0fff_ffff_ffff_ffff;

/// The interruptor at `base`, as seen by hart `hartid`.
#[derive(Clone, Copy, PartialEq, Eq, Structural, Debug)]
pub struct CLINT {
    pub base: usize,
    pub hartid: usize,
}

impl CLINT {
    pub fn new(base: usize, hartid: usize) -> (r: CLINT)
        ensures
            r == (CLINT { base, hartid }),
    {
        CLINT { base, hartid }
    }

    /// Every register this hart may name lies inside the address space.
    pub open spec fn wf(&self) -> bool {
        self.base + MTIME_OFFSET + 8 <= usize::MAX && self.hartid < CLINT_MAX_HARTS
    }

    pub fn is_valid(&self) -> (r: bool)
        ensures
            r == self.wf(),
    {
        self.base <= usize::MAX - MTIME_OFFSET - 8 && self.hartid < CLINT_MAX_HARTS
    }

    pub open spec fn mtimecmp_addr(&self, hart: usize) -> usize {
        (self.base + MTIMECMP_OFFSET + 8 * hart) as usize
    }

    pub open spec fn msip_addr(&self, hart: usize) -> usize {
        (self.base + 4 * hart) as usize
    }

    /// Leader-only set-up: the shared timer starts from zero.
    pub open spec fn spec_setup_leader(&self) -> Mmio {
        Mmio::W64 { addr: (self.base + MTIME_OFFSET) as usize, dword: 0 }
    }

    /// Per-hart set-up: no timer armed, no software interrupt pending.
    pub open spec fn spec_setup(&self) -> Seq<Mmio> {
        seq![
            Mmio::W64 { addr: self.mtimecmp_addr(self.hartid), dword: TIMER_IDLE },
            Mmio::W32 { addr: self.msip_addr(self.hartid), word: 0 },
        ]
    }

    pub fn setup_leader(&self) -> (r: Mmio)
        requires
            self.wf(),
        ensures
            r == self.spec_setup_leader(),
    {
        Mmio::W64 { addr: self.base + MTIME_OFFSET, dword: 0 }
    }

    pub fn setup(&self) -> (r: Vec<Mmio>)
        requires
            self.wf(),
        ensures
            r@ == self.spec_setup(),
    {
        let mut r: Vec<Mmio> = Vec::new();
        r.push(Mmio::W64 { addr: self.base + MTIMECMP_OFFSET + 8 * self.hartid, dword: TIMER_IDLE });
        r.push(Mmio::W32 { addr: self.base + 4 * self.hartid, word: 0 });
        r
    }

    /// Arms this hart's comparator for the absolute instant `instant`.
    pub fn set_timer(&self, instant: u64) -> (r: Mmio)
        requires
            self.wf(),
        ensures
            r == (Mmio::W64 { addr: self.mtimecmp_addr(self.hartid), dword: instant }),
    {
        Mmio::W64 { addr: self.base + MTIMECMP_OFFSET + 8 * self.hartid, dword: instant }
    }

    /// Raises the software interrupt of hart `hart`.
    pub fn send_soft(&self, hart: usize) -> (r: Mmio)
        requires
            self.wf(),
            hart < CLINT_MAX_HARTS,
        ensures
            r == (Mmio::W32 { addr: self.msip_addr(hart), word: 1 }),
    {
        Mmio::W32 { addr: self.base + 4 * hart, word: 1 }
    }

    /// Clears this hart's software interrupt.
    pub fn clear_soft(&self) -> (r: Mmio)
        requires
            self.wf(),
        ensures
            r == (Mmio::W32 { addr: self.msip_addr(self.hartid), word: 0 }),
    {
        Mmio::W32 { addr: self.base + 4 * self.hartid, word: 0 }
    }
}

} // verus!
