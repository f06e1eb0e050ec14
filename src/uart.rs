//! A 16550-compatible serial port.
use vstd::prelude::*;

use vstd::arithmetic::div_mod::lemma_fundamental_div_mod;
use vstd::arithmetic::power2::{lemma_pow2_pos, pow2};
use vstd::bits::{lemma_usize_shl_is_mul, lemma_usize_shr_is_div};

use crate::mmio::Mmio;

verus! {

pub const RBR: usize = 0x0;
pub const THR: usize = 0x0;
pub const IER: usize = 0x1;
pub const FCR: usize = 0x2;
pub const LCR: usize = 0x3;
pub const MCR: usize = 0x4;
pub const LSR: usize = 0x5;
pub const DLL: usize = 0x0;
pub const DLH: usize = 0x1;

/// Line-control value that opens the divisor latch.
pub const LCR_DLAB: u8 = 0x80;
/// Line-control value for 8-bit words with the divisor latch closed.
pub const LCR_WLEN8: u8 = 0x3;
/// FIFO-control value that enables and resets both FIFOs.
pub const FCR_FIFO_RESET: u8 = 0x7;

/// The port at `base`, its registers `1 << shift` bytes apart, clocked at
/// `clk` Hz and run at `baud` bits per second.
#[derive(Clone, Copy, PartialEq, Eq, Structural, Debug)]
pub struct UART16550 {
    pub base: usize,
    pub shift: usize,
    pub clk: u64,
    pub baud: u64,
}

/// With registers `2^shift` bytes apart and the highest one in reach, every
/// register offset up to 5 is in reach, and shifting gives the same address
/// as multiplying.
proof fn lemma_reg_offset(base: usize, offset: usize, shift: usize)
    requires
        offset <= 5,
        shift < usize::BITS,
        base + 5 * pow2(shift as nat) <= usize::MAX,
    ensures
        offset << shift == offset * pow2(shift as nat),
        base + (offset << shift) <= usize::MAX,
{
    let p = pow2(shift as nat);
    assert(offset * p <= 5 * p) by (nonlinear_arith)
        requires
            offset <= 5,
    ;
    lemma_usize_shl_is_mul(offset, shift);
}

impl UART16550 {
    pub fn new(base: usize, shift: usize, clk: u64, baud: u64) -> (r: Self)
        ensures
            r == (UART16550 { base, shift, clk, baud }),
    {
        UART16550 { base, shift, clk, baud }
    }

    /// The highest register (offset 5) lies inside the address space, and
    /// the baud rate gives a divisor.
    pub open spec fn wf(&self) -> bool {
        &&& self.shift < usize::BITS
        &&& self.base + 5 * pow2(self.shift as nat) <= usize::MAX
        &&& 0 < self.baud
        &&& self.baud * 16 <= u64::MAX
    }

    pub fn is_valid(&self) -> (r: bool)
        ensures
            r == self.wf(),
    {
        if self.shift >= usize::BITS as usize || self.baud == 0 || self.baud > u64::MAX / 16 {
            return false;
        }
        let room = usize::MAX - self.base;
        proof {
            let p = pow2(self.shift as nat);
            lemma_usize_shr_is_div(room, self.shift);
            lemma_pow2_pos(self.shift as nat);
            lemma_fundamental_div_mod(room as int, p as int);
            let q = (room as int) / (p as int);
            let m = (room as int) % (p as int);
            assert(q >= 5 <==> 5 * p <= room) by (nonlinear_arith)
                requires
                    p > 0,
                    room == p * q + m,
                    0 <= m,
                    m < p,
            ;
        }
        (room >> self.shift) >= 5
    }

    pub open spec fn reg(&self, offset: usize) -> usize {
        (self.base + (offset << self.shift)) as usize
    }

    fn reg_addr(&self, offset: usize) -> (r: usize)
        requires
            self.wf(),
            offset <= 5,
        ensures
            r == self.reg(offset),
    {
        proof {
            lemma_reg_offset(self.base, offset, self.shift);
        }
        self.base + (offset << self.shift)
    }

    /// The divisor-latch value for the configured clock and baud rate.
    pub open spec fn latch(&self) -> u64 {
        (self.clk as int / (16 * self.baud as int)) as u64
    }

    /// Programs the divisor, 8-bit words, no modem control, no interrupts,
    /// and enabled FIFOs.
    pub open spec fn spec_init(&self) -> Seq<Mmio> {
        seq![
                Mmio::W8 { addr: self.reg(LCR), byte: LCR_DLAB },
                Mmio::W8 { addr: self.reg(DLL), byte: self.latch() as u8 },
                Mmio::W8 { addr: self.reg(DLH), byte: (self.latch() / 256) as u8 },
                Mmio::W8 { addr: self.reg(LCR), byte: LCR_WLEN8 },
                Mmio::W8 { addr: self.reg(MCR), byte: 0 },
                Mmio::W8 { addr: self.reg(IER), byte: 0 },
            Mmio::W8 { addr: self.reg(FCR), byte: FCR_FIFO_RESET },
        ]
    }

    pub fn init(&self) -> (r: Vec<Mmio>)
        requires
            self.wf(),
        ensures
            r@ == self.spec_init(),
    {
        let latch = self.clk / (16 * self.baud);
        let mut r: Vec<Mmio> = Vec::new();
        r.push(Mmio::W8 { addr: self.reg_addr(LCR), byte: LCR_DLAB });
        r.push(Mmio::W8 { addr: self.reg_addr(DLL), byte: latch as u8 });
        r.push(Mmio::W8 { addr: self.reg_addr(DLH), byte: (latch / 256) as u8 });
        r.push(Mmio::W8 { addr: self.reg_addr(LCR), byte: LCR_WLEN8 });
        r.push(Mmio::W8 { addr: self.reg_addr(MCR), byte: 0 });
        r.push(Mmio::W8 { addr: self.reg_addr(IER), byte: 0 });
        r.push(Mmio::W8 { addr: self.reg_addr(FCR), byte: FCR_FIFO_RESET });
        r
    }

    /// The store that transmits `c`; the caller then polls the line status
    /// until `tx_ready`.
    pub fn putchar(&self, c: u8) -> (r: Mmio)
        requires
            self.wf(),
        ensures
            r == (Mmio::W8 { addr: self.reg(THR), byte: c }),
    {
        Mmio::W8 { addr: self.reg_addr(THR), byte: c }
    }

    /// Address of the line-status register.
    pub fn status_addr(&self) -> (r: usize)
        requires
            self.wf(),
        ensures
            r == self.reg(LSR),
    {
        self.reg_addr(LSR)
    }

    /// Address of the receive buffer, to read once `rx_ready`.
    pub fn data_addr(&self) -> (r: usize)
        requires
            self.wf(),
        ensures
            r == self.reg(RBR),
    {
        self.reg_addr(RBR)
    }
}

/// The transmit holding register is empty (line-status bit 5).
pub fn tx_ready(lsr: u8) -> (r: bool)
    ensures
        r == ((lsr / 32) % 2 == 1),
{
    (lsr / 32) % 2 == 1
}

/// A received byte is ready (line-status bit 0).
pub fn rx_ready(lsr: u8) -> (r: bool)
    ensures
        r == (lsr % 2 == 1),
{
    lsr % 2 == 1
}

} // verus!
