//! The QEMU `virt` board: where its interruptor and serial port are, and the
//! register writes behind each platform operation.
use vstd::prelude::*;

use crate::clint::CLINT;
use crate::mmio::Mmio;
use crate::uart::UART16550;

verus! {

pub const DEFAULT_CLINT_BASE: usize = 0x2000000;
pub const DEFAULT_UART_BASE: usize = 0x10000000;
pub const DEFAULT_UART_CLK: u64 = 11_059_200;
pub const DEFAULT_UART_BAUD: u64 = 115200;

/// What the device tree tells about the board: the raw `reg` property of the
/// interruptor node and of the serial-port node, and the serial port's
/// `reg-offset`, `reg-shift`, `clock-frequency` and `current-speed`. Each is
/// `None` where the tree lacks it.
pub struct DeviceInfo {
    pub clint_reg: Option<Vec<u8>>,
    pub uart_reg: Option<Vec<u8>>,
    pub uart_offset: Option<u32>,
    pub uart_shift: Option<u32>,
    pub uart_clk: Option<u32>,
    pub uart_baud: Option<u32>,
}

/// The big-endian value of a byte sequence.
pub open spec fn be_value(s: Seq<u8>) -> nat
    decreases s.len(),
{
    if s.len() == 0 {
        0
    } else {
        be_value(s.drop_last()) * 256 + s.last() as nat
    }
}

proof fn lemma_be_value_bound(s: Seq<u8>)
    ensures
        be_value(s) < pow256(s.len()),
    decreases s.len(),
{
    if s.len() > 0 {
        lemma_be_value_bound(s.drop_last());
        assert(be_value(s.drop_last()) * 256 + 256 <= pow256((s.len() - 1) as nat) * 256)
            by (nonlinear_arith)
            requires
                be_value(s.drop_last()) < pow256((s.len() - 1) as nat),
        ;
    }
}

pub open spec fn pow256(n: nat) -> nat
    decreases n,
{
    if n == 0 {
        1
    } else {
        256 * pow256((n - 1) as nat)
    }
}

/// The first address of a `reg` property: its first eight bytes read
/// big-endian; `None` when it is shorter.
pub open spec fn spec_reg_base(raw: Seq<u8>) -> Option<u64> {
    if raw.len() < 8 {
        None
    } else {
        Some(be_value(raw.take(8)) as u64)
    }
}

pub fn reg_base(raw: &Vec<u8>) -> (r: Option<u64>)
    ensures
        r == spec_reg_base(raw@),
{
    if raw.len() < 8 {
        return None;
    }
    let mut acc: u64 = 0;
    let mut i: usize = 0;
    while i < 8
        invariant
            raw@.len() >= 8,
            i <= 8,
            acc as nat == be_value(raw@.take(i as int)),
        decreases 8 - i,
    {
        proof {
            lemma_be_value_bound(raw@.take(i as int));
            reveal_with_fuel(pow256, 8);
            assert(pow256(7) == 0x0100_0000_0000_0000nat);
            assert(i < 8 ==> pow256(i as nat) <= pow256(7)) by {
                lemma_pow256_mono(i as nat, 7);
            }
            assert(raw@.take(i as int + 1).drop_last() =~= raw@.take(i as int));
        }
        acc = acc * 256 + raw[i] as u64;
        i = i + 1;
    }
    Some(acc)
}

proof fn lemma_pow256_mono(a: nat, b: nat)
    requires
        a <= b,
    ensures
        pow256(a) <= pow256(b),
    decreases b,
{
    if a < b {
        lemma_pow256_mono(a, (b - 1) as nat);
    }
}

/// Adds with wrap-around at the top of the address space.
pub open spec fn wrapping_add(a: usize, b: usize) -> usize {
    if a + b > usize::MAX {
        (a + b - usize::MAX - 1) as usize
    } else {
        (a + b) as usize
    }
}

fn add_wrapping(a: usize, b: usize) -> (r: usize)
    ensures
        r == wrapping_add(a, b),
{
    if a > usize::MAX - b {
        a - (usize::MAX - b) - 1
    } else {
        a + b
    }
}

/// The board as seen by one hart.
#[derive(Clone, Copy, PartialEq, Eq, Structural, Debug)]
pub struct QEMU {
    pub hartid: usize,
    pub serial: UART16550,
    pub clint: CLINT,
}

pub open spec fn opt_or<T>(o: Option<T>, d: T) -> T {
    match o {
        Some(v) => v,
        None => d,
    }
}

impl QEMU {
    /// The board for hart `hartid` from what the device tree says, with the
    /// `virt` board's defaults for whatever it leaves out. The serial port
    /// sits at its `reg` address plus its `reg-offset`.
    pub open spec fn spec_new(hartid: usize, clint_reg: Option<Seq<u8>>, uart_reg: Option<Seq<u8>>,
        offset: Option<u32>, shift: Option<u32>, clk: Option<u32>, baud: Option<u32>) -> QEMU {
        let clint_base = match clint_reg {
            Some(raw) => match spec_reg_base(raw) {
                Some(b) => b as usize,
                None => DEFAULT_CLINT_BASE,
            },
            None => DEFAULT_CLINT_BASE,
        };
        let uart_base = match uart_reg {
            Some(raw) => match spec_reg_base(raw) {
                Some(b) => b as usize,
                None => DEFAULT_UART_BASE,
            },
            None => DEFAULT_UART_BASE,
        };
        QEMU {
            hartid,
            serial: UART16550 {
                base: wrapping_add(uart_base, opt_or(offset, 0u32) as usize),
                shift: opt_or(shift, 0u32) as usize,
                clk: match clk {
                    Some(c) => c as u64,
                    None => DEFAULT_UART_CLK,
                },
                baud: match baud {
                    Some(b) => b as u64,
                    None => DEFAULT_UART_BAUD,
                },
            },
            clint: CLINT { base: clint_base, hartid },
        }
    }

    pub fn new(hartid: usize, info: &DeviceInfo) -> (r: QEMU)
        ensures
            r == Self::spec_new(
                hartid,
                match info.clint_reg {
                    Some(v) => Some(v@),
                    None => None,
                },
                match info.uart_reg {
                    Some(v) => Some(v@),
                    None => None,
                },
                info.uart_offset,
                info.uart_shift,
                info.uart_clk,
                info.uart_baud,
            ),
    {
        let clint_base = match &info.clint_reg {
            Some(raw) => match reg_base(raw) {
                Some(b) => b as usize,
                None => DEFAULT_CLINT_BASE,
            },
            None => DEFAULT_CLINT_BASE,
        };
        let uart_base = match &info.uart_reg {
            Some(raw) => match reg_base(raw) {
                Some(b) => b as usize,
                None => DEFAULT_UART_BASE,
            },
            None => DEFAULT_UART_BASE,
        };
        let offset: u32 = match info.uart_offset {
            Some(o) => o,
            None => 0,
        };
        let shift: u32 = match info.uart_shift {
            Some(s) => s,
            None => 0,
        };
        let clk: u64 = match info.uart_clk {
            Some(c) => c as u64,
            None => DEFAULT_UART_CLK,
        };
        let baud: u64 = match info.uart_baud {
            Some(b) => b as u64,
            None => DEFAULT_UART_BAUD,
        };
        QEMU {
            hartid,
            serial: UART16550::new(add_wrapping(uart_base, offset as usize), shift as usize, clk, baud),
            clint: CLINT::new(clint_base, hartid),
        }
    }

    pub open spec fn wf(&self) -> bool {
        self.serial.wf() && self.clint.wf() && self.clint.hartid == self.hartid
    }

    pub fn is_valid(&self) -> (r: bool)
        ensures
            r == self.wf(),
    {
        self.serial.is_valid() && self.clint.is_valid() && self.clint.hartid == self.hartid
    }

    /// Start-up writes: the leader hart (hart 0) also starts the shared timer
    /// and sets up the serial port; every hart quiets its own timer and
    /// software interrupt.
    pub fn early_init(&self) -> (r: Vec<Mmio>)
        requires
            self.wf(),
        ensures
            self.hartid == 0 ==> r@ == seq![self.clint.spec_setup_leader()] + self.serial.spec_init()
                + self.clint.spec_setup(),
            self.hartid != 0 ==> r@ == self.clint.spec_setup(),
    {
        let mut r: Vec<Mmio> = Vec::new();
        if self.hartid == 0 {
            r.push(self.clint.setup_leader());
            let mut s = self.serial.init();
            r.append(&mut s);
        }
        let mut c = self.clint.setup();
        r.append(&mut c);
        r
    }

    pub fn set_timer(&self, instant: u64) -> (r: Mmio)
        requires
            self.wf(),
        ensures
            r == (Mmio::W64 { addr: self.clint.mtimecmp_addr(self.hartid), dword: instant }),
    {
        self.clint.set_timer(instant)
    }

    pub fn put_char(&self, c: u8) -> (r: Mmio)
        requires
            self.wf(),
        ensures
            r == (Mmio::W8 { addr: self.serial.reg(crate::uart::THR), byte: c }),
    {
        self.serial.putchar(c)
    }

    pub fn send_ipi(&self, hartid: usize) -> (r: Mmio)
        requires
            self.wf(),
            hartid < crate::clint::CLINT_MAX_HARTS,
        ensures
            r == (Mmio::W32 { addr: self.clint.msip_addr(hartid), word: 1 }),
    {
        self.clint.send_soft(hartid)
    }

    pub fn clear_ipi(&self) -> (r: Mmio)
        requires
            self.wf(),
        ensures
            r == (Mmio::W32 { addr: self.clint.msip_addr(self.hartid), word: 0 }),
    {
        self.clint.clear_soft()
    }
}

} // verus!
