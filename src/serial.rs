//! Console output: the stores that put bytes on a serial port, in order. The
//! caller performs each store and polls the port's line status until
//! `tx_ready` before the next.
use vstd::prelude::*;
use vstd::arithmetic::power2::lemma2_to64;
use vstd::string::StringSliceAdditionalSpecFns;

use crate::mmio::Mmio;
use crate::platform::QEMU;
use crate::uart::{UART16550, THR};

verus! {

/// The serial port used before the device tree has been read.
pub open spec fn spec_early_serial() -> UART16550 {
    UART16550 { base: 0x10001000, shift: 2, clk: 11_059_200, baud: 115200 }
}

pub fn early_serial() -> (r: UART16550)
    ensures
        r == spec_early_serial(),
        r.wf(),
{
    proof {
        lemma2_to64();
    }
    UART16550::new(0x10001000, 2, 11_059_200, 115200)
}

/// The store that writes `c` to the hart's console.
pub fn putc(platform: &QEMU, c: u8) -> (r: Mmio)
    requires
        platform.wf(),
    ensures
        r == (Mmio::W8 { addr: platform.serial.reg(THR), byte: c }),
{
    platform.put_char(c)
}

/// The stores that write the bytes of `s` to `port`, one per byte, in order.
pub open spec fn print_stores(port: UART16550, s: Seq<u8>) -> Seq<Mmio> {
    Seq::new(s.len(), |i: int| Mmio::W8 { addr: port.reg(THR), byte: s[i] })
}

fn stores_for(port: &UART16550, s: &str) -> (r: Vec<Mmio>)
    requires
        port.wf(),
    ensures
        r@ == print_stores(*port, s.spec_bytes()),
{
    let bytes = s.as_bytes();
    let mut r: Vec<Mmio> = Vec::new();
    let mut i: usize = 0;
    while i < bytes.len()
        invariant
            port.wf(),
            bytes@ == s.spec_bytes(),
            i <= bytes@.len(),
            r@ == print_stores(*port, bytes@).take(i as int),
        decreases bytes@.len() - i,
    {
        r.push(port.putchar(bytes[i]));
        i = i + 1;
        assert(r@ =~= print_stores(*port, bytes@).take(i as int));
    }
    assert(r@ =~= print_stores(*port, bytes@));
    r
}

/// The stores that write `s` to the hart's console.
pub fn print(platform: &QEMU, s: &str) -> (r: Vec<Mmio>)
    requires
        platform.wf(),
    ensures
        r@ == print_stores(platform.serial, s.spec_bytes()),
{
    stores_for(&platform.serial, s)
}

/// The stores that write `s` to the early serial port.
pub fn early_print(s: &str) -> (r: Vec<Mmio>)
    ensures
        r@ == print_stores(spec_early_serial(), s.spec_bytes()),
{
    let port = early_serial();
    stores_for(&port, s)
}

/// The stores that set up the early serial port.
pub fn early_print_setup() -> (r: Vec<Mmio>)
    ensures
        r@ == spec_early_serial().spec_init(),
{
    early_serial().init()
}

} // verus!
