//! Device register writes, as values: the library decides what to write
//! where, and the code that owns the hardware performs the writes in order.
use vstd::prelude::*;

verus! {

/// One volatile store to a device register.
#[derive(Clone, Copy, PartialEq, Eq, Structural, Debug)]
pub enum Mmio {
    W8 { addr: usize, byte: u8 },
    W32 { addr: usize, word: u32 },
    W64 { addr: usize, dword: u64 },
}

} // verus!
