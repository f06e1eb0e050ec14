//! Physical memory protection for the firmware's own image.
use vstd::prelude::*;

verus! {

/// Address register of the second entry: a naturally aligned range that
/// covers all of memory.
pub const PMP_ADDR_ALL: u64 = 0x1f_ffff_ffff_ffff;

/// Configuration of the first two entries: the first (the firmware) is a
/// naturally aligned power-of-two range with no access for lower privileges
/// (0x18); the second (everything else) is the same kind of range with read,
/// write and execute (0x1f), in the byte above.
pub const PMP_CFG0: u64 = 0x1f18;

/// Largest firmware range this encoding is used for.
pub const PMP_MAX_SIZE: u64 = 0x4000_0000_0000_0000;

pub open spec fn is_pow2(x: nat) -> bool
    decreases x,
{
    if x == 1 {
        true
    } else if x < 2 || x % 2 != 0 {
        false
    } else {
        is_pow2(x / 2)
    }
}

/// The registers that protect the firmware image.
#[derive(Clone, Copy, PartialEq, Eq, Structural, Debug)]
pub struct PmpConfig {
    /// Size of the protected range: the image's length rounded up to a power
    /// of two, at least 8.
    pub size: u64,
    pub addr0: u64,
    pub addr1: u64,
    pub cfg0: u64,
}

/// The protection for a firmware image of `fw_len` bytes at `fw_start`: the
/// image's range rounded up to the smallest power of two (at least 8 bytes),
/// encoded as a naturally aligned range (`start / 4 + size / 8 - 1`), then
/// all memory for lower privileges. `None` when that range would exceed
/// `PMP_MAX_SIZE` or `fw_start` is not aligned to it.
pub fn setup_pmp(fw_start: u64, fw_len: u64) -> (r: Option<PmpConfig>)
    ensures
        r matches Some(c) ==> {
            &&& fw_len <= PMP_MAX_SIZE
            &&& is_pow2(c.size as nat)
            &&& c.size >= 8 && c.size >= fw_len
            &&& (c.size == 8 || c.size / 2 < fw_len)
            &&& fw_start % c.size == 0
            &&& c.addr0 == fw_start / 4 + c.size / 8 - 1
            &&& c.addr1 == PMP_ADDR_ALL
            &&& c.cfg0 == PMP_CFG0
        },
        r is None ==> fw_len > PMP_MAX_SIZE || exists|size: u64|
            is_pow2(size as nat) && size >= 8 && size >= fw_len && (size == 8 || size / 2 < fw_len)
                && fw_start % size != 0,
{
    if fw_len > PMP_MAX_SIZE {
        return None;
    }
    let mut size: u64 = 8;
    assert(is_pow2(8)) by {
        reveal_with_fuel(is_pow2, 4);
    }
    while size < fw_len
        invariant
            is_pow2(size as nat),
            8 <= size <= 2 * PMP_MAX_SIZE,
            fw_len <= PMP_MAX_SIZE,
            size == 8 || size / 2 < fw_len,
        decreases 2 * PMP_MAX_SIZE - size,
    {
        proof {
            lemma_pow2_double(size as nat);
        }
        size = size * 2;
    }
    if fw_start % size != 0 {
        assert(is_pow2(size as nat) && size >= 8 && size >= fw_len && (size == 8 || size / 2 < fw_len)
            && fw_start % size != 0);
        return None;
    }
    Some(PmpConfig { size, addr0: fw_start / 4 + (size / 8 - 1), addr1: PMP_ADDR_ALL, cfg0: PMP_CFG0 })
}

proof fn lemma_pow2_double(x: nat)
    requires
        is_pow2(x),
    ensures
        is_pow2(2 * x),
{
    assert((2 * x) / 2 == x);
}

} // verus!
