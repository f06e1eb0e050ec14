//! The flattened device tree as bytes: checking and copying it, and adding
//! the firmware's own memory reservation to it.
use vstd::prelude::*;

verus! {

/// Magic number at the start of every flattened device tree.
pub const FDT_MAGIC: u32 = 0xd00dfeed;

/// Size of the tree's header.
pub const FDT_HEADER_SIZE: usize = 40;

/// Start of the memory that the firmware reserves for itself.
pub const FW_RESERVED_BASE: u32 = 0x80000000;

/// Length of the memory that the firmware reserves for itself.
pub const FW_RESERVED_SIZE: u32 = 0x200000;

/// The big-endian 32-bit word at `off`.
pub open spec fn be32(s: Seq<u8>, off: int) -> nat {
    s[off] as nat * 0x1000000 + s[off + 1] as nat * 0x10000 + s[off + 2] as nat * 0x100 + s[off
        + 3] as nat
}

fn read_be32(s: &Vec<u8>, off: usize) -> (r: u32)
    requires
        off + 4 <= s@.len(),
    ensures
        r as nat == be32(s@, off as int),
{
    let n = s.len();
    assert(off + 4 <= n);
    let a = s[off] as u32;
    let b = s[off + 1] as u32;
    let c = s[off + 2] as u32;
    let d = s[off + 3] as u32;
    assert(a <= 255 && b <= 255 && c <= 255 && d <= 255);
    a * 0x1000000 + b * 0x10000 + c * 0x100 + d
}

/// What `fdt` accepts as a tree: a whole header, the magic number, and at
/// least as many bytes as the header's total size (bytes 4 to 7).
pub open spec fn tree_accepted(s: Seq<u8>) -> bool {
    s.len() >= FDT_HEADER_SIZE && be32(s, 0) == FDT_MAGIC as nat && s.len() >= be32(s, 4)
}

/// Relies on fdt's `Fdt::new`, which accepts a buffer exactly when it holds
/// the 40-byte header, starts with the magic number and is at least the
/// header's total size long, and on `Fdt::total_size`, which returns that
/// total size.
#[verifier::external_body]
fn tree_total_size(blob: &[u8]) -> (r: Option<usize>)
    ensures
        r == (if tree_accepted(blob@) {
            Some(be32(blob@, 4) as usize)
        } else {
            None
        }),
{
    match fdt::Fdt::new(blob) {
        Ok(tree) => Some(tree.total_size()),
        Err(_) => None,
    }
}

/// The tree copied to its resting place: exactly its first total-size bytes.
/// `None` for a buffer that is not a tree, a fatal condition at boot.
pub fn relocate_fdt(blob: &[u8]) -> (r: Option<Vec<u8>>)
    ensures
        tree_accepted(blob@) ==> (r matches Some(t) && t@ == blob@.take(be32(blob@, 4) as int)),
        !tree_accepted(blob@) ==> r is None,
{
    match tree_total_size(blob) {
        None => None,
        Some(size) => {
            let mut out: Vec<u8> = Vec::new();
            let mut i: usize = 0;
            while i < size
                invariant
                    tree_accepted(blob@),
                    size == be32(blob@, 4),
                    i <= size,
                    out@ == blob@.take(i as int),
                decreases size - i,
            {
                out.push(blob[i]);
                i = i + 1;
                assert(out@ =~= blob@.take(i as int));
            }
            Some(out)
        },
    }
}

/// Why the reservation list could not take the firmware's entry.
#[derive(Clone, Copy, PartialEq, Eq, Structural, Debug)]
pub enum FixupError {
    /// The header's offsets do not describe a list inside the tree, or the
    /// list has no terminating entry before the structure block.
    Malformed,
    /// The terminating entry is the last one before the structure block:
    /// there is no room for another.
    InsufficientSpace,
}

/// Offset of the structure block (header bytes 8 to 11).
pub open spec fn struct_off(s: Seq<u8>) -> int {
    be32(s, 8) as int
}

/// Offset of the memory reservation list (header bytes 16 to 19).
pub open spec fn rsvmap_off(s: Seq<u8>) -> int {
    be32(s, 16) as int
}

/// The header can be read and places the list before the structure block,
/// inside the tree.
pub open spec fn header_ok(s: Seq<u8>) -> bool {
    s.len() >= 20 && rsvmap_off(s) <= struct_off(s) <= s.len()
}

/// The 8-byte entry at `k` is all zeros: the list's terminator.
pub open spec fn zero_entry(s: Seq<u8>, k: int) -> bool {
    forall|j: int| 0 <= j < 8 ==> #[trigger] s[k + j] == 0
}

/// The offset of the first terminator among the list's entries from the
/// `i`-th on, each entry being 8 bytes (a 32-bit address and a 32-bit
/// length) and lying wholly before the structure block.
pub open spec fn find_terminator(s: Seq<u8>, i: int) -> Option<int>
    decreases struct_off(s) - (rsvmap_off(s) + 8 * i),
{
    if i < 0 || rsvmap_off(s) + 8 * (i + 1) > struct_off(s) {
        None
    } else if zero_entry(s, rsvmap_off(s) + 8 * i) {
        Some(rsvmap_off(s) + 8 * i)
    } else {
        find_terminator(s, i + 1)
    }
}

/// What the fix-up does: it finds the list's first terminator `k` and, if a
/// fresh terminator fits after it, returns `k`.
pub open spec fn spec_fixup(s: Seq<u8>) -> Result<int, FixupError> {
    if !header_ok(s) {
        Err(FixupError::Malformed)
    } else {
        match find_terminator(s, 0) {
            None => Err(FixupError::Malformed),
            Some(k) => if k + 16 > struct_off(s) {
                Err(FixupError::InsufficientSpace)
            } else {
                Ok(k)
            },
        }
    }
}

/// The 16 bytes written at the terminator: the entry
/// `{0x80000000, 0x200000}` in big-endian, then a fresh terminator.
pub open spec fn entry_byte(j: int) -> u8 {
    if j == 0 {
        0x80
    } else if j == 5 {
        0x20
    } else {
        0
    }
}

fn entry_byte_at(j: usize) -> (r: u8)
    ensures
        r == entry_byte(j as int),
{
    if j == 0 {
        0x80
    } else if j == 5 {
        0x20
    } else {
        0
    }
}

/// The tree with the entry written at `k`.
pub open spec fn with_entry(s: Seq<u8>, k: int) -> Seq<u8> {
    Seq::new(s.len(), |t: int| if k <= t < k + 16 { entry_byte(t - k) } else { s[t] })
}

/// Adds the firmware's reservation `{0x80000000, 0x200000}` to the tree's
/// memory reservation list: writes it over the list's first terminator and
/// writes a fresh terminator after it. Returns the entry's offset. With no
/// room for the fresh terminator before the structure block it fails with
/// `InsufficientSpace`, which is fatal at boot; the tree is left unchanged on
/// any failure.
pub fn fixup_fdt(tree: &mut Vec<u8>) -> (r: Result<usize, FixupError>)
    ensures
        match spec_fixup(old(tree)@) {
            Ok(k) => r == Ok::<usize, FixupError>(k as usize) && final(tree)@ == with_entry(
                old(tree)@,
                k,
            ),
            Err(e) => r == Err::<usize, FixupError>(e) && final(tree)@ == old(tree)@,
        },
{
    let len = tree.len();
    if len < 20 {
        return Err(FixupError::Malformed);
    }
    let st = read_be32(tree, 8) as usize;
    let rsv = read_be32(tree, 16) as usize;
    if rsv > st || st > len {
        return Err(FixupError::Malformed);
    }
    let mut i: usize = 0;
    let mut found: Option<usize> = None;
    while found.is_none()
        invariant
            header_ok(tree@),
            st == struct_off(tree@),
            rsv == rsvmap_off(tree@),
            st <= len == tree@.len(),
            rsv + 8 * i <= st + 8,
            found is None ==> find_terminator(tree@, 0) == find_terminator(tree@, i as int),
            found matches Some(k) ==> find_terminator(tree@, 0) == Some(k as int) && k + 8 <= st,
            found is None ==> rsv + 8 * i <= st,
        decreases st + 8 - (rsv + 8 * i), (if found is None { 1int } else { 0int }),
    {
        if (st - rsv) - 8 * i < 8 {
            return Err(FixupError::Malformed);
        }
        let k = rsv + 8 * i;
        let mut zero = true;
        let mut j: usize = 0;
        while j < 8
            invariant
                k + 8 <= len,
                len == tree@.len(),
                j <= 8,
                zero == (forall|t: int| 0 <= t < j ==> #[trigger] tree@[k + t] == 0),
            decreases 8 - j,
        {
            if tree[k + j] != 0 {
                zero = false;
            }
            j = j + 1;
        }
        if zero {
            found = Some(k);
        } else {
            i = i + 1;
        }
    }
    let k = match found {
        Some(k) => k,
        None => {
            return Err(FixupError::Malformed);
        },
    };
    if st - k < 16 {
        return Err(FixupError::InsufficientSpace);
    }
    let ghost before = tree@;
    let mut j: usize = 0;
    while j < 16
        invariant
            k + 16 <= len,
            len == before.len(),
            tree@.len() == before.len(),
            j <= 16,
            forall|t: int|
                0 <= t < tree@.len() ==> #[trigger] tree@[t] == (if k <= t < k + j {
                    entry_byte(t - k)
                } else {
                    before[t]
                }),
        decreases 16 - j,
    {
        tree.set(k + j, entry_byte_at(j));
        j = j + 1;
    }
    assert(tree@ =~= with_entry(before, k as int));
    Ok(k)
}

/// After a fix-up that returned `k`, the entry at `k` reads
/// `{0x80000000, 0x200000}`, a terminator follows at `k + 8`, and every other
/// byte of the tree is as it was.
pub proof fn lemma_fixup_writes_entry(s: Seq<u8>)
    requires
        spec_fixup(s) is Ok,
    ensures
        ({
            let k = spec_fixup(s)->Ok_0;
            let t = with_entry(s, k);
            &&& t.len() == s.len()
            &&& be32(t, k) == FW_RESERVED_BASE as nat
            &&& be32(t, k + 4) == FW_RESERVED_SIZE as nat
            &&& zero_entry(t, k + 8)
            &&& forall|p: int| 0 <= p < s.len() && !(k <= p < k + 16) ==> #[trigger] t[p] == s[p]
        }),
{
    let k = spec_fixup(s)->Ok_0;
    lemma_terminator_in_list(s, 0);
    let t = with_entry(s, k);
    assert(t[k] == 0x80 && t[k + 1] == 0 && t[k + 2] == 0 && t[k + 3] == 0);
    assert(t[k + 4] == 0 && t[k + 5] == 0x20 && t[k + 6] == 0 && t[k + 7] == 0);
    assert forall|j: int| 0 <= j < 8 implies #[trigger] t[k + 8 + j] == 0 by {
        assert(t[k + 8 + j] == entry_byte(8 + j));
    }
}

/// A terminator found from the `i`-th entry on lies inside the list.
proof fn lemma_terminator_in_list(s: Seq<u8>, i: int)
    requires
        header_ok(s),
        0 <= i,
    ensures
        find_terminator(s, i) matches Some(k) ==> rsvmap_off(s) <= k && k + 8 <= struct_off(s),
    decreases struct_off(s) - (rsvmap_off(s) + 8 * i),
{
    if rsvmap_off(s) + 8 * (i + 1) <= struct_off(s) && !zero_entry(s, rsvmap_off(s) + 8 * i) {
        lemma_terminator_in_list(s, i + 1);
    }
}

} // verus!
