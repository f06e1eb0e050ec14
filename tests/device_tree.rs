use meowsbi::tree::{fixup_fdt, relocate_fdt, FixupError};

fn put32(t: &mut [u8], off: usize, v: u32) {
    t[off..off + 4].copy_from_slice(&v.to_be_bytes());
}

/// A tree whose reservation list starts at 40 with `entries` used entries
/// before its terminator, and whose structure block starts at `st`.
fn tree(entries: usize, st: u32, total: usize) -> Vec<u8> {
    let mut t = vec![0u8; total];
    put32(&mut t, 0, 0xd00dfeed);
    put32(&mut t, 4, total as u32);
    put32(&mut t, 8, st);
    put32(&mut t, 12, st + 8);
    put32(&mut t, 16, 40);
    for i in 0..entries {
        put32(&mut t, 40 + 8 * i, 0x9000_0000 + i as u32);
        put32(&mut t, 44 + 8 * i, 0x1000);
    }
    for p in st as usize..total {
        t[p] = 0xaa;
    }
    t
}

#[test]
fn fixup_writes_entry_and_new_terminator() {
    let mut t = tree(1, 72, 96);
    let before = t.clone();
    let k = fixup_fdt(&mut t).unwrap();
    assert_eq!(k, 48);
    assert_eq!(&t[48..52], &0x8000_0000u32.to_be_bytes());
    assert_eq!(&t[52..56], &0x0020_0000u32.to_be_bytes());
    assert_eq!(&t[56..64], &[0u8; 8]);
    assert_eq!(&t[..48], &before[..48]);
    assert_eq!(&t[64..], &before[64..]);
}

#[test]
fn fixup_with_empty_list() {
    let mut t = tree(0, 56, 64);
    assert_eq!(fixup_fdt(&mut t), Ok(40));
    assert_eq!(&t[40..44], &[0x80, 0, 0, 0]);
    assert_eq!(&t[44..48], &[0, 0x20, 0, 0]);
    assert_eq!(&t[48..56], &[0u8; 8]);
}

#[test]
fn fixup_without_room_is_fatal_and_leaves_tree() {
    let mut t = tree(2, 64, 80);
    let before = t.clone();
    assert_eq!(fixup_fdt(&mut t), Err(FixupError::InsufficientSpace));
    assert_eq!(t, before);
}

#[test]
fn fixup_on_broken_header() {
    let mut short = vec![0u8; 10];
    assert_eq!(fixup_fdt(&mut short), Err(FixupError::Malformed));
    let mut t = tree(1, 72, 96);
    put32(&mut t, 8, 200);
    assert_eq!(fixup_fdt(&mut t), Err(FixupError::Malformed));
    let mut t = tree(1, 72, 96);
    for p in 40..72 {
        t[p] = 1;
    }
    assert_eq!(fixup_fdt(&mut t), Err(FixupError::Malformed));
}

#[test]
fn relocation_copies_total_size() {
    let mut blob = tree(1, 72, 96);
    blob.extend_from_slice(&[0x55; 20]);
    let r = relocate_fdt(&blob).unwrap();
    assert_eq!(r.len(), 96);
    assert_eq!(&r[..], &blob[..96]);
}

#[test]
fn relocation_refuses_non_trees() {
    let mut blob = tree(1, 72, 96);
    blob[0] = 0;
    assert_eq!(relocate_fdt(&blob), None);
    let blob = tree(1, 72, 96);
    assert_eq!(relocate_fdt(&blob[..80]), None);
    assert_eq!(relocate_fdt(&blob[..30]), None);
}
