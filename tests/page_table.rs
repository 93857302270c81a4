use rvkernel::address::PhysicalPageAddress;
use rvkernel::page_table::{PagePermissions, PageTable, PageTableEntry, PAGE_TABLE_ENTRY_COUNT};

fn frame(ppn: u64) -> PhysicalPageAddress {
    PhysicalPageAddress::from_raw(ppn << 12).unwrap()
}

#[test]
fn invalid_entry_is_all_zero() {
    let e = PageTableEntry::new_invalid();
    assert_eq!(e.bits(), 0);
    assert!(!e.valid());
    assert!(!e.is_leaf());
    assert_eq!(e.ppn(), 0);
}

#[test]
fn leaf_read_write_entry() {
    let e = PageTableEntry::new_leaf(frame(0x80200), PagePermissions::ReadWrite, false, false);
    assert!(e.valid());
    assert!(e.readable());
    assert!(e.writable());
    assert!(!e.executable());
    assert!(e.is_leaf());
    assert_eq!(e.ppn(), 0x80200);
    assert_eq!(e.bits(), (0x80200 << 10) | 0b111);
}

#[test]
fn leaf_permission_combinations() {
    let cases = [
        (PagePermissions::Read, true, false, false),
        (PagePermissions::ReadWrite, true, true, false),
        (PagePermissions::Execute, false, false, true),
        (PagePermissions::ReadExecute, true, false, true),
        (PagePermissions::ReadWriteExecute, true, true, true),
    ];
    for (p, r, w, x) in cases {
        let e = PageTableEntry::new_leaf(frame(7), p, true, true);
        assert_eq!((e.readable(), e.writable(), e.executable()), (r, w, x));
        assert!(e.is_leaf() && e.valid() && e.user() && e.global());
        assert!(!e.accessed() && !e.dirty());
        assert_eq!(e.ppn(), 7);
    }
}

#[test]
fn non_leaf_entry_points_to_next_table() {
    let e = PageTableEntry::new_non_leaf(frame(0x12345), true);
    assert!(e.valid());
    assert!(!e.is_leaf());
    assert!(!e.readable() && !e.writable() && !e.executable() && !e.user());
    assert!(e.global());
    assert_eq!(e.ppn(), 0x12345);
    assert_eq!(e.bits(), (0x12345 << 10) | 0b10_0001);
}

#[test]
fn ppn_round_trip() {
    for p in [0u64, 1, 0x80200, (1u64 << 44) - 1, 0xabc_def0_1234] {
        let mut e = PageTableEntry::new_invalid();
        e.set_ppn(p);
        assert_eq!(e.ppn(), p);
        let mut f = PageTableEntry::new_leaf(frame(3), PagePermissions::Read, true, false);
        f.set_ppn(p);
        assert_eq!(f.ppn(), p);
        assert!(f.readable() && f.user() && f.valid());
    }
}

#[test]
fn set_ppn_keeps_only_44_bits() {
    let mut e = PageTableEntry::new_invalid();
    e.set_ppn(u64::MAX);
    assert_eq!(e.ppn(), (1u64 << 44) - 1);
    assert_eq!(e.bits(), ((1u64 << 44) - 1) << 10);
}

#[test]
fn bit_positions() {
    let mut e = PageTableEntry::new_invalid();
    e.set_valid(true);
    assert_eq!(e.bits(), 1);
    let mut f = PageTableEntry::new_invalid();
    f.set_ppn(1);
    assert_eq!(f.bits(), 1 << 10);
    let mut g = PageTableEntry::new_invalid();
    g.set_user(true);
    assert_eq!(g.bits(), 1 << 4);
    g.set_user(false);
    g.set_global(true);
    assert_eq!(g.bits(), 1 << 5);
    g.set_global(false);
    g.set_accessed(true);
    assert_eq!(g.bits(), 1 << 6);
    g.set_accessed(false);
    g.set_dirty(true);
    assert_eq!(g.bits(), 1 << 7);
    g.set_dirty(false);
    assert_eq!(g.bits(), 0);
    let x = PageTableEntry::new_leaf(frame(0), PagePermissions::Execute, false, false);
    assert_eq!(x.bits(), 0b1001);
    let r = PageTableEntry::new_leaf(frame(0), PagePermissions::Read, false, false);
    assert_eq!(r.bits(), 0b11);
}

#[test]
fn page_table_size() {
    assert_eq!(std::mem::size_of::<PageTableEntry>(), 8);
    assert_eq!(std::mem::size_of::<PageTable>(), 4096);
    assert_eq!(PAGE_TABLE_ENTRY_COUNT, 512);
}

#[test]
fn page_table_starts_invalid_and_updates() {
    let mut t = PageTable::new();
    for i in 0..PAGE_TABLE_ENTRY_COUNT {
        assert_eq!(t.entry(i).bits(), 0);
    }
    let e = PageTableEntry::new_non_leaf(frame(42), false);
    t.set_entry(511, e);
    assert_eq!(t.entry(511), e);
    assert_eq!(t.entry(510).bits(), 0);
}
