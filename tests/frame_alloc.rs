use rvkernel::frame_alloc::{
    frame_alloc, frame_alloc_with_ptr, frame_free, physical_to_virtual, virtual_to_physical,
    FrameAllocator,
};
use rvkernel::address::{InvalidAddressError, PhysicalPageAddress};
use rvkernel::PHYSICAL_MAPPING_OFFSET;

const BASE: u64 = PHYSICAL_MAPPING_OFFSET + 0x8020_0000;

#[test]
fn fresh_allocator_hands_out_distinct_frames_in_order() {
    let mut a = FrameAllocator::new(BASE, BASE + 4 * 4096).unwrap();
    let mut seen = Vec::new();
    for i in 0..4u64 {
        let f = a.allocate().unwrap();
        assert_eq!(f, BASE + i * 4096);
        assert!(!seen.contains(&f));
        seen.push(f);
    }
    assert_eq!(a.allocate(), None);
}

#[test]
fn freed_frame_is_reused_first() {
    let mut a = FrameAllocator::new(BASE, BASE + 8 * 4096).unwrap();
    let f = a.allocate().unwrap();
    let _g = a.allocate().unwrap();
    a.free(f);
    assert_eq!(a.allocate(), Some(f));
    assert_eq!(a.allocate(), Some(BASE + 2 * 4096));
}

#[test]
fn frees_are_reused_last_in_first_out() {
    let mut a = FrameAllocator::new(BASE, BASE + 8 * 4096).unwrap();
    let f0 = a.allocate().unwrap();
    let f1 = a.allocate().unwrap();
    let f2 = a.allocate().unwrap();
    a.free(f0);
    a.free(f2);
    assert_eq!(a.allocate(), Some(f2));
    assert_eq!(a.allocate(), Some(f0));
    let f3 = a.allocate().unwrap();
    assert!(f3 != f1 && f3 != f0 && f3 != f2);
}

#[test]
fn exhausted_allocator_returns_none_until_a_free() {
    let mut a = FrameAllocator::new(BASE, BASE + 4096).unwrap();
    let f = a.allocate().unwrap();
    assert_eq!(a.allocate(), None);
    a.free(f);
    assert_eq!(a.allocate(), Some(f));
    let mut empty = FrameAllocator::new(BASE, BASE).unwrap();
    assert_eq!(empty.allocate(), None);
}

#[test]
fn allocator_rejects_bad_ranges() {
    assert_eq!(FrameAllocator::new(BASE + 1, BASE + 4096).err(), Some(InvalidAddressError));
    assert_eq!(FrameAllocator::new(BASE, BASE + 4095).err(), Some(InvalidAddressError));
    assert_eq!(FrameAllocator::new(BASE + 4096, BASE).err(), Some(InvalidAddressError));
    assert_eq!(FrameAllocator::new(0x8020_0000, 0x8030_0000).err(), Some(InvalidAddressError));
}

#[test]
fn frame_alloc_translates_to_physical() {
    let mut a = FrameAllocator::new(BASE, BASE + 4 * 4096).unwrap();
    let p = frame_alloc(&mut a).unwrap();
    assert_eq!(p.as_u64(), 0x8020_0000);
    let (q, v) = frame_alloc_with_ptr(&mut a).unwrap();
    assert_eq!(q.as_u64(), 0x8020_1000);
    assert_eq!(v, BASE + 4096);
    frame_free(&mut a, p);
    assert_eq!(frame_alloc(&mut a), Some(p));
}

#[test]
fn linear_mapping_translation() {
    let p = virtual_to_physical(PHYSICAL_MAPPING_OFFSET + 0x8000_3000);
    assert_eq!(p.as_u64(), 0x8000_3000);
    assert_eq!(physical_to_virtual(p), PHYSICAL_MAPPING_OFFSET + 0x8000_3000);
    let q = PhysicalPageAddress::from_raw(0).unwrap();
    assert_eq!(physical_to_virtual(q), PHYSICAL_MAPPING_OFFSET);
}
