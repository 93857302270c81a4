use rvkernel::address::{InvalidAddressError, PhysicalAddress, PhysicalPageAddress};

#[test]
fn physical_address_accepts_values_below_limit() {
    for v in [0u64, 1, 0x8000_0000, (1u64 << 56) - 1] {
        let a = PhysicalAddress::from_raw(v).unwrap();
        assert_eq!(a.as_u64(), v);
        assert_eq!(u64::from(a), v);
    }
}

#[test]
fn physical_address_rejects_values_at_or_above_limit() {
    for v in [1u64 << 56, (1u64 << 56) + 1, u64::MAX] {
        assert_eq!(PhysicalAddress::from_raw(v), Err(InvalidAddressError));
        assert_eq!(PhysicalAddress::try_from(v), Err(InvalidAddressError));
    }
}

#[test]
fn page_offset_is_low_twelve_bits() {
    let a = PhysicalAddress::from_raw(0x8020_1abc).unwrap();
    assert_eq!(a.page_offset(), 0xabc);
    assert!(!a.is_page_aligned());
    let b = PhysicalAddress::from_raw(0x8020_1000).unwrap();
    assert_eq!(b.page_offset(), 0);
    assert!(b.is_page_aligned());
}

#[test]
fn page_address_requires_alignment() {
    let aligned = PhysicalAddress::from_raw(0x8020_0000).unwrap();
    let p = PhysicalPageAddress::from_address(aligned).unwrap();
    assert_eq!(p.as_u64(), 0x8020_0000);
    assert_eq!(p.address(), aligned);
    let unaligned = PhysicalAddress::from_raw(0x8020_0008).unwrap();
    assert_eq!(PhysicalPageAddress::from_address(unaligned), Err(InvalidAddressError));
    assert_eq!(PhysicalPageAddress::try_from(unaligned), Err(InvalidAddressError));
}

#[test]
fn page_address_from_raw_checks_range_and_alignment() {
    assert_eq!(u64::from(PhysicalPageAddress::from_raw(0x1000).unwrap()), 0x1000);
    assert_eq!(PhysicalPageAddress::try_from(0u64).unwrap().as_u64(), 0);
    assert_eq!(PhysicalPageAddress::from_raw(0x1001), Err(InvalidAddressError));
    assert_eq!(PhysicalPageAddress::from_raw(1u64 << 56), Err(InvalidAddressError));
    let top = (1u64 << 56) - 0x1000;
    assert_eq!(PhysicalPageAddress::from_raw(top).unwrap().as_u64(), top);
}
