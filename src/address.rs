//! Physical addresses and page-aligned physical frame addresses.

use vstd::prelude::*;

use vstd::std_specs::convert::{FromSpec, TryFromSpec};

use crate::{PAGE_SIZE, PHYSICAL_ADDRESS_LIMIT};

verus! {

/// The error returned when a raw value is out of the physical address range or
/// is not aligned to a frame.
#[derive(Debug, Clone, Copy, PartialEq, Eq, Structural)]
pub struct InvalidAddressError;

/// A physical address: a value below `PHYSICAL_ADDRESS_LIMIT`.
#[derive(Debug, Clone, Copy, PartialEq, Eq, Structural)]
pub struct PhysicalAddress(u64);

impl View for PhysicalAddress {
    type V = nat;

    closed spec fn view(&self) -> nat {
        self.0 as nat
    }
}

/// The offset of an address inside its frame.
pub open spec fn page_offset_of(a: nat) -> nat {
    a % (PAGE_SIZE as nat)
}

impl PhysicalAddress {
    #[verifier::type_invariant]
    spec fn in_range(self) -> bool {
        self.0 < PHYSICAL_ADDRESS_LIMIT
    }

    /// Validates a raw value as a physical address.
    pub fn from_raw(value: u64) -> (r: Result<PhysicalAddress, InvalidAddressError>)
        ensures
            r is Ok <==> value < PHYSICAL_ADDRESS_LIMIT,
            r matches Ok(a) ==> a@ == value,
    {
        if value < PHYSICAL_ADDRESS_LIMIT {
            Ok(PhysicalAddress(value))
        } else {
            Err(InvalidAddressError)
        }
    }

    /// The raw value of the address.
    pub fn as_u64(self) -> (r: u64)
        ensures
            r == self@,
            r < PHYSICAL_ADDRESS_LIMIT,
    {
        proof {
            use_type_invariant(self);
        }
        self.0
    }

    /// The low 12 bits of the address: its offset inside its frame.
    pub fn page_offset(self) -> (r: u64)
        ensures
            r == page_offset_of(self@),
    {
        let v = self.0;
        assert(v & 0xfff == v % 4096) by (bit_vector);
        v & 0xfff
    }

    /// Whether the address is the first byte of a frame.
    pub fn is_page_aligned(self) -> (r: bool)
        ensures
            r <==> page_offset_of(self@) == 0,
    {
        self.page_offset() == 0
    }
}

/// A page-aligned physical address: the address of one frame.
#[derive(Debug, Clone, Copy, PartialEq, Eq, Structural)]
pub struct PhysicalPageAddress(PhysicalAddress);

impl View for PhysicalPageAddress {
    type V = nat;

    closed spec fn view(&self) -> nat {
        self.0@
    }
}

impl PhysicalPageAddress {
    #[verifier::type_invariant]
    spec fn aligned(self) -> bool {
        page_offset_of(self.0@) == 0
    }

    /// Accepts a physical address that is the first byte of a frame.
    pub fn from_address(addr: PhysicalAddress) -> (r: Result<PhysicalPageAddress, InvalidAddressError>)
        ensures
            r is Ok <==> page_offset_of(addr@) == 0,
            r matches Ok(p) ==> p@ == addr@,
    {
        if addr.is_page_aligned() {
            Ok(PhysicalPageAddress(addr))
        } else {
            Err(InvalidAddressError)
        }
    }

    /// Validates a raw value as a frame address: in range and page-aligned.
    pub fn from_raw(value: u64) -> (r: Result<PhysicalPageAddress, InvalidAddressError>)
        ensures
            r is Ok <==> value < PHYSICAL_ADDRESS_LIMIT && page_offset_of(value as nat) == 0,
            r matches Ok(p) ==> p@ == value,
    {
        match PhysicalAddress::from_raw(value) {
            Ok(addr) => PhysicalPageAddress::from_address(addr),
            Err(e) => Err(e),
        }
    }

    /// The frame address as a physical address.
    pub fn address(self) -> (r: PhysicalAddress)
        ensures
            r@ == self@,
    {
        self.0
    }

    /// The raw value of the frame address.
    pub fn as_u64(self) -> (r: u64)
        ensures
            r == self@,
            r < PHYSICAL_ADDRESS_LIMIT,
            page_offset_of(r as nat) == 0,
    {
        proof {
            use_type_invariant(self);
        }
        self.0.as_u64()
    }
}

impl TryFrom<u64> for PhysicalAddress {
    type Error = InvalidAddressError;

    fn try_from(value: u64) -> (r: Result<PhysicalAddress, InvalidAddressError>) {
        match PhysicalAddress::from_raw(value) {
            Ok(a) => Ok(a),
            Err(_) => Err(InvalidAddressError),
        }
    }
}

impl vstd::std_specs::convert::TryFromSpecImpl<u64> for PhysicalAddress {
    open spec fn obeys_try_from_spec() -> bool {
        true
    }

    closed spec fn try_from_spec(value: u64) -> Result<PhysicalAddress, InvalidAddressError> {
        if value < PHYSICAL_ADDRESS_LIMIT {
            Ok(PhysicalAddress(value))
        } else {
            Err(InvalidAddressError)
        }
    }
}

impl From<PhysicalAddress> for u64 {
    fn from(value: PhysicalAddress) -> (r: u64) {
        value.as_u64()
    }
}

impl vstd::std_specs::convert::FromSpecImpl<PhysicalAddress> for u64 {
    open spec fn obeys_from_spec() -> bool {
        true
    }

    open spec fn from_spec(value: PhysicalAddress) -> u64 {
        value@ as u64
    }
}

impl TryFrom<PhysicalAddress> for PhysicalPageAddress {
    type Error = InvalidAddressError;

    fn try_from(addr: PhysicalAddress) -> (r: Result<PhysicalPageAddress, InvalidAddressError>) {
        match PhysicalPageAddress::from_address(addr) {
            Ok(p) => Ok(p),
            Err(_) => Err(InvalidAddressError),
        }
    }
}

impl vstd::std_specs::convert::TryFromSpecImpl<PhysicalAddress> for PhysicalPageAddress {
    open spec fn obeys_try_from_spec() -> bool {
        true
    }

    closed spec fn try_from_spec(addr: PhysicalAddress) -> Result<PhysicalPageAddress, InvalidAddressError> {
        if page_offset_of(addr@) == 0 {
            Ok(PhysicalPageAddress(addr))
        } else {
            Err(InvalidAddressError)
        }
    }
}

impl TryFrom<u64> for PhysicalPageAddress {
    type Error = InvalidAddressError;

    fn try_from(value: u64) -> (r: Result<PhysicalPageAddress, InvalidAddressError>) {
        match PhysicalPageAddress::from_raw(value) {
            Ok(p) => Ok(p),
            Err(_) => Err(InvalidAddressError),
        }
    }
}

impl vstd::std_specs::convert::TryFromSpecImpl<u64> for PhysicalPageAddress {
    open spec fn obeys_try_from_spec() -> bool {
        true
    }

    closed spec fn try_from_spec(value: u64) -> Result<PhysicalPageAddress, InvalidAddressError> {
        if value < PHYSICAL_ADDRESS_LIMIT && page_offset_of(value as nat) == 0 {
            Ok(PhysicalPageAddress(PhysicalAddress(value)))
        } else {
            Err(InvalidAddressError)
        }
    }
}

impl From<PhysicalPageAddress> for u64 {
    fn from(value: PhysicalPageAddress) -> (r: u64) {
        value.as_u64()
    }
}

impl vstd::std_specs::convert::FromSpecImpl<PhysicalPageAddress> for u64 {
    open spec fn obeys_from_spec() -> bool {
        true
    }

    open spec fn from_spec(value: PhysicalPageAddress) -> u64 {
        value@ as u64
    }
}

/// A raw value converts to a physical address exactly when it is below
/// `PHYSICAL_ADDRESS_LIMIT`, and converting the address back gives the same value.
pub proof fn lemma_raw_address_round_trip(value: u64)
    ensures
        <PhysicalAddress as TryFromSpec<u64>>::try_from_spec(value) is Ok <==> value
            < PHYSICAL_ADDRESS_LIMIT,
        <PhysicalAddress as TryFromSpec<u64>>::try_from_spec(value) matches Ok(a) ==> <u64 as FromSpec<
            PhysicalAddress,
        >>::from_spec(a) == value,
{
}

/// A physical address converts to a frame address exactly when its page offset is
/// zero, and the frame address is the same address.
pub proof fn lemma_page_address_iff_aligned(addr: PhysicalAddress)
    ensures
        <PhysicalPageAddress as TryFromSpec<PhysicalAddress>>::try_from_spec(addr) is Ok
            <==> page_offset_of(addr@) == 0,
        <PhysicalPageAddress as TryFromSpec<PhysicalAddress>>::try_from_spec(addr) matches Ok(p)
            ==> p@ == addr@,
{
}

} // verus!
