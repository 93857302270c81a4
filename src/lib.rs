//! Physical-memory management for a single-hart RISC-V kernel: validated
//! physical addresses, a frame allocator, and the Sv39 page-table-entry codec.

use vstd::prelude::*;

pub mod address;
pub mod console;
pub mod frame_alloc;
pub mod page_table;

verus! {

/// Number of bits of the offset of an address inside its frame.
pub const PAGE_OFFSET_BITS: u64 = 12;

/// Size in bytes of one frame.
pub const PAGE_SIZE: u64 = 4096;

/// Width of a physical frame number.
pub const PHYSICAL_PAGE_NUMBER_BITS: u64 = 44;

/// Width of a physical address: frame number and page offset.
pub const PHYSICAL_ADDRESS_BITS: u64 = PHYSICAL_PAGE_NUMBER_BITS + PAGE_OFFSET_BITS;

/// First value that is not a physical address (two to the power of `PHYSICAL_ADDRESS_BITS`).
pub const PHYSICAL_ADDRESS_LIMIT: u64 = 0x0100_0000_0000_0000;

/// First value that is not a physical frame number (two to the power of
/// `PHYSICAL_PAGE_NUMBER_BITS`).
pub const PHYSICAL_PAGE_NUMBER_LIMIT: u64 = 0x0000_1000_0000_0000;

/// Offset of the linear mapping through which the kernel reaches physical memory:
/// a physical address `p` is accessible at the virtual address `p + PHYSICAL_MAPPING_OFFSET`.
pub const PHYSICAL_MAPPING_OFFSET: u64 = 0xffff_ffff_0000_0000;

} // verus!
