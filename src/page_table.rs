//! Sv39 page-table entries and page tables.
//!
//! An entry is a 64-bit word: bit 0 valid, bit 1 readable, bit 2 writable, bit 3
//! executable, bit 4 user, bit 5 global, bit 6 accessed, bit 7 dirty, and bits 10 to 53
//! the physical frame number. The other bits are reserved and left zero. Fields are read
//! and written through the `bitfield` crate's bit-range traits.

use vstd::prelude::*;

use crate::address::PhysicalPageAddress;
use crate::{PAGE_OFFSET_BITS, PHYSICAL_PAGE_NUMBER_LIMIT};

verus! {

/// Number of entries in one page table: a frame divided by the size of an entry.
pub const PAGE_TABLE_ENTRY_COUNT: usize = 512;

const VALID_BIT: usize = 0;
const READABLE_BIT: usize = 1;
const WRITABLE_BIT: usize = 2;
const EXECUTABLE_BIT: usize = 3;
const USER_BIT: usize = 4;
const GLOBAL_BIT: usize = 5;
const ACCESSED_BIT: usize = 6;
const DIRTY_BIT: usize = 7;
const PPN_LSB: usize = 10;
const PPN_MSB: usize = 53;

/// Bit `bit` of `word`.
pub open spec fn flag(word: u64, bit: u64) -> bool {
    (word >> bit) & 1 == 1
}

/// `word` with bit `bit` set to `value`.
pub open spec fn with_flag(word: u64, bit: u64, value: bool) -> u64 {
    if value {
        word | (1u64 << bit)
    } else {
        word & !(1u64 << bit)
    }
}

/// The mask of bits `lsb` to `msb`, both included.
pub open spec fn field_mask(msb: u64, lsb: u64) -> u64 {
    (u64::MAX >> ((63 - msb + lsb) as u64)) << lsb
}

/// Bits `lsb` to `msb` of `word`, shifted down to bit 0.
pub open spec fn field(word: u64, msb: u64, lsb: u64) -> u64 {
    (word >> lsb) & (u64::MAX >> ((63 - msb + lsb) as u64))
}

/// `word` with bits `lsb` to `msb` replaced by the low bits of `value`.
pub open spec fn with_field(word: u64, msb: u64, lsb: u64, value: u64) -> u64 {
    (word & !field_mask(msb, lsb)) | ((value << lsb) & field_mask(msb, lsb))
}

/// The frame-number field of an entry word.
pub open spec fn ppn_of(word: u64) -> u64 {
    (word >> 10u64) & 0xfff_ffff_ffffu64
}

/// `word` with its frame-number field replaced by the low 44 bits of `ppn`.
pub open spec fn with_ppn(word: u64, ppn: u64) -> u64 {
    (word & !0x003f_ffff_ffff_fc00u64) | ((ppn << 10u64) & 0x003f_ffff_ffff_fc00u64)
}

/// The word of an entry with the given fields and all reserved bits zero.
pub open spec fn encode(
    valid: bool,
    readable: bool,
    writable: bool,
    executable: bool,
    user: bool,
    global: bool,
    ppn: u64,
) -> u64 {
    (if valid { 1u64 } else { 0u64 }) | (if readable { 2u64 } else { 0u64 }) | (if writable {
        4u64
    } else {
        0u64
    }) | (if executable { 8u64 } else { 0u64 }) | (if user { 16u64 } else { 0u64 }) | (if global {
        32u64
    } else {
        0u64
    }) | (ppn << 10u64)
}

/// Relies on `bitfield::Bit` for `u64`: `bit(i)` is bit `i` of the word.
#[verifier::external_body]
fn read_bit(word: u64, bit: usize) -> (r: bool)
    requires
        bit < 64,
    ensures
        r == flag(word, bit as u64),
{
    bitfield::Bit::bit(&word, bit)
}

/// Relies on `bitfield::BitMut` for `u64`: `set_bit(i, v)` sets bit `i` to `v` and keeps
/// the other bits.
#[verifier::external_body]
fn write_bit(word: &mut u64, bit: usize, value: bool)
    requires
        bit < 64,
    ensures
        *final(word) == with_flag(*old(word), bit as u64, value),
{
    bitfield::BitMut::set_bit(word, bit, value)
}

/// Relies on `bitfield::BitRange<u64>` for `u64`: `bit_range(msb, lsb)` is bits `lsb` to
/// `msb` of the word, shifted down.
#[verifier::external_body]
fn read_bits(word: u64, msb: usize, lsb: usize) -> (r: u64)
    requires
        lsb <= msb < 64,
    ensures
        r == field(word, msb as u64, lsb as u64),
{
    bitfield::BitRange::<u64>::bit_range(&word, msb, lsb)
}

/// Relies on `bitfield::BitRangeMut<u64>` for `u64`: `set_bit_range(msb, lsb, v)` replaces
/// bits `lsb` to `msb` by the low bits of `v` and keeps the other bits.
#[verifier::external_body]
fn write_bits(word: &mut u64, msb: usize, lsb: usize, value: u64)
    requires
        lsb <= msb < 64,
    ensures
        *final(word) == with_field(*old(word), msb as u64, lsb as u64, value),
{
    bitfield::BitRangeMut::<u64>::set_bit_range(word, msb, lsb, value)
}

/// The combinations of access permissions that a leaf entry may grant. The raw
/// combinations write-only and write-execute are reserved by the architecture and
/// cannot be expressed.
#[derive(Debug, Clone, Copy, PartialEq, Eq, Structural)]
pub enum PagePermissions {
    Read,
    ReadWrite,
    Execute,
    ReadExecute,
    ReadWriteExecute,
}

impl PagePermissions {
    /// Whether the combination grants reading.
    pub open spec fn grants_read(self) -> bool {
        !(self is Execute)
    }

    /// Whether the combination grants writing.
    pub open spec fn grants_write(self) -> bool {
        self is ReadWrite || self is ReadWriteExecute
    }

    /// Whether the combination grants executing.
    pub open spec fn grants_execute(self) -> bool {
        self is Execute || self is ReadExecute || self is ReadWriteExecute
    }
}

/// One page-table entry, held as its raw 64-bit word.
#[derive(Debug, Clone, Copy, PartialEq, Eq, Structural)]
pub struct PageTableEntry(u64);

impl View for PageTableEntry {
    type V = u64;

    closed spec fn view(&self) -> u64 {
        self.0
    }
}

impl PageTableEntry {
    /// The entry whose bits are all zero: not valid.
    pub fn new_invalid() -> (r: PageTableEntry)
        ensures
            r@ == 0,
    {
        PageTableEntry(0)
    }

    /// The raw word of the entry.
    pub fn bits(&self) -> (r: u64)
        ensures
            r == self@,
    {
        self.0
    }

    /// Whether the entry is valid.
    pub fn valid(&self) -> (r: bool)
        ensures
            r == flag(self@, 0),
    {
        read_bit(self.0, VALID_BIT)
    }

    /// Whether the entry grants reading.
    pub fn readable(&self) -> (r: bool)
        ensures
            r == flag(self@, 1),
    {
        read_bit(self.0, READABLE_BIT)
    }

    /// Whether the entry grants writing.
    pub fn writable(&self) -> (r: bool)
        ensures
            r == flag(self@, 2),
    {
        read_bit(self.0, WRITABLE_BIT)
    }

    /// Whether the entry grants executing.
    pub fn executable(&self) -> (r: bool)
        ensures
            r == flag(self@, 3),
    {
        read_bit(self.0, EXECUTABLE_BIT)
    }

    /// Whether the page is accessible in user mode.
    pub fn user(&self) -> (r: bool)
        ensures
            r == flag(self@, 4),
    {
        read_bit(self.0, USER_BIT)
    }

    /// Whether the mapping exists in all address spaces.
    pub fn global(&self) -> (r: bool)
        ensures
            r == flag(self@, 5),
    {
        read_bit(self.0, GLOBAL_BIT)
    }

    /// Whether the page has been accessed since the bit was last cleared.
    pub fn accessed(&self) -> (r: bool)
        ensures
            r == flag(self@, 6),
    {
        read_bit(self.0, ACCESSED_BIT)
    }

    /// Whether the page has been written since the bit was last cleared.
    pub fn dirty(&self) -> (r: bool)
        ensures
            r == flag(self@, 7),
    {
        read_bit(self.0, DIRTY_BIT)
    }

    /// The physical frame number held in bits 10 to 53.
    pub fn ppn(&self) -> (r: u64)
        ensures
            r == ppn_of(self@),
            r < PHYSICAL_PAGE_NUMBER_LIMIT,
    {
        let r = read_bits(self.0, PPN_MSB, PPN_LSB);
        let w = self.0;
        assert(field(w, 53, 10) == ppn_of(w) && ppn_of(w) < 0x1000_0000_0000u64) by (bit_vector);
        r
    }

    /// Whether the entry ends translation: it grants reading, writing or executing.
    pub fn is_leaf(&self) -> (r: bool)
        ensures
            r == (flag(self@, 1) || flag(self@, 2) || flag(self@, 3)),
    {
        self.readable() || self.writable() || self.executable()
    }

    /// Sets the valid bit.
    pub fn set_valid(&mut self, value: bool)
        ensures
            final(self)@ == with_flag(old(self)@, 0, value),
    {
        write_bit(&mut self.0, VALID_BIT, value)
    }

    fn set_readable(&mut self, value: bool)
        ensures
            final(self)@ == with_flag(old(self)@, 1, value),
    {
        write_bit(&mut self.0, READABLE_BIT, value)
    }

    fn set_writable(&mut self, value: bool)
        ensures
            final(self)@ == with_flag(old(self)@, 2, value),
    {
        write_bit(&mut self.0, WRITABLE_BIT, value)
    }

    fn set_executable(&mut self, value: bool)
        ensures
            final(self)@ == with_flag(old(self)@, 3, value),
    {
        write_bit(&mut self.0, EXECUTABLE_BIT, value)
    }

    /// Sets the user bit.
    pub fn set_user(&mut self, value: bool)
        ensures
            final(self)@ == with_flag(old(self)@, 4, value),
    {
        write_bit(&mut self.0, USER_BIT, value)
    }

    /// Sets the global bit.
    pub fn set_global(&mut self, value: bool)
        ensures
            final(self)@ == with_flag(old(self)@, 5, value),
    {
        write_bit(&mut self.0, GLOBAL_BIT, value)
    }

    /// Sets the accessed bit.
    pub fn set_accessed(&mut self, value: bool)
        ensures
            final(self)@ == with_flag(old(self)@, 6, value),
    {
        write_bit(&mut self.0, ACCESSED_BIT, value)
    }

    /// Sets the dirty bit.
    pub fn set_dirty(&mut self, value: bool)
        ensures
            final(self)@ == with_flag(old(self)@, 7, value),
    {
        write_bit(&mut self.0, DIRTY_BIT, value)
    }

    /// Replaces the frame-number field by the low 44 bits of `ppn`; the other bits stay.
    pub fn set_ppn(&mut self, ppn: u64)
        ensures
            final(self)@ == with_ppn(old(self)@, ppn),
            ppn < PHYSICAL_PAGE_NUMBER_LIMIT ==> ppn_of(final(self)@) == ppn,
    {
        let ghost w = self.0;
        write_bits(&mut self.0, PPN_MSB, PPN_LSB, ppn);
        assert(with_field(w, 53, 10, ppn) == with_ppn(w, ppn)) by (bit_vector);
        proof {
            if ppn < PHYSICAL_PAGE_NUMBER_LIMIT {
                lemma_ppn_round_trip(w, ppn);
            }
        }
    }

    /// A valid leaf entry mapping `frame` with the given permissions; accessed and dirty
    /// are clear.
    pub fn new_leaf(frame: PhysicalPageAddress, permissions: PagePermissions, user: bool, global: bool) -> (r: PageTableEntry)
        ensures
            r@ == encode(
                true,
                permissions.grants_read(),
                permissions.grants_write(),
                permissions.grants_execute(),
                user,
                global,
                (frame@ / 4096) as u64,
            ),
            flag(r@, 0),
            flag(r@, 1) == permissions.grants_read(),
            flag(r@, 2) == permissions.grants_write(),
            flag(r@, 3) == permissions.grants_execute(),
            flag(r@, 4) == user,
            flag(r@, 5) == global,
            !flag(r@, 6),
            !flag(r@, 7),
            ppn_of(r@) == frame@ / 4096,
            flag(r@, 1) || flag(r@, 2) || flag(r@, 3),
    {
        let (read, write, execute) = match permissions {
            PagePermissions::Read => (true, false, false),
            PagePermissions::ReadWrite => (true, true, false),
            PagePermissions::Execute => (false, false, true),
            PagePermissions::ReadExecute => (true, false, true),
            PagePermissions::ReadWriteExecute => (true, true, true),
        };
        let ppn = frame_number(frame);
        let mut entry = PageTableEntry::new_invalid();
        entry.set_valid(true);
        entry.set_readable(read);
        entry.set_writable(write);
        entry.set_executable(execute);
        entry.set_user(user);
        entry.set_global(global);
        entry.set_ppn(ppn);
        proof {
            lemma_build(true, read, write, execute, user, global, ppn);
            lemma_encode_fields(true, read, write, execute, user, global, ppn);
        }
        entry
    }

    /// A valid non-leaf entry pointing to the next-level table held in `frame`; it grants
    /// no permission and is not accessible in user mode.
    pub fn new_non_leaf(frame: PhysicalPageAddress, global: bool) -> (r: PageTableEntry)
        ensures
            r@ == encode(true, false, false, false, false, global, (frame@ / 4096) as u64),
            flag(r@, 0),
            !flag(r@, 1),
            !flag(r@, 2),
            !flag(r@, 3),
            !flag(r@, 4),
            flag(r@, 5) == global,
            !flag(r@, 6),
            !flag(r@, 7),
            ppn_of(r@) == frame@ / 4096,
    {
        let ppn = frame_number(frame);
        let mut entry = PageTableEntry::new_invalid();
        entry.set_valid(true);
        entry.set_readable(false);
        entry.set_writable(false);
        entry.set_executable(false);
        entry.set_user(false);
        entry.set_global(global);
        entry.set_ppn(ppn);
        proof {
            lemma_build(true, false, false, false, false, global, ppn);
            lemma_encode_fields(true, false, false, false, false, global, ppn);
        }
        entry
    }
}

/// The frame number of a frame address: the address without its 12 offset bits.
fn frame_number(frame: PhysicalPageAddress) -> (r: u64)
    ensures
        r == frame@ / 4096,
        r < PHYSICAL_PAGE_NUMBER_LIMIT,
{
    let a = frame.as_u64();
    assert(a < 0x0100_0000_0000_0000u64 ==> a >> 12u64 == a / 4096 && a >> 12u64 < 0x1000_0000_0000u64)
        by (bit_vector);
    a >> PAGE_OFFSET_BITS
}

/// Setting the fields one by one on a zero word gives the encoded entry.
proof fn lemma_build(
    valid: bool,
    readable: bool,
    writable: bool,
    executable: bool,
    user: bool,
    global: bool,
    ppn: u64,
)
    requires
        ppn < PHYSICAL_PAGE_NUMBER_LIMIT,
    ensures
        with_ppn(
            with_flag(
                with_flag(
                    with_flag(
                        with_flag(with_flag(with_flag(0, 0, valid), 1, readable), 2, writable),
                        3,
                        executable,
                    ),
                    4,
                    user,
                ),
                5,
                global,
            ),
            ppn,
        ) == encode(valid, readable, writable, executable, user, global, ppn),
{
    assert(ppn < 0x1000_0000_0000u64 ==> with_ppn(
        with_flag(
            with_flag(
                with_flag(
                    with_flag(with_flag(with_flag(0, 0, valid), 1, readable), 2, writable),
                    3,
                    executable,
                ),
                4,
                user,
            ),
            5,
            global,
        ),
        ppn,
    ) == encode(valid, readable, writable, executable, user, global, ppn)) by (bit_vector);
}

/// Each field of an encoded entry reads back as the value it was encoded with, and the
/// accessed and dirty bits are clear.
pub proof fn lemma_encode_fields(
    valid: bool,
    readable: bool,
    writable: bool,
    executable: bool,
    user: bool,
    global: bool,
    ppn: u64,
)
    requires
        ppn < PHYSICAL_PAGE_NUMBER_LIMIT,
    ensures
        ({
            let w = encode(valid, readable, writable, executable, user, global, ppn);
            &&& flag(w, 0) == valid
            &&& flag(w, 1) == readable
            &&& flag(w, 2) == writable
            &&& flag(w, 3) == executable
            &&& flag(w, 4) == user
            &&& flag(w, 5) == global
            &&& !flag(w, 6)
            &&& !flag(w, 7)
            &&& ppn_of(w) == ppn
        }),
{
    assert(ppn < 0x1000_0000_0000u64 ==> {
        let w = encode(valid, readable, writable, executable, user, global, ppn);
        &&& flag(w, 0) == valid
        &&& flag(w, 1) == readable
        &&& flag(w, 2) == writable
        &&& flag(w, 3) == executable
        &&& flag(w, 4) == user
        &&& flag(w, 5) == global
        &&& !flag(w, 6)
        &&& !flag(w, 7)
        &&& ppn_of(w) == ppn
    }) by (bit_vector);
}

/// Writing a 44-bit frame number into an entry and reading it back gives the same
/// number.
pub proof fn lemma_ppn_round_trip(word: u64, ppn: u64)
    requires
        ppn < PHYSICAL_PAGE_NUMBER_LIMIT,
    ensures
        ppn_of(with_ppn(word, ppn)) == ppn,
{
    assert(ppn < 0x1000_0000_0000u64 ==> ppn_of(with_ppn(word, ppn)) == ppn) by (bit_vector);
}

/// One level of a page table: a frame-sized array of entries.
pub struct PageTable(pub [PageTableEntry; PAGE_TABLE_ENTRY_COUNT]);

impl View for PageTable {
    type V = Seq<PageTableEntry>;

    open spec fn view(&self) -> Seq<PageTableEntry> {
        self.0@
    }
}

impl PageTable {
    /// A table whose entries are all invalid.
    pub fn new() -> (r: PageTable)
        ensures
            r@.len() == PAGE_TABLE_ENTRY_COUNT,
            forall|i: int| 0 <= i < PAGE_TABLE_ENTRY_COUNT ==> #[trigger] r@[i]@ == 0,
    {
        let r = PageTable([PageTableEntry::new_invalid();PAGE_TABLE_ENTRY_COUNT]);
        r
    }

    /// The entry at `index`.
    pub fn entry(&self, index: usize) -> (r: PageTableEntry)
        requires
            index < PAGE_TABLE_ENTRY_COUNT,
        ensures
            r == self@[index as int],
    {
        self.0[index]
    }

    /// Replaces the entry at `index`.
    pub fn set_entry(&mut self, index: usize, entry: PageTableEntry)
        requires
            index < PAGE_TABLE_ENTRY_COUNT,
        ensures
            final(self)@ == old(self)@.update(index as int, entry),
    {
        self.0[index] = entry;
    }
}

} // verus!
