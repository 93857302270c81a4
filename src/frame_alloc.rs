//! Frame allocator: hands out frames of physical memory, first those that were freed
//! (most recently freed first), then never-used frames in address order.
//!
//! Frames are named by the virtual address at which the kernel reaches them through
//! the linear mapping (`PHYSICAL_MAPPING_OFFSET`). The freed frames are kept on a stack
//! owned by the allocator, not inside the frames themselves, so a frame that has been
//! handed out is never read by the allocator again.

use vstd::prelude::*;

use crate::address::PhysicalPageAddress;
use crate::{PAGE_SIZE, PHYSICAL_MAPPING_OFFSET};

verus! {

/// The abstract state of a frame allocator, over virtual frame addresses.
pub struct AllocatorState {
    /// Freed frames; the last one is handed out first.
    pub free: Seq<int>,
    /// The first frame of the managed range.
    pub first: int,
    /// The first frame that has never been handed out.
    pub next: int,
    /// The end of the managed range (exclusive).
    pub end: int,
}

/// Whether `v` is the virtual address of a frame inside the linear mapping.
pub open spec fn is_mapped_frame(v: int) -> bool {
    PHYSICAL_MAPPING_OFFSET <= v <= u64::MAX && v % (PAGE_SIZE as int) == 0
}

impl AllocatorState {
    /// The state of a new allocator over the frames from `first` up to `end`.
    pub open spec fn fresh(first: int, end: int) -> AllocatorState {
        AllocatorState { free: Seq::empty(), first, next: first, end }
    }

    /// Well-formedness: the bounds are frames in the linear mapping, in order, and the
    /// freed frames are distinct frames below the never-used boundary.
    pub open spec fn wf(self) -> bool {
        &&& is_mapped_frame(self.first)
        &&& is_mapped_frame(self.end)
        &&& self.first <= self.next <= self.end
        &&& self.next % (PAGE_SIZE as int) == 0
        &&& self.free.no_duplicates()
        &&& forall|i: int|
            0 <= i < self.free.len() ==> {
                &&& self.first <= #[trigger] self.free[i] < self.next
                &&& self.free[i] % (PAGE_SIZE as int) == 0
            }
    }

    /// The frames that are handed out and not freed: below the boundary and not on the
    /// free stack.
    pub open spec fn allocated(self) -> Set<int> {
        Set::new(
            |v: int|
                self.first <= v < self.next && v % (PAGE_SIZE as int) == 0 && !self.free.contains(
                    v,
                ),
        )
    }

    /// The state after an allocation, and the frame handed out (none when every frame
    /// is in use).
    pub open spec fn allocate(self) -> (AllocatorState, Option<int>) {
        if self.free.len() > 0 {
            (AllocatorState { free: self.free.drop_last(), ..self }, Some(self.free.last()))
        } else if self.next < self.end {
            (AllocatorState { next: self.next + PAGE_SIZE, ..self }, Some(self.next))
        } else {
            (self, None)
        }
    }

    /// The state after `frame` is freed.
    pub open spec fn free(self, frame: int) -> AllocatorState {
        AllocatorState { free: self.free.push(frame), ..self }
    }
}

/// A frame allocator over a range of frames of the linear mapping.
pub struct FrameAllocator {
    /// Virtual addresses of the freed frames; the last one is handed out first.
    free_list: Vec<u64>,
    first_frame: u64,
    /// Virtual address of the first frame that has never been handed out.
    next_uninitialized_frame: u64,
    end: u64,
}

impl View for FrameAllocator {
    type V = AllocatorState;

    closed spec fn view(&self) -> AllocatorState {
        AllocatorState {
            free: self.free_list@.map_values(|v: u64| v as int),
            first: self.first_frame as int,
            next: self.next_uninitialized_frame as int,
            end: self.end as int,
        }
    }
}

impl FrameAllocator {
    /// An allocator over the frames from the virtual address `first_frame` up to `end`
    /// (exclusive). Both bounds must be frame-aligned addresses of the linear mapping with
    /// `first_frame <= end`; otherwise the error is returned.
    pub fn new(first_frame: u64, end: u64) -> (r: Result<FrameAllocator, crate::address::InvalidAddressError>)
        ensures
            r is Ok <==> is_mapped_frame(first_frame as int) && is_mapped_frame(end as int)
                && first_frame <= end,
            r matches Ok(a) ==> a@ == AllocatorState::fresh(first_frame as int, end as int) && a@.wf(),
    {
        if PHYSICAL_MAPPING_OFFSET <= first_frame && first_frame <= end && first_frame % PAGE_SIZE == 0
            && end % PAGE_SIZE == 0 {
            let a = FrameAllocator {
                free_list: Vec::new(),
                first_frame,
                next_uninitialized_frame: first_frame,
                end,
            };
            assert(a@.free =~= Seq::<int>::empty());
            Ok(a)
        } else {
            Err(crate::address::InvalidAddressError)
        }
    }

    /// Hands out a frame: the most recently freed one if any, else the first frame that
    /// was never used; none when every frame of the range is in use.
    pub fn allocate(&mut self) -> (r: Option<u64>)
        requires
            old(self)@.wf(),
        ensures
            final(self)@.wf(),
            final(self)@ == old(self)@.allocate().0,
            r is None <==> old(self)@.allocate().1 is None,
            r matches Some(v) ==> old(self)@.allocate().1 == Some(v as int),
            r matches Some(v) ==> is_mapped_frame(v as int),
            r matches Some(v) ==> !old(self)@.allocated().contains(v as int),
            r matches Some(v) ==> final(self)@.allocated() == old(self)@.allocated().insert(
                v as int,
            ),
            r is None <==> old(self)@.free.len() == 0 && old(self)@.next == old(self)@.end,
    {
        proof {
            lemma_allocate(self@);
        }
        let ghost s = self@;
        if self.free_list.len() > 0 {
            let frame = self.free_list.pop().unwrap();
            assert(self@.free =~= s.free.drop_last());
            Some(frame)
        } else if self.next_uninitialized_frame < self.end {
            let frame = self.next_uninitialized_frame;
            assert(frame + 4096 <= self.end) by {
                assert(frame % 4096 == 0 && self.end % 4096 == 0);
            }
            self.next_uninitialized_frame = frame + PAGE_SIZE;
            Some(frame)
        } else {
            None
        }
    }

    /// Whether the frame at physical address `frame` is in use: handed out by this
    /// allocator and not freed since.
    pub fn is_allocated(&self, frame: PhysicalPageAddress) -> (r: bool)
        requires
            self@.wf(),
        ensures
            r == self@.allocated().contains(frame@ + PHYSICAL_MAPPING_OFFSET),
    {
        let p = frame.as_u64();
        if p > u64::MAX - PHYSICAL_MAPPING_OFFSET {
            return false;
        }
        let v = p + PHYSICAL_MAPPING_OFFSET;
        if v < self.first_frame || v >= self.next_uninitialized_frame {
            return false;
        }
        assert(v % 4096 == 0);
        let mut i: usize = 0;
        while i < self.free_list.len()
            invariant
                0 <= i <= self.free_list@.len(),
                v == frame@ + PHYSICAL_MAPPING_OFFSET,
                forall|k: int| 0 <= k < i ==> self.free_list@[k] != v,
            decreases self.free_list@.len() - i,
        {
            if self.free_list[i] == v {
                assert(self@.free[i as int] == v as int);
                assert(self@.free.contains(v as int));
                return false;
            }
            i = i + 1;
        }
        assert(!self@.free.contains(v as int)) by {
            if self@.free.contains(v as int) {
                let k = choose|k: int| 0 <= k < self@.free.len() && self@.free[k] == v as int;
                assert(self.free_list@[k] == v);
            }
        }
        true
    }

    /// Returns `frame` to the allocator; it is handed out again before any other frame.
    /// The frame must be in use: handed out by this allocator and not freed since.
    pub fn free(&mut self, frame: u64)
        requires
            old(self)@.wf(),
            old(self)@.allocated().contains(frame as int),
        ensures
            final(self)@.wf(),
            final(self)@ == old(self)@.free(frame as int),
            final(self)@.allocated() == old(self)@.allocated().remove(frame as int),
    {
        proof {
            lemma_free(self@, frame as int);
        }
        let ghost s = self@;
        self.free_list.push(frame);
        assert(self@.free =~= s.free.push(frame as int));
    }
}

/// Hands out a frame and names it by its physical address.
pub fn frame_alloc(allocator: &mut FrameAllocator) -> (r: Option<PhysicalPageAddress>)
    requires
        old(allocator)@.wf(),
    ensures
        final(allocator)@.wf(),
        final(allocator)@ == old(allocator)@.allocate().0,
        r is None <==> old(allocator)@.allocate().1 is None,
        r matches Some(p) ==> old(allocator)@.allocate().1 == Some(p@ + PHYSICAL_MAPPING_OFFSET),
{
    match allocator.allocate() {
        Some(frame) => Some(virtual_to_physical(frame)),
        None => None,
    }
}

/// Hands out a frame and returns both its physical address and the virtual address at
/// which it can be written at once.
pub fn frame_alloc_with_ptr(allocator: &mut FrameAllocator) -> (r: Option<(PhysicalPageAddress, u64)>)
    requires
        old(allocator)@.wf(),
    ensures
        final(allocator)@.wf(),
        final(allocator)@ == old(allocator)@.allocate().0,
        r is None <==> old(allocator)@.allocate().1 is None,
        r matches Some((p, v)) ==> old(allocator)@.allocate().1 == Some(v as int) && v == p@
            + PHYSICAL_MAPPING_OFFSET,
{
    match allocator.allocate() {
        Some(frame) => Some((virtual_to_physical(frame), frame)),
        None => None,
    }
}

/// Returns the frame at physical address `frame` to the allocator. The frame must be in
/// use: handed out by this allocator and not freed since, and no longer reachable from
/// any live structure.
pub fn frame_free(allocator: &mut FrameAllocator, frame: PhysicalPageAddress)
    requires
        old(allocator)@.wf(),
        old(allocator)@.allocated().contains(frame@ + PHYSICAL_MAPPING_OFFSET),
    ensures
        final(allocator)@.wf(),
        final(allocator)@ == old(allocator)@.free(frame@ + PHYSICAL_MAPPING_OFFSET),
{
    let v = physical_to_virtual(frame);
    allocator.free(v)
}

/// The physical address of the frame at virtual address `frame` of the linear mapping.
pub fn virtual_to_physical(frame: u64) -> (r: PhysicalPageAddress)
    requires
        is_mapped_frame(frame as int),
    ensures
        r@ == frame - PHYSICAL_MAPPING_OFFSET,
{
    let p = frame - PHYSICAL_MAPPING_OFFSET;
    assert(p < 0x1_0000_0000 && p % 4096 == 0);
    PhysicalPageAddress::from_raw(p).unwrap()
}

/// The virtual address at which the linear mapping shows the frame `frame`.
pub fn physical_to_virtual(frame: PhysicalPageAddress) -> (r: u64)
    requires
        frame@ + PHYSICAL_MAPPING_OFFSET <= u64::MAX,
    ensures
        r == frame@ + PHYSICAL_MAPPING_OFFSET,
{
    frame.as_u64() + PHYSICAL_MAPPING_OFFSET
}


/// An allocation keeps the state well-formed and hands out a frame of the linear
/// mapping that was not in use; it is then in use, and nothing else changes in the set
/// of frames in use. It fails only when no frame is freed and every frame of the range
/// has been handed out.
pub proof fn lemma_allocate(s: AllocatorState)
    requires
        s.wf(),
    ensures
        s.allocate().0.wf(),
        s.allocate().1 is None <==> s.free.len() == 0 && s.next == s.end,
        s.allocate().1 is None ==> s.allocate().0 == s,
        s.allocate().1 matches Some(v) ==> {
            &&& is_mapped_frame(v)
            &&& s.first <= v < s.end
            &&& !s.allocated().contains(v)
            &&& s.allocate().0.allocated() == s.allocated().insert(v)
        },
{
    let (t, r) = s.allocate();
    if s.free.len() > 0 {
        let v = s.free.last();
        assert(s.free.contains(v));
        assert forall|i: int| 0 <= i < t.free.len() implies t.free[i] != v by {
            assert(t.free[i] == s.free[i]);
        }
        assert(t.allocated() =~= s.allocated().insert(v)) by {
            assert forall|x: int| #[trigger] t.allocated().contains(x) implies s.allocated().insert(v).contains(x) by {
                if x != v {
                    assert(!s.free.contains(x)) by {
                        if s.free.contains(x) {
                            let k = choose|k: int| 0 <= k < s.free.len() && s.free[k] == x;
                            assert(t.free[k] == x);
                        }
                    }
                }
            }
            assert forall|x: int| #[trigger] s.allocated().insert(v).contains(x) implies t.allocated().contains(x) by {
                if x != v {
                    assert(!t.free.contains(x)) by {
                        if t.free.contains(x) {
                            let k = choose|k: int| 0 <= k < t.free.len() && t.free[k] == x;
                            assert(s.free[k] == x);
                        }
                    }
                } else {
                    assert(!t.free.contains(v));
                }
            }
        }
    } else if s.next < s.end {
        assert(s.next + 4096 <= s.end);
        assert(t.allocated() =~= s.allocated().insert(s.next));
    }
}

/// Freeing a frame that is in use keeps the state well-formed, and the frame is no
/// longer in use; nothing else changes in the set of frames in use.
pub proof fn lemma_free(s: AllocatorState, frame: int)
    requires
        s.wf(),
        s.allocated().contains(frame),
    ensures
        s.free(frame).wf(),
        s.free(frame).allocated() == s.allocated().remove(frame),
{
    let t = s.free(frame);
    assert forall|i: int| 0 <= i < t.free.len() implies {
        &&& s.first <= #[trigger] t.free[i] < s.next
        &&& t.free[i] % (PAGE_SIZE as int) == 0
    } by {
        if i < s.free.len() {
            assert(t.free[i] == s.free[i]);
        }
    }
    assert(t.free.no_duplicates()) by {
        assert forall|i: int, j: int| 0 <= i < t.free.len() && 0 <= j < t.free.len() && i != j implies t.free[i] != t.free[j] by {
            if i < s.free.len() && j < s.free.len() {
                assert(t.free[i] == s.free[i] && t.free[j] == s.free[j]);
            } else if i < s.free.len() {
                assert(s.free.contains(t.free[i]));
            } else {
                assert(s.free.contains(t.free[j]));
            }
        }
    }
    assert(t.allocated() =~= s.allocated().remove(frame)) by {
        assert forall|x: int| t.free.contains(x) <==> s.free.contains(x) || x == frame by {
            if t.free.contains(x) {
                let k = choose|k: int| 0 <= k < t.free.len() && t.free[k] == x;
                if k < s.free.len() {
                    assert(s.free[k] == x);
                }
            }
            if s.free.contains(x) {
                let k = choose|k: int| 0 <= k < s.free.len() && s.free[k] == x;
                assert(t.free[k] == x);
            }
            if x == frame {
                assert(t.free[s.free.len() as int] == frame);
            }
        }
    }
}

/// The frame freed last is the next one handed out, and handing it out restores the
/// state from before it was freed.
pub proof fn lemma_free_then_allocate(s: AllocatorState, frame: int)
    ensures
        s.free(frame).allocate() == (s, Some(frame)),
{
    assert(s.free(frame).free.drop_last() =~= s.free);
}

/// The frames handed out by `n` allocations in a row from state `s`.
pub open spec fn allocate_run(s: AllocatorState, n: nat) -> Seq<Option<int>>
    decreases n,
{
    if n == 0 {
        Seq::empty()
    } else {
        seq![s.allocate().1] + allocate_run(s.allocate().0, (n - 1) as nat)
    }
}

proof fn lemma_bump_run(s: AllocatorState, n: nat)
    requires
        s.free.len() == 0,
        s.next + n * PAGE_SIZE <= s.end,
    ensures
        allocate_run(s, n).len() == n,
        forall|i: int| 0 <= i < n ==> #[trigger] allocate_run(s, n)[i] == Some(s.next + i * PAGE_SIZE),
    decreases n,
{
    if n > 0 {
        let t = s.allocate().0;
        lemma_bump_run(t, (n - 1) as nat);
        assert forall|i: int| 0 <= i < n implies #[trigger] allocate_run(s, n)[i] == Some(s.next + i * PAGE_SIZE) by {
            if i > 0 {
                assert(allocate_run(s, n)[i] == allocate_run(t, (n - 1) as nat)[i - 1]);
            }
        }
    }
}

/// A new allocator over a range of `N` frames hands out, in its first `n <= N`
/// allocations, `n` frames that are pairwise distinct.
pub proof fn lemma_fresh_allocations_distinct(first: int, end: int, n: nat)
    requires
        AllocatorState::fresh(first, end).wf(),
        first + n * PAGE_SIZE <= end,
    ensures
        allocate_run(AllocatorState::fresh(first, end), n).len() == n,
        forall|i: int|
            0 <= i < n ==> #[trigger] allocate_run(AllocatorState::fresh(first, end), n)[i] is Some,
        forall|i: int, j: int|
            0 <= i < n && 0 <= j < n && i != j ==> #[trigger] allocate_run(
                AllocatorState::fresh(first, end),
                n,
            )[i] != #[trigger] allocate_run(AllocatorState::fresh(first, end), n)[j],
{
    lemma_bump_run(AllocatorState::fresh(first, end), n);
}

} // verus!
