//! Virtual-memory model: page mappings, the boot-info frame allocator, and
//! the guard-paged stack allocator.
//!
//! Addresses are plain `u64` virtual/physical addresses. The page-table
//! mapper is modelled as the set of 4 KiB pages it currently maps, each to
//! the physical frame backing it; the hardware walk itself is a collaborator
//! outside this crate.

use vstd::prelude::*;

verus! {

/// Size in bytes of one page, the granularity of all mappings.
pub const PAGE_SIZE: u64 = 4096;

/// First virtual address handed out for thread stacks; the stack allocator's
/// cursor starts here and only grows.
pub const STACK_AREA_START: u64 = 0x5555_5555_0000;

/// Errors surfaced by the memory-manager model.
#[derive(Clone, Copy, Debug, PartialEq, Eq, Structural)]
pub enum MemoryError {
    /// The frame allocator ran out of usable physical frames.
    FrameAllocationFailed,
    /// The requested page is already present in the page table.
    PageAlreadyMapped,
}

/// The mapped virtual-address range of one thread stack, guard page excluded.
/// The page immediately below `start` is deliberately left unmapped so that a
/// stack overflow faults instead of silently corrupting a neighbour.
#[derive(Clone, Copy, Debug, PartialEq, Eq, Structural)]
pub struct StackBounds {
    pub start: u64,
    pub end: u64,
}

impl StackBounds {
    /// Lowest mapped address of the stack region.
    pub fn start(&self) -> (r: u64)
        ensures
            r == self.start,
    {
        self.start
    }

    /// One past the highest mapped address; the initial stack pointer.
    pub fn end(&self) -> (r: u64)
        ensures
            r == self.end,
    {
        self.end
    }

    /// A well-formed stack range: page-aligned, non-empty, with room for the
    /// guard page below it.
    pub open spec fn wf(&self) -> bool {
        &&& self.start % PAGE_SIZE == 0
        &&& self.end % PAGE_SIZE == 0
        &&& PAGE_SIZE <= self.start
        &&& self.start < self.end
    }

    /// Two stack ranges are disjoint when neither reaches into the other.
    pub open spec fn disjoint(a: StackBounds, b: StackBounds) -> bool {
        a.end <= b.start || b.end <= a.start
    }
}

/// One region of the boot-time physical memory map, page-aligned. Only
/// regions marked usable may hand out frames.
#[derive(Clone, Copy, Debug, PartialEq, Eq, Structural)]
pub struct MemoryRegion {
    pub start: u64,
    pub end: u64,
    pub usable: bool,
}

impl MemoryRegion {
    pub open spec fn wf(&self) -> bool {
        &&& self.start % PAGE_SIZE == 0
        &&& self.end % PAGE_SIZE == 0
        &&& self.start <= self.end
    }

    /// The frame start addresses this region contributes, in ascending order;
    /// none if the region is not usable.
    pub open spec fn frames(&self) -> Seq<u64> {
        if self.usable {
            Seq::new(
                (((self.end - self.start) / (PAGE_SIZE as int)) as nat),
                |i: int| (self.start + i * (PAGE_SIZE as int)) as u64,
            )
        } else {
            Seq::empty()
        }
    }
}

/// All usable frame start addresses of a memory map, region by region in
/// order: the stream the boot-info allocator walks.
pub open spec fn usable_frames(regions: Seq<MemoryRegion>) -> Seq<u64>
    decreases regions.len(),
{
    if regions.len() == 0 {
        Seq::empty()
    } else {
        regions.first().frames() + usable_frames(regions.drop_first())
    }
}

/// Splitting a memory map splits its usable-frame stream at the same point.
pub proof fn lemma_usable_frames_concat(a: Seq<MemoryRegion>, b: Seq<MemoryRegion>)
    ensures
        usable_frames(a + b) == usable_frames(a) + usable_frames(b),
    decreases a.len(),
{
    if a.len() == 0 {
        assert(a + b =~= b);
        assert(usable_frames(a) + usable_frames(b) =~= usable_frames(b));
    } else {
        assert((a + b).drop_first() =~= a.drop_first() + b);
        lemma_usable_frames_concat(a.drop_first(), b);
        assert((a + b).first() == a.first());
        assert(a.first().frames() + (usable_frames(a.drop_first()) + usable_frames(b)) =~= (
        a.first().frames() + usable_frames(a.drop_first())) + usable_frames(b));
    }
}

/// Frame allocator that replays the usable frames of the boot memory map in
/// order; `next` is the index of the frame handed out next.
pub struct BootInfoFrameAllocator {
    pub memory_map: Vec<MemoryRegion>,
    pub next: usize,
}

impl BootInfoFrameAllocator {
    pub open spec fn wf(&self) -> bool {
        forall|i: int| 0 <= i < self.memory_map@.len() ==> self.memory_map@[i].wf()
    }

    /// The full stream of usable frames this allocator draws from.
    pub open spec fn frames(&self) -> Seq<u64> {
        usable_frames(self.memory_map@)
    }

    /// Create an allocator over the given memory map; nothing is allocated
    /// yet.
    pub fn init(memory_map: Vec<MemoryRegion>) -> (r: Self)
        requires
            forall|i: int| 0 <= i < memory_map@.len() ==> memory_map@[i].wf(),
        ensures
            r.memory_map == memory_map,
            r.next == 0,
            r.wf(),
    {
        BootInfoFrameAllocator { memory_map, next: 0 }
    }

    /// Hand out the next usable frame of the memory map, if any is left. The
    /// position advances even on failure, as in the boot-info walk this
    /// models.
    pub fn allocate_frame(&mut self) -> (r: Option<u64>)
        requires
            old(self).wf(),
            old(self).next < usize::MAX,
        ensures
            final(self).wf(),
            final(self).memory_map == old(self).memory_map,
            final(self).next == old(self).next + 1,
            (old(self).next as int) < old(self).frames().len() ==> r == Some(
                old(self).frames()[old(self).next as int],
            ),
            (old(self).next as int) >= old(self).frames().len() ==> r is None,
    {
        let ghost all = self.memory_map@;
        let ghost target = self.next as int;
        let n = self.memory_map.len();
        let mut i: usize = 0;
        let mut remaining: u64 = self.next as u64;
        self.next = self.next + 1;
        while i < n
            invariant
                all == old(self).memory_map@,
                target == old(self).next,
                self.memory_map == old(self).memory_map,
                self.memory_map@ == all,
                self.next == target + 1,
                n == all.len(),
                0 <= i <= n,
                forall|j: int| 0 <= j < all.len() ==> all[j].wf(),
                remaining == target - usable_frames(all.take(i as int)).len(),
                usable_frames(all.take(i as int)).len() <= target,
            decreases n - i,
        {
            let region = self.memory_map[i];
            proof {
                assert(all.take(i + 1) =~= all.take(i as int) + seq![all[i as int]]);
                lemma_usable_frames_concat(all.take(i as int), seq![all[i as int]]);
                assert(usable_frames(Seq::<MemoryRegion>::empty()) == Seq::<u64>::empty());
                assert(seq![all[i as int]].first() == all[i as int]);
                assert(seq![all[i as int]].drop_first() =~= Seq::<MemoryRegion>::empty());
                assert(usable_frames(seq![all[i as int]]) == all[i as int].frames()
                    + usable_frames(seq![all[i as int]].drop_first()));
                assert(usable_frames(seq![all[i as int]]) =~= all[i as int].frames());
            }
            if region.usable {
                let count: u64 = (region.end - region.start) / PAGE_SIZE;
                if remaining < count {
                    proof {
                        assert(region == all[i as int]);
                        assert(region.frames().len() == count);
                        assert((remaining + 1) * (PAGE_SIZE as int) <= region.end
                            - region.start) by (nonlinear_arith)
                            requires
                                remaining < count,
                                count == ((region.end - region.start) as int) / (PAGE_SIZE as int),
                                region.start <= region.end,
                        ;
                        assert(remaining * (PAGE_SIZE as int) + (PAGE_SIZE as int) == (remaining + 1)
                            * (PAGE_SIZE as int)) by (nonlinear_arith);
                        assert(region.start + remaining * (PAGE_SIZE as int) < region.end);
                        assert(region.frames()[remaining as int] == (region.start + (
                        remaining as int) * (PAGE_SIZE as int)) as u64);
                        assert(all =~= all.take(i as int) + all.skip(i as int));
                        lemma_usable_frames_concat(all.take(i as int), all.skip(i as int));
                        assert(all.skip(i as int).first() == all[i as int]);
                        assert(all.skip(i as int).len() > 0);
                        assert(usable_frames(all.skip(i as int)) == all[i as int].frames()
                            + usable_frames(all.skip(i as int).drop_first()));
                        assert(usable_frames(all)[target] == usable_frames(all.skip(i as int))[
                        remaining as int]);
                        assert(usable_frames(all.skip(i as int))[remaining as int]
                            == region.frames()[remaining as int]);
                        assert(target < usable_frames(all).len());
                    }
                    return Some(region.start + remaining * PAGE_SIZE);
                }
                remaining = remaining - count;
            }
            i = i + 1;
        }
        proof {
            assert(all.take(n as int) =~= all);
        }
        None
    }
}

/// Model of the active page table: the set of 4 KiB pages currently mapped,
/// each to the physical frame backing it, plus the offset at which all of
/// physical memory is mapped into the virtual address space.
pub struct PageMapper {
    pub physical_memory_offset: u64,
    pub mappings: Vec<(u64, u64)>,
}

impl PageMapper {
    /// Pages are distinct, and pages and frames are page-aligned.
    pub open spec fn wf(&self) -> bool {
        &&& forall|i: int, j: int|
            0 <= i < self.mappings@.len() && 0 <= j < self.mappings@.len() && i != j
                ==> self.mappings@[i].0 != self.mappings@[j].0
        &&& forall|i: int|
            0 <= i < self.mappings@.len() ==> #[trigger] self.mappings@[i].0 % PAGE_SIZE == 0
                && self.mappings@[i].1 % PAGE_SIZE == 0
    }

    pub open spec fn is_mapped(&self, page: u64) -> bool {
        exists|i: int| 0 <= i < self.mappings@.len() && #[trigger] self.mappings@[i].0 == page
    }

    pub open spec fn frame_of(&self, page: u64) -> u64 {
        self.mappings@[choose|i: int|
            0 <= i < self.mappings@.len() && #[trigger] self.mappings@[i].0 == page].1
    }

    /// Find the index holding `page`, if any.
    fn find_mapping(&self, page: u64) -> (r: Option<usize>)
        ensures
            match r {
                Some(i) => i < self.mappings@.len() && self.mappings@[i as int].0 == page,
                None => !self.is_mapped(page),
            },
    {
        let n = self.mappings.len();
        let mut i: usize = 0;
        while i < n
            invariant
                n == self.mappings@.len(),
                0 <= i <= n,
                forall|j: int| 0 <= j < i ==> self.mappings@[j].0 != page,
            decreases n - i,
        {
            if self.mappings[i].0 == page {
                return Some(i);
            }
            i = i + 1;
        }
        None
    }

    /// Map `page` to `frame`. Fails, leaving the table unchanged, when the
    /// page is already present.
    pub fn map_to(&mut self, page: u64, frame: u64) -> (r: Result<(), MemoryError>)
        requires
            old(self).wf(),
            page % PAGE_SIZE == 0,
            frame % PAGE_SIZE == 0,
        ensures
            final(self).wf(),
            final(self).physical_memory_offset == old(self).physical_memory_offset,
            old(self).is_mapped(page) ==> r == Err::<(), MemoryError>(
                MemoryError::PageAlreadyMapped,
            ) && final(self).mappings == old(self).mappings,
            !old(self).is_mapped(page) ==> r == Ok::<(), MemoryError>(()) && final(self).mappings@
                == old(self).mappings@.push((page, frame)),
            forall|q: u64|
                #[trigger] final(self).is_mapped(q) <==> old(self).is_mapped(q) || (r is Ok && q
                    == page),
            r is Ok ==> final(self).frame_of(page) == frame,
            forall|q: u64|
                old(self).is_mapped(q) ==> final(self).frame_of(q) == old(self).frame_of(q),
    {
        match self.find_mapping(page) {
            Some(_) => Err(MemoryError::PageAlreadyMapped),
            None => {
                self.mappings.push((page, frame));
                proof {
                    let m = self.mappings@;
                    let prev = old(self).mappings@;
                    assert(forall|q: u64| #[trigger]
                        self.is_mapped(q) ==> old(self).is_mapped(q) || q == page) by {
                        assert forall|q: u64| #[trigger] self.is_mapped(q) implies old(
                        self).is_mapped(q) || q == page by {
                            let i = choose|i: int| 0 <= i < m.len() && #[trigger] m[i].0 == q;
                            if i < prev.len() {
                                assert(prev[i].0 == q);
                            }
                        }
                    }
                    assert(forall|q: u64|
                        old(self).is_mapped(q) || q == page ==> #[trigger] self.is_mapped(q)) by {
                        assert forall|q: u64|
                            old(self).is_mapped(q) || q == page implies #[trigger] self.is_mapped(
                            q) by {
                            if old(self).is_mapped(q) {
                                let i = choose|i: int|
                                    0 <= i < prev.len() && #[trigger] prev[i].0 == q;
                                assert(m[i].0 == q);
                            } else {
                                assert(m[m.len() - 1].0 == page);
                            }
                        }
                    }
                    assert forall|q: u64| old(self).is_mapped(q) implies self.frame_of(q) == old(
                    self).frame_of(q) by {
                        let i = choose|i: int| 0 <= i < prev.len() && #[trigger] prev[i].0 == q;
                        assert(m[i].0 == q);
                        let k = choose|k: int| 0 <= k < m.len() && #[trigger] m[k].0 == q;
                        assert(m[k].0 == m[i].0);
                        if k != i {
                            if k < prev.len() {
                                assert(prev[k].0 == prev[i].0);
                                assert(false);
                            } else {
                                assert(m[k].0 == page);
                                assert(false);
                            }
                        }
                    }
                    assert(self.frame_of(page) == frame) by {
                        assert(m[m.len() - 1].0 == page);
                        let k = choose|k: int| 0 <= k < m.len() && #[trigger] m[k].0 == page;
                        if k != m.len() - 1 {
                            assert(prev[k].0 == page);
                            assert(false);
                        }
                    }
                }
                Ok(())
            },
        }
    }

    /// Remove `page` from the table, handing back the frame that backed it.
    pub fn unmap(&mut self, page: u64) -> (r: Option<u64>)
        requires
            old(self).wf(),
        ensures
            final(self).wf(),
            final(self).physical_memory_offset == old(self).physical_memory_offset,
            old(self).is_mapped(page) ==> r == Some(old(self).frame_of(page)),
            !old(self).is_mapped(page) ==> r is None && final(self).mappings == old(self).mappings,
            forall|q: u64|
                #[trigger] final(self).is_mapped(q) <==> old(self).is_mapped(q) && q != page,
            forall|q: u64|
                old(self).is_mapped(q) && q != page ==> final(self).frame_of(q) == old(
                self).frame_of(q),
    {
        match self.find_mapping(page) {
            None => None,
            Some(i) => {
                let (_, frame) = self.mappings.remove(i);
                proof {
                    let m = self.mappings@;
                    let prev = old(self).mappings@;
                    assert(m == prev.remove(i as int));
                    prev.remove_ensures(i as int);
                    assert(forall|j: int| 0 <= j < i ==> m[j] == prev[j]);
                    assert(forall|j: int| i <= j < m.len() ==> m[j] == prev[j + 1]);
                    assert(prev[i as int].0 == page);
                    assert(frame == old(self).frame_of(page)) by {
                        let k = choose|k: int| 0 <= k < prev.len() && #[trigger] prev[k].0 == page;
                        assert(prev[k].0 == prev[i as int].0);
                        if k != i {
                            assert(false);
                        }
                    }
                    assert forall|q: u64| #[trigger] final(self).is_mapped(q) implies old(
                    self).is_mapped(q) && q != page by {
                        let k = choose|k: int| 0 <= k < m.len() && #[trigger] m[k].0 == q;
                        if k < i {
                            assert(prev[k].0 == q);
                            if q == page {
                                assert(prev[k].0 == prev[i as int].0);
                                assert(false);
                            }
                        } else {
                            assert(prev[k + 1].0 == q);
                            if q == page {
                                assert(prev[k + 1].0 == prev[i as int].0);
                                assert(false);
                            }
                        }
                    }
                    assert forall|q: u64| old(self).is_mapped(q) && q != page implies #[trigger]
                    final(self).is_mapped(q) by {
                        let k = choose|k: int| 0 <= k < prev.len() && #[trigger] prev[k].0 == q;
                        assert(k != i);
                        if k < i {
                            assert(m[k].0 == q);
                        } else {
                            assert(m[k - 1].0 == q);
                        }
                    }
                    assert forall|q: u64| old(self).is_mapped(q) && q != page implies final(
                    self).frame_of(q) == old(self).frame_of(q) by {
                        let k = choose|k: int| 0 <= k < prev.len() && #[trigger] prev[k].0 == q;
                        assert(k != i);
                        let k2: int = if k < i { k } else { k - 1 };
                        assert(m[k2].0 == q);
                        let c = choose|c: int| 0 <= c < m.len() && #[trigger] m[c].0 == q;
                        assert(m[c].0 == m[k2].0);
                        if c != k2 {
                            let c_prev: int = if c < i { c } else { c + 1 };
                            assert(prev[c_prev].0 == q);
                            assert(prev[c_prev].0 == prev[k].0);
                            assert(c_prev != k || c == k2);
                            assert(false);
                        }
                        assert(m[c].1 == prev[k].1);
                        let cp = choose|cp: int| 0 <= cp < prev.len() && #[trigger] prev[cp].0 == q;
                        assert(prev[cp].0 == prev[k].0);
                        if cp != k {
                            assert(false);
                        }
                    }
                    assert(final(self).wf()) by {
                        assert forall|a: int, b: int|
                            0 <= a < m.len() && 0 <= b < m.len() && a != b implies m[a].0
                            != m[b].0 by {
                            let ap: int = if a < i { a } else { a + 1 };
                            let bp: int = if b < i { b } else { b + 1 };
                            assert(m[a] == prev[ap] && m[b] == prev[bp]);
                        }
                        assert(forall|a: int|
                            0 <= a < m.len() ==> #[trigger] m[a].0 % PAGE_SIZE == 0 && m[a].1
                                % PAGE_SIZE == 0) by {
                            assert forall|a: int| 0 <= a < m.len() implies #[trigger] m[a].0
                                % PAGE_SIZE == 0 && m[a].1 % PAGE_SIZE == 0 by {
                                let ap: int = if a < i { a } else { a + 1 };
                                assert(m[a] == prev[ap]);
                            }
                        }
                    }
                }
                Some(frame)
            },
        }
    }
}

/// Every frame the memory map can hand out is page-aligned.
pub proof fn lemma_usable_frames_aligned(regions: Seq<MemoryRegion>)
    requires
        forall|i: int| 0 <= i < regions.len() ==> regions[i].wf(),
    ensures
        forall|i: int|
            0 <= i < usable_frames(regions).len() ==> #[trigger] usable_frames(regions)[i]
                % PAGE_SIZE == 0,
    decreases regions.len(),
{
    if regions.len() > 0 {
        lemma_usable_frames_aligned(regions.drop_first());
        let f = regions.first();
        assert forall|i: int| 0 <= i < f.frames().len() implies #[trigger] f.frames()[i]
            % PAGE_SIZE == 0 by {
            assert(f.start + i * (PAGE_SIZE as int) < f.end);
            assert((f.start + i * (PAGE_SIZE as int)) % (PAGE_SIZE as int) == 0);
        }
        assert forall|i: int| 0 <= i < usable_frames(regions).len() implies #[trigger]
        usable_frames(regions)[i] % PAGE_SIZE == 0 by {
            if i < f.frames().len() {
                assert(usable_frames(regions)[i] == f.frames()[i]);
            } else {
                assert(usable_frames(regions)[i] == usable_frames(regions.drop_first())[i
                    - f.frames().len()]);
            }
        }
    }
}

/// The stack allocator's monotonically advancing virtual-address cursor.
/// Everything below the cursor has been handed out; everything at or above
/// it is untouched stack area.
pub struct StackAllocator {
    pub next: u64,
}

impl StackAllocator {
    pub open spec fn wf(&self) -> bool {
        &&& self.next % PAGE_SIZE == 0
        &&& PAGE_SIZE <= self.next
    }

    /// A fresh cursor at the base of the stack area.
    pub fn new() -> (r: Self)
        ensures
            r.next == STACK_AREA_START,
            r.wf(),
    {
        StackAllocator { next: STACK_AREA_START }
    }
}

/// No mapped page reaches the stack area at or above `cursor`; alloc_stack
/// relies on this to know the window it carves out is free.
pub open spec fn mapper_below(mapper: &PageMapper, cursor: u64) -> bool {
    forall|i: int|
        0 <= i < mapper.mappings@.len() ==> #[trigger] mapper.mappings@[i].0 < cursor
}

/// Carve a guard-paged stack out of the stack area: advance the cursor by
/// `size_in_pages + 1` pages, leave the lowest page unmapped as the guard,
/// and map the rest to freshly allocated frames. On frame exhaustion the
/// already-mapped pages stay mapped (there is no rollback) and the cursor
/// stays advanced.
pub fn alloc_stack(
    size_in_pages: u64,
    allocator: &mut StackAllocator,
    mapper: &mut PageMapper,
    frame_allocator: &mut BootInfoFrameAllocator,
) -> (r: Result<StackBounds, MemoryError>)
    requires
        old(allocator).wf(),
        old(mapper).wf(),
        old(frame_allocator).wf(),
        1 <= size_in_pages,
        old(allocator).next + (size_in_pages + 1) * PAGE_SIZE <= u64::MAX,
        old(frame_allocator).next + size_in_pages <= usize::MAX,
        mapper_below(old(mapper), old(allocator).next),
    ensures
        final(allocator).wf(),
        final(mapper).wf(),
        final(frame_allocator).wf(),
        final(allocator).next == old(allocator).next + (size_in_pages + 1) * PAGE_SIZE,
        final(frame_allocator).memory_map == old(frame_allocator).memory_map,
        final(mapper).physical_memory_offset == old(mapper).physical_memory_offset,
        mapper_below(final(mapper), final(allocator).next),
        r is Ok <==> old(frame_allocator).next + size_in_pages <= old(frame_allocator).frames().len(),
        r matches Err(e) ==> e == MemoryError::FrameAllocationFailed && old(frame_allocator).next
            < final(frame_allocator).next <= old(frame_allocator).next + size_in_pages,
        r matches Ok(b) ==> {
            &&& b.start == old(allocator).next + PAGE_SIZE
            &&& b.end == old(allocator).next + (size_in_pages + 1) * PAGE_SIZE
            &&& b.wf()
            &&& final(frame_allocator).next == old(frame_allocator).next + size_in_pages
            &&& forall|j: u64|
                j < size_in_pages ==> #[trigger] final(mapper).is_mapped(
                    (b.start + j * PAGE_SIZE) as u64,
                ) && final(mapper).frame_of((b.start + j * PAGE_SIZE) as u64) == old(frame_allocator).frames()[old(frame_allocator).next + j]
            &&& !final(mapper).is_mapped((b.start - PAGE_SIZE) as u64)
        },
        forall|q: u64|
            old(mapper).is_mapped(q) ==> #[trigger] final(mapper).is_mapped(q) && final(mapper).frame_of(q) == old(mapper).frame_of(q),
        forall|q: u64|
            #[trigger] final(mapper).is_mapped(q) && !old(mapper).is_mapped(q) ==> old(allocator).next + PAGE_SIZE <= q < final(allocator).next,
{
    proof {
        lemma_usable_frames_aligned(frame_allocator.memory_map@);
    }
    let guard_page_start = allocator.next;
    allocator.next = allocator.next + (size_in_pages + 1) * PAGE_SIZE;
    let stack_start = guard_page_start + PAGE_SIZE;
    let mut k: u64 = 0;
    while k < size_in_pages
        invariant
            allocator.wf(),
            mapper.wf(),
            frame_allocator.wf(),
            0 <= k <= size_in_pages,
            old(allocator).wf(),
            guard_page_start == old(allocator).next,
            stack_start == guard_page_start + PAGE_SIZE,
            old(allocator).next + (size_in_pages + 1) * PAGE_SIZE <= u64::MAX,
            old(frame_allocator).next + size_in_pages <= usize::MAX,
            allocator.next == old(allocator).next + (size_in_pages + 1) * PAGE_SIZE,
            frame_allocator.memory_map == old(frame_allocator).memory_map,
            frame_allocator.next == old(frame_allocator).next + k,
            k == 0 || old(frame_allocator).next + k <= old(frame_allocator).frames().len(),
            mapper.physical_memory_offset == old(mapper).physical_memory_offset,
            mapper_below(old(mapper), old(allocator).next),
            forall|i: int|
                0 <= i < old(frame_allocator).frames().len() ==> #[trigger] old(frame_allocator).frames()[i] % PAGE_SIZE == 0,
            forall|q: u64|
                old(mapper).is_mapped(q) ==> #[trigger] mapper.is_mapped(q) && mapper.frame_of(q)
                    == old(mapper).frame_of(q),
            forall|q: u64|
                #[trigger] mapper.is_mapped(q) && !old(mapper).is_mapped(q) ==> stack_start <= q
                    < stack_start + k * PAGE_SIZE,
            forall|j: u64|
                j < k ==> #[trigger] mapper.is_mapped((stack_start + j * PAGE_SIZE) as u64)
                    && mapper.frame_of((stack_start + j * PAGE_SIZE) as u64) == old(frame_allocator).frames()[old(frame_allocator).next + j],
        decreases size_in_pages - k,
    {
        let frame = match frame_allocator.allocate_frame() {
            Some(f) => f,
            None => {
                proof {
                    assert forall|i: int|
                        0 <= i < mapper.mappings@.len() implies #[trigger] mapper.mappings@[i].0
                        < allocator.next by {
                        let q = mapper.mappings@[i].0;
                        assert(mapper.is_mapped(q));
                        assert(stack_start + k * PAGE_SIZE <= allocator.next);
                    }
                }
                return Err(MemoryError::FrameAllocationFailed);
            },
        };
        let page = stack_start + k * PAGE_SIZE;
        proof {
            assert(page % PAGE_SIZE == 0);
            assert(!mapper.is_mapped(page)) by {
                if mapper.is_mapped(page) {
                    if old(mapper).is_mapped(page) {
                        assert(false);
                    } else {
                        assert(false);
                    }
                }
            }
        }
        let res = mapper.map_to(page, frame);
        proof {
            assert(res is Ok);
        }
        k = k + 1;
    }
    proof {
        assert forall|i: int|
            0 <= i < mapper.mappings@.len() implies #[trigger] mapper.mappings@[i].0
            < allocator.next by {
            let q = mapper.mappings@[i].0;
            assert(mapper.is_mapped(q));
            assert(stack_start + k * PAGE_SIZE <= allocator.next);
        }
    }
    Ok(StackBounds { start: stack_start, end: guard_page_start + (size_in_pages + 1) * PAGE_SIZE })
}

/// Create a page-table model with nothing mapped, recording the offset at
/// which physical memory is visible in the virtual address space.
pub fn init(physical_memory_offset: u64) -> (r: PageMapper)
    ensures
        r.physical_memory_offset == physical_memory_offset,
        r.mappings@.len() == 0,
        r.wf(),
{
    PageMapper { physical_memory_offset, mappings: Vec::new() }
}

/// Record a new physical-memory offset, leaving the mappings untouched.
pub fn update_physical_memory_offset(mapper: &mut PageMapper, phys_mem_offset: u64)
    ensures
        final(mapper).physical_memory_offset == phys_mem_offset,
        final(mapper).mappings == old(mapper).mappings,
{
    mapper.physical_memory_offset = phys_mem_offset;
}

/// Translate a virtual address to the physical address it is mapped at, or
/// `None` when its page is absent from the table.
pub fn translate_addr(mapper: &PageMapper, addr: u64) -> (r: Option<u64>)
    requires
        mapper.wf(),
    ensures
        mapper.is_mapped(((addr - addr % PAGE_SIZE) as u64)) ==> r == Some(
            (mapper.frame_of(((addr - addr % PAGE_SIZE) as u64)) + addr % PAGE_SIZE) as u64,
        ),
        !mapper.is_mapped(((addr - addr % PAGE_SIZE) as u64)) ==> r is None,
{
    let offset = addr % PAGE_SIZE;
    let page = addr - offset;
    match mapper.find_mapping(page) {
        Some(i) => {
            let frame = mapper.mappings[i].1;
            proof {
                let m = mapper.mappings@;
                let k = choose|k: int| 0 <= k < m.len() && #[trigger] m[k].0 == page;
                assert(m[k].0 == m[i as int].0);
                if k != i {
                    assert(false);
                }
                assert(frame % PAGE_SIZE == 0);
                assert(frame + offset <= u64::MAX) by (nonlinear_arith)
                    requires
                        frame % PAGE_SIZE == 0,
                        offset < PAGE_SIZE,
                        PAGE_SIZE == 4096,
                        frame <= u64::MAX,
                ;
            }
            Some(frame + offset)
        },
        None => None,
    }
}

} // verus!
