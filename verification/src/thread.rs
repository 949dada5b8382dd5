//! The schedulable unit: a thread's identity, its stack region, and the
//! saved contents of that stack while the thread is not running.

use vstd::prelude::*;
use crate::memory::{
    StackBounds,
    StackAllocator,
    PageMapper,
    BootInfoFrameAllocator,
    MemoryError,
    alloc_stack,
    mapper_below,
    PAGE_SIZE,
};
use crate::stack::Stack;
use crate::switch::{frame_as_words, initial_frame, SWITCH_FRAME_WORDS};

verus! {

/// Identity of one thread: a monotonically issued integer, unique among live
/// threads and never reissued while the scheduler lives.
#[derive(Clone, Copy, Debug, PartialEq, Eq, Hash, Structural)]
pub struct ThreadId(pub u64);

impl ThreadId {
    pub fn as_u64(self) -> (r: u64)
        ensures
            r == self.0,
    {
        self.0
    }
}

/// Why the previously running thread stopped running.
#[derive(Clone, Copy, Debug, PartialEq, Eq, Structural)]
pub enum SwitchReason {
    /// The thread gave up the processor voluntarily.
    Yielded,
    /// The timer interrupt forced the thread off the processor.
    Preempted,
    /// The thread terminated; its resources may be reclaimed.
    Exited,
}

impl SwitchReason {
    /// The numeric tag handed to the context-switch routine.
    pub fn as_u64(self) -> (r: u64)
        ensures
            self is Yielded ==> r == 0,
            self is Preempted ==> r == 1,
            self is Exited ==> r == 2,
    {
        match self {
            SwitchReason::Yielded => 0,
            SwitchReason::Preempted => 1,
            SwitchReason::Exited => 2,
        }
    }
}

/// One schedulable unit of execution. While the thread is paused its stack
/// holds a saved context frame on top and `stack.spec_sp()` is the saved
/// stack pointer; while it runs, the live state is in the processor instead.
/// The boot thread, which was not created through `Thread::create`, has no
/// recorded bounds.
pub struct Thread {
    pub id: ThreadId,
    pub stack: Stack,
    pub bounds: Option<StackBounds>,
}

impl Thread {
    pub open spec fn wf(&self) -> bool {
        &&& self.stack.wf()
        &&& match self.bounds {
            Some(b) => b.wf() && self.stack.top == b.end && self.stack.limit == b.start,
            None => true,
        }
    }

    /// A paused thread must carry a restorable context frame on top.
    pub open spec fn has_frame(&self) -> bool {
        self.stack.words@.len() >= SWITCH_FRAME_WORDS
    }

    /// The saved stack pointer, meaningful while the thread is paused.
    pub open spec fn saved_stack_pointer(&self) -> int {
        self.stack.spec_sp()
    }

    /// Allocate a guard-paged stack of `stack_size_in_pages` pages and write
    /// the initial context frame onto it, so that the first switch into the
    /// new thread enters `entry_point`. Fails exactly when the frame
    /// allocator cannot back every page; the address window is consumed
    /// either way and already-mapped pages are not rolled back.
    pub fn create(
        entry_point: u64,
        stack_size_in_pages: u64,
        id: ThreadId,
        stack_allocator: &mut StackAllocator,
        mapper: &mut PageMapper,
        frame_allocator: &mut BootInfoFrameAllocator,
    ) -> (r: Result<Thread, MemoryError>)
        requires
            old(stack_allocator).wf(),
            old(mapper).wf(),
            old(frame_allocator).wf(),
            1 <= stack_size_in_pages,
            old(stack_allocator).next + (stack_size_in_pages + 1) * PAGE_SIZE <= u64::MAX,
            old(frame_allocator).next + stack_size_in_pages <= usize::MAX,
            mapper_below(old(mapper), old(stack_allocator).next),
        ensures
            final(stack_allocator).wf(),
            final(mapper).wf(),
            final(frame_allocator).wf(),
            final(stack_allocator).next == old(stack_allocator).next + (stack_size_in_pages + 1)
                * PAGE_SIZE,
            final(frame_allocator).memory_map == old(frame_allocator).memory_map,
            final(mapper).physical_memory_offset == old(mapper).physical_memory_offset,
            mapper_below(final(mapper), final(stack_allocator).next),
            r is Ok <==> old(frame_allocator).next + stack_size_in_pages <= old(frame_allocator).frames().len(),
            r matches Err(e) ==> e == MemoryError::FrameAllocationFailed,
            r matches Ok(t) ==> {
                &&& t.id == id
                &&& t.bounds matches Some(b) && b.start == old(stack_allocator).next + PAGE_SIZE
                    && b.end == final(stack_allocator).next
                &&& t.wf()
                &&& t.has_frame()
                &&& t.stack.words@ == frame_as_words(initial_frame(entry_point))
                &&& forall|j: u64|
                    j < stack_size_in_pages ==> #[trigger] final(mapper).is_mapped(
                        (old(stack_allocator).next + PAGE_SIZE + j * PAGE_SIZE) as u64,
                    )
                &&& !final(mapper).is_mapped(old(stack_allocator).next)
            },
            forall|q: u64| #[trigger] old(mapper).is_mapped(q) ==> final(mapper).is_mapped(q),
            forall|q: u64|
                #[trigger] final(mapper).is_mapped(q) && !old(mapper).is_mapped(q) ==> old(stack_allocator).next + PAGE_SIZE <= q < final(stack_allocator).next,
    {
        let bounds = match alloc_stack(stack_size_in_pages, stack_allocator, mapper,
            frame_allocator) {
            Ok(b) => b,
            Err(e) => {
                return Err(e);
            },
        };
        let mut stack = Stack::new(bounds);
        proof {
            assert(stack.headroom(SWITCH_FRAME_WORDS as int)) by {
                assert(bounds.end - bounds.start >= PAGE_SIZE);
            }
        }
        stack.set_up_for_entry_point(entry_point);
        proof {
            assert(stack.words@ =~= frame_as_words(initial_frame(entry_point)));
        }
        Ok(Thread { id, stack, bounds: Some(bounds) })
    }
}

} // verus!
