//! The round-robin scheduler: ready queue, idle thread, identity issuance,
//! the context-switch orchestration, and the deferred release of an exited
//! thread's stack.
//!
//! All state lives in one explicit `Scheduler` value; the caller is expected
//! to reach it only with interrupts disabled, which is what the contracts of
//! the switching operations demand of the processor state they are given.

use vstd::prelude::*;
use crate::memory::{
    BootInfoFrameAllocator,
    MemoryError,
    PageMapper,
    StackAllocator,
    StackBounds,
    PAGE_SIZE,
};
use crate::stack::Stack;
use crate::switch::{CpuState, SwitchFrame, frame_as_words, frame_of_words, SWITCH_FRAME_WORDS};
use crate::thread::{Thread, ThreadId, SwitchReason};

verus! {

/// Identity the boot context runs under before any thread is created.
pub const BOOT_THREAD_ID: u64 = 0;

/// The scheduler's whole state.
///
/// `current` is the record of the thread executing right now; its stack
/// field holds the words saved beneath the live execution, not the live
/// stack pointer. `outgoing` is occupied only in the middle of a context
/// switch: between `schedule_next` choosing a successor and
/// `add_paused_thread` filing the predecessor away. `pending_free` is the
/// single-slot deferred release of an exited thread's stack region, which
/// the exiting thread cannot free while still running on it.
pub struct Scheduler {
    pub ready_queue: Vec<Thread>,
    pub idle_thread: Option<Thread>,
    pub idle_thread_id: Option<ThreadId>,
    pub current: Thread,
    pub outgoing: Option<Thread>,
    pub next_id: u64,
    pub pending_free: Option<StackBounds>,
}

impl Scheduler {
    pub open spec fn queue(&self) -> Seq<Thread> {
        self.ready_queue@
    }

    /// Some thread with this id sits in the ready queue.
    pub open spec fn id_in_queue(&self, id: u64) -> bool {
        exists|i: int| 0 <= i < self.queue().len() && #[trigger] self.queue()[i].id.0 == id
    }

    /// The id is known to the scheduler: queued, running, parked as idle, or
    /// mid-switch.
    pub open spec fn contains_id(&self, id: u64) -> bool {
        ||| self.id_in_queue(id)
        ||| self.current.id.0 == id
        ||| match self.idle_thread {
            Some(t) => t.id.0 == id,
            None => false,
        }
        ||| match self.outgoing {
            Some(t) => t.id.0 == id,
            None => false,
        }
    }

    /// The registered idle thread's id, whether it is parked or running.
    pub open spec fn is_idle_id(&self, id: u64) -> bool {
        match self.idle_thread_id {
            Some(t) => t.0 == id,
            None => false,
        }
    }

    /// `schedule_next` has somewhere to go: a ready thread or a parked idle
    /// thread.
    pub open spec fn schedulable(&self) -> bool {
        self.queue().len() > 0 || self.idle_thread is Some
    }

    /// Some live thread owns exactly this stack range.
    pub open spec fn has_live_bounds(&self, b: StackBounds) -> bool {
        ||| exists|i: int|
            0 <= i < self.queue().len() && #[trigger] self.queue()[i].bounds == Some(b)
        ||| self.current.bounds == Some(b)
        ||| match self.idle_thread {
            Some(t) => t.bounds == Some(b),
            None => false,
        }
        ||| match self.outgoing {
            Some(t) => t.bounds == Some(b),
            None => false,
        }
    }

    /// The given range overlaps no live thread's stack: safe to hand to a
    /// new thread.
    pub open spec fn bounds_fresh(&self, b: StackBounds) -> bool {
        forall|x: StackBounds| #[trigger] self.has_live_bounds(x) ==> StackBounds::disjoint(x, b)
    }

    /// Queued threads are well-formed, restorable, and pairwise distinct.
    pub open spec fn queue_wf(&self) -> bool {
        &&& forall|i: int|
            0 <= i < self.queue().len() ==> (#[trigger] self.queue()[i]).wf() && self.queue()[
            i].has_frame()
        &&& forall|i: int, j: int|
            0 <= i < self.queue().len() && 0 <= j < self.queue().len() && i != j
                ==> self.queue()[i].id.0 != self.queue()[j].id.0
    }

    /// The idle thread never sits in the ready queue and is distinct from
    /// whatever else is live; while parked it is restorable.
    pub open spec fn idle_wf(&self) -> bool {
        &&& match self.idle_thread {
            Some(t) => {
                &&& t.wf()
                &&& t.has_frame()
                &&& self.idle_thread_id == Some(t.id)
                &&& t.id.0 != self.current.id.0
            },
            None => true,
        }
        &&& match self.idle_thread_id {
            Some(id) => !self.id_in_queue(id.0),
            None => self.idle_thread is None,
        }
    }

    /// The running thread is well-formed and not simultaneously queued.
    pub open spec fn current_wf(&self) -> bool {
        &&& self.current.wf()
        &&& !self.id_in_queue(self.current.id.0)
    }

    /// The mid-switch predecessor, when present, is distinct from everything
    /// else that is live.
    pub open spec fn outgoing_wf(&self) -> bool {
        match self.outgoing {
            Some(t) => {
                &&& t.wf()
                &&& !self.id_in_queue(t.id.0)
                &&& t.id.0 != self.current.id.0
                &&& match self.idle_thread {
                    Some(u) => u.id.0 != t.id.0,
                    None => true,
                }
            },
            None => true,
        }
    }

    /// Every id the scheduler knows lies below the issuance counter, so a
    /// freshly issued id collides with nothing.
    pub open spec fn ids_below_next(&self) -> bool {
        &&& forall|i: int|
            0 <= i < self.queue().len() ==> (#[trigger] self.queue()[i]).id.0 < self.next_id
        &&& self.current.id.0 < self.next_id
        &&& match self.idle_thread {
            Some(t) => t.id.0 < self.next_id,
            None => true,
        }
        &&& match self.idle_thread_id {
            Some(id) => id.0 < self.next_id,
            None => true,
        }
        &&& match self.outgoing {
            Some(t) => t.id.0 < self.next_id,
            None => true,
        }
    }

    /// Stack isolation: the stack ranges of any two live threads are
    /// disjoint.
    pub open spec fn stacks_disjoint(&self) -> bool {
        &&& forall|i: int, j: int|
            0 <= i < self.queue().len() && 0 <= j < self.queue().len() && i != j ==> disjoint_opt(
                #[trigger] self.queue()[i].bounds,
                #[trigger] self.queue()[j].bounds,
            )
        &&& forall|i: int|
            0 <= i < self.queue().len() ==> disjoint_opt(
                (#[trigger] self.queue()[i]).bounds,
                self.current.bounds,
            ) && disjoint_opt(self.queue()[i].bounds, idle_bounds(self.idle_thread))
                && disjoint_opt(self.queue()[i].bounds, idle_bounds(self.outgoing))
        &&& disjoint_opt(self.current.bounds, idle_bounds(self.idle_thread))
        &&& disjoint_opt(self.current.bounds, idle_bounds(self.outgoing))
        &&& disjoint_opt(idle_bounds(self.idle_thread), idle_bounds(self.outgoing))
    }

    /// A stack range parked for release is a well-formed range.
    pub open spec fn pending_free_wf(&self) -> bool {
        match self.pending_free {
            Some(b) => b.wf(),
            None => true,
        }
    }

    /// The scheduler's invariant, preserved by every operation.
    pub open spec fn wf(&self) -> bool {
        &&& self.queue_wf()
        &&& self.idle_wf()
        &&& self.current_wf()
        &&& self.outgoing_wf()
        &&& self.ids_below_next()
        &&& self.stacks_disjoint()
        &&& self.pending_free_wf()
    }

    /// A scheduler for the boot context: the code that calls `new` keeps
    /// running as the thread with id zero, on the boot stack whose top is
    /// given; no other thread exists yet.
    pub fn new(boot_stack_top: u64) -> (r: Scheduler)
        requires
            boot_stack_top % 8 == 0,
        ensures
            r.wf(),
            r.current.id.0 == BOOT_THREAD_ID,
            r.current.bounds is None,
            r.queue().len() == 0,
            r.idle_thread is None,
            r.idle_thread_id is None,
            r.outgoing is None,
            r.pending_free is None,
            r.next_id == 1,
    {
        Scheduler {
            ready_queue: Vec::new(),
            idle_thread: None,
            idle_thread_id: None,
            current: Thread {
                id: ThreadId(BOOT_THREAD_ID),
                stack: Stack { top: boot_stack_top, limit: 0, words: Vec::new() },
                bounds: None,
            },
            outgoing: None,
            next_id: 1,
            pending_free: None,
        }
    }

    /// Issue a fresh thread id, never equal to any id the scheduler knows.
    pub fn issue_thread_id(&mut self) -> (r: ThreadId)
        requires
            old(self).wf(),
            old(self).next_id < u64::MAX,
        ensures
            final(self).wf(),
            r.0 == old(self).next_id,
            !old(self).contains_id(r.0),
            final(self).next_id == old(self).next_id + 1,
            final(self).ready_queue == old(self).ready_queue,
            final(self).idle_thread == old(self).idle_thread,
            final(self).idle_thread_id == old(self).idle_thread_id,
            final(self).current == old(self).current,
            final(self).outgoing == old(self).outgoing,
            final(self).pending_free == old(self).pending_free,
    {
        let id = self.next_id;
        self.next_id = self.next_id + 1;
        ThreadId(id)
    }

    /// The id of the thread executing right now.
    pub fn current_thread_id(&self) -> (r: ThreadId)
        ensures
            r == self.current.id,
    {
        self.current.id
    }

    /// Register the fallback thread that runs whenever the ready queue is
    /// empty. Called once, before scheduling starts; the idle thread is
    /// never placed in the ready queue.
    pub fn set_idle_thread(&mut self, thread: Thread)
        requires
            old(self).wf(),
            old(self).idle_thread_id is None,
            thread.wf(),
            thread.has_frame(),
            !old(self).contains_id(thread.id.0),
            thread.id.0 < old(self).next_id,
            match thread.bounds {
                Some(b) => old(self).bounds_fresh(b),
                None => false,
            },
        ensures
            final(self).wf(),
            final(self).idle_thread == Some(thread),
            final(self).idle_thread_id == Some(thread.id),
            final(self).ready_queue == old(self).ready_queue,
            final(self).current == old(self).current,
            final(self).outgoing == old(self).outgoing,
            final(self).next_id == old(self).next_id,
            final(self).pending_free == old(self).pending_free,
            forall|b: StackBounds|
                #[trigger] final(self).has_live_bounds(b) <==> old(self).has_live_bounds(b) || Some(
                    b,
                ) == thread.bounds,
    {
        proof {
            match thread.bounds {
                Some(b) => lemma_fresh_vs_live(*old(self), b),
                None => (),
            }
        }
        self.idle_thread_id = Some(thread.id);
        self.idle_thread = Some(thread);
        proof {
            lemma_live_bounds_cases(*self);
            lemma_live_bounds_cases(*old(self));
            assert(self.queue() == old(self).queue());
            assert(self.wf());
        }
    }

    /// Append a newly created thread at the tail of the ready queue.
    pub fn add_new_thread(&mut self, thread: Thread)
        requires
            old(self).wf(),
            thread.wf(),
            thread.has_frame(),
            !old(self).contains_id(thread.id.0),
            !old(self).is_idle_id(thread.id.0),
            thread.id.0 < old(self).next_id,
            match thread.bounds {
                Some(b) => old(self).bounds_fresh(b),
                None => false,
            },
        ensures
            final(self).wf(),
            final(self).ready_queue@ == old(self).ready_queue@.push(thread),
            final(self).idle_thread == old(self).idle_thread,
            final(self).idle_thread_id == old(self).idle_thread_id,
            final(self).current == old(self).current,
            final(self).outgoing == old(self).outgoing,
            final(self).next_id == old(self).next_id,
            final(self).pending_free == old(self).pending_free,
            forall|b: StackBounds|
                #[trigger] final(self).has_live_bounds(b) <==> old(self).has_live_bounds(b) || Some(
                    b,
                ) == thread.bounds,
    {
        proof {
            match thread.bounds {
                Some(b) => lemma_fresh_vs_live(*old(self), b),
                None => (),
            }
        }
        self.ready_queue.push(thread);
        proof {
            let q = self.queue();
            let oq = old(self).queue();
            assert(q == oq.push(thread));
            lemma_live_bounds_cases(*self);
            lemma_live_bounds_cases(*old(self));
            assert forall|b: StackBounds| #[trigger]
                self.has_live_bounds(b) implies old(self).has_live_bounds(b) || Some(b)
                == thread.bounds by {
                if exists|i: int| 0 <= i < q.len() && #[trigger] q[i].bounds == Some(b) {
                    let i = choose|i: int| 0 <= i < q.len() && #[trigger] q[i].bounds == Some(b);
                    if i < oq.len() {
                        assert(oq[i].bounds == Some(b));
                    }
                }
            }
            assert forall|b: StackBounds|
                old(self).has_live_bounds(b) || Some(b) == thread.bounds implies #[trigger]
            self.has_live_bounds(b) by {
                if old(self).has_live_bounds(b) {
                    if exists|i: int| 0 <= i < oq.len() && #[trigger] oq[i].bounds == Some(b) {
                        let i = choose|i: int|
                            0 <= i < oq.len() && #[trigger] oq[i].bounds == Some(b);
                        assert(q[i].bounds == Some(b));
                    }
                } else {
                    assert(q[q.len() - 1].bounds == Some(b));
                }
            }
            assert(self.wf()) by {
                assert forall|i: int, j: int|
                    0 <= i < q.len() && 0 <= j < q.len() && i != j implies disjoint_opt(
                    #[trigger] q[i].bounds,
                    #[trigger] q[j].bounds,
                ) by {
                    if i == oq.len() {
                        assert(disjoint_opt(Some(thread.bounds.unwrap()), q[j].bounds)
                            || thread.bounds is None);
                    } else if j == oq.len() {
                        assert(disjoint_opt(q[i].bounds, Some(thread.bounds.unwrap()))
                            || thread.bounds is None);
                    }
                }
                assert forall|i: int| 0 <= i < q.len() implies disjoint_opt(
                    (#[trigger] q[i]).bounds,
                    self.current.bounds,
                ) && disjoint_opt(q[i].bounds, idle_bounds(self.idle_thread)) && disjoint_opt(
                    q[i].bounds,
                    idle_bounds(self.outgoing),
                ) by {}
            }
        }
    }

    /// Pick the thread to run next: the head of the ready queue, or the
    /// parked idle thread when the queue is empty. The chosen thread becomes
    /// current and its saved stack pointer and id are returned; the
    /// predecessor is held as `outgoing` until `add_paused_thread` files it
    /// away. A kernel with no ready thread and no idle thread has nowhere to
    /// transfer control, so that state is excluded outright.
    pub fn schedule_next(&mut self) -> (r: (u64, ThreadId))
        requires
            old(self).wf(),
            old(self).outgoing is None,
            old(self).schedulable(),
        ensures
            final(self).wf(),
            final(self).outgoing == Some(old(self).current),
            final(self).current.has_frame(),
            final(self).next_id == old(self).next_id,
            final(self).idle_thread_id == old(self).idle_thread_id,
            final(self).pending_free == old(self).pending_free,
            r.1 == final(self).current.id,
            r.0 == final(self).current.stack.spec_sp(),
            old(self).queue().len() > 0 ==> final(self).current == old(self).queue()[0] && final(self).ready_queue@ == old(self).ready_queue@.drop_first() && final(self).idle_thread == old(self).idle_thread,
            old(self).queue().len() == 0 ==> final(self).current == old(self).idle_thread.unwrap()
                && final(self).idle_thread is None && final(self).ready_queue == old(self).ready_queue && Some(final(self).current.id) == old(self).idle_thread_id,
            forall|b: StackBounds|
                #[trigger] final(self).has_live_bounds(b) <==> old(self).has_live_bounds(b),
    {
        let mut next: Thread;
        if self.ready_queue.len() > 0 {
            next = self.ready_queue.remove(0);
            proof {
                old(self).ready_queue@.remove_ensures(0);
                assert(self.ready_queue@ =~= old(self).ready_queue@.drop_first());
            }
        } else {
            next = self.idle_thread.take().unwrap();
        }
        core::mem::swap(&mut self.current, &mut next);
        self.outgoing = Some(next);
        let sp = self.current.stack.get_stack_pointer();
        let id = self.current.id;
        proof {
            let oq = old(self).queue();
            let q = self.queue();
            lemma_live_bounds_cases(*self);
            lemma_live_bounds_cases(*old(self));
            if oq.len() > 0 {
                assert(forall|j: int| 0 <= j < q.len() ==> q[j] == oq[j + 1]);
                assert(self.wf()) by {
                    assert forall|b: int| 0 <= b < q.len() implies disjoint_opt(
                        (#[trigger] q[b]).bounds,
                        self.current.bounds,
                    ) && disjoint_opt(q[b].bounds, idle_bounds(self.idle_thread)) && disjoint_opt(
                        q[b].bounds,
                        idle_bounds(self.outgoing),
                    ) by {
                        assert(q[b] == oq[b + 1]);
                        assert(disjoint_opt(oq[b + 1].bounds, oq[0].bounds));
                    }
                    assert(disjoint_opt(self.current.bounds, idle_bounds(self.outgoing))) by {
                        lemma_disjoint_commutes();
                    }
                    assert(disjoint_opt(self.current.bounds, idle_bounds(self.idle_thread))) by {
                        lemma_disjoint_commutes();
                    }
                }
                assert forall|b: StackBounds| #[trigger]
                    self.has_live_bounds(b) implies old(self).has_live_bounds(b) by {
                    if exists|i: int| 0 <= i < q.len() && #[trigger] q[i].bounds == Some(b) {
                        let i = choose|i: int| 0 <= i < q.len() && #[trigger] q[i].bounds == Some(
                        b);
                        assert(oq[i + 1].bounds == Some(b));
                    }
                }
                assert forall|b: StackBounds| #[trigger]
                    old(self).has_live_bounds(b) implies self.has_live_bounds(b) by {
                    if exists|i: int| 0 <= i < oq.len() && #[trigger] oq[i].bounds == Some(b) {
                        let i = choose|i: int| 0 <= i < oq.len() && #[trigger] oq[i].bounds
                            == Some(b);
                        if i == 0 {
                            assert(self.current.bounds == Some(b));
                        } else {
                            assert(q[i - 1].bounds == Some(b));
                        }
                    }
                }
            } else {
                assert(self.wf()) by {
                    lemma_disjoint_commutes();
                }
            }
        }
        (sp, id)
    }

    /// File away the thread that just stopped running: the completion path
    /// of the context switch. A terminated thread is dropped for good and
    /// its stack range parked in the single pending-release slot; any other
    /// reason re-queues the thread at the tail, except for the idle thread,
    /// which goes back to its own slot and never enters the ready queue.
    /// The stack pointer handed in must be the one saved for that thread —
    /// anything else would mean switching into foreign memory.
    pub fn add_paused_thread(
        &mut self,
        paused_stack_pointer: u64,
        paused_thread_id: ThreadId,
        switch_reason: SwitchReason,
    )
        requires
            old(self).wf(),
            old(self).outgoing matches Some(t) && t.id == paused_thread_id
                && paused_stack_pointer == t.stack.spec_sp() && (switch_reason
                != SwitchReason::Exited ==> t.has_frame()),
            switch_reason is Exited ==> old(self).pending_free is None && !old(self).is_idle_id(
                paused_thread_id.0,
            ),
        ensures
            final(self).wf(),
            final(self).outgoing is None,
            final(self).current == old(self).current,
            final(self).next_id == old(self).next_id,
            final(self).idle_thread_id == old(self).idle_thread_id,
            switch_reason is Exited ==> {
                &&& final(self).ready_queue == old(self).ready_queue
                &&& final(self).idle_thread == old(self).idle_thread
                &&& final(self).pending_free == old(self).outgoing.unwrap().bounds
                &&& !final(self).contains_id(paused_thread_id.0)
            },
            !(switch_reason is Exited) ==> final(self).pending_free == old(self).pending_free,
            !(switch_reason is Exited) && old(self).is_idle_id(paused_thread_id.0) ==> final(self).idle_thread == old(self).outgoing && final(self).ready_queue == old(self).ready_queue,
            !(switch_reason is Exited) && !old(self).is_idle_id(paused_thread_id.0) ==> final(self).ready_queue@ == old(self).ready_queue@.push(old(self).outgoing.unwrap()) && final(self).idle_thread == old(self).idle_thread,
            forall|b: StackBounds|
                #[trigger] final(self).has_live_bounds(b) ==> old(self).has_live_bounds(b),
            !(switch_reason is Exited) ==> forall|b: StackBounds|
                #[trigger] old(self).has_live_bounds(b) ==> final(self).has_live_bounds(b),
    {
        let t = self.outgoing.take().unwrap();
        let exited = match switch_reason {
            SwitchReason::Exited => true,
            _ => false,
        };
        if exited {
            self.pending_free = t.bounds;
            proof {
                lemma_live_bounds_cases(*self);
                lemma_live_bounds_cases(*old(self));
                assert(self.queue() == old(self).queue());
            }
        } else {
            let is_idle = match self.idle_thread_id {
                Some(idle_id) => idle_id.0 == paused_thread_id.0,
                None => false,
            };
            if is_idle {
                self.idle_thread = Some(t);
                proof {
                    lemma_live_bounds_cases(*self);
                    lemma_live_bounds_cases(*old(self));
                    assert(self.queue() == old(self).queue());
                    assert(self.wf()) by {
                        lemma_disjoint_commutes();
                    }
                }
            } else {
                self.ready_queue.push(t);
                proof {
                    let q = self.queue();
                    let oq = old(self).queue();
                    assert(q == oq.push(t));
                    lemma_live_bounds_cases(*self);
                    lemma_live_bounds_cases(*old(self));
                    assert forall|b: StackBounds| #[trigger]
                        self.has_live_bounds(b) implies old(self).has_live_bounds(b) by {
                        if exists|i: int| 0 <= i < q.len() && #[trigger] q[i].bounds == Some(b) {
                            let i = choose|i: int|
                                0 <= i < q.len() && #[trigger] q[i].bounds == Some(b);
                            if i < oq.len() {
                                assert(oq[i].bounds == Some(b));
                            } else {
                                assert(idle_bounds(old(self).outgoing) == Some(b));
                            }
                        }
                    }
                    assert forall|b: StackBounds| #[trigger]
                        old(self).has_live_bounds(b) implies self.has_live_bounds(b) by {
                        if exists|i: int| 0 <= i < oq.len() && #[trigger] oq[i].bounds == Some(b) {
                            let i = choose|i: int|
                                0 <= i < oq.len() && #[trigger] oq[i].bounds == Some(b);
                            assert(q[i].bounds == Some(b));
                        } else if idle_bounds(old(self).outgoing) == Some(b) {
                            assert(q[q.len() - 1].bounds == Some(b));
                        }
                    }
                    assert(self.wf()) by {
                        lemma_disjoint_commutes();
                        assert forall|i: int, j: int|
                            0 <= i < q.len() && 0 <= j < q.len() && i != j implies disjoint_opt(
                            #[trigger] q[i].bounds,
                            #[trigger] q[j].bounds,
                        ) by {
                            if i == oq.len() {
                                assert(disjoint_opt(oq[j].bounds, idle_bounds(old(self).outgoing)));
                            } else if j == oq.len() {
                                assert(disjoint_opt(oq[i].bounds, idle_bounds(old(self).outgoing)));
                            }
                        }
                    }
                }
            }
        }
    }

    /// Whether `schedule_next` has a target right now.
    pub fn can_schedule(&self) -> (b: bool)
        ensures
            b == self.schedulable(),
    {
        self.ready_queue.len() > 0 || self.idle_thread.is_some()
    }

    /// The context-switch protocol, minus the machine code: save the
    /// processor state of the outgoing thread onto its own stack, file the
    /// thread away under `switch_reason`, and restore the frame on top of
    /// the incoming thread's stack into the processor. Must run with
    /// interrupts disabled for its whole duration. `new_stack_pointer` is
    /// the incoming thread's saved stack pointer as returned by
    /// `schedule_next`: switching to any other address would land in memory
    /// the thread does not own.
    pub fn thread_switch_to(
        &mut self,
        cpu: &mut CpuState,
        new_stack_pointer: u64,
        prev_thread_id: ThreadId,
        switch_reason: SwitchReason,
    )
        requires
            old(self).wf(),
            old(self).outgoing matches Some(t) && t.id == prev_thread_id && t.stack.headroom(
                SWITCH_FRAME_WORDS as int,
            ),
            new_stack_pointer == old(self).current.stack.spec_sp(),
            old(self).current.has_frame(),
            !old(cpu).interrupts_enabled(),
            switch_reason is Exited ==> old(self).pending_free is None && !old(self).is_idle_id(
                prev_thread_id.0,
            ),
        ensures
            final(self).wf(),
            final(self).outgoing is None,
            final(self).next_id == old(self).next_id,
            final(self).idle_thread_id == old(self).idle_thread_id,
            final(self).current.id == old(self).current.id,
            final(self).current.bounds == old(self).current.bounds,
            final(self).current.stack.top == old(self).current.stack.top,
            final(self).current.stack.limit == old(self).current.stack.limit,
            final(self).current.stack.words@ == old(self).current.stack.words@.take(
                old(self).current.stack.words@.len() - SWITCH_FRAME_WORDS,
            ),
            final(cpu).regs == frame_of_words(old(self).current.stack.words@).regs,
            final(cpu).rflags == frame_of_words(old(self).current.stack.words@).rflags,
            final(cpu).pc == frame_of_words(old(self).current.stack.words@).resume,
            switch_reason is Exited ==> {
                &&& final(self).ready_queue == old(self).ready_queue
                &&& final(self).idle_thread == old(self).idle_thread
                &&& final(self).pending_free == old(self).outgoing.unwrap().bounds
                &&& !final(self).contains_id(prev_thread_id.0)
            },
            !(switch_reason is Exited) ==> final(self).pending_free == old(self).pending_free,
            !(switch_reason is Exited) && old(self).is_idle_id(prev_thread_id.0) ==> {
                &&& final(self).ready_queue == old(self).ready_queue
                &&& final(self).idle_thread matches Some(rec) && is_paused_record(
                    rec,
                    old(self).outgoing.unwrap(),
                    crate::switch::saved_frame(*old(cpu)),
                )
            },
            !(switch_reason is Exited) && !old(self).is_idle_id(prev_thread_id.0) ==> {
                &&& final(self).idle_thread == old(self).idle_thread
                &&& final(self).ready_queue@.len() == old(self).ready_queue@.len() + 1
                &&& final(self).ready_queue@.drop_last() == old(self).ready_queue@
                &&& is_paused_record(
                    final(self).ready_queue@.last(),
                    old(self).outgoing.unwrap(),
                    crate::switch::saved_frame(*old(cpu)),
                )
            },
            forall|b: StackBounds|
                #[trigger] final(self).has_live_bounds(b) ==> old(self).has_live_bounds(b),
            !(switch_reason is Exited) ==> forall|b: StackBounds|
                #[trigger] old(self).has_live_bounds(b) ==> final(self).has_live_bounds(b),
    {
        let f = cpu.to_frame();
        let sp: u64;
        match &mut self.outgoing {
            Some(t) => {
                t.stack.push_frame(f);
                sp = t.stack.get_stack_pointer();
            },
            None => {
                proof {
                    assert(false);
                }
                sp = 0;
            },
        }
        proof {
            lemma_live_bounds_cases(*old(self));
            lemma_live_bounds_cases(*self);
            assert(self.queue() == old(self).queue());
            assert(idle_bounds(self.outgoing) == idle_bounds(old(self).outgoing));
            assert(forall|b: StackBounds|
                #[trigger] self.has_live_bounds(b) <==> old(self).has_live_bounds(b));
        }
        let ghost mid1 = *self;
        self.add_paused_thread(sp, prev_thread_id, switch_reason);
        let ghost mid2 = *self;
        let incoming = self.current.stack.pop_frame();
        proof {
            lemma_live_bounds_cases(mid2);
            lemma_live_bounds_cases(*self);
            assert(self.queue() == mid2.queue());
            assert(self.current.bounds == mid2.current.bounds);
            assert(idle_bounds(self.idle_thread) == idle_bounds(mid2.idle_thread));
            assert(idle_bounds(self.outgoing) == idle_bounds(mid2.outgoing));
            assert(forall|b: StackBounds|
                #[trigger] self.has_live_bounds(b) <==> mid2.has_live_bounds(b));
            if !(switch_reason is Exited) {
                assert forall|b: StackBounds|
                    #[trigger] old(self).has_live_bounds(b) implies self.has_live_bounds(b) by {
                    assert(mid1.has_live_bounds(b));
                    assert(mid2.has_live_bounds(b));
                }
            }
        }
        cpu.load_frame(incoming);
    }

    /// Hand back the stack range of the last exited thread, unmapping its
    /// pages: after this, every page of the region is free again for
    /// mapping. Run by the thread that finds itself scheduled after an exit,
    /// which is the first moment the exited thread is no longer standing on
    /// that stack.
    pub fn reclaim_pending_stack(&mut self, mapper: &mut PageMapper) -> (r: Option<StackBounds>)
        requires
            old(self).wf(),
            old(mapper).wf(),
        ensures
            final(self).wf(),
            final(mapper).wf(),
            r == old(self).pending_free,
            final(self).pending_free is None,
            final(self).ready_queue == old(self).ready_queue,
            final(self).idle_thread == old(self).idle_thread,
            final(self).idle_thread_id == old(self).idle_thread_id,
            final(self).current == old(self).current,
            final(self).outgoing == old(self).outgoing,
            final(self).next_id == old(self).next_id,
            final(mapper).physical_memory_offset == old(mapper).physical_memory_offset,
            r matches Some(b) ==> forall|q: u64|
                #[trigger] final(mapper).is_mapped(q) <==> old(mapper).is_mapped(q) && !(b.start
                    <= q < b.end),
            r is None ==> final(mapper).mappings == old(mapper).mappings,
    {
        let pending = self.pending_free.take();
        match pending {
            None => None,
            Some(b) => {
                let mut page = b.start();
                while page < b.end()
                    invariant
                        b.wf(),
                        mapper.wf(),
                        mapper.physical_memory_offset == old(mapper).physical_memory_offset,
                        b.start <= page <= b.end,
                        page % PAGE_SIZE == 0,
                        forall|q: u64|
                            #[trigger] mapper.is_mapped(q) <==> old(mapper).is_mapped(q) && !(
                            b.start <= q < page),
                    decreases b.end - page,
                {
                    let _ = mapper.unmap(page);
                    proof {
                        assert forall|q: u64|
                            #[trigger] mapper.is_mapped(q) <==> old(mapper).is_mapped(q) && !(
                            b.start <= q < page + PAGE_SIZE) by {
                            if mapper.is_mapped(q) {
                                assert(q % PAGE_SIZE == 0) by {
                                    let m = mapper.mappings@;
                                    let i = choose|i: int|
                                        0 <= i < m.len() && #[trigger] m[i].0 == q;
                                }
                                if page <= q < page + PAGE_SIZE {
                                    assert(q == page);
                                }
                            }
                        }
                    }
                    page = page + PAGE_SIZE;
                }
                Some(b)
            },
        }
    }
}

/// The record filed away for a paused thread: same identity, same stack
/// region, and the saved context frame now sitting on top of its words.
pub open spec fn is_paused_record(rec: Thread, t: Thread, f: SwitchFrame) -> bool {
    &&& rec.id == t.id
    &&& rec.bounds == t.bounds
    &&& rec.stack.top == t.stack.top
    &&& rec.stack.limit == t.stack.limit
    &&& rec.stack.words@ == t.stack.words@ + frame_as_words(f)
}

/// The thread `schedule_next` picks from this state: the queue head, or the
/// parked idle thread when the queue is empty.
pub open spec fn selected_thread(s: Scheduler) -> Thread {
    if s.queue().len() > 0 {
        s.queue()[0]
    } else {
        s.idle_thread.unwrap()
    }
}

/// The frame a thread saves when it stops running from normal context: the
/// processor state at the switch, with the interrupt flag already cleared
/// by the critical section around the switch.
pub open spec fn yield_saved_frame(c: CpuState) -> SwitchFrame {
    SwitchFrame { resume: c.pc, regs: c.regs, rflags: c.rflags & 0xFFFF_FFFF_FFFF_FDFF }
}

/// Voluntarily hand the processor to the next ready thread, inside a
/// critical section that masks interrupts for the switch itself. With no
/// other runnable thread the call does nothing and the caller keeps
/// running. Otherwise the caller's context is saved on its own stack, the
/// caller goes to the tail of the ready queue (or back to the idle slot, if
/// it is the idle thread), and execution continues in the selected thread,
/// with interrupts enabled again.
pub fn yield_now(scheduler: &mut Scheduler, cpu: &mut CpuState)
    requires
        old(scheduler).wf(),
        old(scheduler).outgoing is None,
        old(scheduler).current.stack.headroom(SWITCH_FRAME_WORDS as int),
        old(cpu).interrupts_enabled(),
    ensures
        final(scheduler).wf(),
        final(scheduler).outgoing is None,
        final(cpu).interrupts_enabled(),
        final(scheduler).next_id == old(scheduler).next_id,
        final(scheduler).idle_thread_id == old(scheduler).idle_thread_id,
        final(scheduler).pending_free == old(scheduler).pending_free,
        !old(scheduler).schedulable() ==> *final(scheduler) == *old(scheduler) && *final(cpu) == *old(cpu),
        old(scheduler).schedulable() ==> {
            &&& final(scheduler).current.id == selected_thread(*old(scheduler)).id
            &&& final(scheduler).current.bounds == selected_thread(*old(scheduler)).bounds
            &&& final(cpu).regs == frame_of_words(
                selected_thread(*old(scheduler)).stack.words@,
            ).regs
            &&& final(cpu).pc == frame_of_words(selected_thread(*old(scheduler)).stack.words@).resume
            &&& final(cpu).rflags == frame_of_words(selected_thread(*old(scheduler)).stack.words@).rflags
                | crate::switch::RFLAGS_INTERRUPT_FLAG
        },
        old(scheduler).schedulable() && !old(scheduler).is_idle_id(old(scheduler).current.id.0)
            ==> {
            &&& final(scheduler).idle_thread == (if old(scheduler).queue().len() > 0 {
                old(scheduler).idle_thread
            } else {
                None
            })
            &&& final(scheduler).ready_queue@.len() == (if old(scheduler).queue().len() > 0 {
                old(scheduler).queue().len() as int
            } else {
                1int
            })
            &&& final(scheduler).ready_queue@.drop_last() == (if old(scheduler).queue().len()
                > 0 {
                old(scheduler).queue().drop_first()
            } else {
                old(scheduler).queue()
            })
            &&& is_paused_record(
                final(scheduler).ready_queue@.last(),
                old(scheduler).current,
                yield_saved_frame(*old(cpu)),
            )
        },
        old(scheduler).schedulable() && old(scheduler).is_idle_id(old(scheduler).current.id.0)
            ==> {
            &&& final(scheduler).ready_queue@ == old(scheduler).queue().drop_first()
            &&& final(scheduler).idle_thread matches Some(rec) && is_paused_record(
                rec,
                old(scheduler).current,
                yield_saved_frame(*old(cpu)),
            )
        },
{
    cpu.disable_interrupts();
    if scheduler.can_schedule() {
        let prev_id = scheduler.current_thread_id();
        let (next_sp, _next_id) = scheduler.schedule_next();
        scheduler.thread_switch_to(cpu, next_sp, prev_id, SwitchReason::Yielded);
    }
    cpu.enable_interrupts();
    proof {
        if !old(scheduler).schedulable() {
            assert(forall|x: u64|
                x & 0x200 != 0 ==> #[trigger] ((x & 0xFFFF_FFFF_FFFF_FDFF) | 0x200) == x)
                by (bit_vector);
            assert(cpu.rflags == old(cpu).rflags);
            assert(*cpu == *old(cpu));
        }
    }
}

/// The timer interrupt's preemption entry: force the running thread off the
/// processor as if it had yielded, tagged `Preempted`. Runs inside the
/// interrupt handler, so interrupts are already masked; with no other
/// runnable thread the handler changes nothing and simply returns.
pub fn preempt_current(scheduler: &mut Scheduler, cpu: &mut CpuState)
    requires
        old(scheduler).wf(),
        old(scheduler).outgoing is None,
        old(scheduler).current.stack.headroom(SWITCH_FRAME_WORDS as int),
        !old(cpu).interrupts_enabled(),
    ensures
        final(scheduler).wf(),
        final(scheduler).outgoing is None,
        final(scheduler).next_id == old(scheduler).next_id,
        final(scheduler).idle_thread_id == old(scheduler).idle_thread_id,
        final(scheduler).pending_free == old(scheduler).pending_free,
        !old(scheduler).schedulable() ==> *final(scheduler) == *old(scheduler) && *final(cpu) == *old(cpu),
        old(scheduler).schedulable() ==> {
            &&& final(scheduler).current.id == selected_thread(*old(scheduler)).id
            &&& final(scheduler).current.bounds == selected_thread(*old(scheduler)).bounds
            &&& final(cpu).regs == frame_of_words(
                selected_thread(*old(scheduler)).stack.words@,
            ).regs
            &&& final(cpu).pc == frame_of_words(selected_thread(*old(scheduler)).stack.words@).resume
            &&& final(cpu).rflags == frame_of_words(selected_thread(*old(scheduler)).stack.words@).rflags
                | crate::switch::RFLAGS_INTERRUPT_FLAG
            &&& final(cpu).interrupts_enabled()
        },
        old(scheduler).schedulable() && !old(scheduler).is_idle_id(old(scheduler).current.id.0)
            ==> {
            &&& final(scheduler).idle_thread == (if old(scheduler).queue().len() > 0 {
                old(scheduler).idle_thread
            } else {
                None
            })
            &&& final(scheduler).ready_queue@.len() == (if old(scheduler).queue().len() > 0 {
                old(scheduler).queue().len() as int
            } else {
                1int
            })
            &&& final(scheduler).ready_queue@.drop_last() == (if old(scheduler).queue().len()
                > 0 {
                old(scheduler).queue().drop_first()
            } else {
                old(scheduler).queue()
            })
            &&& is_paused_record(
                final(scheduler).ready_queue@.last(),
                old(scheduler).current,
                crate::switch::saved_frame(*old(cpu)),
            )
        },
        old(scheduler).schedulable() && old(scheduler).is_idle_id(old(scheduler).current.id.0)
            ==> {
            &&& final(scheduler).ready_queue@ == old(scheduler).queue().drop_first()
            &&& final(scheduler).idle_thread matches Some(rec) && is_paused_record(
                rec,
                old(scheduler).current,
                crate::switch::saved_frame(*old(cpu)),
            )
        },
{
    if scheduler.can_schedule() {
        let prev_id = scheduler.current_thread_id();
        let (next_sp, _next_id) = scheduler.schedule_next();
        scheduler.thread_switch_to(cpu, next_sp, prev_id, SwitchReason::Preempted);
        cpu.enable_interrupts();
    }
}

/// Terminate the running thread for good: its context is switched away from
/// under the reason `Exited`, its id is never scheduled again, and its
/// stack range is parked in the pending-release slot for the next thread to
/// reclaim. The thread cannot free its own stack while standing on it,
/// which is why the release is deferred. In the kernel this call never
/// returns to its caller; here execution continues as the selected thread.
pub fn exit_thread(scheduler: &mut Scheduler, cpu: &mut CpuState)
    requires
        old(scheduler).wf(),
        old(scheduler).outgoing is None,
        old(scheduler).current.stack.headroom(SWITCH_FRAME_WORDS as int),
        old(scheduler).schedulable(),
        old(scheduler).pending_free is None,
        !old(scheduler).is_idle_id(old(scheduler).current.id.0),
    ensures
        final(scheduler).wf(),
        final(scheduler).outgoing is None,
        final(scheduler).next_id == old(scheduler).next_id,
        final(scheduler).idle_thread_id == old(scheduler).idle_thread_id,
        !final(scheduler).contains_id(old(scheduler).current.id.0),
        final(scheduler).pending_free == old(scheduler).current.bounds,
        final(scheduler).current.id == selected_thread(*old(scheduler)).id,
        final(scheduler).current.bounds == selected_thread(*old(scheduler)).bounds,
        final(cpu).regs == frame_of_words(selected_thread(*old(scheduler)).stack.words@).regs,
        final(cpu).pc == frame_of_words(selected_thread(*old(scheduler)).stack.words@).resume,
        final(cpu).rflags == frame_of_words(selected_thread(*old(scheduler)).stack.words@).rflags
            | crate::switch::RFLAGS_INTERRUPT_FLAG,
        final(cpu).interrupts_enabled(),
        old(scheduler).queue().len() > 0 ==> final(scheduler).ready_queue@ == old(
            scheduler,
        ).queue().drop_first() && final(scheduler).idle_thread == old(scheduler).idle_thread,
        old(scheduler).queue().len() == 0 ==> final(scheduler).ready_queue == old(
            scheduler,
        ).ready_queue && final(scheduler).idle_thread is None,
{
    cpu.disable_interrupts();
    let prev_id = scheduler.current_thread_id();
    let (next_sp, _next_id) = scheduler.schedule_next();
    scheduler.thread_switch_to(cpu, next_sp, prev_id, SwitchReason::Exited);
    cpu.enable_interrupts();
}

/// The bounds of an optional thread record, if both are present.
pub open spec fn idle_bounds(t: Option<Thread>) -> Option<StackBounds> {
    match t {
        Some(t) => t.bounds,
        None => None,
    }
}

/// Disjointness of two optional stack ranges; vacuous when either side has
/// none.
pub open spec fn disjoint_opt(a: Option<StackBounds>, b: Option<StackBounds>) -> bool {
    match (a, b) {
        (Some(x), Some(y)) => StackBounds::disjoint(x, y),
        _ => true,
    }
}

/// Disjointness of stack ranges is symmetric.
pub proof fn lemma_disjoint_commutes()
    ensures
        forall|a: Option<StackBounds>, b: Option<StackBounds>| #[trigger]
            disjoint_opt(a, b) <==> disjoint_opt(b, a),
{
}

/// Unfold `has_live_bounds` into its four sources, giving the solver the
/// case split it needs when a container changes.
pub proof fn lemma_live_bounds_cases(s: Scheduler)
    ensures
        forall|b: StackBounds| #[trigger]
            s.has_live_bounds(b) <==> ((exists|i: int|
                0 <= i < s.queue().len() && #[trigger] s.queue()[i].bounds == Some(b))
                || s.current.bounds == Some(b) || idle_bounds(s.idle_thread) == Some(b)
                || idle_bounds(s.outgoing) == Some(b)),
{
}

/// Every live stack range belongs to a well-formed thread, so the range
/// itself is well-formed.
pub proof fn lemma_live_bounds_wf(s: Scheduler)
    requires
        s.wf(),
    ensures
        forall|b: StackBounds| #[trigger] s.has_live_bounds(b) ==> b.wf(),
{
    assert forall|b: StackBounds| #[trigger] s.has_live_bounds(b) implies b.wf() by {
        if exists|i: int| 0 <= i < s.queue().len() && #[trigger] s.queue()[i].bounds == Some(b) {
            let i = choose|i: int|
                0 <= i < s.queue().len() && #[trigger] s.queue()[i].bounds == Some(b);
            assert(s.queue()[i].wf());
        }
    }
}

/// A range that is fresh for the scheduler is disjoint from the bounds held
/// in each of its containers, in either argument order.
pub proof fn lemma_fresh_vs_live(s: Scheduler, b: StackBounds)
    requires
        s.bounds_fresh(b),
    ensures
        forall|i: int|
            0 <= i < s.queue().len() ==> disjoint_opt((#[trigger] s.queue()[i]).bounds, Some(b))
                && disjoint_opt(Some(b), s.queue()[i].bounds),
        disjoint_opt(s.current.bounds, Some(b)) && disjoint_opt(Some(b), s.current.bounds),
        disjoint_opt(idle_bounds(s.idle_thread), Some(b)) && disjoint_opt(
            Some(b),
            idle_bounds(s.idle_thread),
        ),
        disjoint_opt(idle_bounds(s.outgoing), Some(b)) && disjoint_opt(
            Some(b),
            idle_bounds(s.outgoing),
        ),
{
    match s.current.bounds {
        Some(x) => {
            assert(s.has_live_bounds(x));
        },
        None => (),
    }
    match idle_bounds(s.idle_thread) {
        Some(x) => {
            assert(s.has_live_bounds(x));
        },
        None => (),
    }
    match idle_bounds(s.outgoing) {
        Some(x) => {
            assert(s.has_live_bounds(x));
        },
        None => (),
    }
    assert forall|i: int| 0 <= i < s.queue().len() implies disjoint_opt(
        (#[trigger] s.queue()[i]).bounds,
        Some(b),
    ) && disjoint_opt(Some(b), s.queue()[i].bounds) by {
        match s.queue()[i].bounds {
            Some(x) => {
                assert(s.has_live_bounds(x));
            },
            None => (),
        }
    }
}


/// The joint invariant of the scheduler, the page table, and the stack
/// allocator: every live thread's stack lies below the allocator's cursor,
/// fully mapped, with its guard page unmapped, and no mapping reaches the
/// untouched stack area.
pub open spec fn system_wf(s: &Scheduler, mapper: &PageMapper, alloc: &StackAllocator) -> bool {
    &&& s.wf()
    &&& mapper.wf()
    &&& alloc.wf()
    &&& crate::memory::mapper_below(mapper, alloc.next)
    &&& forall|b: StackBounds| #[trigger] s.has_live_bounds(b) ==> b.end <= alloc.next
    &&& forall|b: StackBounds| #[trigger]
        s.has_live_bounds(b) ==> !mapper.is_mapped(((b.start - PAGE_SIZE) as u64))
    &&& forall|b: StackBounds| #[trigger] s.has_live_bounds(b) ==> region_mapped(mapper, b)
}

/// Every page of the range is present in the page table.
pub open spec fn region_mapped(mapper: &PageMapper, b: StackBounds) -> bool {
    forall|p: u64| b.start <= p < b.end && p % PAGE_SIZE == 0 ==> #[trigger] mapper.is_mapped(p)
}


/// Create a thread with a freshly issued id and enqueue it, keeping the
/// joint system invariant: the new stack sits in the previously untouched
/// window above the old cursor, so it overlaps no live stack and disturbs
/// no guard page.
pub fn spawn_thread(
    entry_point: u64,
    stack_size_in_pages: u64,
    scheduler: &mut Scheduler,
    stack_allocator: &mut StackAllocator,
    mapper: &mut PageMapper,
    frame_allocator: &mut BootInfoFrameAllocator,
) -> (r: Result<ThreadId, MemoryError>)
    requires
        system_wf(old(scheduler), old(mapper), old(stack_allocator)),
        old(scheduler).outgoing is None,
        old(frame_allocator).wf(),
        1 <= stack_size_in_pages,
        old(stack_allocator).next + (stack_size_in_pages + 1) * PAGE_SIZE <= u64::MAX,
        old(frame_allocator).next + stack_size_in_pages <= usize::MAX,
        old(scheduler).next_id < u64::MAX,
    ensures
        system_wf(final(scheduler), final(mapper), final(stack_allocator)),
        final(frame_allocator).wf(),
        final(scheduler).next_id == old(scheduler).next_id + 1,
        final(scheduler).current == old(scheduler).current,
        final(scheduler).idle_thread == old(scheduler).idle_thread,
        final(scheduler).idle_thread_id == old(scheduler).idle_thread_id,
        final(scheduler).outgoing == old(scheduler).outgoing,
        final(scheduler).pending_free == old(scheduler).pending_free,
        r is Ok <==> old(frame_allocator).next + stack_size_in_pages <= old(
            frame_allocator,
        ).frames().len(),
        r matches Ok(id) ==> {
            &&& id.0 == old(scheduler).next_id
            &&& final(scheduler).ready_queue@.len() == old(scheduler).queue().len() + 1
            &&& final(scheduler).ready_queue@.drop_last() == old(scheduler).queue()
            &&& final(scheduler).ready_queue@.last().id == id
            &&& final(scheduler).ready_queue@.last().stack.words@ == frame_as_words(
                crate::switch::initial_frame(entry_point),
            )
        },
        r is Err ==> final(scheduler).ready_queue == old(scheduler).ready_queue,
{
    let id = scheduler.issue_thread_id();
    proof {
        lemma_live_bounds_cases(*scheduler);
        lemma_live_bounds_cases(*old(scheduler));
        lemma_live_bounds_wf(*old(scheduler));
        assert(forall|x: StackBounds|
            #[trigger] scheduler.has_live_bounds(x) <==> old(scheduler).has_live_bounds(x));
    }
    let ghost after_issue = *scheduler;
    let thread = match Thread::create(
        entry_point,
        stack_size_in_pages,
        id,
        stack_allocator,
        mapper,
        frame_allocator,
    ) {
        Ok(t) => t,
        Err(e) => {
            proof {
                lemma_spawn_window_keeps_system_wf(
                    *scheduler,
                    *old(mapper),
                    *mapper,
                    *old(stack_allocator),
                    *stack_allocator,
                );
            }
            return Err(e);
        },
    };
    proof {
        let b = thread.bounds.unwrap();
        assert(scheduler.bounds_fresh(b)) by {
            assert forall|x: StackBounds| #[trigger]
                scheduler.has_live_bounds(x) implies StackBounds::disjoint(x, b) by {
                assert(old(scheduler).has_live_bounds(x));
                assert(x.end <= old(stack_allocator).next);
            }
        }
    }
    scheduler.add_new_thread(thread);
    proof {
        lemma_spawn_window_keeps_system_wf(
            *old(scheduler),
            *old(mapper),
            *mapper,
            *old(stack_allocator),
            *stack_allocator,
        );
        let b = thread.bounds.unwrap();
        assert forall|x: StackBounds| #[trigger] scheduler.has_live_bounds(x) implies x.end
            <= stack_allocator.next && !mapper.is_mapped(((x.start - PAGE_SIZE) as u64))
            && region_mapped(mapper, x) by {
            if after_issue.has_live_bounds(x) {
                assert(old(scheduler).has_live_bounds(x));
            } else {
                assert(x == b);
                assert(!mapper.is_mapped(((b.start - PAGE_SIZE) as u64))) by {
                    assert(b.start - PAGE_SIZE == old(stack_allocator).next);
                }
                assert(region_mapped(mapper, b)) by {
                    lemma_window_pages_mapped(
                        *mapper,
                        b,
                        stack_size_in_pages,
                        old(stack_allocator).next,
                    );
                }
            }
        }
    }
    Ok(id)
}

/// Create the idle thread and register it as the fallback, under the same
/// freshness argument as `spawn_thread`.
pub fn spawn_idle_thread(
    entry_point: u64,
    stack_size_in_pages: u64,
    scheduler: &mut Scheduler,
    stack_allocator: &mut StackAllocator,
    mapper: &mut PageMapper,
    frame_allocator: &mut BootInfoFrameAllocator,
) -> (r: Result<ThreadId, MemoryError>)
    requires
        system_wf(old(scheduler), old(mapper), old(stack_allocator)),
        old(scheduler).outgoing is None,
        old(scheduler).idle_thread_id is None,
        old(frame_allocator).wf(),
        1 <= stack_size_in_pages,
        old(stack_allocator).next + (stack_size_in_pages + 1) * PAGE_SIZE <= u64::MAX,
        old(frame_allocator).next + stack_size_in_pages <= usize::MAX,
        old(scheduler).next_id < u64::MAX,
    ensures
        system_wf(final(scheduler), final(mapper), final(stack_allocator)),
        final(frame_allocator).wf(),
        final(scheduler).next_id == old(scheduler).next_id + 1,
        final(scheduler).current == old(scheduler).current,
        final(scheduler).ready_queue == old(scheduler).ready_queue,
        final(scheduler).outgoing == old(scheduler).outgoing,
        final(scheduler).pending_free == old(scheduler).pending_free,
        r is Ok <==> old(frame_allocator).next + stack_size_in_pages <= old(
            frame_allocator,
        ).frames().len(),
        r matches Ok(id) ==> {
            &&& id.0 == old(scheduler).next_id
            &&& final(scheduler).idle_thread_id == Some(id)
            &&& final(scheduler).idle_thread matches Some(t) && t.id == id && t.stack.words@
                == frame_as_words(crate::switch::initial_frame(entry_point))
        },
        r is Err ==> final(scheduler).idle_thread is None && final(scheduler).idle_thread_id
            is None,
{
    let id = scheduler.issue_thread_id();
    proof {
        lemma_live_bounds_cases(*scheduler);
        lemma_live_bounds_cases(*old(scheduler));
        lemma_live_bounds_wf(*old(scheduler));
        assert(forall|x: StackBounds|
            #[trigger] scheduler.has_live_bounds(x) <==> old(scheduler).has_live_bounds(x));
    }
    let ghost after_issue = *scheduler;
    let thread = match Thread::create(
        entry_point,
        stack_size_in_pages,
        id,
        stack_allocator,
        mapper,
        frame_allocator,
    ) {
        Ok(t) => t,
        Err(e) => {
            proof {
                lemma_spawn_window_keeps_system_wf(
                    *scheduler,
                    *old(mapper),
                    *mapper,
                    *old(stack_allocator),
                    *stack_allocator,
                );
            }
            return Err(e);
        },
    };
    proof {
        let b = thread.bounds.unwrap();
        assert(scheduler.bounds_fresh(b)) by {
            assert forall|x: StackBounds| #[trigger]
                scheduler.has_live_bounds(x) implies StackBounds::disjoint(x, b) by {
                assert(old(scheduler).has_live_bounds(x));
                assert(x.end <= old(stack_allocator).next);
            }
        }
    }
    scheduler.set_idle_thread(thread);
    proof {
        lemma_spawn_window_keeps_system_wf(
            *old(scheduler),
            *old(mapper),
            *mapper,
            *old(stack_allocator),
            *stack_allocator,
        );
        let b = thread.bounds.unwrap();
        assert forall|x: StackBounds| #[trigger] scheduler.has_live_bounds(x) implies x.end
            <= stack_allocator.next && !mapper.is_mapped(((x.start - PAGE_SIZE) as u64))
            && region_mapped(mapper, x) by {
            if after_issue.has_live_bounds(x) {
                assert(old(scheduler).has_live_bounds(x));
            } else {
                assert(x == b);
                assert(!mapper.is_mapped(((b.start - PAGE_SIZE) as u64))) by {
                    assert(b.start - PAGE_SIZE == old(stack_allocator).next);
                }
                assert(region_mapped(mapper, b)) by {
                    lemma_window_pages_mapped(
                        *mapper,
                        b,
                        stack_size_in_pages,
                        old(stack_allocator).next,
                    );
                }
            }
        }
    }
    Ok(id)
}

/// After a stack allocation, the threads that were live before still have
/// their regions mapped, their guards unmapped, and their ranges below the
/// advanced cursor: the allocation touched only the fresh window.
proof fn lemma_spawn_window_keeps_system_wf(
    s: Scheduler,
    pre_mapper: PageMapper,
    post_mapper: PageMapper,
    pre_alloc: StackAllocator,
    post_alloc: StackAllocator,
)
    requires
        forall|b: StackBounds| #[trigger] s.has_live_bounds(b) ==> b.end <= pre_alloc.next,
        forall|b: StackBounds| #[trigger]
            s.has_live_bounds(b) ==> !pre_mapper.is_mapped(((b.start - PAGE_SIZE) as u64)),
        forall|b: StackBounds| #[trigger] s.has_live_bounds(b) ==> region_mapped(&pre_mapper, b),
        forall|b: StackBounds| #[trigger] s.has_live_bounds(b) ==> b.wf(),
        pre_alloc.next <= post_alloc.next,
        forall|q: u64| #[trigger] pre_mapper.is_mapped(q) ==> post_mapper.is_mapped(q),
        forall|q: u64|
            #[trigger] post_mapper.is_mapped(q) && !pre_mapper.is_mapped(q) ==> pre_alloc.next
                + PAGE_SIZE <= q < post_alloc.next,
    ensures
        forall|b: StackBounds| #[trigger] s.has_live_bounds(b) ==> b.end <= post_alloc.next,
        forall|b: StackBounds| #[trigger]
            s.has_live_bounds(b) ==> !post_mapper.is_mapped(((b.start - PAGE_SIZE) as u64)),
        forall|b: StackBounds| #[trigger] s.has_live_bounds(b) ==> region_mapped(&post_mapper, b),
{
    assert forall|b: StackBounds| #[trigger] s.has_live_bounds(b) implies !post_mapper.is_mapped(
        ((b.start - PAGE_SIZE) as u64),
    ) by {
        let g = (b.start - PAGE_SIZE) as u64;
        if post_mapper.is_mapped(g) {
            assert(g < pre_alloc.next);
            assert(false);
        }
    }
    assert forall|b: StackBounds| #[trigger] s.has_live_bounds(b) implies region_mapped(
        &post_mapper,
        b,
    ) by {
        assert forall|p: u64|
            b.start <= p < b.end && p % PAGE_SIZE == 0 implies #[trigger] post_mapper.is_mapped(
            p,
        ) by {
            assert(pre_mapper.is_mapped(p));
        }
    }
}

/// The pages a stack allocation mapped cover the whole returned range: any
/// aligned address inside it is one of the mapped page starts.
proof fn lemma_window_pages_mapped(
    mapper: PageMapper,
    b: StackBounds,
    size_in_pages: u64,
    old_cursor: u64,
)
    requires
        b.start == old_cursor + PAGE_SIZE,
        b.end == b.start + size_in_pages * PAGE_SIZE,
        b.wf(),
        forall|j: u64|
            j < size_in_pages ==> #[trigger] mapper.is_mapped(((b.start + j * PAGE_SIZE) as u64)),
    ensures
        region_mapped(&mapper, b),
{
    assert forall|p: u64|
        b.start <= p < b.end && p % PAGE_SIZE == 0 implies #[trigger] mapper.is_mapped(p) by {
        let j = ((p - b.start) as u64) / (PAGE_SIZE as u64);
        assert((p - b.start) % (PAGE_SIZE as int) == 0);
        assert(j * PAGE_SIZE == p - b.start) by (nonlinear_arith)
            requires
                j == ((p - b.start) as u64) / (PAGE_SIZE as u64),
                (p - b.start) % (PAGE_SIZE as int) == 0,
                0 <= p - b.start,
                PAGE_SIZE == 4096,
        ;
        assert(j < size_in_pages) by (nonlinear_arith)
            requires
                j * PAGE_SIZE == p - b.start,
                p < b.end,
                b.end == b.start + size_in_pages * PAGE_SIZE,
                PAGE_SIZE == 4096,
        ;
        assert(mapper.is_mapped(((b.start + j * PAGE_SIZE) as u64)));
        assert(b.start + j * PAGE_SIZE == p);
    }
}


/// The ids sitting in the ready queue, head first.
pub open spec fn queue_ids(s: Scheduler) -> Seq<u64> {
    s.ready_queue@.map_values(|t: Thread| t.id.0)
}

/// One voluntary-yield step at the id level: the head starts running and
/// the thread that was running joins the tail.
pub open spec fn rotate_step(ids: Seq<u64>, running: u64) -> (Seq<u64>, u64)
    recommends
        ids.len() > 0,
{
    (ids.drop_first().push(running), ids[0])
}

/// `n` successive yield steps.
pub open spec fn rotate_n(ids: Seq<u64>, running: u64, n: nat) -> (Seq<u64>, u64)
    decreases n,
{
    if n == 0 {
        (ids, running)
    } else {
        let s = rotate_step(ids, running);
        rotate_n(s.0, s.1, (n - 1) as nat)
    }
}

/// No starvation under round robin: whatever sits at position `k` of the
/// ready queue is the running thread after exactly `k + 1` yield steps —
/// every ready thread runs within one full cycle of the queue.
pub proof fn lemma_no_starvation(ids: Seq<u64>, running: u64, k: int)
    requires
        0 <= k < ids.len(),
    ensures
        rotate_n(ids, running, (k + 1) as nat).1 == ids[k],
    decreases k,
{
    let s = rotate_step(ids, running);
    if k == 0 {
        assert(rotate_n(s.0, s.1, 0) == (s.0, s.1));
    } else {
        lemma_no_starvation(s.0, s.1, k - 1);
        assert(s.0[k - 1] == ids[k]);
    }
}

/// A voluntary yield with a non-empty queue realizes exactly one
/// `rotate_step` on the queued ids: the link between the executable
/// scheduler and the fairness argument of `lemma_no_starvation`.
pub proof fn lemma_yield_is_rotation(pre: Scheduler, post: Scheduler, f: SwitchFrame)
    requires
        pre.queue().len() > 0,
        post.ready_queue@.len() == pre.queue().len(),
        post.ready_queue@.drop_last() == pre.queue().drop_first(),
        is_paused_record(post.ready_queue@.last(), pre.current, f),
        post.current.id == pre.queue()[0].id,
    ensures
        queue_ids(post) == rotate_step(queue_ids(pre), pre.current.id.0).0,
        post.current.id.0 == rotate_step(queue_ids(pre), pre.current.id.0).1,
{
    let lhs = queue_ids(post);
    let rhs = rotate_step(queue_ids(pre), pre.current.id.0).0;
    assert forall|i: int| 0 <= i < lhs.len() implies lhs[i] == rhs[i] by {
        if i < lhs.len() - 1 {
            assert(post.ready_queue@[i] == post.ready_queue@.drop_last()[i]);
            assert(post.ready_queue@[i] == pre.queue()[i + 1]);
        } else {
            assert(post.ready_queue@[i] == post.ready_queue@.last());
        }
    }
    assert(lhs =~= rhs);
}

/// Mutual exclusivity: the running thread's id appears nowhere else in the
/// scheduler, so at any instant exactly one live thread has
/// `current_thread_id`'s value.
pub proof fn lemma_mutual_exclusion(s: Scheduler)
    requires
        s.wf(),
    ensures
        forall|i: int|
            0 <= i < s.queue().len() ==> (#[trigger] s.queue()[i]).id.0 != s.current.id.0,
        match s.idle_thread {
            Some(t) => t.id.0 != s.current.id.0,
            None => true,
        },
        match s.outgoing {
            Some(t) => t.id.0 != s.current.id.0,
            None => true,
        },
{
    assert forall|i: int| 0 <= i < s.queue().len() implies (#[trigger] s.queue()[i]).id.0
        != s.current.id.0 by {
        if s.queue()[i].id.0 == s.current.id.0 {
            assert(s.id_in_queue(s.current.id.0));
        }
    }
}

/// A paused thread resumes exactly where it stopped: the frame restored on
/// switch-in is the frame that was saved on switch-out, with every
/// register, the flags word, and the resume address unchanged, and the
/// words beneath it untouched.
pub proof fn lemma_resume_restores_saved_context(t: Thread, rec: Thread, f: SwitchFrame)
    requires
        is_paused_record(rec, t, f),
    ensures
        frame_of_words(rec.stack.words@) == f,
        rec.stack.words@.take(rec.stack.words@.len() - SWITCH_FRAME_WORDS) == t.stack.words@,
{
    crate::switch::lemma_frame_round_trip(t.stack.words@, f);
}

/// Stack isolation: two distinct live stack ranges never overlap, and the
/// guard page below each live stack is unmapped.
pub proof fn lemma_stack_isolation(
    s: Scheduler,
    mapper: PageMapper,
    alloc: StackAllocator,
    b1: StackBounds,
    b2: StackBounds,
)
    requires
        system_wf(&s, &mapper, &alloc),
        s.has_live_bounds(b1),
        s.has_live_bounds(b2),
        b1 != b2,
    ensures
        StackBounds::disjoint(b1, b2),
        !mapper.is_mapped(((b1.start - PAGE_SIZE) as u64)),
        region_mapped(&mapper, b1),
{
    lemma_live_bounds_cases(s);
    lemma_disjoint_commutes();
    let q = s.queue();
    if exists|i: int| 0 <= i < q.len() && #[trigger] q[i].bounds == Some(b1) {
        let i = choose|i: int| 0 <= i < q.len() && #[trigger] q[i].bounds == Some(b1);
        if exists|j: int| 0 <= j < q.len() && #[trigger] q[j].bounds == Some(b2) {
            let j = choose|j: int| 0 <= j < q.len() && #[trigger] q[j].bounds == Some(b2);
            assert(i != j);
            assert(disjoint_opt(q[i].bounds, q[j].bounds));
        } else {
            assert(disjoint_opt(q[i].bounds, s.current.bounds) && disjoint_opt(
                q[i].bounds,
                idle_bounds(s.idle_thread),
            ) && disjoint_opt(q[i].bounds, idle_bounds(s.outgoing)));
        }
    } else {
        if exists|j: int| 0 <= j < q.len() && #[trigger] q[j].bounds == Some(b2) {
            let j = choose|j: int| 0 <= j < q.len() && #[trigger] q[j].bounds == Some(b2);
            assert(disjoint_opt(q[j].bounds, s.current.bounds) && disjoint_opt(
                q[j].bounds,
                idle_bounds(s.idle_thread),
            ) && disjoint_opt(q[j].bounds, idle_bounds(s.outgoing)));
        }
    }
}

/// Idle fallback: the idle thread is never placed in the ready queue, and
/// `schedule_next`'s contract guarantees it is the one selected whenever
/// the queue is empty.
pub proof fn lemma_idle_never_queued(s: Scheduler)
    requires
        s.wf(),
        s.idle_thread_id is Some,
    ensures
        forall|i: int|
            0 <= i < s.queue().len() ==> (#[trigger] s.queue()[i]).id.0
                != s.idle_thread_id.unwrap().0,
{
    let id = s.idle_thread_id.unwrap().0;
    assert forall|i: int| 0 <= i < s.queue().len() implies (#[trigger] s.queue()[i]).id.0
        != id by {
        if s.queue()[i].id.0 == id {
            assert(s.id_in_queue(id));
        }
    }
}

/// Termination releases the identity for good: once a thread's id is no
/// longer known to the scheduler — which `exit_thread` guarantees — no
/// schedulable state can select it again, because `schedule_next` only
/// picks the queue head or the parked idle thread.
pub proof fn lemma_departed_id_never_selected(s: Scheduler, id: u64)
    requires
        s.wf(),
        s.schedulable(),
        !s.contains_id(id),
    ensures
        selected_thread(s).id.0 != id,
{
    if s.queue().len() > 0 {
        assert(s.queue()[0].id.0 == selected_thread(s).id.0);
        if s.queue()[0].id.0 == id {
            assert(s.id_in_queue(id));
        }
    }
}

} // verus!
