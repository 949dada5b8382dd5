//! Model of one thread's stack region: the words currently in use between
//! the saved stack pointer and the top of the region.
//!
//! The region grows downward. `words` lists the used 64-bit words from the
//! deepest (just below `top`) to the most recently pushed, so the stack
//! pointer is `top - 8 * words.len()` and may never sink below `limit`.

use vstd::prelude::*;
use crate::memory::StackBounds;
use crate::switch::{SwitchFrame, frame_as_words, frame_of_words, initial_frame};
use crate::switch::SWITCH_FRAME_WORDS;

verus! {

/// One thread's stack region and its current contents.
pub struct Stack {
    pub top: u64,
    pub limit: u64,
    pub words: Vec<u64>,
}

impl Stack {
    pub open spec fn wf(&self) -> bool {
        &&& self.top % 8 == 0
        &&& self.limit <= self.top
        &&& self.limit + 8 * self.words@.len() <= self.top
    }

    /// The current stack pointer: `top` minus the used words.
    pub open spec fn spec_sp(&self) -> int {
        self.top - 8 * self.words@.len()
    }

    /// Room for `n` more words before the pointer would sink below `limit`.
    pub open spec fn headroom(&self, n: int) -> bool {
        self.limit + 8 * (self.words@.len() + n) <= self.top
    }

    /// An empty stack occupying the mapped range `bounds`.
    pub fn new(bounds: StackBounds) -> (r: Self)
        requires
            bounds.wf(),
        ensures
            r.top == bounds.end,
            r.limit == bounds.start,
            r.words@.len() == 0,
            r.wf(),
    {
        proof {
            assert(bounds.end % 8 == 0) by (nonlinear_arith)
                requires
                    bounds.end % 4096 == 0,
            ;
        }
        Stack { top: bounds.end(), limit: bounds.start(), words: Vec::new() }
    }

    /// The current stack pointer as an address.
    pub fn get_stack_pointer(&self) -> (r: u64)
        requires
            self.wf(),
        ensures
            r == self.spec_sp(),
    {
        self.top - 8 * (self.words.len() as u64)
    }

    /// Push one word, moving the pointer down.
    pub fn push_word(&mut self, value: u64)
        requires
            old(self).wf(),
            old(self).headroom(1),
        ensures
            final(self).wf(),
            final(self).top == old(self).top,
            final(self).limit == old(self).limit,
            final(self).words@ == old(self).words@.push(value),
    {
        self.words.push(value);
    }

    /// Pop one word, moving the pointer up.
    pub fn pop_word(&mut self) -> (r: u64)
        requires
            old(self).wf(),
            old(self).words@.len() > 0,
        ensures
            final(self).wf(),
            final(self).top == old(self).top,
            final(self).limit == old(self).limit,
            r == old(self).words@.last(),
            final(self).words@ == old(self).words@.drop_last(),
    {
        let r = self.words.pop().unwrap();
        proof {
            assert(final(self).words@ =~= old(self).words@.drop_last());
        }
        r
    }

    /// Save a full context frame onto this stack, exactly as the switch
    /// routine lays it out.
    pub fn push_frame(&mut self, f: SwitchFrame)
        requires
            old(self).wf(),
            old(self).headroom(SWITCH_FRAME_WORDS as int),
        ensures
            final(self).wf(),
            final(self).top == old(self).top,
            final(self).limit == old(self).limit,
            final(self).words@ == old(self).words@ + frame_as_words(f),
            final(self).spec_sp() == old(self).spec_sp() - 8 * SWITCH_FRAME_WORDS,
    {
        self.push_word(f.resume);
        self.push_word(f.regs.rax);
        self.push_word(f.regs.rbx);
        self.push_word(f.regs.rcx);
        self.push_word(f.regs.rdx);
        self.push_word(f.regs.rsi);
        self.push_word(f.regs.rdi);
        self.push_word(f.regs.rbp);
        self.push_word(f.regs.r8);
        self.push_word(f.regs.r9);
        self.push_word(f.regs.r10);
        self.push_word(f.regs.r11);
        self.push_word(f.regs.r12);
        self.push_word(f.regs.r13);
        self.push_word(f.regs.r14);
        self.push_word(f.regs.r15);
        self.push_word(f.rflags);
        proof {
            assert(final(self).words@ =~= old(self).words@ + frame_as_words(f));
        }
    }

    /// Restore the context frame on top of this stack, consuming its words.
    pub fn pop_frame(&mut self) -> (f: SwitchFrame)
        requires
            old(self).wf(),
            old(self).words@.len() >= SWITCH_FRAME_WORDS,
        ensures
            final(self).wf(),
            final(self).top == old(self).top,
            final(self).limit == old(self).limit,
            f == frame_of_words(old(self).words@),
            final(self).words@ == old(self).words@.take(
                old(self).words@.len() - SWITCH_FRAME_WORDS,
            ),
            final(self).spec_sp() == old(self).spec_sp() + 8 * SWITCH_FRAME_WORDS,
    {
        let rflags = self.pop_word();
        let r15 = self.pop_word();
        let r14 = self.pop_word();
        let r13 = self.pop_word();
        let r12 = self.pop_word();
        let r11 = self.pop_word();
        let r10 = self.pop_word();
        let r9 = self.pop_word();
        let r8 = self.pop_word();
        let rbp = self.pop_word();
        let rdi = self.pop_word();
        let rsi = self.pop_word();
        let rdx = self.pop_word();
        let rcx = self.pop_word();
        let rbx = self.pop_word();
        let rax = self.pop_word();
        let resume = self.pop_word();
        proof {
            assert(final(self).words@ =~= old(self).words@.take(
                old(self).words@.len() - SWITCH_FRAME_WORDS,
            ));
        }
        SwitchFrame {
            resume,
            regs: crate::switch::RegisterFile {
                rax,
                rbx,
                rcx,
                rdx,
                rsi,
                rdi,
                rbp,
                r8,
                r9,
                r10,
                r11,
                r12,
                r13,
                r14,
                r15,
            },
            rflags,
        }
    }

    /// Write the fixed initial frame for a never-run thread: the first
    /// switch into this stack transfers control to `entry_point` with zeroed
    /// registers and default flags.
    pub fn set_up_for_entry_point(&mut self, entry_point: u64)
        requires
            old(self).wf(),
            old(self).headroom(SWITCH_FRAME_WORDS as int),
        ensures
            final(self).wf(),
            final(self).top == old(self).top,
            final(self).limit == old(self).limit,
            final(self).words@ == old(self).words@ + frame_as_words(initial_frame(entry_point)),
    {
        let regs = crate::switch::RegisterFile::default();
        let f = SwitchFrame { resume: entry_point, regs, rflags: crate::switch::RFLAGS_DEFAULT };
        proof {
            assert(f == initial_frame(entry_point));
        }
        self.push_frame(f);
    }
}

} // verus!
