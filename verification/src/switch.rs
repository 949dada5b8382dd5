//! The context-switch protocol's data: the processor state a thread owns
//! while running, and the fixed-layout frame that state is saved into on the
//! thread's own stack when it stops running.
//!
//! The machine-code routine that performs the save and restore lives outside
//! this crate; here its effect on stack words is pinned down exactly, so the
//! scheduler's round-trip guarantees can be proved.

use vstd::prelude::*;

verus! {

/// Number of 64-bit words in one saved frame: resume address, fifteen
/// general-purpose registers, and the flags word.
pub const SWITCH_FRAME_WORDS: usize = 17;

/// The interrupt-enable bit of the flags register.
pub const RFLAGS_INTERRUPT_FLAG: u64 = 0x200;

/// Flags value written into a brand-new thread's initial frame: everything
/// clear except the interrupt-enable bit.
pub const RFLAGS_DEFAULT: u64 = 0x200;

/// The general-purpose register set saved and restored by a context switch.
#[derive(Clone, Copy, Debug, PartialEq, Eq, Structural)]
pub struct RegisterFile {
    pub rax: u64,
    pub rbx: u64,
    pub rcx: u64,
    pub rdx: u64,
    pub rsi: u64,
    pub rdi: u64,
    pub rbp: u64,
    pub r8: u64,
    pub r9: u64,
    pub r10: u64,
    pub r11: u64,
    pub r12: u64,
    pub r13: u64,
    pub r14: u64,
    pub r15: u64,
}

/// The all-zero register set new threads start from.
pub open spec fn regs_zeroed() -> RegisterFile {
    RegisterFile {
        rax: 0,
        rbx: 0,
        rcx: 0,
        rdx: 0,
        rsi: 0,
        rdi: 0,
        rbp: 0,
        r8: 0,
        r9: 0,
        r10: 0,
        r11: 0,
        r12: 0,
        r13: 0,
        r14: 0,
        r15: 0,
    }
}

impl Default for RegisterFile {
    /// The all-zero register set.
    fn default() -> (r: Self)
        ensures
            r == regs_zeroed(),
    {
        RegisterFile {
            rax: 0,
            rbx: 0,
            rcx: 0,
            rdx: 0,
            rsi: 0,
            rdi: 0,
            rbp: 0,
            r8: 0,
            r9: 0,
            r10: 0,
            r11: 0,
            r12: 0,
            r13: 0,
            r14: 0,
            r15: 0,
        }
    }
}

/// One saved execution context: where to resume, with which registers, and
/// with which flags. This is exactly what a context switch writes onto the
/// outgoing thread's stack and reads off the incoming thread's stack.
#[derive(Clone, Copy, Debug, PartialEq, Eq, Structural)]
pub struct SwitchFrame {
    pub resume: u64,
    pub regs: RegisterFile,
    pub rflags: u64,
}

/// The frame a brand-new thread starts from: control goes to `entry_point`
/// with zeroed registers and default flags, so the first switch into the
/// thread lands in its entry function.
pub open spec fn initial_frame(entry_point: u64) -> SwitchFrame {
    SwitchFrame { resume: entry_point, regs: regs_zeroed(), rflags: RFLAGS_DEFAULT }
}

/// The exact word layout of a saved frame, in push order: the resume address
/// deepest, the flags word on top.
pub open spec fn frame_as_words(f: SwitchFrame) -> Seq<u64> {
    seq![
        f.resume,
        f.regs.rax,
        f.regs.rbx,
        f.regs.rcx,
        f.regs.rdx,
        f.regs.rsi,
        f.regs.rdi,
        f.regs.rbp,
        f.regs.r8,
        f.regs.r9,
        f.regs.r10,
        f.regs.r11,
        f.regs.r12,
        f.regs.r13,
        f.regs.r14,
        f.regs.r15,
        f.rflags,
    ]
}

/// The frame sitting on top of a stack whose used words are `w` (the last 17
/// words, decoded in the layout of `frame_as_words`).
pub open spec fn frame_of_words(w: Seq<u64>) -> SwitchFrame
    recommends
        w.len() >= SWITCH_FRAME_WORDS,
{
    SwitchFrame {
        resume: w[w.len() - 17],
        regs: RegisterFile {
            rax: w[w.len() - 16],
            rbx: w[w.len() - 15],
            rcx: w[w.len() - 14],
            rdx: w[w.len() - 13],
            rsi: w[w.len() - 12],
            rdi: w[w.len() - 11],
            rbp: w[w.len() - 10],
            r8: w[w.len() - 9],
            r9: w[w.len() - 8],
            r10: w[w.len() - 7],
            r11: w[w.len() - 6],
            r12: w[w.len() - 5],
            r13: w[w.len() - 4],
            r14: w[w.len() - 3],
            r15: w[w.len() - 2],
        },
        rflags: w[w.len() - 1],
    }
}

/// Round trip of the context-switch protocol: a frame pushed onto any stack
/// decodes back to itself, and the words beneath it are untouched. A thread
/// that is paused and later resumed therefore continues at the instruction
/// recorded at the pause, with every general-purpose register and the flags
/// word unchanged.
pub proof fn lemma_frame_round_trip(prefix: Seq<u64>, f: SwitchFrame)
    ensures
        frame_of_words(prefix + frame_as_words(f)) == f,
        (prefix + frame_as_words(f)).len() == prefix.len() + SWITCH_FRAME_WORDS,
        (prefix + frame_as_words(f)).take(prefix.len() as int) == prefix,
{
    assert((prefix + frame_as_words(f)).take(prefix.len() as int) =~= prefix);
}

/// The frame that saving the given processor state produces.
pub open spec fn saved_frame(c: CpuState) -> SwitchFrame {
    SwitchFrame { resume: c.pc, regs: c.regs, rflags: c.rflags }
}

/// The processor state the running thread owns: its registers, flags, and
/// the address it is executing at.
#[derive(Clone, Copy, Debug, PartialEq, Eq, Structural)]
pub struct CpuState {
    pub regs: RegisterFile,
    pub rflags: u64,
    pub pc: u64,
}

impl CpuState {
    /// Whether the processor currently takes maskable interrupts.
    pub open spec fn interrupts_enabled(&self) -> bool {
        self.rflags & RFLAGS_INTERRUPT_FLAG != 0
    }

    /// Clear the interrupt-enable flag (the `cli` instruction).
    pub fn disable_interrupts(&mut self)
        ensures
            final(self).regs == old(self).regs,
            final(self).pc == old(self).pc,
            final(self).rflags == old(self).rflags & 0xFFFF_FFFF_FFFF_FDFF,
            !final(self).interrupts_enabled(),
    {
        self.rflags = self.rflags & 0xFFFF_FFFF_FFFF_FDFF;
        proof {
            let r = self.rflags;
            assert(forall|x: u64| #[trigger] ((x & 0xFFFF_FFFF_FFFF_FDFF) & 0x200) == 0)
                by (bit_vector);
            assert((r & 0x200) == ((old(self).rflags & 0xFFFF_FFFF_FFFF_FDFF) & 0x200));
        }
    }

    /// Set the interrupt-enable flag (the `sti` instruction).
    pub fn enable_interrupts(&mut self)
        ensures
            final(self).regs == old(self).regs,
            final(self).pc == old(self).pc,
            final(self).rflags == old(self).rflags | RFLAGS_INTERRUPT_FLAG,
            final(self).interrupts_enabled(),
    {
        self.rflags = self.rflags | RFLAGS_INTERRUPT_FLAG;
        proof {
            assert(forall|x: u64| #[trigger] ((x | 0x200u64) & 0x200) == 0x200) by (bit_vector);
        }
    }

    /// Capture the state to be saved when this thread stops running.
    pub fn to_frame(&self) -> (f: SwitchFrame)
        ensures
            f == (SwitchFrame { resume: self.pc, regs: self.regs, rflags: self.rflags }),
    {
        SwitchFrame { resume: self.pc, regs: self.regs, rflags: self.rflags }
    }

    /// Install a restored frame: execution continues at its resume address
    /// with its registers and flags.
    pub fn load_frame(&mut self, f: SwitchFrame)
        ensures
            final(self).regs == f.regs,
            final(self).rflags == f.rflags,
            final(self).pc == f.resume,
    {
        self.regs = f.regs;
        self.rflags = f.rflags;
        self.pc = f.resume;
    }
}

} // verus!
