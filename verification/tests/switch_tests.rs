use kernel::memory::StackBounds;
use kernel::stack::Stack;
use kernel::switch::{CpuState, RegisterFile, SwitchFrame, RFLAGS_DEFAULT, SWITCH_FRAME_WORDS};

fn sentinel_registers() -> RegisterFile {
    RegisterFile {
        rax: 0xA1,
        rbx: 0xB2,
        rcx: 0xC3,
        rdx: 0xD4,
        rsi: 0xE5,
        rdi: 0xF6,
        rbp: 0x17,
        r8: 0x28,
        r9: 0x39,
        r10: 0x4A,
        r11: 0x5B,
        r12: 0x6C,
        r13: 0x7D,
        r14: 0x8E,
        r15: 0x9F,
    }
}

fn fresh_stack() -> Stack {
    let bounds = demo_bounds();
    Stack::new(bounds)
}

fn demo_bounds() -> StackBounds {
    // A two-page stack somewhere in the stack area.
    let mut fa = kernel::memory::BootInfoFrameAllocator::init(vec![kernel::memory::MemoryRegion {
        start: 0x10_0000,
        end: 0x10_0000 + 8 * kernel::memory::PAGE_SIZE,
        usable: true,
    }]);
    let mut mapper = kernel::memory::init(0);
    let mut alloc = kernel::memory::StackAllocator::new();
    kernel::memory::alloc_stack(2, &mut alloc, &mut mapper, &mut fa).unwrap()
}

#[test]
fn frame_round_trip_preserves_every_register() {
    let mut stack = fresh_stack();
    let frame = SwitchFrame { resume: 0x4242, regs: sentinel_registers(), rflags: 0x246 };
    stack.push_frame(frame);
    let restored = stack.pop_frame();
    assert_eq!(restored, frame);
    assert_eq!(stack.words.len(), 0);
}

#[test]
fn frames_nest_without_disturbing_deeper_words() {
    let mut stack = fresh_stack();
    let deep = SwitchFrame { resume: 0x1111, regs: sentinel_registers(), rflags: 0x2 };
    let shallow = SwitchFrame { resume: 0x2222, regs: RegisterFile::default(), rflags: 0x202 };
    stack.push_frame(deep);
    stack.push_frame(shallow);
    assert_eq!(stack.pop_frame(), shallow);
    assert_eq!(stack.pop_frame(), deep);
}

#[test]
fn initial_frame_enters_entry_point_with_default_flags() {
    let mut stack = fresh_stack();
    let top = stack.get_stack_pointer();
    stack.set_up_for_entry_point(0xBEEF_0000);
    assert_eq!(stack.words.len(), SWITCH_FRAME_WORDS);
    assert_eq!(stack.get_stack_pointer(), top - 8 * SWITCH_FRAME_WORDS as u64);
    let f = stack.pop_frame();
    assert_eq!(f.resume, 0xBEEF_0000);
    assert_eq!(f.rflags, RFLAGS_DEFAULT);
    assert_eq!(f.regs, RegisterFile::default());
}

#[test]
fn interrupt_flag_toggles() {
    let mut cpu = CpuState { regs: RegisterFile::default(), rflags: 0x202, pc: 0x1000 };
    cpu.disable_interrupts();
    assert_eq!(cpu.rflags, 0x002);
    cpu.enable_interrupts();
    assert_eq!(cpu.rflags, 0x202);
}

#[test]
fn cpu_state_round_trips_through_frame() {
    let cpu = CpuState { regs: sentinel_registers(), rflags: 0x297, pc: 0x7777 };
    let f = cpu.to_frame();
    let mut other = CpuState { regs: RegisterFile::default(), rflags: 0, pc: 0 };
    other.load_frame(f);
    assert_eq!(other.regs, cpu.regs);
    assert_eq!(other.rflags, cpu.rflags);
    assert_eq!(other.pc, cpu.pc);
}
