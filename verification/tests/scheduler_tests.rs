use kernel::memory::{
    init, translate_addr, BootInfoFrameAllocator, MemoryRegion, PageMapper, StackAllocator,
    PAGE_SIZE,
};
use kernel::scheduler::{
    exit_thread, preempt_current, spawn_idle_thread, spawn_thread, yield_now, Scheduler,
    BOOT_THREAD_ID,
};
use kernel::switch::{CpuState, RegisterFile};
use kernel::thread::ThreadId;

const IDLE_ENTRY: u64 = 0x100_0000;
const WORKER_A_ENTRY: u64 = 0x200_0000;
const WORKER_B_ENTRY: u64 = 0x300_0000;

fn boot_system() -> (Scheduler, StackAllocator, PageMapper, BootInfoFrameAllocator, CpuState) {
    let map = vec![MemoryRegion {
        start: 0x10_0000,
        end: 0x10_0000 + 64 * PAGE_SIZE,
        usable: true,
    }];
    let fa = BootInfoFrameAllocator::init(map);
    let mapper = init(0);
    let alloc = StackAllocator::new();
    let sched = Scheduler::new(0x9000);
    let cpu = CpuState { regs: RegisterFile::default(), rflags: 0x202, pc: 0xB007 };
    (sched, alloc, mapper, fa, cpu)
}

#[test]
fn boot_thread_is_current_initially() {
    let (sched, _, _, _, _) = boot_system();
    assert_eq!(sched.current_thread_id(), ThreadId(BOOT_THREAD_ID));
    assert_eq!(sched.ready_queue.len(), 0);
}

#[test]
fn issued_ids_are_monotone_and_fresh() {
    let (mut sched, mut alloc, mut mapper, mut fa, _) = boot_system();
    let idle = spawn_idle_thread(IDLE_ENTRY, 2, &mut sched, &mut alloc, &mut mapper, &mut fa)
        .unwrap();
    let a = spawn_thread(WORKER_A_ENTRY, 2, &mut sched, &mut alloc, &mut mapper, &mut fa).unwrap();
    let b = spawn_thread(WORKER_B_ENTRY, 2, &mut sched, &mut alloc, &mut mapper, &mut fa).unwrap();
    assert_eq!(idle, ThreadId(1));
    assert_eq!(a, ThreadId(2));
    assert_eq!(b, ThreadId(3));
}

#[test]
fn yield_with_no_other_thread_is_a_no_op() {
    let (mut sched, _, _, _, mut cpu) = boot_system();
    let before = (cpu.rflags, cpu.pc);
    yield_now(&mut sched, &mut cpu);
    assert_eq!(sched.current_thread_id(), ThreadId(BOOT_THREAD_ID));
    assert_eq!((cpu.rflags, cpu.pc), before);
}

#[test]
fn round_robin_cycles_through_ready_threads_in_fifo_order() {
    let (mut sched, mut alloc, mut mapper, mut fa, mut cpu) = boot_system();
    let a = spawn_thread(WORKER_A_ENTRY, 2, &mut sched, &mut alloc, &mut mapper, &mut fa).unwrap();
    let b = spawn_thread(WORKER_B_ENTRY, 2, &mut sched, &mut alloc, &mut mapper, &mut fa).unwrap();

    // Boot yields: the first-created worker runs first (FIFO).
    yield_now(&mut sched, &mut cpu);
    assert_eq!(sched.current_thread_id(), a);
    assert_eq!(cpu.pc, WORKER_A_ENTRY);

    // Each further yield moves to the next in queue order.
    yield_now(&mut sched, &mut cpu);
    assert_eq!(sched.current_thread_id(), b);
    yield_now(&mut sched, &mut cpu);
    assert_eq!(sched.current_thread_id(), ThreadId(BOOT_THREAD_ID));
    yield_now(&mut sched, &mut cpu);
    assert_eq!(sched.current_thread_id(), a);
}

#[test]
fn every_ready_thread_runs_within_one_full_cycle() {
    let (mut sched, mut alloc, mut mapper, mut fa, mut cpu) = boot_system();
    let mut spawned = Vec::new();
    for k in 0..4u64 {
        let id = spawn_thread(
            WORKER_A_ENTRY + k * 0x1000,
            2,
            &mut sched,
            &mut alloc,
            &mut mapper,
            &mut fa,
        )
        .unwrap();
        spawned.push(id);
    }
    // Over one full cycle of the queue, every spawned id shows up.
    let mut seen = Vec::new();
    for _ in 0..4 {
        yield_now(&mut sched, &mut cpu);
        seen.push(sched.current_thread_id());
    }
    assert_eq!(seen, spawned);
}

#[test]
fn registers_survive_a_yield_and_resume_round_trip() {
    let (mut sched, mut alloc, mut mapper, mut fa, mut cpu) = boot_system();
    spawn_thread(WORKER_A_ENTRY, 2, &mut sched, &mut alloc, &mut mapper, &mut fa).unwrap();

    // The boot thread plants sentinel values in every register, then yields.
    cpu.regs = RegisterFile {
        rax: 1,
        rbx: 2,
        rcx: 3,
        rdx: 4,
        rsi: 5,
        rdi: 6,
        rbp: 7,
        r8: 8,
        r9: 9,
        r10: 10,
        r11: 11,
        r12: 12,
        r13: 13,
        r14: 14,
        r15: 15,
    };
    cpu.pc = 0xCAFE;
    let saved = cpu.regs;
    let saved_flags = cpu.rflags;
    yield_now(&mut sched, &mut cpu);

    // The worker got a fresh context, not the boot thread's registers.
    assert_eq!(cpu.regs, RegisterFile::default());
    assert_eq!(cpu.pc, WORKER_A_ENTRY);

    // The worker yields back: the boot thread resumes exactly where it
    // stopped with every register and the flags word unchanged.
    yield_now(&mut sched, &mut cpu);
    assert_eq!(sched.current_thread_id(), ThreadId(0));
    assert_eq!(cpu.regs, saved);
    assert_eq!(cpu.pc, 0xCAFE);
    assert_eq!(cpu.rflags, saved_flags);
}

#[test]
fn idle_runs_only_when_queue_is_empty_and_never_queues() {
    let (mut sched, mut alloc, mut mapper, mut fa, mut cpu) = boot_system();
    let idle = spawn_idle_thread(IDLE_ENTRY, 2, &mut sched, &mut alloc, &mut mapper, &mut fa)
        .unwrap();

    // Queue empty: the idle thread is selected as the fallback.
    yield_now(&mut sched, &mut cpu);
    assert_eq!(sched.current_thread_id(), idle);
    // The boot thread was queued; the idle thread never is.
    for t in sched.ready_queue.iter() {
        assert_ne!(t.id, idle);
    }

    // The idle thread yields: the boot thread resumes, and the idle thread
    // went back to its slot, not into the queue.
    yield_now(&mut sched, &mut cpu);
    assert_eq!(sched.current_thread_id(), ThreadId(BOOT_THREAD_ID));
    for t in sched.ready_queue.iter() {
        assert_ne!(t.id, idle);
    }
    assert!(sched.idle_thread.is_some());
}

#[test]
fn preemption_rotates_like_a_yield() {
    let (mut sched, mut alloc, mut mapper, mut fa, mut cpu) = boot_system();
    let a = spawn_thread(WORKER_A_ENTRY, 2, &mut sched, &mut alloc, &mut mapper, &mut fa).unwrap();

    // The timer fires: interrupts are masked in the handler.
    cpu.disable_interrupts();
    preempt_current(&mut sched, &mut cpu);
    assert_eq!(sched.current_thread_id(), a);
    // The handler's return path leaves the incoming thread running with
    // interrupts on.
    assert!(cpu.rflags & 0x200 != 0);
}

#[test]
fn preemption_with_nothing_ready_changes_nothing() {
    let (mut sched, _, _, _, mut cpu) = boot_system();
    cpu.disable_interrupts();
    let flags = cpu.rflags;
    preempt_current(&mut sched, &mut cpu);
    assert_eq!(sched.current_thread_id(), ThreadId(BOOT_THREAD_ID));
    assert_eq!(cpu.rflags, flags);
}

#[test]
fn exit_releases_stack_and_id_is_never_scheduled_again() {
    let (mut sched, mut alloc, mut mapper, mut fa, mut cpu) = boot_system();
    let idle = spawn_idle_thread(IDLE_ENTRY, 2, &mut sched, &mut alloc, &mut mapper, &mut fa)
        .unwrap();
    let a = spawn_thread(WORKER_A_ENTRY, 2, &mut sched, &mut alloc, &mut mapper, &mut fa).unwrap();
    let b = spawn_thread(WORKER_B_ENTRY, 2, &mut sched, &mut alloc, &mut mapper, &mut fa).unwrap();

    // Boot hands over to worker A and is queued behind B.
    yield_now(&mut sched, &mut cpu);
    assert_eq!(sched.current_thread_id(), a);

    // Worker A terminates; B runs next.
    exit_thread(&mut sched, &mut cpu);
    assert_eq!(sched.current_thread_id(), b);

    // The next thread reclaims A's stack region: its pages are unmapped
    // again, guard page still unmapped.
    let bounds = sched.reclaim_pending_stack(&mut mapper).unwrap();
    let mut p = bounds.start();
    while p < bounds.end() {
        assert_eq!(translate_addr(&mapper, p), None);
        p += PAGE_SIZE;
    }
    // The region is free for mapping again: no longer in anyone's way.
    assert_eq!(mapper.map_to(bounds.start(), 0x70_0000), Ok(()));
    assert_eq!(mapper.unmap(bounds.start()), Some(0x70_0000));

    // A's id never shows up again over many scheduling rounds.
    for _ in 0..10 {
        yield_now(&mut sched, &mut cpu);
        assert_ne!(sched.current_thread_id(), a);
    }
    // And a fresh spawn gets a brand-new id, never A's.
    let c = spawn_thread(WORKER_A_ENTRY, 2, &mut sched, &mut alloc, &mut mapper, &mut fa).unwrap();
    assert_ne!(c, a);
    assert_eq!(c, ThreadId(4));
    assert_ne!(c, idle);
}

#[test]
fn reclaim_with_nothing_pending_returns_none() {
    let (mut sched, _, mut mapper, _, _) = boot_system();
    assert_eq!(sched.reclaim_pending_stack(&mut mapper), None);
}

#[test]
fn two_workers_alternate_strictly() {
    let (mut sched, mut alloc, mut mapper, mut fa, mut cpu) = boot_system();
    let idle = spawn_idle_thread(IDLE_ENTRY, 2, &mut sched, &mut alloc, &mut mapper, &mut fa)
        .unwrap();
    let a = spawn_thread(WORKER_A_ENTRY, 2, &mut sched, &mut alloc, &mut mapper, &mut fa).unwrap();
    let b = spawn_thread(WORKER_B_ENTRY, 2, &mut sched, &mut alloc, &mut mapper, &mut fa).unwrap();
    assert_eq!(b.as_u64(), a.as_u64() + 1);

    // The boot thread bows out; from here on only the two workers print.
    exit_thread(&mut sched, &mut cpu);

    // Each round the running worker prints its marker and yields.
    let mut output = String::new();
    for _ in 0..12 {
        let id = sched.current_thread_id();
        assert_ne!(id, idle);
        if id.as_u64() % 2 > 0 {
            output.push('A');
        } else {
            output.push('B');
        }
        yield_now(&mut sched, &mut cpu);
    }

    // A gapless strict alternation: no marker twice in a row.
    assert_eq!(output, "BABABABABABA");
    let chars: Vec<char> = output.chars().collect();
    for w in chars.windows(2) {
        assert_ne!(w[0], w[1]);
    }
}

#[test]
fn exactly_one_thread_is_current_at_any_instant() {
    let (mut sched, mut alloc, mut mapper, mut fa, mut cpu) = boot_system();
    spawn_idle_thread(IDLE_ENTRY, 2, &mut sched, &mut alloc, &mut mapper, &mut fa).unwrap();
    spawn_thread(WORKER_A_ENTRY, 2, &mut sched, &mut alloc, &mut mapper, &mut fa).unwrap();
    spawn_thread(WORKER_B_ENTRY, 2, &mut sched, &mut alloc, &mut mapper, &mut fa).unwrap();

    // At every sampled instant the running id is unique: neither queued
    // nor parked as the idle thread.
    for _ in 0..8 {
        let current = sched.current_thread_id();
        let mut occurrences = 1; // the running thread itself
        for t in sched.ready_queue.iter() {
            if t.id == current {
                occurrences += 1;
            }
        }
        if let Some(t) = &sched.idle_thread {
            if t.id == current {
                occurrences += 1;
            }
        }
        assert_eq!(occurrences, 1);
        yield_now(&mut sched, &mut cpu);
    }
}

#[test]
fn spawn_fails_cleanly_when_frames_run_out() {
    // Room for exactly one two-page stack; the second spawn must fail.
    let map = vec![MemoryRegion { start: 0x10_0000, end: 0x10_0000 + 3 * PAGE_SIZE, usable: true }];
    let mut fa = BootInfoFrameAllocator::init(map);
    let mut mapper = init(0);
    let mut alloc = StackAllocator::new();
    let mut sched = Scheduler::new(0x9000);

    spawn_thread(WORKER_A_ENTRY, 2, &mut sched, &mut alloc, &mut mapper, &mut fa).unwrap();
    let r = spawn_thread(WORKER_B_ENTRY, 2, &mut sched, &mut alloc, &mut mapper, &mut fa);
    assert!(r.is_err());
    // The failed spawn registered nothing.
    assert_eq!(sched.ready_queue.len(), 1);
}

#[test]
fn failed_idle_spawn_leaves_no_idle_thread() {
    let map = vec![MemoryRegion { start: 0x10_0000, end: 0x10_0000 + PAGE_SIZE, usable: true }];
    let mut fa = BootInfoFrameAllocator::init(map);
    let mut mapper = init(0);
    let mut alloc = StackAllocator::new();
    let mut sched = Scheduler::new(0x9000);

    let r = spawn_idle_thread(IDLE_ENTRY, 2, &mut sched, &mut alloc, &mut mapper, &mut fa);
    assert!(r.is_err());
    assert!(sched.idle_thread.is_none());
    assert!(sched.idle_thread_id.is_none());
}
