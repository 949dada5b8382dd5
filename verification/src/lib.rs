//! Concurrency core of a cooperative, timer-preempted kernel scheduler.
//!
//! The crate models the pieces that surround a round-robin thread scheduler:
//! stack allocation with guard pages, the saved-context frame layout used by
//! the context-switch protocol, the scheduler's ready queue and idle-thread
//! policy, and the interrupt-routing and timer computations that drive
//! preemption. Hardware access (port I/O, memory-mapped registers, the
//! context-switch machine code) lives outside this crate; everything here
//! works on plain values and is verified.

pub mod memory;
pub mod switch;
pub mod stack;
pub mod thread;
pub mod scheduler;
pub mod interrupts;
pub mod apic;
pub mod ioapic;
pub mod hpet;
