//! Interrupt-vector assignments and the firmware-override resolution that
//! decides which global system interrupt each legacy IRQ is routed on.
//!
//! The vector numbers are a fixed contract between the interrupt descriptor
//! table and the IO-APIC programming: both sides must use the same numbers.

use vstd::prelude::*;

verus! {

/// Vector base of the first legacy interrupt controller's range.
pub const PIC_1_OFFSET: u8 = 32;

/// Vector base of the second legacy interrupt controller's range.
pub const PIC_2_OFFSET: u8 = PIC_1_OFFSET + 8;

/// Vector base all legacy IRQs are offset by.
pub const PIC_OFFSET: u8 = 32;

/// The fixed interrupt vectors, one per handled interrupt source.
#[allow(non_camel_case_types)]
#[derive(Clone, Copy, Debug, PartialEq, Eq, Structural)]
pub enum InterruptIndex {
    Timer,
    Keyboard,
    HPET_Timer,
    Spurious,
    RTC,
    ACPI,
    PrimaryATA,
    SecondaryATA,
}

/// The vector number each interrupt source is wired to.
pub open spec fn vector_of(idx: InterruptIndex) -> u8 {
    match idx {
        InterruptIndex::Timer => PIC_OFFSET,
        InterruptIndex::Keyboard => (PIC_OFFSET + 1) as u8,
        InterruptIndex::HPET_Timer => (PIC_OFFSET + 2) as u8,
        InterruptIndex::Spurious => (PIC_OFFSET + 7) as u8,
        InterruptIndex::RTC => (PIC_OFFSET + 8) as u8,
        InterruptIndex::ACPI => (PIC_OFFSET + 9) as u8,
        InterruptIndex::PrimaryATA => (PIC_OFFSET + 14) as u8,
        InterruptIndex::SecondaryATA => (PIC_OFFSET + 15) as u8,
    }
}

impl InterruptIndex {
    /// The vector number as programmed into the IO-APIC redirection entry.
    pub fn as_u8(self) -> (r: u8)
        ensures
            r == vector_of(self),
    {
        match self {
            InterruptIndex::Timer => PIC_OFFSET,
            InterruptIndex::Keyboard => PIC_OFFSET + 1,
            InterruptIndex::HPET_Timer => PIC_OFFSET + 2,
            InterruptIndex::Spurious => PIC_OFFSET + 7,
            InterruptIndex::RTC => PIC_OFFSET + 8,
            InterruptIndex::ACPI => PIC_OFFSET + 9,
            InterruptIndex::PrimaryATA => PIC_OFFSET + 14,
            InterruptIndex::SecondaryATA => PIC_OFFSET + 15,
        }
    }

    /// The vector number as used to index the interrupt descriptor table.
    pub fn as_usize(self) -> (r: usize)
        ensures
            r == vector_of(self),
    {
        self.as_u8() as usize
    }
}

/// One firmware-reported interrupt source override: the legacy ISA IRQ is
/// actually delivered on the given global system interrupt.
#[derive(Clone, Copy, Debug, PartialEq, Eq, Structural)]
pub struct InterruptSourceOverride {
    pub isa_source: u8,
    pub global_system_interrupt: u32,
}

/// One routing decision: program this global system interrupt to deliver
/// the given vector to the given destination processor.
#[derive(Clone, Copy, Debug, PartialEq, Eq, Structural)]
pub struct IrqAssignment {
    pub irq: u32,
    pub vector: u8,
    pub destination: u32,
}

/// The global system interrupt a legacy IRQ resolves to: the last matching
/// firmware override wins, and without one the identity mapping is assumed.
pub open spec fn resolved_irq(
    isos: Seq<InterruptSourceOverride>,
    isa: u8,
    default_irq: u32,
) -> u32
    decreases isos.len(),
{
    if isos.len() == 0 {
        default_irq
    } else if isos.last().isa_source == isa {
        isos.last().global_system_interrupt
    } else {
        resolved_irq(isos.drop_last(), isa, default_irq)
    }
}

/// Decide the IO-APIC routing for the four legacy interrupt sources the
/// kernel uses (timer, keyboard, spurious, real-time clock), applying the
/// firmware's interrupt source overrides in place of the default
/// IRQ-to-vector assumption. The caller programs each returned assignment
/// into the IO-APIC whose range covers it.
pub fn initialize_apic(id: u8, isos: &Vec<InterruptSourceOverride>) -> (r: Vec<IrqAssignment>)
    ensures
        r@.len() == 4,
        r@[0] == (IrqAssignment {
            irq: resolved_irq(isos@, 0, 0),
            vector: vector_of(InterruptIndex::Timer),
            destination: id as u32,
        }),
        r@[1] == (IrqAssignment {
            irq: resolved_irq(isos@, 1, 1),
            vector: vector_of(InterruptIndex::Keyboard),
            destination: id as u32,
        }),
        r@[2] == (IrqAssignment {
            irq: resolved_irq(isos@, 7, 7),
            vector: vector_of(InterruptIndex::Spurious),
            destination: id as u32,
        }),
        r@[3] == (IrqAssignment {
            irq: resolved_irq(isos@, 8, 8),
            vector: vector_of(InterruptIndex::RTC),
            destination: id as u32,
        }),
{
    let mut timer_irq: u32 = 0;
    let mut keyboard_irq: u32 = 1;
    let mut spurious_irq: u32 = 7;
    let mut rtc_irq: u32 = 8;

    let n = isos.len();
    let mut i: usize = 0;
    while i < n
        invariant
            n == isos@.len(),
            0 <= i <= n,
            timer_irq == resolved_irq(isos@.take(i as int), 0, 0),
            keyboard_irq == resolved_irq(isos@.take(i as int), 1, 1),
            spurious_irq == resolved_irq(isos@.take(i as int), 7, 7),
            rtc_irq == resolved_irq(isos@.take(i as int), 8, 8),
        decreases n - i,
    {
        let iso = isos[i];
        proof {
            assert(isos@.take(i + 1).last() == isos@[i as int]);
            assert(isos@.take(i + 1).drop_last() =~= isos@.take(i as int));
        }
        match iso.isa_source {
            0 => {
                timer_irq = iso.global_system_interrupt;
            },
            1 => {
                keyboard_irq = iso.global_system_interrupt;
            },
            7 => {
                spurious_irq = iso.global_system_interrupt;
            },
            8 => {
                rtc_irq = iso.global_system_interrupt;
            },
            _ => {},
        }
        i = i + 1;
    }
    proof {
        assert(isos@.take(n as int) =~= isos@);
    }
    let destination = id as u32;
    let mut r: Vec<IrqAssignment> = Vec::new();
    r.push(IrqAssignment { irq: timer_irq, vector: InterruptIndex::Timer.as_u8(), destination });
    r.push(
        IrqAssignment { irq: keyboard_irq, vector: InterruptIndex::Keyboard.as_u8(), destination },
    );
    r.push(
        IrqAssignment { irq: spurious_irq, vector: InterruptIndex::Spurious.as_u8(), destination },
    );
    r.push(IrqAssignment { irq: rtc_irq, vector: InterruptIndex::RTC.as_u8(), destination });
    r
}

/// The real-time clock's interrupt frequency in ticks per second for a
/// given rate divider, as programmed when the RTC interrupt is enabled.
/// Rates outside the hardware's accepted band are rejected outright.
pub fn rtc_rate_frequency(rate: u8) -> (freq: u16)
    requires
        3 <= rate <= 15,
    ensures
        freq == 32768u16 >> ((rate - 1) as u16),
{
    32768u16 >> ((rate - 1) as u16)
}

} // verus!
