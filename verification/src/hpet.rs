//! High-precision-event-timer model: capability decoding, the derived
//! frequency, and the register values that arm the periodic timer driving
//! preemption.
//!
//! The memory-mapped reads and writes happen outside this crate; the model
//! pins down which 64-bit words the initialization leaves in the timer's
//! registers and which interrupt line it picks.

use vstd::prelude::*;
use crate::interrupts::{InterruptIndex, IrqAssignment, vector_of};

verus! {

/// Default physical base address of the timer's register block.
pub const HPET_DEFAULT_BASE_ADDR: u64 = 0xFED0_0000;

/// Byte offset of the general-capabilities register.
pub const HPET_REG_GEN_CAP_ID: u64 = 0x000;

/// Byte offset of the general-configuration register.
pub const HPET_REG_GEN_CONFIG: u64 = 0x010;

/// Byte offset of the general-interrupt-status register.
pub const HPET_REG_GEN_INT_ST: u64 = 0x020;

/// Byte offset of the main counter.
pub const HPET_REG_MAIN_CNT_V: u64 = 0x0F0;

/// Byte offset of channel 0's configuration-and-capability register; each
/// further channel is another 0x20 bytes up.
pub const HPET_REG_TMR_CONCAP: u64 = 0x100;

/// Byte offset of channel 0's comparator register, strided like the
/// configuration register.
pub const HPET_REG_TMR_COMP_V: u64 = 0x108;

/// Number of 64-bit registers in the modelled register block.
pub const HPET_REG_COUNT: usize = 256;

/// Femtoseconds per second: the unit the hardware reports its period in.
pub const FEMTOSECONDS_PER_SECOND: u64 = 1_000_000_000_000_000;

/// Preemption interrupts per second the scheduler asks for.
pub const SCHEDULER_IRQ_FREQUENCY: u64 = 256;

/// What the capability register says about the timer, kept because it is
/// needed again whenever a channel is armed.
#[allow(non_camel_case_types)]
pub struct HPET_Information {
    pub supports_64_bit: bool,
    pub counters: u8,
    pub supports_legacy_mapping: bool,
    pub vendor_id: u16,
    pub freq: u64,
    pub period: u32,
}

impl Default for HPET_Information {
    /// Information of no timer at all: every capability absent.
    fn default() -> (r: Self)
        ensures
            r.supports_64_bit == false,
            r.counters == 0,
            r.supports_legacy_mapping == false,
            r.vendor_id == 0,
            r.freq == 0,
            r.period == 0,
    {
        HPET_Information {
            supports_64_bit: false,
            counters: 0,
            supports_legacy_mapping: false,
            vendor_id: 0,
            freq: 0,
            period: 0,
        }
    }
}

/// Model of the timer's register block: 64-bit registers at 8-byte strides
/// from the base address.
pub struct HpetRegisters {
    pub regs: Vec<u64>,
}

impl HpetRegisters {
    pub open spec fn wf(&self) -> bool {
        self.regs@.len() == HPET_REG_COUNT
    }

    /// The register at byte offset `offset` from the timer's base.
    pub open spec fn reg(&self, offset: u64) -> u64 {
        self.regs@[offset as int / 8]
    }

    /// Read the 64-bit register at the given byte offset.
    pub fn hpet_read_64(&self, offset: u64) -> (r: u64)
        requires
            self.wf(),
            offset % 8 == 0,
            offset < 0x800,
        ensures
            r == self.reg(offset),
    {
        self.regs[(offset / 8) as usize]
    }

    /// Write the 64-bit register at the given byte offset.
    pub fn hpet_write_64(&mut self, offset: u64, val: u64)
        requires
            old(self).wf(),
            offset % 8 == 0,
            offset < 0x800,
        ensures
            final(self).wf(),
            final(self).reg(offset) == val,
            forall|o: u64|
                o % 8 == 0 && o < 0x800 && o != offset ==> #[trigger] final(self).reg(o) == old(
                    self,
                ).reg(o),
    {
        self.regs.set((offset / 8) as usize, val);
        proof {
            assert forall|o: u64|
                o % 8 == 0 && o < 0x800 && o != offset implies #[trigger] self.reg(o) == old(
            self).reg(o) by {
                assert(o as int / 8 != offset as int / 8);
            }
        }
    }

    /// Read the low 32 bits of the 64-bit register at the given byte
    /// offset, as a 32-bit bus access at that address would.
    pub fn hpet_read_32(&self, offset: u64) -> (r: u32)
        requires
            self.wf(),
            offset % 8 == 0,
            offset < 0x800,
        ensures
            r == (self.reg(offset) & 0xFFFF_FFFF) as u32,
    {
        (self.hpet_read_64(offset) & 0xFFFF_FFFF) as u32
    }

    /// The counter period in femtoseconds: the top half of the capability
    /// register.
    pub fn hpet_read_period(&self) -> (r: u32)
        requires
            self.wf(),
        ensures
            r == (self.reg(HPET_REG_GEN_CAP_ID) >> 32) as u32,
    {
        (self.hpet_read_64(HPET_REG_GEN_CAP_ID) >> 32) as u32
    }

    /// The mask of interrupt lines channel `channel` may be routed on: the
    /// top half of the channel's configuration register.
    pub fn hpet_read_irq(&self, channel: u8) -> (r: u32)
        requires
            self.wf(),
            channel < 32,
        ensures
            r == (self.reg(((HPET_REG_TMR_CONCAP + 0x20 * (channel as u64)) as u64)) >> 32) as u32,
    {
        (self.hpet_read_64(HPET_REG_TMR_CONCAP + 0x20 * (channel as u64)) >> 32) as u32
    }
}

/// The lowest set bit's position in the mask, scanning upward from `i`;
/// zero when no bit at or above `i` is set.
pub open spec fn lowest_allowed_irq_from(mask: u32, i: u32) -> u32
    decreases 32 - i,
{
    if i >= 32 {
        0
    } else if mask & (1u32 << i) != 0 {
        i
    } else {
        lowest_allowed_irq_from(mask, (i + 1) as u32)
    }
}

/// Arm channel `channel` as a periodic timer firing every `timer` counter
/// ticks: pick the lowest interrupt line the channel advertises (plus the
/// fixed offset the platform's IO-APIC numbering calls for), enable the
/// channel in periodic mode on that line, and load the comparator. The
/// returned assignment tells the caller which interrupt line to route to
/// `idt_index`'s vector. A channel that cannot run in periodic mode leaves
/// the scheduler without a preemption source, so that case is excluded.
pub fn hpet_set_period_timer(
    hpet: &mut HpetRegisters,
    channel: u8,
    timer: u64,
    idt_index: InterruptIndex,
) -> (r: IrqAssignment)
    requires
        old(hpet).wf(),
        channel < 32,
        old(hpet).reg(((HPET_REG_TMR_CONCAP + 0x20 * (channel as u64)) as u64)) & (1u64 << 4) != 0,
    ensures
        final(hpet).wf(),
        r.irq == lowest_allowed_irq_from(
            ((old(hpet).reg(((HPET_REG_TMR_CONCAP + 0x20 * (channel as u64)) as u64)) >> 32) as u32),
            0,
        ) + 9,
        r.vector == vector_of(idt_index),
        r.destination == 0,
        final(hpet).reg(((HPET_REG_TMR_CONCAP + 0x20 * (channel as u64)) as u64)) == ((r.irq as u64) << 9) | (
        1u64 << 2) | (1u64 << 3) | (1u64 << 6),
        final(hpet).reg(((HPET_REG_TMR_COMP_V + 0x20 * (channel as u64)) as u64)) == timer,
        forall|o: u64|
            o % 8 == 0 && o < 0x800 && o != ((HPET_REG_TMR_CONCAP + 0x20 * (channel as u64)) as u64) && o
                != ((HPET_REG_TMR_COMP_V + 0x20 * (channel as u64)) as u64) ==> #[trigger] final(hpet).reg(o)
                == old(hpet).reg(o),
{
    let channel_offset: u64 = 0x20 * (channel as u64);
    let ioapic_irq_allowed = hpet.hpet_read_irq(channel);
    let mut ioapic_irq: u32 = 0;
    let mut i: u32 = 0;
    let mut found = false;
    while i < 32 && !found
        invariant
            0 <= i <= 32,
            ioapic_irq <= 31,
            !found ==> ioapic_irq == 0 && lowest_allowed_irq_from(ioapic_irq_allowed, 0)
                == lowest_allowed_irq_from(ioapic_irq_allowed, i),
            found ==> ioapic_irq == lowest_allowed_irq_from(ioapic_irq_allowed, 0),
        decreases 32 - i,
    {
        if ioapic_irq_allowed & (1u32 << i) != 0 {
            ioapic_irq = i;
            found = true;
        }
        i = i + 1;
    }
    proof {
        if !found {
            assert(i == 32);
            assert(lowest_allowed_irq_from(ioapic_irq_allowed, 32) == 0);
        }
    }

    // The platform routes the timer's lines at an offset in the IO-APIC's
    // input numbering.
    ioapic_irq = ioapic_irq + 9;

    let main_count = hpet.hpet_read_64(HPET_REG_MAIN_CNT_V);
    hpet.hpet_write_64(
        HPET_REG_TMR_CONCAP + channel_offset,
        ((ioapic_irq as u64) << 9) | (1u64 << 2) | (1u64 << 3) | (1u64 << 6),
    );
    hpet.hpet_write_64(HPET_REG_TMR_COMP_V + channel_offset, main_count.wrapping_add(timer));
    hpet.hpet_write_64(HPET_REG_TMR_COMP_V + channel_offset, timer);

    IrqAssignment { irq: ioapic_irq, vector: idt_index.as_u8(), destination: 0 }
}

/// Decode the timer's capabilities, stop and reset it, arm channel 0 as
/// the scheduler's periodic preemption source at the configured frequency,
/// and start the main counter. Returns the decoded information and the
/// interrupt routing the caller must program into the IO-APIC. A timer
/// reporting no period, or whose first channel cannot fire periodically,
/// gives the scheduler no correctness path, so those states are excluded.
pub fn initialize_hpet(hpet: &mut HpetRegisters) -> (r: (HPET_Information, IrqAssignment))
    requires
        old(hpet).wf(),
        old(hpet).reg(HPET_REG_GEN_CAP_ID) >> 32 != 0,
        old(hpet).reg(HPET_REG_TMR_CONCAP) & (1u64 << 4) != 0,
    ensures
        final(hpet).wf(),
        r.0.period == (old(hpet).reg(HPET_REG_GEN_CAP_ID) >> 32) as u32,
        r.0.freq == FEMTOSECONDS_PER_SECOND / ((old(hpet).reg(HPET_REG_GEN_CAP_ID) >> 32) as u32
            as u64),
        r.0.supports_64_bit == ((old(hpet).reg(HPET_REG_GEN_CAP_ID) & 0xFFFF_FFFF) as u32 & (1u32
            << 13) != 0),
        r.0.vendor_id == (((old(hpet).reg(HPET_REG_GEN_CAP_ID) & 0xFFFF_FFFF) as u32) >> 16) as u16,
        r.0.counters == (((old(hpet).reg(HPET_REG_GEN_CAP_ID) & 0xFFFF_FFFF) as u32 >> 8)
            & 0b11111) as u8 + 1,
        r.0.supports_legacy_mapping == ((old(hpet).reg(HPET_REG_GEN_CAP_ID) & 0xFFFF_FFFF) as u32
            & (1u32 << 15) != 0),
        r.1.irq == lowest_allowed_irq_from(((old(hpet).reg(HPET_REG_TMR_CONCAP) >> 32) as u32), 0)
            + 9,
        r.1.vector == vector_of(InterruptIndex::HPET_Timer),
        r.1.destination == 0,
        final(hpet).reg(HPET_REG_TMR_COMP_V) == r.0.freq / SCHEDULER_IRQ_FREQUENCY,
        final(hpet).reg(HPET_REG_TMR_CONCAP) == ((r.1.irq as u64) << 9) | (1u64 << 2) | (1u64 << 3)
            | (1u64 << 6),
        final(hpet).reg(HPET_REG_GEN_CONFIG) == (old(hpet).reg(HPET_REG_GEN_CONFIG)
            & !0b11u64) | 1,
{
    let period = hpet.hpet_read_period();
    proof {
        assert(forall|x: u64| #[trigger] (x >> 32) <= 0xFFFF_FFFFu64) by (bit_vector);
        assert(period != 0);
    }
    let freq: u64 = FEMTOSECONDS_PER_SECOND / (period as u64);

    let cap_field = hpet.hpet_read_32(HPET_REG_GEN_CAP_ID);
    let bit64_capable = (cap_field & (1u32 << 13)) != 0;
    proof {
        assert(forall|x: u32| #[trigger] (x >> 16) <= 0xFFFFu32) by (bit_vector);
        assert(forall|x: u32| #[trigger] ((x >> 8) & 0b11111u32) <= 31) by (bit_vector);
    }
    let vendor_id = (cap_field >> 16) as u16;
    let counters = ((cap_field >> 8) & 0b11111) as u8 + 1;
    let legacy_mapping = (cap_field & (1u32 << 15)) != 0;

    let hpet_info = HPET_Information {
        supports_64_bit: bit64_capable,
        counters,
        supports_legacy_mapping: legacy_mapping,
        vendor_id,
        freq,
        period,
    };

    // Stop the counter and drop legacy replacement while reprogramming.
    let config = hpet.hpet_read_64(HPET_REG_GEN_CONFIG);
    hpet.hpet_write_64(HPET_REG_GEN_CONFIG, config & !0b11u64);

    let assignment = hpet_set_period_timer(
        hpet,
        0,
        freq / SCHEDULER_IRQ_FREQUENCY,
        InterruptIndex::HPET_Timer,
    );

    // Start the main counter.
    let config = hpet.hpet_read_64(HPET_REG_GEN_CONFIG);
    hpet.hpet_write_64(HPET_REG_GEN_CONFIG, config | 1u64);

    (hpet_info, assignment)
}

} // verus!
