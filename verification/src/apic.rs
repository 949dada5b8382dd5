//! Local-APIC register model: the address computation and the register
//! values the kernel programs. The memory-mapped accesses themselves happen
//! outside this crate; the model pins down exactly which words end up in
//! which registers.

use vstd::prelude::*;

verus! {

/// Physical base address of the local APIC's register page.
pub const APIC_ADDRESS: u64 = 0xFEE0_0000;

/// Offset of the spurious-interrupt-vector register, whose bit 8 enables
/// the APIC.
pub const LAPIC_SPURIOUS_VECTOR: u64 = 0xF0;

/// Offset of the end-of-interrupt register.
pub const LAPIC_EOI: u64 = 0xB0;

/// Offset of the local-timer entry of the local vector table.
pub const LAPIC_LVT_TIMER: u64 = 0x320;

/// Offset of the timer's initial-count register.
pub const LAPIC_TIMER_INITIAL_COUNT: u64 = 0x380;

/// Offset of the timer's current-count register.
pub const LAPIC_TIMER_CURRENT_COUNT: u64 = 0x390;

/// Offset of the timer's divide-configuration register.
pub const LAPIC_TIMER_DIVIDE_CONFIG: u64 = 0x3E0;

/// Number of 32-bit registers in the modelled register page.
pub const APIC_REG_COUNT: usize = 256;

/// Where a processor's local APIC registers are mapped.
pub fn get_apic_address(apic_id: u8) -> (r: u64)
    ensures
        r == APIC_ADDRESS + 0x10 * (apic_id as u64),
{
    APIC_ADDRESS + 0x10 * (apic_id as u64)
}

/// Model of one local APIC's register page: 32-bit registers at 4-byte
/// strides from the base address.
pub struct ApicRegisters {
    pub regs: Vec<u32>,
}

impl ApicRegisters {
    pub open spec fn wf(&self) -> bool {
        self.regs@.len() == APIC_REG_COUNT
    }

    /// The register at byte offset `offset` from the APIC base.
    pub open spec fn reg(&self, offset: u64) -> u32 {
        self.regs@[offset as int / 4]
    }

    /// Read the register at the given byte offset.
    pub fn read_reg(&self, offset: u64) -> (r: u32)
        requires
            self.wf(),
            offset % 4 == 0,
            offset < 0x400,
        ensures
            r == self.reg(offset),
    {
        self.regs[(offset / 4) as usize]
    }

    /// Write the register at the given byte offset.
    pub fn write_reg(&mut self, offset: u64, value: u32)
        requires
            old(self).wf(),
            offset % 4 == 0,
            offset < 0x400,
        ensures
            final(self).wf(),
            final(self).reg(offset) == value,
            forall|o: u64|
                o % 4 == 0 && o < 0x400 && o != offset ==> #[trigger] final(self).reg(o) == old(self).reg(o),
    {
        self.regs.set((offset / 4) as usize, value);
        proof {
            assert forall|o: u64|
                o % 4 == 0 && o < 0x400 && o != offset implies #[trigger] self.reg(o) == old(
            self).reg(o) by {
                assert(o as int / 4 != offset as int / 4);
            }
        }
    }

    /// Set the APIC-enable bit in the spurious-interrupt-vector register.
    pub fn enable_apic(&mut self)
        requires
            old(self).wf(),
        ensures
            final(self).wf(),
            final(self).reg(LAPIC_SPURIOUS_VECTOR) == old(self).reg(LAPIC_SPURIOUS_VECTOR) | 0x100,
            forall|o: u64|
                o % 4 == 0 && o < 0x400 && o != LAPIC_SPURIOUS_VECTOR ==> #[trigger] final(self).reg(o) == old(self).reg(o),
    {
        let mut val = self.read_reg(LAPIC_SPURIOUS_VECTOR);
        val = val | (1u32 << 8);
        proof {
            assert(forall|x: u32| #[trigger] (x | (1u32 << 8)) == (x | 0x100u32)) by (bit_vector);
        }
        self.write_reg(LAPIC_SPURIOUS_VECTOR, val);
    }

    /// Acknowledge the interrupt in service by writing the end-of-interrupt
    /// register.
    pub fn apic_send_eoi(&mut self)
        requires
            old(self).wf(),
        ensures
            final(self).wf(),
            final(self).reg(LAPIC_EOI) == 0,
            forall|o: u64|
                o % 4 == 0 && o < 0x400 && o != LAPIC_EOI ==> #[trigger] final(self).reg(o) == old(self).reg(o),
    {
        self.write_reg(LAPIC_EOI, 0);
    }

    /// Mask or unmask the local timer by toggling bit 16 of its local
    /// vector table entry.
    pub fn apic_set_timer_mask(&mut self, mask: bool)
        requires
            old(self).wf(),
        ensures
            final(self).wf(),
            mask ==> final(self).reg(LAPIC_LVT_TIMER) == old(self).reg(LAPIC_LVT_TIMER) | 0x10000,
            !mask ==> final(self).reg(LAPIC_LVT_TIMER) == old(self).reg(LAPIC_LVT_TIMER)
                & 0xFFFE_FFFF,
            forall|o: u64|
                o % 4 == 0 && o < 0x400 && o != LAPIC_LVT_TIMER ==> #[trigger] final(self).reg(o)
                    == old(self).reg(o),
    {
        let mut entry = self.read_reg(LAPIC_LVT_TIMER);
        if mask {
            entry = entry | (1u32 << 16);
        } else {
            entry = entry & !(1u32 << 16);
        }
        proof {
            assert(forall|x: u32| #[trigger] (x | (1u32 << 16)) == (x | 0x10000u32))
                by (bit_vector);
            assert(forall|x: u32| #[trigger] (x & !(1u32 << 16)) == (x & 0xFFFE_FFFFu32))
                by (bit_vector);
        }
        self.write_reg(LAPIC_LVT_TIMER, entry);
    }
}

} // verus!
