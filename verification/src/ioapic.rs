//! IO-APIC model: which controller serves a global system interrupt, and
//! the redirection-entry values programmed to route an IRQ to a vector.
//!
//! The indirect index/data hardware access happens outside this crate; the
//! register-file model pins down exactly what ends up in each redirection
//! entry.

use vstd::prelude::*;

verus! {

/// Number of indirect registers in the modelled IO-APIC register file:
/// enough for the redirection entries of 24 interrupt inputs.
pub const IOAPIC_REG_COUNT: usize = 64;

/// Highest interrupt input whose redirection entry fits the model.
pub const IOAPIC_MAX_IRQ: u32 = 23;

/// One IO-APIC as reported by firmware: its registers' physical address and
/// the first global system interrupt it serves.
#[derive(Clone, Copy, Debug, PartialEq, Eq, Structural)]
pub struct IoApic {
    pub id: u8,
    pub address: u32,
    pub global_system_interrupt_base: u32,
}

/// The physical register address of the IO-APIC at position `id` in the
/// firmware-reported list.
pub fn get_io_apic_addr(ioapics: &Vec<IoApic>, id: u32, _index: u32) -> (r: u64)
    requires
        (id as int) < ioapics@.len(),
    ensures
        r == ioapics@[id as int].address as u64,
{
    ioapics[id as usize].address as u64
}

/// The position of the first IO-APIC whose global-system-interrupt base
/// does not exceed `irq`: the controller asked to route that interrupt.
/// With no such controller there is nowhere to route the interrupt, so
/// that case is excluded.
pub fn get_io_apic_index(ioapics: &Vec<IoApic>, irq: u32) -> (r: u32)
    requires
        ioapics@.len() < 0x1_0000_0000,
        exists|i: int|
            0 <= i < ioapics@.len() && (#[trigger] ioapics@[i]).global_system_interrupt_base
                <= irq,
    ensures
        0 <= r < ioapics@.len(),
        ioapics@[r as int].global_system_interrupt_base <= irq,
        forall|j: int| 0 <= j < r ==> (#[trigger] ioapics@[j]).global_system_interrupt_base > irq,
{
    let n = ioapics.len();
    let mut id: usize = 0;
    while id < n
        invariant
            n == ioapics@.len(),
            n < 0x1_0000_0000,
            0 <= id <= n,
            exists|i: int|
                0 <= i < ioapics@.len() && (#[trigger] ioapics@[i]).global_system_interrupt_base
                    <= irq,
            forall|j: int|
                0 <= j < id ==> (#[trigger] ioapics@[j]).global_system_interrupt_base > irq,
        decreases n - id,
    {
        if irq >= ioapics[id].global_system_interrupt_base {
            return id as u32;
        }
        id = id + 1;
    }
    proof {
        let i = choose|i: int|
            0 <= i < ioapics@.len() && (#[trigger] ioapics@[i]).global_system_interrupt_base
                <= irq;
        assert(false);
    }
    0
}

/// Model of one IO-APIC's indirect register file.
pub struct IoApicRegisters {
    pub regs: Vec<u32>,
}

/// The value a routed redirection entry's low word takes: the old word with
/// the IRQ unmasked, physical fixed delivery selected, and the vector
/// installed in the low byte.
pub open spec fn redirection_low(old_low: u32, vector: u8) -> u32 {
    ((((old_low & !(1u32 << 16)) & !(1u32 << 11)) & !0x700u32) & !0xffu32) | (vector as u32)
}

/// The value a routed redirection entry's high word takes: the old word
/// with the destination APIC id installed in the top byte.
pub open spec fn redirection_high(old_high: u32, apic_id: u32) -> u32 {
    (old_high & !0xff00_0000u32) | (apic_id << 24)
}

impl IoApicRegisters {
    pub open spec fn wf(&self) -> bool {
        self.regs@.len() == IOAPIC_REG_COUNT
    }

    /// Read the indirect register at `index`.
    pub fn ioapic_read(&self, index: u32) -> (r: u32)
        requires
            self.wf(),
            index < IOAPIC_REG_COUNT as u32,
        ensures
            r == self.regs@[index as int],
    {
        self.regs[index as usize]
    }

    /// Write the indirect register at `index`.
    pub fn ioapic_write(&mut self, index: u32, value: u32)
        requires
            old(self).wf(),
            index < IOAPIC_REG_COUNT as u32,
        ensures
            final(self).wf(),
            final(self).regs@ == old(self).regs@.update(index as int, value),
    {
        self.regs.set(index as usize, value);
    }

    /// Route interrupt input `irq` of this IO-APIC to `vector` on the
    /// processor `apic_id`: unmask it, select physical fixed delivery, and
    /// install vector and destination in its redirection entry.
    pub fn ioapic_set_irq(&mut self, irq: u32, apic_id: u32, vector: u8)
        requires
            old(self).wf(),
            irq <= IOAPIC_MAX_IRQ,
        ensures
            final(self).wf(),
            final(self).regs@[0x10 + 2 * irq] == redirection_low(
                old(self).regs@[0x10 + 2 * irq],
                vector,
            ),
            final(self).regs@[0x10 + 2 * irq + 1] == redirection_high(
                old(self).regs@[0x10 + 2 * irq + 1],
                apic_id,
            ),
            forall|k: int|
                0 <= k < IOAPIC_REG_COUNT && k != 0x10 + 2 * irq && k != 0x10 + 2 * irq + 1
                    ==> final(self).regs@[k] == old(self).regs@[k],
    {
        let low_index: u32 = 0x10 + irq * 2;
        let high_index: u32 = 0x10 + irq * 2 + 1;

        let mut high = self.ioapic_read(high_index);
        high = high & !0xff00_0000u32;
        high = high | (apic_id << 24);
        self.ioapic_write(high_index, high);

        let mut low = self.ioapic_read(low_index);
        low = low & !(1u32 << 16);
        low = low & !(1u32 << 11);
        low = low & !0x700u32;
        low = low & !0xffu32;
        low = low | (vector as u32);
        self.ioapic_write(low_index, low);
    }
}

} // verus!
