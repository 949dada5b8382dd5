use kernel::apic::{get_apic_address, ApicRegisters, APIC_ADDRESS, LAPIC_EOI, LAPIC_LVT_TIMER,
    LAPIC_SPURIOUS_VECTOR};
use kernel::interrupts::{
    initialize_apic, rtc_rate_frequency, InterruptIndex, InterruptSourceOverride,
};
use kernel::ioapic::{
    get_io_apic_addr, get_io_apic_index, IoApic, IoApicRegisters, IOAPIC_REG_COUNT,
};

#[test]
fn vector_numbers_match_the_descriptor_table_contract() {
    assert_eq!(InterruptIndex::Timer.as_u8(), 32);
    assert_eq!(InterruptIndex::Keyboard.as_u8(), 33);
    assert_eq!(InterruptIndex::HPET_Timer.as_u8(), 34);
    assert_eq!(InterruptIndex::Spurious.as_u8(), 39);
    assert_eq!(InterruptIndex::RTC.as_u8(), 40);
    assert_eq!(InterruptIndex::ACPI.as_u8(), 41);
    assert_eq!(InterruptIndex::PrimaryATA.as_u8(), 46);
    assert_eq!(InterruptIndex::SecondaryATA.as_u8(), 47);
    assert_eq!(InterruptIndex::Timer.as_usize(), 32);
    assert_eq!(InterruptIndex::HPET_Timer.as_usize(), 34);
}

#[test]
fn default_routing_uses_identity_irqs() {
    let isos: Vec<InterruptSourceOverride> = Vec::new();
    let routing = initialize_apic(0, &isos);
    let irqs: Vec<u32> = routing.iter().map(|a| a.irq).collect();
    let vectors: Vec<u8> = routing.iter().map(|a| a.vector).collect();
    assert_eq!(irqs, vec![0, 1, 7, 8]);
    assert_eq!(vectors, vec![32, 33, 39, 40]);
}

#[test]
fn firmware_overrides_replace_defaults_and_last_wins() {
    let isos = vec![
        InterruptSourceOverride { isa_source: 0, global_system_interrupt: 2 },
        InterruptSourceOverride { isa_source: 8, global_system_interrupt: 20 },
        InterruptSourceOverride { isa_source: 0, global_system_interrupt: 5 },
        InterruptSourceOverride { isa_source: 3, global_system_interrupt: 9 },
    ];
    let routing = initialize_apic(0, &isos);
    assert_eq!(routing[0].irq, 5); // timer: last override wins
    assert_eq!(routing[1].irq, 1); // keyboard: untouched
    assert_eq!(routing[2].irq, 7); // spurious: untouched
    assert_eq!(routing[3].irq, 20); // real-time clock: overridden
}

#[test]
fn rtc_rate_six_gives_1024_ticks_per_second() {
    assert_eq!(rtc_rate_frequency(6), 1024);
    assert_eq!(rtc_rate_frequency(3), 8192);
    assert_eq!(rtc_rate_frequency(15), 2);
}

#[test]
fn apic_register_address_strides_by_id() {
    assert_eq!(get_apic_address(0), APIC_ADDRESS);
    assert_eq!(get_apic_address(1), APIC_ADDRESS + 0x10);
    assert_eq!(get_apic_address(4), APIC_ADDRESS + 0x40);
}

#[test]
fn apic_enable_eoi_and_timer_mask_write_expected_bits() {
    let mut regs = ApicRegisters { regs: vec![0u32; 256] };
    regs.enable_apic();
    assert_eq!(regs.read_reg(LAPIC_SPURIOUS_VECTOR), 0x100);

    regs.write_reg(LAPIC_EOI, 0xFFFF_FFFF);
    regs.apic_send_eoi();
    assert_eq!(regs.read_reg(LAPIC_EOI), 0);

    regs.apic_set_timer_mask(true);
    assert_eq!(regs.read_reg(LAPIC_LVT_TIMER), 0x10000);
    regs.apic_set_timer_mask(false);
    assert_eq!(regs.read_reg(LAPIC_LVT_TIMER), 0);
}

#[test]
fn io_apic_lookup_picks_the_covering_controller() {
    let ioapics = vec![
        IoApic { id: 0, address: 0xFEC0_0000, global_system_interrupt_base: 0 },
        IoApic { id: 1, address: 0xFEC1_0000, global_system_interrupt_base: 24 },
    ];
    assert_eq!(get_io_apic_index(&ioapics, 3), 0);
    assert_eq!(get_io_apic_index(&ioapics, 24), 0);
    assert_eq!(get_io_apic_addr(&ioapics, 0, 0), 0xFEC0_0000);
    assert_eq!(get_io_apic_addr(&ioapics, 1, 0), 0xFEC1_0000);
}

#[test]
fn redirection_entry_routes_vector_and_destination() {
    let mut regs = IoApicRegisters { regs: vec![0xFFFF_FFFFu32; IOAPIC_REG_COUNT] };
    regs.ioapic_set_irq(2, 0, InterruptIndex::HPET_Timer.as_u8());
    // irq 2: entry registers 0x14 (low) and 0x15 (high).
    let low = regs.ioapic_read(0x14);
    let high = regs.ioapic_read(0x15);
    // Unmasked, physical fixed delivery, vector 34 in the low byte.
    assert_eq!(low, 0xFFFE_F022);
    // Destination APIC id 0 in the top byte.
    assert_eq!(high, 0x00FF_FFFF);
    // Neighbouring entries untouched.
    assert_eq!(regs.ioapic_read(0x13), 0xFFFF_FFFF);
    assert_eq!(regs.ioapic_read(0x16), 0xFFFF_FFFF);
}

#[test]
fn redirection_entry_sets_destination_apic() {
    let mut regs = IoApicRegisters { regs: vec![0u32; IOAPIC_REG_COUNT] };
    regs.ioapic_set_irq(0, 3, 32);
    assert_eq!(regs.ioapic_read(0x10), 32);
    assert_eq!(regs.ioapic_read(0x11), 3 << 24);
}

#[test]
fn io_apic_lookup_prefers_the_first_covering_controller() {
    // Both controllers' bases are at or below the interrupt; the walk stops
    // at the first one.
    let ioapics = vec![
        IoApic { id: 0, address: 0xFEC0_0000, global_system_interrupt_base: 8 },
        IoApic { id: 1, address: 0xFEC1_0000, global_system_interrupt_base: 0 },
    ];
    assert_eq!(get_io_apic_index(&ioapics, 10), 0);
    assert_eq!(get_io_apic_index(&ioapics, 4), 1);
}

#[test]
fn routing_carries_the_destination_processor() {
    let isos: Vec<InterruptSourceOverride> = Vec::new();
    let routing = initialize_apic(2, &isos);
    for a in routing.iter() {
        assert_eq!(a.destination, 2);
    }
}
