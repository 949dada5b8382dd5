use kernel::hpet::{
    hpet_set_period_timer, initialize_hpet, HpetRegisters, HPET_Information, HPET_REG_COUNT,
    HPET_REG_GEN_CONFIG, HPET_REG_TMR_COMP_V, HPET_REG_TMR_CONCAP,
};
use kernel::interrupts::InterruptIndex;

fn blank_registers() -> HpetRegisters {
    HpetRegisters { regs: vec![0u64; HPET_REG_COUNT] }
}

// A 100 MHz counter: 10_000_000 femtoseconds per tick.
const PERIOD_FS: u64 = 10_000_000;

fn capability_word() -> u64 {
    // Vendor in bits 16-31, legacy-mapping bit 15, 64-bit bit 13, two extra
    // counters in bits 8-12; period in the top half.
    let cap_low: u64 = (0x8086 << 16) | (1 << 15) | (1 << 13) | (2 << 8);
    (PERIOD_FS << 32) | cap_low
}

#[test]
fn default_information_reports_no_capabilities() {
    let info = HPET_Information::default();
    assert_eq!(info.counters, 0);
    assert_eq!(info.freq, 0);
    assert!(!info.supports_64_bit);
}

#[test]
fn period_timer_picks_lowest_allowed_line_and_arms_the_channel() {
    let mut hpet = blank_registers();
    // Channel 1 supports periodic mode (bit 4) and may fire on lines 2 or 5.
    let concap_idx = (HPET_REG_TMR_CONCAP as usize + 0x20) / 8;
    hpet.regs[concap_idx] = (0b100100u64 << 32) | (1 << 4);

    let assignment = hpet_set_period_timer(&mut hpet, 1, 12345, InterruptIndex::HPET_Timer);
    // Lowest advertised line is 2; the platform routes it 9 inputs up.
    assert_eq!(assignment.irq, 11);
    assert_eq!(assignment.vector, 34);
    // Periodic, enabled, value-set mode, routed on line 11.
    assert_eq!(hpet.regs[concap_idx], (11u64 << 9) | (1 << 2) | (1 << 3) | (1 << 6));
    // Comparator loaded with the requested interval.
    let comp_idx = (HPET_REG_TMR_COMP_V as usize + 0x20) / 8;
    assert_eq!(hpet.regs[comp_idx], 12345);
}

#[test]
fn initialization_decodes_capabilities_and_arms_channel_zero() {
    let mut hpet = blank_registers();
    hpet.regs[0] = capability_word();
    // Channel 0: periodic-capable, allowed on line 0.
    let concap_idx = HPET_REG_TMR_CONCAP as usize / 8;
    hpet.regs[concap_idx] = (0b1u64 << 32) | (1 << 4);
    // Main counter stopped, configuration clear.
    let config_idx = HPET_REG_GEN_CONFIG as usize / 8;
    hpet.regs[config_idx] = 0b10;

    let (info, assignment) = initialize_hpet(&mut hpet);

    assert_eq!(info.period, PERIOD_FS as u32);
    assert_eq!(info.freq, 100_000_000); // 10^15 / 10^7
    assert_eq!(info.vendor_id, 0x8086);
    assert_eq!(info.counters, 3); // field value 2 means three counters
    assert!(info.supports_64_bit);
    assert!(info.supports_legacy_mapping);

    // The scheduler quantum: 256 interrupts per second.
    let comp_idx = HPET_REG_TMR_COMP_V as usize / 8;
    assert_eq!(hpet.regs[comp_idx], 100_000_000 / 256);

    // Line 0 plus the platform offset, delivered on the dedicated vector.
    assert_eq!(assignment.irq, 9);
    assert_eq!(assignment.vector, InterruptIndex::HPET_Timer.as_u8());

    // Channel 0 armed periodic on line 9; the counter is running again and
    // legacy replacement stays off.
    assert_eq!(hpet.regs[concap_idx], (9u64 << 9) | (1 << 2) | (1 << 3) | (1 << 6));
    assert_eq!(hpet.regs[config_idx], 1);
}
