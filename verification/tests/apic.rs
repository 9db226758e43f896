use bigos::apic::{core_id_from_id_register, enabled_svr, init_lapic_for_current_core, lapic_base_from_msr, APICOffset, RegisterWrite};
use bigos::msr::{join_msr_halves, split_msr_value};

#[test]
fn lapic_base_keeps_bits_12_to_31() {
    assert_eq!(lapic_base_from_msr(0xFEE0_0900), 0xFEE0_0000);
    assert_eq!(lapic_base_from_msr(0x1_FEE0_0FFF), 0xFEE0_0000);
}

#[test]
fn core_id_is_the_top_byte() {
    assert_eq!(core_id_from_id_register(0x0300_0000), 3);
    assert_eq!(core_id_from_id_register(0x00FF_FFFF), 0);
}

#[test]
fn svr_enable_value() {
    assert_eq!(enabled_svr(0), 0x1FF);
    assert_eq!(enabled_svr(0x1000), 0x11FF);
}

#[test]
fn lapic_bring_up_plan() {
    let w = init_lapic_for_current_core(2, 0x0F);
    let expected = vec![
        RegisterWrite { offset: 0xF0, value: 0x1FF },
        RegisterWrite { offset: 0x320, value: 0x10000 },
        RegisterWrite { offset: 0x350, value: 0x10000 },
        RegisterWrite { offset: 0x360, value: 0x10000 },
        RegisterWrite { offset: 0x370, value: 0x10000 },
        RegisterWrite { offset: 0x340, value: 0x10000 },
        RegisterWrite { offset: 0x330, value: 0x10000 },
        RegisterWrite { offset: 0x280, value: 0 },
        RegisterWrite { offset: 0x280, value: 0 },
        RegisterWrite { offset: 0xB0, value: 0 },
        RegisterWrite { offset: 0x80, value: 0 },
        RegisterWrite { offset: 0xD0, value: 0x0200_0000 },
        RegisterWrite { offset: 0xE0, value: 0xFFFF_FFFF },
    ];
    assert!(w == expected);
}

#[test]
fn register_offsets() {
    assert_eq!(APICOffset::IDr.offset(), 0x20);
    assert_eq!(APICOffset::Tdcr.offset(), 0x3E0);
    assert_eq!(APICOffset::R0x3F0.offset(), 0x3F0);
    assert_eq!(APICOffset::LvtErr.word_index(), 0x370 / 4);
}

#[test]
fn msr_halves_round_trip() {
    let v = 0x1234_5678_9ABC_DEF0u64;
    let (low, high) = split_msr_value(v);
    assert_eq!(low, 0x9ABC_DEF0);
    assert_eq!(high, 0x1234_5678);
    assert_eq!(join_msr_halves(low, high), v);
    assert_eq!(join_msr_halves(0xFFFF_FFFF, 0), 0xFFFF_FFFF);
    assert_eq!(split_msr_value(join_msr_halves(7, 9)), (7, 9));
}
