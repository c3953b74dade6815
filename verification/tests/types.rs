use isdt_charger::types::{
    BatteryKind, ChannelState, ChargerState, ErrorFlags, LinkType, ReportedBattery, TaskType,
};

#[test]
fn chemistry_codes_follow_the_apps_picker_order() {
    assert_eq!(BatteryKind::LiHv.code(), 0);
    assert_eq!(BatteryKind::NiMhCd.code(), 5);
    assert_eq!(BatteryKind::ULiHv.code(), 6);
    assert_eq!(BatteryKind::from_code(9), BatteryKind::Unknown(9));
}

#[test]
fn reported_chemistry_uses_the_other_scale() {
    assert_eq!(ReportedBattery::from_code(0), ReportedBattery::Auto);
    assert_eq!(ReportedBattery::from_code(5), ReportedBattery::NoBattery);
}

#[test]
fn charger_states_carry_the_apps_labels() {
    assert_eq!(ChargerState::from_code(0).label(), "Standby");
    assert_eq!(ChargerState::from_code(3).label(), "Charging");
    assert_eq!(ChargerState::from_code(6).label(), "Charge completed");
    assert_eq!(ChargerState::from_code(11).label(), "Discharged");
    assert!(ChargerState::from_code(3).is_running());
    assert!(!ChargerState::from_code(0).is_running());
    assert!(ChargerState::from_code(6).is_complete());
    assert_eq!(ChargerState::from_code(99), ChargerState::Unknown(99));
}

#[test]
fn slot_charger_states_use_the_other_table() {
    assert_eq!(ChannelState::from_code(3).label(), "charging");
    assert_eq!(ChannelState::from_code(10).label(), "cycled");
}

#[test]
fn fault_flags_decode_bit_by_bit() {
    assert!(ErrorFlags(0).is_clear());
    assert_eq!(ErrorFlags(0).to_string(), "none");
    // Bits 0 and 5 together, the way the app joins them.
    let flags = ErrorFlags(0b0010_0001);
    assert_eq!(
        flags.labels(),
        vec!["output overcurrent", "temperature anomaly"]
    );
    assert_eq!(ErrorFlags(1 << 9).to_string(), "battery reversed");
    assert_eq!(ErrorFlags(u16::MAX).labels().len(), 16);
}

#[test]
fn chemistry_parses_from_the_command_line() {
    assert_eq!("LiPo".parse::<BatteryKind>().unwrap(), BatteryKind::LiPo);
    assert_eq!("nimh".parse::<BatteryKind>().unwrap(), BatteryKind::NiMhCd);
    assert_eq!(
        "NiMH/Cd".parse::<BatteryKind>().unwrap(),
        BatteryKind::NiMhCd
    );
    assert!("lifepo4".parse::<BatteryKind>().is_err());
}

#[test]
fn cell_ceilings_match_the_apps_tables() {
    assert_eq!(BatteryKind::LiPo.max_cell_mv(), Some(4200));
    assert_eq!(BatteryKind::NiMhCd.max_cell_mv(), None);
    assert_eq!(BatteryKind::LiFe.store_cell_mv(), Some(3300));
    assert_eq!(BatteryKind::NiMhCd.discharge_cell_mv(), Some(900));
    assert_eq!(BatteryKind::Pb.max_cells(), Some(12));
}

#[test]
fn codes_round_trip_for_every_chemistry_and_task() {
    for code in 0u8..=255 {
        assert_eq!(BatteryKind::from_code(code).code(), code);
    }
    for code in 0u8..=3 {
        assert_eq!(TaskType::from_code(code).unwrap().code(), code);
        assert_eq!(LinkType::from_code(code).unwrap().code(), code);
    }
    assert_eq!(TaskType::from_code(4), None);
}

#[test]
fn two_faults_join_with_a_comma() {
    assert_eq!(
        ErrorFlags(0b11).to_string(),
        "output overcurrent, output overvoltage"
    );
}

#[test]
fn an_unknown_chemistry_is_named_in_the_error() {
    assert_eq!(
        BatteryKind::parse("Li\"Fe-PO4"),
        Err("unknown chemistry \"li\\\"fepo4\", expected one of lihv, lipo, liion, life, pb, nimh, ulihv".to_string())
    );
}

#[test]
fn there_are_as_many_fault_labels_as_bits_set() {
    for mask in [0u16, 1, 0b1010_0001, 0x8000, 0x0F0F, u16::MAX] {
        assert_eq!(ErrorFlags(mask).labels().len(), mask.count_ones() as usize);
    }
}
