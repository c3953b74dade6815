use isdt_charger::response::{measured, Response};
use isdt_charger::types::{BatteryKind, ChargerState, LinkType};

#[test]
fn decodes_a_temperature_frame() {
    let data = [0xE9, 0x00, 0xF8, 0x1A, 0x32];
    let Some(Response::Temperature(t)) = Response::parse(&data) else {
        panic!("expected a temperature frame");
    };
    assert_eq!(t.channel, 0);
    assert_eq!(t.device_c, -8); // signed, as the app reads it
    assert_eq!(t.battery_c, 26);
    assert_eq!(t.fan_raw, 50);
}

#[test]
fn decodes_the_narrow_electrical_frame() {
    let mut data = vec![0xE5, 0x00];
    data.extend_from_slice(&12_000u16.to_le_bytes()); // input mV
    data.extend_from_slice(&1_500u32.to_le_bytes()); // input mA
    data.extend_from_slice(&16_800u16.to_le_bytes()); // output mV
    data.extend_from_slice(&2_000u32.to_le_bytes()); // current mA
    for cell in 0..8u16 {
        data.extend_from_slice(&(4_100 + cell).to_le_bytes());
    }
    assert!(data.len() < 35);

    let Some(Response::Electrical(e)) = Response::parse(&data) else {
        panic!("expected an electrical frame");
    };
    assert_eq!(e.input_mv, 12_000);
    assert_eq!(e.input_ma, 1_500);
    assert_eq!(e.output_mv, 16_800);
    assert_eq!(e.current_ma, 2_000);
    assert_eq!(e.cell_mv.len(), 8);
    assert_eq!(e.cell_mv[0], 4_100);
    assert_eq!(e.input_power_mw(), 18_000);
    assert_eq!(e.connected_cells(), 8);
}

#[test]
fn decodes_the_wide_electrical_frame() {
    let mut data = vec![0xE5, 0x01];
    data.extend_from_slice(&48_000u32.to_le_bytes());
    data.extend_from_slice(&5_000u32.to_le_bytes());
    data.extend_from_slice(&25_200u32.to_le_bytes());
    data.extend_from_slice(&8_000u32.to_le_bytes());
    for _ in 0..16 {
        data.extend_from_slice(&4_200u16.to_le_bytes());
    }
    assert!(data.len() >= 35);

    let Some(Response::Electrical(e)) = Response::parse(&data) else {
        panic!("expected an electrical frame");
    };
    assert_eq!(e.channel, 1);
    assert_eq!(e.input_mv, 48_000);
    assert_eq!(e.output_mv, 25_200);
    assert_eq!(e.cell_mv.len(), 16);
}

#[test]
fn decodes_a_work_state_frame_with_and_without_a_fault_code() {
    let mut data = vec![0xE7, 0x00, 0x03, 0x2A];
    data.extend_from_slice(&1_234u32.to_le_bytes()); // mAh
    data.extend_from_slice(&18_500u32.to_le_bytes()); // mWh
    data.extend_from_slice(&600_000u32.to_le_bytes()); // milliseconds
    data.push(1); // chemistry: LiPo
    data.push(4); // cells
    data.push(3); // both leads
    data.extend_from_slice(&4_200u16.to_le_bytes());
    data.extend_from_slice(&3_000u32.to_le_bytes());
    data.extend_from_slice(&1u16.to_le_bytes());
    data.extend_from_slice(&1u16.to_le_bytes());
    data.extend_from_slice(&10_000u16.to_le_bytes());
    data.extend_from_slice(&200_000u32.to_le_bytes());

    let short = Response::parse(&data).unwrap();
    let Response::WorkState(w) = &short else {
        panic!("expected a work state frame");
    };
    assert_eq!(w.state, ChargerState::ConstantCurrent);
    assert_eq!(w.battery_type, BatteryKind::LiPo);
    assert_eq!(w.capacity_percent, 42);
    assert_eq!(w.capacity_done_mah, 1_234);
    assert_eq!(w.elapsed().as_secs(), 600);
    assert_eq!(w.link(), Some(LinkType::Both));
    assert_eq!(w.errors, None);
    assert!(!w.has_error());

    // Bits 0 and 1: output overcurrent and overvoltage.
    data.extend_from_slice(&0b11u16.to_le_bytes());
    let Some(Response::WorkState(w)) = Response::parse(&data) else {
        panic!("expected a work state frame");
    };
    assert!(w.has_error());
    assert_eq!(
        w.errors.unwrap().labels(),
        vec!["output overcurrent", "output overvoltage"]
    );
}

#[test]
fn decodes_hardware_info_both_long_and_short() {
    let mut data = vec![0xE1];
    data.extend_from_slice(b"CM1620\0\0");
    data.extend_from_slice(&[1, 0, 0, 2]);
    data.extend_from_slice(&[1, 1, 0, 3]);
    data.extend_from_slice(&[2, 4, 1, 9]);

    let Some(Response::HardwareInfo(h)) = Response::parse(&data) else {
        panic!("expected a hardware info frame");
    };
    assert_eq!(h.device_id_string(), "CM1620");
    assert_eq!(h.firmware_version, [2, 4, 1, 9]);
    assert_eq!(h.device_name, None);

    data.extend_from_slice(b"Bench\0\0\0\0\0");
    data.extend_from_slice(b"PN012345");
    let Some(Response::HardwareInfo(h)) = Response::parse(&data) else {
        panic!("expected a hardware info frame");
    };
    assert_eq!(h.device_name_string().as_deref(), Some("Bench"));
    assert_eq!(h.part_number_string().as_deref(), Some("PN012345"));
}

#[test]
fn decodes_a_battgo_pack_with_a_variable_cell_count() {
    let mut data = vec![0x45, 0x00, 0x01, 0x03];
    for _ in 0..3 {
        data.extend_from_slice(&3_950u16.to_le_bytes());
    }
    data.push(24u8); // temperature
    data.extend_from_slice(&0u32.to_le_bytes());
    data.extend_from_slice(&500u32.to_le_bytes());
    data.extend_from_slice(&12u16.to_le_bytes());
    data.extend_from_slice(&0u16.to_le_bytes());
    data.extend_from_slice(&0u16.to_le_bytes());
    data.extend_from_slice(&0u16.to_le_bytes());
    data.extend_from_slice(&1u16.to_le_bytes());
    data.push(0);

    let Some(Response::BattgoRealState(b)) = Response::parse(&data) else {
        panic!("expected a BattGo state frame");
    };
    assert_eq!(b.cell_mv, vec![3_950; 3]);
    assert_eq!(b.temperature_c, 24);
    assert_eq!(b.cycle_count, 12);
    assert_eq!(b.under_voltage_count, 1);
}

/// Bytes captured from a real CM1620 across three connections.
#[test]
fn reads_the_cm1620_identify_frame() {
    let data = [
        0x01u8, 0x04, 0x00, 0xe8, 0x03, 0x00, 0x00, 0x70, 0xa9, 0x38, 0xe4, 0xc2, 0x84,
    ];
    let Some(Response::Identity(id)) = Response::parse(&data) else {
        panic!("expected an identify frame");
    };
    assert_eq!(id.region, 4);
    // The counter that runs out at the unbound disconnect.
    assert_eq!(id.link_period_ms(), Some(1000));
    assert_eq!(
        id.device_address(),
        Some([0x70, 0xa9, 0x38, 0xe4, 0xc2, 0x84])
    );
    // The app's reading of the same bytes, kept for compatibility.
    assert_eq!(
        id.part_number(),
        Some([0x00, 0xe8, 0x03, 0x00, 0x00, 0x70, 0xa9, 0x38])
    );

    // A later connection: only the counter moves.
    let mut later = data;
    later[3] = 0x88;
    later[4] = 0x13;
    let Some(Response::Identity(id)) = Response::parse(&later) else {
        panic!("expected an identify frame");
    };
    assert_eq!(id.link_period_ms(), Some(5000));
    assert_eq!(
        id.device_address(),
        Some([0x70, 0xa9, 0x38, 0xe4, 0xc2, 0x84])
    );
}

#[test]
fn keeps_unmodelled_and_truncated_frames_verbatim() {
    let unmodelled = Response::parse(&[0x77, 0x01, 0x02]).unwrap();
    assert_eq!(
        unmodelled,
        Response::Unknown {
            command: 0x77,
            data: vec![0x01, 0x02]
        }
    );

    // A temperature frame cut short falls back rather than panicking.
    let truncated = Response::parse(&[0xE9, 0x00]).unwrap();
    assert!(matches!(truncated, Response::Unknown { command: 0xE9, .. }));

    assert_eq!(Response::parse(&[]), None);
}

#[test]
fn every_modelled_response_reports_its_own_command_word() {
    let data = [0xEB, 0x00, 0x00];
    let parsed = Response::parse(&data).unwrap();
    assert_eq!(parsed.command_word(), 0xEB);
    assert_eq!(parsed.channel(), Some(0));
}

#[test]
fn internal_resistance_keeps_the_raw_tenths() {
    let mut data = vec![0xFB, 0x00];
    data.extend_from_slice(&125u16.to_le_bytes());
    data.extend_from_slice(&u16::MAX.to_le_bytes());
    for _ in 2..8 {
        data.extend_from_slice(&0u16.to_le_bytes());
    }
    let Some(Response::InnerResistance(ir)) = Response::parse(&data) else {
        panic!("expected an internal resistance frame");
    };
    assert_eq!(ir.raw[0], 125);
    assert_eq!(ir.raw[1], u16::MAX);
    assert_eq!(ir.raw[2], 0);
}

#[test]
fn decodes_internal_resistance_in_tenths_of_a_milliohm() {
    let mut data = vec![0xFB, 0x00];
    // 12.5 mOhm on the first cell, then the no-measurement sentinel.
    data.extend_from_slice(&125u16.to_le_bytes());
    data.extend_from_slice(&u16::MAX.to_le_bytes());
    for _ in 2..8 {
        data.extend_from_slice(&0u16.to_le_bytes());
    }
    let Some(Response::InnerResistance(ir)) = Response::parse(&data) else {
        panic!("expected an internal resistance frame");
    };
    assert_eq!(ir.raw[0], 125);
    let cells = ir.cells_tenths().map(|c| c.map(|t| f32::from(t) / 10.0));
    assert_eq!(cells[0], Some(12.5));
    assert_eq!(cells[1], None);
    assert_eq!(cells[2], Some(0.0));
}

#[test]
fn the_resistance_ceiling_is_inclusive() {
    assert_eq!(measured(65530), Some(65530));
    assert_eq!(measured(65531), None);
    assert_eq!(measured(0), Some(0));
}

#[test]
fn names_with_bytes_that_are_not_utf8_are_decoded_lossily() {
    let mut data = vec![0xE1];
    data.extend_from_slice(b"CM\xFF1620\0");
    data.extend_from_slice(&[1, 0, 0, 2]);
    data.extend_from_slice(&[1, 1, 0, 3]);
    data.extend_from_slice(&[2, 4, 1, 9]);
    let Some(Response::HardwareInfo(h)) = Response::parse(&data) else {
        panic!("expected a hardware info frame");
    };
    assert_eq!(h.device_id_string(), "CM\u{FFFD}1620");
}
