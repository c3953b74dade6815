use isdt_charger::request::{Request, WRITE_APP_BLOCK};
use isdt_charger::types::{BatteryKind, CalibrationMode, LinkType, TaskType};

/// The app hard-codes the checksum of each fixed request. Reproducing
/// those literals proves the payload layouts match byte for byte.
#[test]
fn matches_the_checksums_baked_into_the_app() {
    let cases: [(Request, u8); 13] = [
        (Request::Identify, 0x13),
        (Request::HardwareInfo, 0xF3),
        (Request::LimitParameters, 0xF5),
        (Request::Electrical { channel: 0 }, 0xF8),
        (Request::WorkState { channel: 0 }, 0xFA),
        (Request::Temperature { channel: 0 }, 0xFC),
        (Request::InnerResistance { channel: 0 }, 0x0E),
        (Request::OneKeyLaunch, 0xE7),
        (Request::SmartPowerInfo, 0xCD),
        (Request::SmartPowerParameters, 0xD1),
        (Request::BattgoInfo { channel: 0 }, 0x54),
        (Request::EnterBootloader, 0xB0),
        (Request::Reboot, 0xDA),
    ];
    for (request, checksum) in cases {
        let frame = request.encode().unwrap();
        assert_eq!(*frame.last().unwrap(), checksum, "checksum for {request:?}");
    }
}

/// The app's per-channel requests fold the channel into the checksum.
#[test]
fn channel_shifts_the_checksum() {
    for (request, base) in [
        (Request::Electrical { channel: 1 }, 0xF8u8),
        (Request::BattgoOem { channel: 1 }, 0x56),
        (Request::BattgoRealState { channel: 1 }, 0x58),
        (Request::BattgoReadParameters { channel: 1 }, 0x5C),
    ] {
        let frame = request.encode().unwrap();
        assert_eq!(*frame.last().unwrap(), base.wrapping_add(1));
    }
}

/// Payload sizes come straight from the length byte the app writes.
#[test]
fn payload_lengths_match_the_app() {
    let cases: [(Request, usize); 8] = [
        (
            Request::SetTask {
                channel: 0,
                task: TaskType::Charge,
                battery: BatteryKind::LiPo,
                link: LinkType::Both,
                work_current_ma: 1000,
                cell_count: 4,
                full_charged_volt_mv: 4200,
            },
            12,
        ),
        (
            Request::SetLimitParameters {
                min_input_volt_mv: 10_000,
                max_input_power_mw: 200_000,
            },
            7,
        ),
        (
            Request::SetOneKeyLaunch {
                enabled: true,
                battery: BatteryKind::LiPo,
                cell_count: 4,
                full_charged_volt_mv: 4200,
                work_current_ma: 2000,
            },
            10,
        ),
        (
            Request::SetSmartPower {
                setting: 1,
                value: 20_000,
            },
            6,
        ),
        (
            Request::BattgoWriteParameters {
                channel: 0,
                charging_current_ma: 1000,
                store_volt_mv: 3800,
                full_charged_volt_mv: 4200,
                self_discharging_days: 3,
            },
            11,
        ),
        (
            Request::Calibrate6 {
                channel: 0,
                mode: CalibrationMode::Calibrate,
                cell_mv: [0; 6],
                input_mv: 0,
                output_mv: 0,
            },
            19,
        ),
        (
            Request::Calibrate8 {
                channel: 0,
                mode: CalibrationMode::Calibrate,
                cell_mv: [0; 8],
                input_mv: 0,
                output_mv: 0,
            },
            23,
        ),
        (
            Request::ChecksumApp {
                start_address: 0,
                size: 0,
                checksum: 0,
            },
            15,
        ),
    ];
    for (request, len) in cases {
        assert_eq!(request.data().len(), len, "length for {request:?}");
    }
}

#[test]
fn firmware_block_is_the_apps_134_byte_payload() {
    let request = Request::WriteApp {
        start_address: 0x0800_4000,
        data: Box::new([0xFF; WRITE_APP_BLOCK]),
    };
    assert_eq!(request.data().len(), 134);
    // 396 is the app's own literal for the fixed part of this checksum:
    // address, length, command word and CPU index.
    let frame = request.encode().unwrap();
    assert_eq!(u16::from(0x12u8) + 0x86 + 0xF4, 396);
    assert_eq!(frame[2], 0x86, "the length byte the app writes");
}

#[test]
fn set_task_lays_out_fields_in_order() {
    let data = Request::SetTask {
        channel: 1,
        task: TaskType::Discharge,
        battery: BatteryKind::LiFe,
        link: LinkType::BalanceOnly,
        work_current_ma: 0x0403_0201,
        cell_count: 6,
        full_charged_volt_mv: 0x0605,
    }
    .data();
    assert_eq!(
        data,
        vec![0xEA, 1, 2, 3, 2, 0x01, 0x02, 0x03, 0x04, 6, 0x05, 0x06]
    );
}

#[test]
fn name_is_padded_and_truncated_to_sixteen_bytes() {
    assert_eq!(Request::SetName { name: "hi".into() }.data().len(), 17);
    assert_eq!(
        Request::SetName {
            name: "0123456789abcdefGGG".into()
        }
        .data()
        .len(),
        17
    );
}

#[test]
fn only_the_irreversible_requests_refuse_a_retry() {
    // A charger swallows the first control frame after a bind, so the
    // ordinary commands must be resendable.
    for request in [
        Request::Identify,
        Request::HardwareInfo,
        Request::Electrical { channel: 0 },
        Request::WorkState { channel: 0 },
        Request::SetTask {
            channel: 0,
            task: TaskType::Charge,
            battery: BatteryKind::LiPo,
            link: LinkType::SerialOnly,
            work_current_ma: 1000,
            cell_count: 4,
            full_charged_volt_mv: 4200,
        },
        Request::SetName { name: "x".into() },
        Request::Bind { client_id: [0; 16] },
    ] {
        assert!(request.is_retryable(), "{request:?} should be retryable");
    }

    // Firmware work and the reboot must happen exactly once, and a raw
    // frame means something this library cannot reason about.
    for request in [
        Request::EnterBootloader,
        Request::EraseApp {
            start_address: 0,
            size: 0,
        },
        Request::WriteApp {
            start_address: 0,
            data: Box::new([0; WRITE_APP_BLOCK]),
        },
        Request::ChecksumApp {
            start_address: 0,
            size: 0,
            checksum: 0,
        },
        Request::Reboot,
        Request::Raw { data: vec![0xE4] },
    ] {
        assert!(!request.is_retryable(), "{request:?} must not be retried");
    }
}

#[test]
fn replies_are_the_command_word_plus_one() {
    assert_eq!(Request::Electrical { channel: 0 }.reply_word(), Some(0xE5));
    assert_eq!(Request::WorkState { channel: 0 }.reply_word(), Some(0xE7));
    assert_eq!(Request::Reboot.reply_word(), Some(0xFD));
    assert_eq!(Request::Identify.reply_word(), None);
}

#[test]
fn a_name_pads_with_zeroes() {
    let data = Request::SetName { name: "hi".into() }.data();
    assert_eq!(data[0], 0xC0);
    assert_eq!(&data[1..3], b"hi");
    assert!(data[3..].iter().all(|b| *b == 0));
}
