use isdt_charger::ble::WriteChannel;
use isdt_charger::cli::{
    binding_label, bind_identifier, calibration_request, check_task, format_elapsed,
    last_connected, name_fits, parse_hex, parse_u32, plan_limits, presenting, rssi_text,
    shell_step, version, write_channel, HexError, LimitsError, LimitsPlan, Presenting, ShellStep,
    TaskCheck,
};
use isdt_charger::request::Request;
use isdt_charger::tokens::{parse, TokenError};
use isdt_charger::types::{BatteryKind, CalibrationMode, TaskType};

#[test]
fn elapsed_time_reads_as_hours_minutes_seconds() {
    assert_eq!(format_elapsed(0), "00:00:00");
    assert_eq!(format_elapsed(600), "00:10:00");
    assert_eq!(format_elapsed(3_723), "01:02:03");
    assert_eq!(format_elapsed(360_000), "100:00:00");
    assert_eq!(version(&[2, 4, 1, 9]), "2.4.1.9");
}

#[test]
fn addresses_parse_in_decimal_or_hex() {
    assert_eq!(parse_u32("134234112"), Ok(0x0800_4000));
    assert_eq!(parse_u32(" 0x08004000 "), Ok(0x0800_4000));
    assert_eq!(parse_u32("0XfF"), Ok(255));
    assert_eq!(parse_u32("+7"), Ok(7));
    assert_eq!(parse_u32(""), Err("cannot parse integer from empty string".to_string()));
    assert_eq!(parse_u32("0x"), Err("cannot parse integer from empty string".to_string()));
    assert_eq!(parse_u32("12a"), Err("invalid digit found in string".to_string()));
    assert_eq!(parse_u32("-1"), Err("invalid digit found in string".to_string()));
    assert_eq!(
        parse_u32("4294967296"),
        Err("number too large to fit in target type".to_string())
    );
    assert_eq!(parse_u32("4294967295"), Ok(u32::MAX));
    // The standard library agrees.
    assert_eq!(parse_u32("99x").unwrap_err(), "99x".parse::<u32>().unwrap_err().to_string());
}

#[test]
fn hex_bytes_ignore_separators() {
    assert_eq!(parse_hex("e4 00"), Ok(vec![0xE4, 0x00]));
    assert_eq!(parse_hex("E4:00,fc"), Ok(vec![0xE4, 0x00, 0xFC]));
    assert_eq!(parse_hex(""), Ok(vec![]));
    assert_eq!(parse_hex("e4 0"), Err(HexError::OddLength));
    assert_eq!(parse_hex("e4 zz"), Err(HexError::NotAByte("zz".to_string())));
    assert_eq!(parse_hex("+f"), Ok(vec![0x0F]));
    assert_eq!(parse_hex("-1"), Err(HexError::NotAByte("-1".to_string())));
}

#[test]
fn task_checks_follow_the_app() {
    assert_eq!(
        check_task(TaskType::Charge, BatteryKind::LiPo, 4, 1000, None, false),
        Ok(4200)
    );
    assert_eq!(
        check_task(TaskType::Charge, BatteryKind::NiMhCd, 4, 1000, None, false),
        Err(TaskCheck::NoVoltage)
    );
    assert_eq!(
        check_task(TaskType::Charge, BatteryKind::NiMhCd, 4, 1000, Some(1500), false),
        Ok(1500)
    );
    assert_eq!(
        check_task(TaskType::Charge, BatteryKind::LiPo, 4, 50, None, false),
        Err(TaskCheck::Current)
    );
    assert_eq!(
        check_task(TaskType::Charge, BatteryKind::LiPo, 1, 1000, None, false),
        Err(TaskCheck::Cells)
    );
    assert_eq!(check_task(TaskType::Charge, BatteryKind::LiPo, 1, 50, None, true), Ok(4200));
}

#[test]
fn limits_are_checked_and_converted() {
    assert_eq!(plan_limits(None, None), Ok(LimitsPlan::Read));
    assert_eq!(plan_limits(Some(12), None), Err(LimitsError::NotTogether));
    assert_eq!(plan_limits(Some(5), Some(200)), Err(LimitsError::Volt));
    assert_eq!(plan_limits(Some(12), Some(50)), Err(LimitsError::Power));
    assert_eq!(
        plan_limits(Some(12), Some(200)),
        Ok(LimitsPlan::Write { min_input_volt_mv: 12_000, max_input_power_mw: 200_000 })
    );
    // The cutoff travels as 16 bits, so 70 V wraps as it always has.
    assert_eq!(
        plan_limits(Some(70), Some(200)),
        Ok(LimitsPlan::Write { min_input_volt_mv: (70_000u32 % 65_536) as u16, max_input_power_mw: 200_000 })
    );
}

#[test]
fn calibration_takes_six_or_eight_cells() {
    let six = calibration_request(0, false, &vec![1, 2, 3, 4, 5, 6], 7, 8).unwrap();
    assert_eq!(
        six,
        Request::Calibrate6 {
            channel: 0,
            mode: CalibrationMode::Calibrate,
            cell_mv: [1, 2, 3, 4, 5, 6],
            input_mv: 7,
            output_mv: 8
        }
    );
    assert!(matches!(
        calibration_request(1, true, &vec![0; 8], 0, 0),
        Ok(Request::Calibrate8 { mode: CalibrationMode::RestoreDefaults, .. })
    ));
    assert_eq!(calibration_request(0, false, &vec![0; 7], 0, 0), Err(7));
}

#[test]
fn identifiers_come_from_the_most_specific_source() {
    let a = parse("9102782c5bfb5047a4533d071feb6eca").unwrap();
    let b = parse("00000000000000000000000000000001").unwrap();
    assert_eq!(presenting(true, Some(a), Some(b)), Presenting::Nothing);
    assert_eq!(presenting(false, Some(a), Some(b)), Presenting::Identifier(a));
    assert_eq!(presenting(false, None, Some(b)), Presenting::Identifier(b));
    assert_eq!(presenting(false, None, None), Presenting::Unknown);

    assert_eq!(
        bind_identifier(Some("9102782c5bfb5047a4533d071feb6eca"), None, Some(b)),
        Ok((a, false))
    );
    assert_eq!(bind_identifier(None, None, Some(b)), Ok((b, false)));
    assert!(bind_identifier(None, None, None).unwrap().1);
    assert_eq!(
        bind_identifier(Some("9102782c5bfb5047a4533d071feb6eca"), Some("bad"), None),
        Err(TokenError::BadToken("bad".to_string()))
    );
}

#[test]
fn the_prompt_reads_lines() {
    assert_eq!(shell_step("   "), ShellStep::Skip);
    assert_eq!(shell_step(" exit "), ShellStep::Leave);
    assert_eq!(shell_step("q"), ShellStep::Leave);
    assert_eq!(shell_step("quit"), ShellStep::Leave);
    assert_eq!(
        shell_step("  status -c 1 "),
        ShellStep::Run {
            text: "status -c 1".to_string(),
            words: vec!["status".to_string(), "-c".to_string(), "1".to_string()],
        }
    );
    assert_eq!(
        shell_step("exits"),
        ShellStep::Run { text: "exits".to_string(), words: vec!["exits".to_string()] }
    );
    assert_eq!(
        shell_step("name \"Bench charger\""),
        ShellStep::Run {
            text: "name \"Bench charger\"".to_string(),
            words: vec!["name".to_string(), "Bench charger".to_string()],
        }
    );
    assert_eq!(
        shell_step(" name \"Bench "),
        ShellStep::Unreadable {
            text: "name \"Bench".to_string(),
            error: "missing closing quote".to_string(),
        }
    );
}

#[test]
fn table_cells_read_as_the_tool_prints_them() {
    assert_eq!(binding_label(Some(true)), "waiting");
    assert_eq!(binding_label(Some(false)), "bound");
    assert_eq!(binding_label(None), "-");
    assert_eq!(rssi_text(Some(-67)), "-67");
    assert_eq!(rssi_text(Some(3)), "3");
    assert_eq!(rssi_text(None), "-");
    assert_eq!(last_connected(&vec![4100, 0, 4100, 0, 0]), 3);
    assert_eq!(last_connected(&vec![0, 0]), 0);
    assert!(name_fits("0123456789abcdef"));
    assert!(!name_fits("0123456789abcdefG"));
    assert!(!name_fits("ééééééééé"));
    assert_eq!(write_channel(true), WriteChannel::Wide);
    assert_eq!(write_channel(false), WriteChannel::Narrow);
}

#[test]
fn hex_pairs_utf8_bytes_of_wider_characters() {
    // "é" is two bytes in UTF-8: an even count, and a pair that is no byte.
    assert_eq!(parse_hex("é"), Err(HexError::NotAByte("é".to_string())));
    assert_eq!(parse_hex("e4 é 00"), Err(HexError::NotAByte("é".to_string())));
    // Three bytes in all: the digits do not pair up.
    assert_eq!(parse_hex("aé"), Err(HexError::OddLength));
    // A bad pair ends the reading before the wide character is reached.
    assert_eq!(parse_hex("zz é"), Err(HexError::NotAByte("zz".to_string())));
    // Pairs that would cut a character in two are reported, not a crash.
    assert_eq!(parse_hex("aéb"), Err(HexError::NotAByte("aé".to_string())));
    assert_eq!(parse_hex("€a"), Err(HexError::NotAByte("€".to_string())));
}
