use isdt_charger::response::{HardwareInfo, Response};
use isdt_charger::session::{Command, Found, Reading, Status, TaskCommand, Update};
use isdt_charger::types::{BatteryKind, ChargerState, TaskType};
use isdt_charger::window::{
    badge, cells_heading, controls, discovery_status, firmware_text, found_detail, offers_bind,
    offers_connect, short, state_line, subtitle, tab_dot, DeviceView, Dot, WindowState,
};

fn info() -> HardwareInfo {
    HardwareInfo {
        device_id: *b"CM1620\0\0",
        hardware_version: [1, 0, 0, 2],
        bootloader_version: [1, 1, 0, 3],
        firmware_version: [2, 4, 1, 9],
        device_name: None,
        part_number: None,
    }
}

fn work_reading(state: u8) -> Reading {
    let mut data = vec![0xE7, 0x00, state, 0x2A];
    data.extend_from_slice(&1_234u32.to_le_bytes());
    data.extend_from_slice(&18_500u32.to_le_bytes());
    data.extend_from_slice(&600_000u32.to_le_bytes());
    data.push(3); // LiFe
    data.push(6);
    data.push(3);
    data.extend_from_slice(&3_600u16.to_le_bytes());
    data.extend_from_slice(&2_500u32.to_le_bytes());
    data.extend_from_slice(&1u16.to_le_bytes());
    data.extend_from_slice(&1u16.to_le_bytes());
    data.extend_from_slice(&10_000u16.to_le_bytes());
    data.extend_from_slice(&200_000u32.to_le_bytes());
    let Some(Response::WorkState(w)) = Response::parse(&data) else {
        panic!("expected a work state frame");
    };
    let mut reading = Reading::default();
    reading.work = Some(*w);
    reading
}

#[test]
fn the_first_charger_takes_the_foreground() {
    let mut window = WindowState::new();
    assert!(window.discovering);
    window.apply(Update::Status("a".to_string(), Status::Connecting));
    assert_eq!(window.devices.len(), 1);
    assert_eq!(window.selected, 0);
    assert!(!window.discovering);
    assert_eq!(window.devices[0].label, "Charger");
    window.apply(Update::Status(
        "a".to_string(),
        Status::Connected { info: Box::new(info()), label: "Bench".to_string() },
    ));
    assert_eq!(window.devices.len(), 1);
    assert_eq!(window.devices[0].label, "Bench");
    assert_eq!(window.devices[0].firmware, "CM1620 firmware 2.4.1.9");
    assert!(window.devices[0].connected());
}

#[test]
fn closing_the_last_charger_opens_discovery() {
    let mut window = WindowState::new();
    window.apply(Update::Status("a".to_string(), Status::Connecting));
    window.apply(Update::Notice("b".to_string(), "hello".to_string()));
    window.selected = 1;
    window.apply(Update::Status("b".to_string(), Status::Closed));
    assert_eq!(window.devices.len(), 1);
    assert_eq!(window.selected, 0);
    assert!(!window.discovering);
    window.apply(Update::Status("a".to_string(), Status::Closed));
    assert!(window.devices.is_empty());
    assert_eq!(window.selected, 0);
    assert!(window.discovering);
}

#[test]
fn the_controls_follow_a_running_task() {
    let mut window = WindowState::new();
    window.apply(Update::Reading("a".to_string(), Box::new(work_reading(0))));
    assert_eq!(window.devices[0].battery, BatteryKind::LiPo);
    window.apply(Update::Reading("a".to_string(), Box::new(work_reading(3))));
    assert_eq!(window.devices[0].battery, BatteryKind::LiFe);
    assert_eq!(window.devices[0].cells, 6);
    assert_eq!(window.devices[0].current_ma, 2_500);
    assert!(window.devices[0].running());
}

#[test]
fn starting_a_task_uses_the_chemistrys_voltage() {
    let mut window = WindowState::new();
    assert!(window.start(TaskType::Charge).is_none());
    window.apply(Update::Status("a".to_string(), Status::Connecting));
    match window.start(TaskType::Storage) {
        Some(Command::Task(id, TaskCommand::Start { volt_mv, battery, cells, current_ma, .. })) => {
            assert_eq!(id, "a");
            assert_eq!(battery, BatteryKind::LiPo);
            assert_eq!(volt_mv, 3800);
            assert_eq!(cells, 4);
            assert_eq!(current_ma, 1000);
        }
        other => panic!("unexpected {other:?}"),
    }
    window.devices[0].battery = BatteryKind::NiMhCd;
    assert!(window.start(TaskType::Charge).is_none());
    assert_eq!(
        window.devices[0].notice.as_deref(),
        Some("NiMH/Cd has no target voltage for that task")
    );
}

#[test]
fn messages_and_scans_are_recorded() {
    let mut window = WindowState::new();
    window.apply(Update::Scanning(true));
    assert!(window.scanning);
    window.apply(Update::Message("no adapter".to_string()));
    assert_eq!(window.message.as_deref(), Some("no adapter"));
    window.apply(Update::Found(Vec::new()));
    assert!(window.found.is_empty());
    assert_eq!(firmware_text(&info()), "CM1620 firmware 2.4.1.9");
    assert_eq!(DeviceView::new("x".to_string()).current_ma, 1000);
}

#[test]
fn scan_rows_carry_the_right_badge_and_buttons() {
    let mut f = Found {
        id: "a".to_string(),
        name: "Bench".to_string(),
        model: "CM1620".to_string(),
        binding_mode: Some(true),
        rssi: Some(-61),
        known: true,
        connected: false,
    };
    assert_eq!(badge(&f), "waiting to bind");
    assert!(offers_bind(&f));
    assert!(offers_connect(&f));
    assert_eq!(found_detail(&f), "CM1620 · -61 dBm");
    f.binding_mode = Some(false);
    assert_eq!(badge(&f), "known");
    assert!(!offers_bind(&f));
    f.known = false;
    assert_eq!(badge(&f), "not bound");
    f.binding_mode = None;
    f.model = String::new();
    f.rssi = None;
    assert_eq!(badge(&f), "name unreadable");
    assert_eq!(found_detail(&f), "-");
    f.connected = true;
    assert_eq!(badge(&f), "connected");
    assert!(!offers_bind(&f));
    assert!(!offers_connect(&f));
}

#[test]
fn controls_and_state_follow_the_charger() {
    let mut d = DeviceView::new("0d1952d6-dc9e".to_string());
    assert_eq!(tab_dot(&d), Dot::Connecting);
    assert_eq!(subtitle(&d), "connecting");
    let c = controls(&d);
    assert!(!c.start && !c.stop && !c.locked);
    let line = state_line(&d);
    assert_eq!(line.state, ChargerState::Standby);
    assert_eq!(line.elapsed, "--:--:--");
    assert_eq!(line.faults, None);
    d.status = Status::Connected { info: Box::new(info()), label: "x".to_string() };
    d.firmware = "CM1620 firmware 2.4.1.9".to_string();
    assert_eq!(subtitle(&d), "CM1620 firmware 2.4.1.9");
    assert_eq!(tab_dot(&d), Dot::Idle);
    assert!(controls(&d).start);
    d.reading = work_reading(3);
    assert_eq!(tab_dot(&d), Dot::Running);
    let c = controls(&d);
    assert!(!c.start && c.stop && c.locked);
    let line = state_line(&d);
    assert_eq!(line.percent, 42);
    assert_eq!(line.elapsed, "00:10:00");
    assert_eq!(cells_heading(0), "No cells detected");
    assert_eq!(cells_heading(4), "4 cells");
    assert_eq!(discovery_status(true, 3), "scanning");
    assert_eq!(discovery_status(false, 3), "3 found");
    assert_eq!(short("0d1952d6-dc9e"), "0d1952d6");
    assert_eq!(short("plain"), "plain");
}
