use isdt_charger::ble::Discovered;
use isdt_charger::client::ClientError;
use isdt_charger::link::LinkError;
use isdt_charger::request::Request;
use isdt_charger::response::Response;
use isdt_charger::session::{
    absorb, charger_poll_cycle, display_name, found_entry, is_fatal, task_request, task_voltage,
    verb, Action, Command, PollStep, Poller, Reading, Supervisor, TaskCommand, Update,
};
use isdt_charger::tokens::Store;
use isdt_charger::types::{BatteryKind, LinkType, TaskType};

fn device(id: &str, name: Option<&str>) -> Discovered {
    Discovered { id: id.to_string(), name: name.map(|n| n.to_string()), rssi: Some(-50) }
}

#[test]
fn readings_accumulate_one_packet_at_a_time() {
    let mut reading = Reading::default();
    absorb(&mut reading, Response::parse(&[0xE9, 0x00, 0xF8, 0x1A, 0x32]).unwrap());
    assert_eq!(reading.temperature.unwrap().battery_c, 26);
    assert!(reading.electrical.is_none());
    absorb(&mut reading, Response::RebootAck);
    assert_eq!(reading.temperature.unwrap().battery_c, 26);
    assert!(reading.work.is_none());
}

#[test]
fn only_a_lost_link_is_fatal() {
    assert!(is_fatal(&ClientError::Link(LinkError::Closed)));
    assert!(is_fatal(&ClientError::Link(LinkError::Transport("gone".to_string()))));
    assert!(!is_fatal(&ClientError::BindRefused));
    assert!(!is_fatal(&ClientError::Link(LinkError::Frame(
        isdt_charger::frame::FrameError::TooLong(300)
    ))));
}

#[test]
fn the_window_polls_without_the_limits_query() {
    let words: Vec<u8> = charger_poll_cycle().iter().map(Request::command_word).collect();
    assert_eq!(words, vec![0xE4, 0xE8, 0xE6, 0xFA, 0xFA]);
}

#[test]
fn task_commands_go_out_on_channel_zero_with_a_serial_link() {
    let start = TaskCommand::Start {
        task: TaskType::Charge,
        battery: BatteryKind::LiPo,
        cells: 4,
        current_ma: 1000,
        volt_mv: 4200,
    };
    assert_eq!(
        task_request(start),
        Request::SetTask {
            channel: 0,
            task: TaskType::Charge,
            battery: BatteryKind::LiPo,
            link: LinkType::SerialOnly,
            work_current_ma: 1000,
            cell_count: 4,
            full_charged_volt_mv: 4200,
        }
    );
    assert_eq!(verb(TaskType::Storage), "storing");
    assert_eq!(task_voltage(TaskType::Storage, BatteryKind::LiFe), Some(3300));
    assert_eq!(task_voltage(TaskType::Charge, BatteryKind::NiMhCd), None);
}

#[test]
fn a_found_charger_shows_its_owners_name() {
    let entry = found_entry(&device("id-1", Some("ISDT1CM1620  Bench")), true, false);
    assert_eq!(entry.name, "Bench");
    assert_eq!(entry.model, "CM1620");
    assert_eq!(entry.binding_mode, Some(true));
    assert!(entry.known);
    assert!(!entry.connected);
    let blank = found_entry(&device("id-2", Some("ISDT0CM1620  ")), false, true);
    assert_eq!(blank.name, "ISDT0CM1620  ");
    let plain = found_entry(&device("id-3", None), false, false);
    assert_eq!(plain.name, "id-3");
    assert_eq!(plain.model, "");
    assert_eq!(plain.binding_mode, None);
    assert_eq!(display_name(&device("id-4", Some("Headphones"))), "Headphones");
}

#[test]
fn the_supervisor_binds_connects_and_forwards() {
    let mut sup = Supervisor::new(Store::new());
    assert!(matches!(sup.command(Command::Scan), Action::Scan));
    // Nothing has been seen yet.
    match sup.command(Command::Bind("id-1".to_string())) {
        Action::Report(Update::Message(m)) => {
            assert_eq!(m, "that charger is no longer in the scan results; scan again")
        }
        other => panic!("unexpected {other:?}"),
    }
    let found = sup.scanned(vec![device("id-1", Some("ISDT1CM1620  Bench"))]);
    assert_eq!(found.len(), 1);
    assert!(!found[0].known);
    match sup.command(Command::Connect("id-1".to_string())) {
        Action::Report(Update::Notice(id, m)) => {
            assert_eq!(id, "id-1");
            assert_eq!(m, "no identifier stored for this charger; bind it first");
        }
        other => panic!("unexpected {other:?}"),
    }
    let Action::Bind(d, client_id) = sup.command(Command::Bind("id-1".to_string())) else {
        panic!("expected a bind");
    };
    assert_eq!(d.id, "id-1");
    sup.bound("id-1", client_id);
    let Action::Connect(_, again) = sup.command(Command::Connect("id-1".to_string())) else {
        panic!("expected a connect");
    };
    assert_eq!(again, client_id);
    // A rebind reuses the stored identifier.
    let Action::Bind(_, rebound) = sup.command(Command::Bind("id-1".to_string())) else {
        panic!("expected a bind");
    };
    assert_eq!(rebound, client_id);
    assert!(matches!(
        sup.command(Command::Task("id-1".to_string(), TaskCommand::Stop)),
        Action::Ignore
    ));
    sup.went_live("id-1".to_string());
    sup.went_live("id-1".to_string());
    assert_eq!(sup.live.len(), 1);
    assert!(matches!(
        sup.command(Command::Task("id-1".to_string(), TaskCommand::Stop)),
        Action::Forward(_, TaskCommand::Stop)
    ));
    let found = sup.scanned(vec![device("id-1", None)]);
    assert!(found[0].known && found[0].connected);
    assert!(matches!(sup.command(Command::Disconnect("id-1".to_string())), Action::Close(_)));
    sup.gone("id-1");
    assert!(sup.live.is_empty());
}

#[test]
fn polling_snapshots_once_per_pass() {
    let mut poller = Poller::new();
    assert_eq!(poller.cycle.len(), 5);
    let mut snapshots = 0;
    for turn in 0..10 {
        let i = poller.take_turn();
        assert_eq!(i, turn % 5);
        if poller.on_reply(Response::RebootAck) {
            snapshots += 1;
        }
    }
    assert_eq!(snapshots, 2);
    assert_eq!(Poller::on_error(&ClientError::Link(LinkError::Closed)), PollStep::Lost);
    assert_eq!(Poller::on_error(&ClientError::BindRefused), PollStep::Continue);
}
