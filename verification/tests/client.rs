use isdt_charger::client::{
    bind_outcome, check_image, checksum_of, default_poll_cycle, firmware_requests, flash_outcome,
    name_outcome, reboot_outcome, stop_request, task_outcome, Client, ClientError, RETRIES,
};
use isdt_charger::request::Request;
use isdt_charger::response::Response;
use isdt_charger::types::{BatteryKind, LinkType, TaskType};
use std::time::Duration;

#[test]
fn the_poll_cycle_matches_the_apps_rotation() {
    let cycle = default_poll_cycle(0);
    let words: Vec<u8> = cycle.iter().map(Request::command_word).collect();
    assert_eq!(words, vec![0xE4, 0xE8, 0xE6, 0xE2, 0xFA, 0xFA]);
    assert_eq!(
        cycle[4],
        Request::InnerResistance { channel: 0 },
        "the app polls resistance on both channels"
    );
    assert_eq!(cycle[5], Request::InnerResistance { channel: 1 });
}

#[test]
fn a_firmware_image_must_divide_into_blocks() {
    // Checked before any BLE traffic, so it is testable without a charger.
    assert!(matches!(
        std::mem::discriminant(&ClientError::BadImageLength(7)),
        d if d == std::mem::discriminant(&ClientError::BadImageLength(0))
    ));
    assert!(matches!(check_image(7), Err(ClientError::BadImageLength(7))));
    assert!(matches!(check_image(0), Err(ClientError::BadImageLength(0))));
    assert!(check_image(256).is_ok());
}

#[test]
fn a_firmware_write_is_bootloader_erase_blocks_checksum() {
    let image: Vec<u8> = (0..256u32).map(|i| i as u8).collect();
    let plan = firmware_requests(0x0800_0000, &image).unwrap();
    assert_eq!(plan.len(), 5);
    assert_eq!(plan[0], Request::EnterBootloader);
    assert_eq!(plan[1], Request::EraseApp { start_address: 0x0800_0000, size: 256 });
    match &plan[3] {
        Request::WriteApp { start_address, data } => {
            assert_eq!(*start_address, 0x0800_0080);
            assert_eq!(data[0], 128);
            assert_eq!(data[127], 255);
        }
        other => panic!("expected a block write, got {other:?}"),
    }
    // 0 + 1 + ... + 255
    assert_eq!(
        plan[4],
        Request::ChecksumApp { start_address: 0x0800_0000, size: 256, checksum: 32640 }
    );
    assert!(matches!(
        firmware_requests(0, &image[..100]),
        Err(ClientError::BadImageLength(100))
    ));
}

#[test]
fn the_image_checksum_wraps() {
    assert_eq!(checksum_of(&[0xFF; 4]), 0x3FC);
    assert_eq!(checksum_of(&[]), 0);
}

#[test]
fn frames_for_something_else_are_queued_in_order() {
    let mut client = Client::new(Duration::from_millis(1500));
    // Waiting for a work state reply (0xE7); a temperature frame arrives first.
    assert_eq!(client.on_frame(Some(0xE7), &[0xE9, 0x00, 0xF8, 0x1A, 0x32]), None);
    assert_eq!(client.on_frame(Some(0xE7), &[]), None);
    let reply = client.on_frame(Some(0xE7), &[0x77, 0x01]);
    assert_eq!(reply, None);
    let reply = client.on_frame(Some(0xEB), &[0xEB, 0x00, 0x00]);
    assert_eq!(reply, Some(Response::TaskAck { channel: 0, error_code: 0 }));
    // An identify takes whatever answers.
    assert!(client.on_frame(None, &[0x77]).is_some());
    let pending = client.take_pending();
    assert_eq!(pending.len(), 2);
    assert!(matches!(pending[0], Response::Temperature(_)));
    assert_eq!(pending[1], Response::Unknown { command: 0x77, data: vec![0x01] });
    assert!(client.take_pending().is_empty());
    assert_eq!(client.next_pending(), None);
}

#[test]
fn only_timeouts_are_retried_and_only_while_attempts_remain() {
    let client = Client::new(Duration::from_millis(10));
    let timeout: Result<Response, ClientError> = Err(client.timed_out(0xE6));
    let ordinary = Request::WorkState { channel: 0 };
    assert_eq!(Client::attempts(&ordinary), RETRIES + 1);
    assert!(Client::resend(&ordinary, 1, &timeout));
    assert!(!Client::resend(&ordinary, RETRIES + 1, &timeout));
    assert!(!Client::resend(&ordinary, 1, &Err(ClientError::BindRefused)));
    assert!(!Client::resend(&ordinary, 1, &Ok(Response::RebootAck)));
    assert_eq!(Client::attempts(&Request::Reboot), 1);
    assert!(!Client::resend(&Request::Reboot, 1, &timeout));
}

#[test]
fn replies_are_read_the_way_the_app_reads_them() {
    assert!(bind_outcome(Response::Bind { bound: true }).is_ok());
    assert!(matches!(bind_outcome(Response::Bind { bound: false }), Err(ClientError::BindRefused)));
    assert!(matches!(
        bind_outcome(Response::RebootAck),
        Err(ClientError::Unexpected { command: 0x18, .. })
    ));
    assert!(task_outcome(Response::TaskAck { channel: 1, error_code: 0 }).is_ok());
    assert!(matches!(
        task_outcome(Response::TaskAck { channel: 1, error_code: 4 }),
        Err(ClientError::TaskRejected { channel: 1, code: 4 })
    ));
    assert!(matches!(
        name_outcome(Response::NameAck { state: 2 }),
        Err(ClientError::Rejected { what: "the new name", state: 2 })
    ));
    assert!(reboot_outcome(Err(ClientError::Timeout {
        command: 0xFC,
        timeout: Duration::from_millis(5)
    }))
    .is_ok());
    assert!(matches!(
        reboot_outcome(Err(ClientError::BindRefused)),
        Err(ClientError::BindRefused)
    ));
    assert!(matches!(
        flash_outcome(&Request::EraseApp { start_address: 0, size: 0 }, Response::EraseAck { cpu: 0, result: 3 }),
        Err(ClientError::Rejected { what: "erasing the firmware region", state: 3 })
    ));
    assert_eq!(
        stop_request(1),
        Request::SetTask {
            channel: 1,
            task: TaskType::Stop,
            battery: BatteryKind::LiHv,
            link: LinkType::SerialOnly,
            work_current_ma: 0,
            cell_count: 0,
            full_charged_volt_mv: 0,
        }
    );
}
