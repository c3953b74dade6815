use isdt_charger::ble::{
    choose_write, keep_peripheral, order_by_signal, pick, Discovered, IsdtName, WriteChannel,
    WriteSetup, CHAR_FFF6, CHAR_FFF7, MTU_SMALL, MTU_WIDE,
};

#[test]
fn reads_a_charger_waiting_to_be_bound() {
    let parsed = IsdtName::parse("ISDT1CM1620  Bench").unwrap();
    assert!(parsed.binding_mode);
    assert_eq!(parsed.model, "CM1620");
    assert_eq!(parsed.name, "Bench");
}

/// The shape a CM1620 actually advertises: the tag is wrapped inside the
/// Bluetooth module's own name rather than starting at offset zero.
#[test]
fn reads_a_tag_wrapped_in_another_string() {
    let parsed = IsdtName::parse("Phy BLE-Uart [ISDT0CM1620  Bench]").unwrap();
    assert!(!parsed.binding_mode);
    assert_eq!(parsed.model, "CM1620");
    assert_eq!(parsed.name, "Bench");
}

#[test]
fn ignores_a_name_with_no_tag_or_too_little_of_one() {
    assert_eq!(IsdtName::parse("Some Headphones"), None);
    assert_eq!(IsdtName::parse("ISDT1CM"), None);
}

#[test]
fn exactly_thirteen_characters_leave_an_empty_owner_name() {
    let parsed = IsdtName::parse("ISDT1CM1620  ").unwrap();
    assert!(parsed.binding_mode);
    assert_eq!(parsed.model, "CM1620");
    assert_eq!(parsed.name, "");
    assert_eq!(IsdtName::parse("ISDT1CM1620 "), None);
}

#[test]
fn trailing_brackets_of_every_kind_are_dropped() {
    let parsed = IsdtName::parse("<(ISDT2CM1620  My Pack )>]").unwrap();
    assert!(!parsed.binding_mode);
    assert_eq!(parsed.name, "My Pack");
}

#[test]
fn the_wide_channel_falls_back_to_the_narrow_one() {
    assert_eq!(
        choose_write(WriteChannel::Wide, true, true),
        Ok(WriteSetup { characteristic: CHAR_FFF7, mtu: MTU_WIDE })
    );
    assert_eq!(
        choose_write(WriteChannel::Wide, false, true),
        Ok(WriteSetup { characteristic: CHAR_FFF6, mtu: MTU_SMALL })
    );
    assert_eq!(choose_write(WriteChannel::Wide, false, false), Err(CHAR_FFF7));
    assert_eq!(
        choose_write(WriteChannel::Narrow, true, true),
        Ok(WriteSetup { characteristic: CHAR_FFF6, mtu: MTU_SMALL })
    );
    assert_eq!(WriteChannel::default(), WriteChannel::Narrow);
    assert_eq!(WriteChannel::Handshake.mtu(), 140);
}

#[test]
fn a_scan_keeps_the_service_or_the_tag() {
    assert!(keep_peripheral(true, None));
    assert!(keep_peripheral(false, Some("Phy isdt thing")));
    assert!(!keep_peripheral(false, Some("Headphones")));
    assert!(!keep_peripheral(false, None));
}

#[test]
fn a_charger_matches_on_its_identifier_or_its_name() {
    let device = Discovered {
        id: "0D1952D6-DC9E".to_string(),
        name: Some("ISDT0CM1620  Bench".to_string()),
        rssi: Some(-60),
    };
    assert!(device.matches("0d19"));
    assert!(device.matches("BENCH"));
    assert!(!device.matches("garage"));
    assert_eq!(device.label(), "ISDT0CM1620  Bench");
    assert_eq!(device.isdt_name().unwrap().name, "Bench");
    let nameless = Discovered { id: "AA".to_string(), name: None, rssi: None };
    assert_eq!(nameless.label(), "AA");
    assert_eq!(nameless.isdt_name(), None);
}

#[test]
fn the_strongest_signal_comes_first_and_ties_keep_their_order() {
    let d = |id: &str, rssi: Option<i16>| Discovered { id: id.to_string(), name: None, rssi };
    let ordered = order_by_signal(vec![
        d("a", Some(-80)),
        d("b", None),
        d("c", Some(-40)),
        d("d", Some(-80)),
        d("e", Some(-60)),
    ]);
    let ids: Vec<&str> = ordered.iter().map(|x| x.id.as_str()).collect();
    assert_eq!(ids, vec!["c", "e", "a", "d", "b"]);
    assert_eq!(pick(&ordered, None), Some(0));
    assert_eq!(pick(&ordered, Some("D")), Some(3));
    assert_eq!(pick(&ordered, Some("zz")), None);
    assert_eq!(pick(&Vec::new(), None), None);
}
