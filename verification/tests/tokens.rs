use isdt_charger::tokens::{generate, parse, to_hex, Store, TokenError};

#[test]
fn parses_and_renders_a_token() {
    let id = parse("9102782c5bfb5047a4533d071feb6eca").unwrap();
    assert_eq!(id[0], 0x91);
    assert_eq!(id[15], 0xca);
    assert_eq!(to_hex(&id), "9102782c5bfb5047a4533d071feb6eca");
}

#[test]
fn ignores_separators_and_trailing_junk() {
    // The app stores its value with a trailing newline and only the first
    // 32 digits go on the wire.
    let plain = parse("9102782c5bfb5047a4533d071feb6eca").unwrap();
    assert_eq!(
        parse("9102782c-5bfb-5047-a453-3d071feb6eca").unwrap(),
        plain
    );
    assert_eq!(parse("9102782c5bfb5047a4533d071feb6eca\n").unwrap(), plain);
}

#[test]
fn rejects_a_short_token() {
    assert!(parse("dead").is_err());
    assert!(parse("").is_err());
}

#[test]
fn generated_tokens_differ() {
    assert_ne!(generate(), generate());
}

#[test]
fn round_trips_through_a_file() {
    // A missing file reads as empty rather than failing.
    assert!(Store::from_text("").is_empty());

    let mut store = Store::default();
    let token = parse("9102782c5bfb5047a4533d071feb6eca").unwrap();
    store.set("0d1952d6-dc9e-4121-ae9b-84f5489980f7", token);
    let text = store.to_text();

    let reloaded = Store::from_text(&text);
    assert_eq!(
        reloaded.get("0d1952d6-dc9e-4121-ae9b-84f5489980f7"),
        Some(token)
    );
    // The same fragment that selects the device also finds its token.
    assert_eq!(reloaded.get("0d1952d6"), Some(token));
    assert_eq!(reloaded.get("nothing"), None);
}

#[test]
fn an_ambiguous_fragment_matches_nothing() {
    let mut store = Store::default();
    store.set("aaaa-1111", [1u8; 16]);
    store.set("aaaa-2222", [2u8; 16]);
    assert_eq!(store.get("aaaa"), None);
    assert_eq!(store.get("aaaa-1111"), Some([1u8; 16]));
}

#[test]
fn a_bad_token_reports_the_text() {
    assert_eq!(parse("dead"), Err(TokenError::BadToken("dead".to_string())));
}

#[test]
fn a_saved_store_reads_back_the_same() {
    let mut store = Store::new();
    store.set("zz-peripheral", [0xAB; 16]);
    store.set("AA:BB:CC:DD:EE:FF", [0x01; 16]);
    let text = store.to_text();
    assert_eq!(
        text,
        "# ISDT client identifiers.\n\
         # One charger per line: <peripheral id> <32 hex digits>.\n\
         # A charger cannot tell you its token back, so keep this file.\n\
         AA:BB:CC:DD:EE:FF  01010101010101010101010101010101\n\
         zz-peripheral  abababababababababababababababab\n"
    );
    let back = Store::from_text(&text);
    let listed: Vec<(String, [u8; 16])> = back.iter();
    assert_eq!(
        listed,
        vec![
            ("AA:BB:CC:DD:EE:FF".to_string(), [0x01; 16]),
            ("zz-peripheral".to_string(), [0xAB; 16])
        ]
    );
}

#[test]
fn loading_skips_comments_blank_and_corrupt_lines() {
    let text = "# comment\n\n   \nonly-one-word\nbad  1234\n  dev-1   9102782c5bfb5047a4533d071feb6eca  trailing\r\ndev-2 00000000000000000000000000000001";
    let store = Store::from_text(text);
    let listed = store.iter();
    assert_eq!(listed.len(), 2);
    assert_eq!(listed[0].0, "dev-1");
    assert_eq!(to_hex(&listed[0].1), "9102782c5bfb5047a4533d071feb6eca");
    assert_eq!(listed[1].0, "dev-2");
    assert_eq!(listed[1].1[15], 1);
}

#[test]
fn a_later_line_replaces_an_earlier_one() {
    let text = "dev  00000000000000000000000000000001\ndev  00000000000000000000000000000002\n";
    let store = Store::from_text(text);
    assert_eq!(store.get("dev").unwrap()[15], 2);
    assert_eq!(store.iter().len(), 1);
}

#[test]
fn setting_twice_keeps_one_entry_and_the_last_token() {
    let mut store = Store::new();
    assert!(store.is_empty());
    store.set("b", [1; 16]);
    store.set("a", [2; 16]);
    store.set("b", [3; 16]);
    assert!(!store.is_empty());
    assert_eq!(
        store.iter(),
        vec![("a".to_string(), [2; 16]), ("b".to_string(), [3; 16])]
    );
}

#[test]
fn fragments_match_ignoring_ascii_case() {
    let mut store = Store::new();
    store.set("0D1952D6-DC9E", [7; 16]);
    assert_eq!(store.get("0d1952"), Some([7; 16]));
    assert_eq!(store.get("DC9E"), Some([7; 16]));
    assert_eq!(store.get("zzz"), None);
}

#[test]
fn generated_tokens_are_version_four() {
    let id = generate();
    assert_eq!(id[6] & 0xF0, 0x40);
    assert_eq!(id[8] & 0xC0, 0x80);
}
