use isdt_charger::frame::{chunk, encode, encode_to, Decoder, FrameError, ADDR_TO_HOST};

#[test]
fn encodes_the_electrical_query_the_app_sends() {
    // IsdtPackBleElecQueryReq for channel 0.
    assert_eq!(
        encode(&[0xE4, 0x00]).unwrap(),
        vec![0xAA, 0x12, 0x02, 0xE4, 0x00, 0xF8]
    );
}

#[test]
fn encodes_every_fixed_request_with_the_apps_checksum() {
    // Each expected checksum is the literal the decompiled app carries.
    let cases: [(&[u8], u8); 6] = [
        (&[0xE6, 0x00], 0xFA), // work state
        (&[0xE8, 0x00], 0xFC), // temperature
        (&[0xFA, 0x00], 0x0E), // inner resistance
        (&[0xE0], 0xF3),       // hardware info
        (&[0xE2], 0xF5),       // limit parameters
        (&[0xFC, 0xCA], 0xDA), // reboot
    ];
    for (data, checksum) in cases {
        let frame = encode(data).unwrap();
        assert_eq!(*frame.last().unwrap(), checksum, "data {data:02X?}");
    }
}

#[test]
fn stuffs_a_literal_sync_byte() {
    // 0xAA anywhere after the opening sync byte is doubled.
    let frame = encode(&[0xAA, 0x01]).unwrap();
    assert_eq!(frame[..4], [0xAA, 0x12, 0x02, 0xAA]);
    assert_eq!(frame[4], 0xAA);
    assert_eq!(frame[5], 0x01);
}

#[test]
fn round_trips_through_the_decoder() {
    let payload = [0xE7u8, 0x00, 0xAA, 0x12, 0xAA, 0xAA];
    let frame = encode_to(ADDR_TO_HOST, &payload).unwrap();
    let mut decoder = Decoder::new();
    assert_eq!(decoder.push(&frame), vec![payload.to_vec()]);
}

#[test]
fn reassembles_a_frame_split_across_notifications() {
    let payload: Vec<u8> = (0u8..40).collect();
    let frame = encode_to(ADDR_TO_HOST, &payload).unwrap();
    let mut decoder = Decoder::new();
    let mut out = Vec::new();
    for packet in chunk(&frame, 20) {
        out.extend(decoder.push_notification(&packet));
    }
    assert_eq!(out, vec![payload]);
}

#[test]
fn rejects_a_frame_with_a_bad_checksum() {
    let mut frame = encode_to(ADDR_TO_HOST, &[0xE7, 0x00]).unwrap();
    *frame.last_mut().unwrap() ^= 0xFF;
    assert!(Decoder::new().push(&frame).is_empty());
}

#[test]
fn resynchronises_after_garbage() {
    let frame = encode_to(ADDR_TO_HOST, &[0xE9, 0x00, 0x1A, 0x1B, 0x40]).unwrap();
    let mut stream = vec![0x00, 0x01, 0x02, 0xAA, 0x99];
    stream.extend_from_slice(&frame);
    let mut decoder = Decoder::new();
    assert_eq!(
        decoder.push(&stream),
        vec![vec![0xE9, 0x00, 0x1A, 0x1B, 0x40]]
    );
}

#[test]
fn short_frames_stay_in_one_write() {
    let frame = encode(&[0xE4, 0x00]).unwrap();
    assert_eq!(chunk(&frame, 20).len(), 1);
}

#[test]
fn long_frames_split_on_the_small_mtu_only() {
    let frame = encode(&[0x11; 60]).unwrap();
    assert!(chunk(&frame, 20).len() > 1);
    assert_eq!(chunk(&frame, 160).len(), 1);
}

#[test]
fn an_oversized_payload_is_refused() {
    assert_eq!(encode(&[0u8; 256]), Err(FrameError::TooLong(256)));
    assert!(encode(&[0u8; 255]).is_ok());
}

#[test]
fn chunks_carry_a_length_prefix() {
    let frame: Vec<u8> = (0u8..30).collect();
    let parts = chunk(&frame, 20);
    assert_eq!(parts.len(), 2);
    assert_eq!(parts[0][0] as usize, parts[0].len() - 1);
    let joined: Vec<u8> = parts.iter().flat_map(|p| p[1..].to_vec()).collect();
    assert_eq!(joined, frame);
}

#[test]
fn long_frames_are_cut_to_the_budget_on_wide_channels_too() {
    let frame: Vec<u8> = (0..300u32).map(|i| (i % 251) as u8).collect();
    let parts = chunk(&frame, 160);
    assert_eq!(parts.len(), 2);
    assert_eq!(parts[0][0], 159);
    assert_eq!(parts[0].len(), 160);
    assert_eq!(parts[1][0], 141);
    let joined: Vec<u8> = parts.iter().flat_map(|p| p[1..].to_vec()).collect();
    assert_eq!(joined, frame);
}

#[test]
fn a_frame_for_another_address_yields_nothing() {
    let payload = vec![0xE7, 0x00, 0x12];
    let frame = encode_to(0x21, &payload).unwrap();
    assert!(Decoder::with_address(0x12).push(&frame).is_empty());
    assert_eq!(Decoder::with_address(0x21).push(&frame), vec![payload]);
}
