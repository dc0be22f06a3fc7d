use electricui_cli::{
    build_request, build_request_into, parse_id_list, OwnedMessageId, Packet, PacketError, WireType,
};

const MSG_F32_RAW: [u8; 12] = [
    0x04, 0x2c, 0x03, 0x61, 0x62, 0x63, 0x14, 0xAE, 0x29, 0x42, 0x8B, 0x1D,
];

const MSG_I8_RAW: [u8; 9] = [0x01, 0x14, 0x63, 0x61, 0x62, 0x63, 0x2A, 0xB8, 0xA3];

#[test]
fn build_request_matches_known_packet() {
    let p = build_request(b"abc", WireType::F32, false, false, &[0x14, 0xAE, 0x29, 0x42]).unwrap();
    assert_eq!(p.as_bytes(), &MSG_F32_RAW[..]);
}

#[test]
fn build_request_sets_flags() {
    let p = build_request(b"h", WireType::U8, true, true, &[5]).unwrap();
    assert_eq!(p.data_length(), 1);
    assert_eq!(p.typ(), WireType::U8);
    assert!(p.internal());
    assert!(!p.offset());
    assert_eq!(p.id_length_raw(), 1);
    assert!(p.response());
    assert_eq!(p.acknum(), 0);
    assert_eq!(p.msg_id().unwrap().as_bytes(), b"h");
    assert_eq!(p.payload().unwrap(), vec![5]);
    assert!(Packet::new(p.into_inner()).is_ok());
}

#[test]
fn build_request_rejects_bad_fields() {
    assert_eq!(
        build_request(b"", WireType::U8, true, true, &[]).unwrap_err(),
        PacketError::InvalidMessageIdLength
    );
    assert_eq!(
        build_request(&[1u8; 16], WireType::U8, true, true, &[]).unwrap_err(),
        PacketError::InvalidMessageIdLength
    );
    assert_eq!(
        build_request(b"a", WireType::U8, true, true, &[0u8; 1024]).unwrap_err(),
        PacketError::InvalidDataLength
    );
    assert_eq!(
        build_request(b"a", WireType::Unknown(16), true, true, &[]).unwrap_err(),
        PacketError::InvalidType
    );
    assert!(build_request(b"a", WireType::U8, true, true, &[0u8; 1023]).is_ok());
}

#[test]
fn packet_fields_of_known_packet() {
    let p = Packet::new(MSG_I8_RAW.to_vec()).unwrap();
    assert_eq!(p.data_length(), 1);
    assert_eq!(p.typ(), WireType::I8);
    assert!(!p.internal());
    assert!(!p.offset());
    assert_eq!(p.id_length_raw(), 3);
    assert!(!p.response());
    assert_eq!(p.acknum(), 3);
    assert_eq!(p.msg_id().unwrap().as_bytes(), b"abc");
    assert_eq!(p.payload().unwrap(), vec![0x2A]);
}

#[test]
fn packet_validation_errors() {
    assert_eq!(Packet::new(vec![0xFF; 2]).unwrap_err(), PacketError::MissingHeader);
    assert_eq!(Packet::new(vec![0xFF; 4]).unwrap_err(), PacketError::MissingChecksum);
    assert_eq!(
        Packet::new(vec![0x04, 0x2c, 0x03, 0xFF, 0xFF]).unwrap_err(),
        PacketError::IncompletePayload
    );
    let mut bad = MSG_I8_RAW.to_vec();
    bad[8] = 0xA4;
    assert_eq!(Packet::new(bad).unwrap_err(), PacketError::InvalidChecksum);
    let mut no_id = MSG_I8_RAW.to_vec();
    no_id[2] &= !0x0F;
    assert_eq!(Packet::new(no_id).unwrap_err(), PacketError::InvalidMessageIdLength);
}

#[test]
fn zero_id_is_not_a_message_id() {
    let p = build_request(&[0], WireType::Custom, false, false, &[]).unwrap();
    assert_eq!(p.msg_id().unwrap_err(), PacketError::InvalidMessageId);
}

#[test]
fn message_id_rules() {
    assert!(OwnedMessageId::new(&[]).is_none());
    assert!(OwnedMessageId::new(&[0]).is_none());
    assert!(OwnedMessageId::new(&[1u8; 16]).is_none());
    let id = OwnedMessageId::new(b"name").unwrap();
    assert_eq!(id.as_bytes(), b"name");
    assert_eq!(id.len(), 4);
    assert_eq!(OwnedMessageId::from_utf8("abc").as_bytes(), b"abc");
}

#[test]
fn id_list_drops_empty_segments() {
    let ids = parse_id_list(b"alpha\0beta\0\0gamma");
    let names: Vec<&[u8]> = ids.iter().map(|i| i.as_bytes()).collect();
    assert_eq!(names, vec![&b"alpha"[..], &b"beta"[..], &b"gamma"[..]]);
}

#[test]
fn id_list_edge_cases() {
    assert!(parse_id_list(b"").is_empty());
    assert!(parse_id_list(b"\0\0").is_empty());
    let ids = parse_id_list(b"a\0bbbbbbbbbbbbbbbb\0c\0");
    let names: Vec<&[u8]> = ids.iter().map(|i| i.as_bytes()).collect();
    assert_eq!(names, vec![&b"a"[..], &b"c"[..]]);
}

#[test]
fn build_into_reuses_caller_buffer() {
    let mut buf = vec![0xEE_u8; 40];
    let n = build_request_into(&mut buf, b"abc", WireType::F32, false, false, &[0x14, 0xAE, 0x29, 0x42])
        .unwrap();
    assert_eq!(n, 12);
    assert_eq!(buf, MSG_F32_RAW.to_vec());
    let before = buf.clone();
    assert_eq!(
        build_request_into(&mut buf, b"", WireType::U8, true, true, &[]),
        Err(PacketError::InvalidMessageIdLength)
    );
    assert_eq!(buf, before);
}

#[test]
fn msg_id_reports_zero_id_length_first() {
    let p = Packet::new_unchecked(vec![0x00, 0x00, 0x00]);
    assert_eq!(p.msg_id().unwrap_err(), PacketError::InvalidMessageIdLength);
    let q = Packet::new_unchecked(vec![0x05, 0x00, 0x01, 0x61]);
    assert_eq!(q.msg_id().unwrap_err(), PacketError::IncompletePayload);
    assert_eq!(Packet::new_unchecked(vec![1]).msg_id().unwrap_err(), PacketError::MissingHeader);
}
