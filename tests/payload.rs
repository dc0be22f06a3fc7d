use electricui_cli::{PacketProtocolError, VariableKind, WireType};

fn decode(t: WireType, d: &[u8]) -> Result<VariableKind, PacketProtocolError> {
    VariableKind::from_wire(t, d)
}

#[test]
fn i16_two_bytes_is_scalar() {
    assert_eq!(decode(WireType::I16, &[0x34, 0x12]), Ok(VariableKind::I16(0x1234)));
}

#[test]
fn i16_four_bytes_is_array() {
    assert_eq!(
        decode(WireType::I16, &[0x01, 0x00, 0xFF, 0xFF]),
        Ok(VariableKind::I16Array(vec![1, -1]))
    );
}

#[test]
fn i16_empty_is_empty_array() {
    assert_eq!(decode(WireType::I16, &[]), Ok(VariableKind::I16Array(vec![])));
}

#[test]
fn length_mismatch_is_violation() {
    let sized = [
        WireType::I16,
        WireType::U16,
        WireType::I32,
        WireType::U32,
        WireType::F32,
        WireType::F64,
    ];
    for t in sized {
        let w = t.width();
        for len in 1..3 * w {
            if len % w != 0 {
                let d = vec![0xAB_u8; len];
                assert_eq!(decode(t, &d), Err(PacketProtocolError::ProtocolViolation));
            }
        }
    }
}

#[test]
fn u8_scalar_and_array() {
    assert_eq!(decode(WireType::U8, &[7]), Ok(VariableKind::U8(7)));
    assert_eq!(decode(WireType::U8, &[7, 8]), Ok(VariableKind::U8Array(vec![7, 8])));
    assert_eq!(decode(WireType::Byte, &[0xFE]), Ok(VariableKind::Byte(0xFE)));
    assert_eq!(decode(WireType::Byte, &[]), Ok(VariableKind::ByteArray(vec![])));
}

#[test]
fn i8_values_are_signed() {
    assert_eq!(decode(WireType::I8, &[0xFF]), Ok(VariableKind::I8(-1)));
    assert_eq!(
        decode(WireType::I8, &[0x80, 0x7F, 0x00]),
        Ok(VariableKind::I8Array(vec![-128, 127, 0]))
    );
}

#[test]
fn wide_integers_are_little_endian() {
    assert_eq!(decode(WireType::U16, &[0x34, 0x12]), Ok(VariableKind::U16(0x1234)));
    assert_eq!(
        decode(WireType::U32, &[0x78, 0x56, 0x34, 0x12]),
        Ok(VariableKind::U32(0x1234_5678))
    );
    assert_eq!(
        decode(WireType::I32, &[0xFE, 0xFF, 0xFF, 0xFF]),
        Ok(VariableKind::I32(-2))
    );
    assert_eq!(
        decode(WireType::U16, &[1, 0, 2, 0, 3, 0]),
        Ok(VariableKind::U16Array(vec![1, 2, 3]))
    );
    assert_eq!(
        decode(WireType::I32, &[0xFF, 0xFF, 0xFF, 0xFF, 5, 0, 0, 0]),
        Ok(VariableKind::I32Array(vec![-1, 5]))
    );
}

#[test]
fn floats_keep_their_bits() {
    let d = 42.42_f32.to_le_bytes();
    assert_eq!(decode(WireType::F32, &d), Ok(VariableKind::F32(42.42_f32.to_bits())));
    let d = (-1.5_f64).to_le_bytes();
    assert_eq!(decode(WireType::F64, &d), Ok(VariableKind::F64((-1.5_f64).to_bits())));
    let mut two = Vec::new();
    two.extend_from_slice(&1.0_f64.to_le_bytes());
    two.extend_from_slice(&2.0_f64.to_le_bytes());
    assert_eq!(
        decode(WireType::F64, &two),
        Ok(VariableKind::F64Array(vec![1.0_f64.to_bits(), 2.0_f64.to_bits()]))
    );
}

#[test]
fn chars_must_be_utf8() {
    assert_eq!(decode(WireType::Char, &[b'a']), Ok(VariableKind::Char('a')));
    assert_eq!(decode(WireType::Char, &[0xC3]), Err(PacketProtocolError::Utf8));
    assert_eq!(
        decode(WireType::Char, "héllo".as_bytes()),
        Ok(VariableKind::CharArray("héllo".to_string()))
    );
    assert_eq!(decode(WireType::Char, &[0x68, 0xFF]), Err(PacketProtocolError::Utf8));
}

#[test]
fn raw_types_keep_bytes() {
    assert_eq!(decode(WireType::Callback, &[]), Ok(VariableKind::Callback));
    assert_eq!(decode(WireType::Custom, &[1, 2, 3]), Ok(VariableKind::Custom(vec![1, 2, 3])));
    assert_eq!(
        decode(WireType::Unknown(14), &[9, 9]),
        Ok(VariableKind::Unknown(14, vec![9, 9]))
    );
    assert_eq!(
        decode(WireType::OffsetMetadata, &[1, 2]),
        Ok(VariableKind::Unknown(2, vec![]))
    );
}

#[test]
fn decode_then_encode_gives_payload() {
    let cases: Vec<(WireType, Vec<u8>)> = vec![
        (WireType::Callback, vec![]),
        (WireType::Custom, vec![0, 1, 2]),
        (WireType::Unknown(13), vec![5]),
        (WireType::Byte, vec![9]),
        (WireType::Byte, vec![9, 10, 11]),
        (WireType::Char, vec![b'z']),
        (WireType::Char, "añb".as_bytes().to_vec()),
        (WireType::I8, vec![0x80]),
        (WireType::I8, vec![0x80, 0x01]),
        (WireType::U8, vec![]),
        (WireType::I16, vec![0x00, 0x80]),
        (WireType::I16, vec![0x00, 0x80, 0xFF, 0x7F]),
        (WireType::U16, vec![0xCD, 0xAB]),
        (WireType::I32, vec![0, 0, 0, 0x80]),
        (WireType::U32, vec![1, 2, 3, 4, 5, 6, 7, 8]),
        (WireType::F32, vec![0x14, 0xAE, 0x29, 0x42]),
        (WireType::F64, vec![1, 2, 3, 4, 5, 6, 7, 8]),
        (WireType::F64, vec![]),
    ];
    for (t, d) in cases {
        let v = decode(t, &d).unwrap();
        let (t2, d2) = v.to_wire();
        assert_eq!(t2, t);
        assert_eq!(d2, d);
    }
}

#[test]
fn encode_then_decode_gives_value() {
    let values = vec![
        VariableKind::Callback,
        VariableKind::Custom(vec![4, 0, 4]),
        VariableKind::Unknown(15, vec![1]),
        VariableKind::Char('Q'),
        VariableKind::CharArray("ok".to_string()),
        VariableKind::I8(-5),
        VariableKind::I8Array(vec![-1, 2, -3]),
        VariableKind::U8Array(vec![]),
        VariableKind::I16(-300),
        VariableKind::I16Array(vec![-32768, 32767]),
        VariableKind::U16(65535),
        VariableKind::U16Array(vec![1, 2, 3]),
        VariableKind::I32(i32::MIN),
        VariableKind::I32Array(vec![i32::MAX, -7]),
        VariableKind::U32(0xDEAD_BEEF),
        VariableKind::U32Array(vec![]),
        VariableKind::F32(1.25_f32.to_bits()),
        VariableKind::F32Array(vec![0, 1]),
        VariableKind::F64(0.1_f64.to_bits()),
        VariableKind::F64Array(vec![1, u64::MAX]),
    ];
    for v in values {
        let (t, d) = v.to_wire();
        assert_eq!(decode(t, &d), Ok(v));
    }
}

#[test]
fn encoded_words_are_little_endian() {
    assert_eq!(
        VariableKind::U32(0x1234_5678).to_wire(),
        (WireType::U32, vec![0x78, 0x56, 0x34, 0x12])
    );
    assert_eq!(VariableKind::I16(-2).to_wire(), (WireType::I16, vec![0xFE, 0xFF]));
    assert_eq!(
        VariableKind::CharArray("é".to_string()).to_wire(),
        (WireType::Char, vec![0xC3, 0xA9])
    );
}

#[test]
fn wire_tags_round_trip() {
    for t in 0u8..16 {
        assert_eq!(WireType::from_tag(t).tag(), t);
    }
    assert_eq!(WireType::from_tag(7), WireType::I16);
    assert_eq!(WireType::from_tag(13), WireType::Unknown(13));
    assert_eq!(WireType::F64.width(), 8);
    assert_eq!(WireType::Custom.width(), 0);
}
