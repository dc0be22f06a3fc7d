use bytes::BytesMut;
use electricui_cli::{build_request, Decoder, Encoder, EncoderError, Packet, PacketError, WireType};

const MSG_F32_FRAME: [u8; 14] = [
    0x0D, 0x04, 0x2c, 0x03, 0x61, 0x62, 0x63, 0x14, 0xAE, 0x29, 0x42, 0x8B, 0x1D, 0x00,
];

fn frame(p: &Packet) -> Vec<u8> {
    let mut dst = BytesMut::new();
    Encoder::new().encode(p, &mut dst).unwrap();
    dst.to_vec()
}

#[test]
fn encoder_writes_cobs_frame() {
    let p = build_request(b"abc", WireType::F32, false, false, &[0x14, 0xAE, 0x29, 0x42]).unwrap();
    assert_eq!(frame(&p), MSG_F32_FRAME.to_vec());
}

#[test]
fn encoder_frames_zero_bytes() {
    let p = build_request(b"i", WireType::U16, true, true, &[]).unwrap();
    let f = frame(&p);
    assert_eq!(*f.last().unwrap(), 0);
    assert!(f[..f.len() - 1].iter().all(|b| *b != 0));
    assert_eq!(f.len(), p.as_bytes().len() + 2);
}

#[test]
fn encoder_rejects_malformed_packets() {
    let mut dst = BytesMut::from(&[1u8, 2, 3][..]);
    let short = Packet::new_unchecked(vec![0x01, 0x00]);
    assert_eq!(
        Encoder::new().encode(&short, &mut dst),
        Err(EncoderError::EUiPacket(PacketError::MissingHeader))
    );
    let no_id = Packet::new_unchecked(vec![0x00, 0x00, 0x00, 0x00, 0x00]);
    assert_eq!(
        Encoder::new().encode(&no_id, &mut dst),
        Err(EncoderError::EUiPacket(PacketError::InvalidMessageIdLength))
    );
    let truncated = Packet::new_unchecked(vec![0x02, 0x00, 0x01, 0x61, 0x00]);
    assert_eq!(
        Encoder::new().encode(&truncated, &mut dst),
        Err(EncoderError::EUiPacket(PacketError::IncompletePayload))
    );
    assert_eq!(dst.to_vec(), vec![1, 2, 3]);
}

#[test]
fn decoder_finds_frame() {
    let mut storage = [0u8; electricui_cli::MAX_PACKET_SIZE];
    let mut dec = Decoder::new(&mut storage);
    let mut src = BytesMut::from(&MSG_F32_FRAME[..]);
    let p = dec.decode(&mut src).unwrap().unwrap();
    assert_eq!(p.as_bytes(), &MSG_F32_FRAME[1..13]);
    assert_eq!(src.to_vec(), vec![0x00]);
    assert!(dec.decode(&mut src).unwrap().is_none());
    assert!(src.is_empty());
}

#[test]
fn decoder_without_frame_drops_everything() {
    let mut storage = [0u8; electricui_cli::MAX_PACKET_SIZE];
    let mut dec = Decoder::new(&mut storage);
    let mut src = BytesMut::from(&MSG_F32_FRAME[..6]);
    assert!(dec.decode(&mut src).unwrap().is_none());
    assert!(src.is_empty());
    let mut empty = BytesMut::new();
    assert!(dec.decode(&mut empty).unwrap().is_none());
}

#[test]
fn decoder_resyncs_after_corruption() {
    let mut storage = [0u8; electricui_cli::MAX_PACKET_SIZE];
    let mut dec = Decoder::new(&mut storage);
    // A frame start that the link cut short leaves the scanner mid-header.
    let mut cut = BytesMut::from(&[0x30u8, 0x01, 0x18][..]);
    assert!(dec.decode(&mut cut).unwrap().is_none());
    // Five noise bytes finish that frame with a wrong checksum; a good frame follows.
    let good = build_request(b"abc", WireType::F32, false, false, &[0x14, 0xAE, 0x29, 0x42]).unwrap();
    let mut bytes = vec![0x01u8, 0x61, 0x07, 0xAA, 0xBB];
    bytes.extend_from_slice(&frame(&good));
    let mut src = BytesMut::from(&bytes[..]);
    assert!(dec.decode(&mut src).is_err());
    assert_eq!(src.to_vec(), frame(&good));
    let p = dec.decode(&mut src).unwrap().unwrap();
    assert_eq!(p.as_bytes(), good.as_bytes());
}

#[test]
fn encoded_packets_decode_back() {
    let mut storage = [0u8; electricui_cli::MAX_PACKET_SIZE];
    let mut dec = Decoder::new(&mut storage);
    let payloads: Vec<Vec<u8>> = vec![vec![], vec![0, 0, 0], vec![7; 200], (0..=240u8).collect()];
    for payload in payloads {
        let p = build_request(b"var", WireType::Custom, false, false, &payload).unwrap();
        let mut src = BytesMut::from(&frame(&p)[..]);
        let got = dec.decode(&mut src).unwrap().unwrap();
        assert_eq!(got.as_bytes(), p.as_bytes());
        assert_eq!(src.to_vec(), vec![0]);
        assert!(dec.decode(&mut src).unwrap().is_none());
    }
}
