use bytes::BytesMut;
use electricui_cli::{
    build_request, DataBits, FlowControl, Parity, StopBits, signal_action, BoardId, BoardName, Decoder, Encoder, Handshake, Heartbeat,
    Interruptor, Packet, PacketError, PacketProtocolError, SignalAction, Stage, Step,
    TrackedVariables, VariableKind, WireType, WritableIdsAnnouncement,
    WritableIdsAnnouncementEndList as End,
};

fn response(id: &[u8], t: WireType, internal: bool, payload: &[u8]) -> Packet {
    build_request(id, t, internal, false, payload).unwrap()
}

/// The replies of a device that answers every request as scripted.
fn device_replies(request: &Packet, echo_offset: u8) -> Vec<Packet> {
    let id = request.msg_id().unwrap();
    match id.as_bytes() {
        b"i" => vec![response(b"i", WireType::U16, true, &[0x34, 0x12])],
        b"name" => vec![response(b"name", WireType::Char, false, b"demo")],
        b"t" => vec![
            response(b"u", WireType::Custom, true, b"x\0y"),
            response(b"v", WireType::U8, true, &[2]),
        ],
        b"w" => vec![
            response(b"x", WireType::U8, false, &[1]),
            response(b"y", WireType::U8, false, &[2]),
        ],
        b"h" => {
            let sent = request.payload().unwrap()[0];
            vec![response(b"h", WireType::U8, true, &[sent.wrapping_add(echo_offset)])]
        }
        _ => vec![],
    }
}

/// Runs the exchange against the scripted device, every packet going through
/// the stream framing in both directions.
fn run(heartbeat: u8, echo_offset: u8) -> electricui_cli::Report {
    let mut storage = [0u8; electricui_cli::MAX_PACKET_SIZE];
    let mut dec = Decoder::new(&mut storage);
    let mut enc = Encoder::new();
    let mut link = BytesMut::new();
    let (mut hs, first) = Handshake::start(heartbeat);
    let mut outgoing = vec![first];
    loop {
        for req in outgoing.drain(..) {
            let mut wire = BytesMut::new();
            enc.encode(&req, &mut wire).unwrap();
            let mut dev_src = wire.clone();
            let mut dev_storage = [0u8; electricui_cli::MAX_PACKET_SIZE];
            let mut dev_dec =
                Decoder::new(&mut dev_storage);
            let seen = dev_dec.decode(&mut dev_src).unwrap().unwrap();
            for reply in device_replies(&seen, echo_offset) {
                let mut f = BytesMut::new();
                enc.encode(&reply, &mut f).unwrap();
                link.extend_from_slice(&f);
            }
        }
        let p = dec.decode(&mut link).unwrap().unwrap();
        match hs.on_response(&p).unwrap() {
            Step::Continue(next, out) => {
                hs = next;
                outgoing = out;
            }
            Step::Finished(report) => return report,
        }
    }
}

#[test]
fn handshake_with_scripted_device() {
    let report = run(5, 0);
    assert_eq!(report.board_id, BoardId(0x1234));
    assert_eq!(report.board_name.0, b"demo".to_vec());
    assert_eq!(report.board_name.as_str(), Some("demo"));
    assert_eq!(report.ids.len(), 2);
    assert_eq!(report.ids.as_slice()[0].as_bytes(), b"x");
    assert_eq!(report.ids.as_slice()[1].as_bytes(), b"y");
    assert_eq!(report.id_count, 2);
    let vars = report.variables.as_slice();
    assert_eq!(vars.len(), 2);
    assert_eq!(vars[0].id.as_bytes(), b"x");
    assert_eq!(vars[0].kind, VariableKind::U8(1));
    assert_eq!(vars[1].id.as_bytes(), b"y");
    assert_eq!(vars[1].kind, VariableKind::U8(2));
    assert_eq!(report.heartbeat, Heartbeat(5));
    assert!(report.heartbeat_matches);
}

#[test]
fn heartbeat_mismatch_still_completes() {
    let report = run(5, 1);
    assert_eq!(report.echo, Heartbeat(6));
    assert!(!report.heartbeat_matches);
    assert_eq!(report.variables.len(), 2);
}

#[test]
fn zero_count_skips_to_heartbeat() {
    let (hs, _) = Handshake::start(9);
    let hs = match hs.on_response(&response(b"i", WireType::U16, true, &[1, 0])).unwrap() {
        Step::Continue(h, _) => h,
        Step::Finished(_) => panic!("finished early"),
    };
    let hs = match hs.on_response(&response(b"name", WireType::Char, false, b"n")).unwrap() {
        Step::Continue(h, _) => h,
        Step::Finished(_) => panic!("finished early"),
    };
    let hs = match hs.on_response(&response(b"u", WireType::Custom, true, b"")).unwrap() {
        Step::Continue(h, out) => {
            assert!(out.is_empty());
            h
        }
        Step::Finished(_) => panic!("finished early"),
    };
    let hs = match hs.on_response(&response(b"v", WireType::U16, true, &[0, 0])).unwrap() {
        Step::Continue(h, out) => {
            assert_eq!(out.len(), 2);
            assert_eq!(out[0].as_bytes(), TrackedVariables::encode_request().as_bytes());
            assert_eq!(out[1].as_bytes(), Heartbeat(9).encode_request().as_bytes());
            h
        }
        Step::Finished(_) => panic!("finished early"),
    };
    match hs.on_response(&response(b"h", WireType::U8, true, &[9])).unwrap() {
        Step::Finished(r) => {
            assert!(r.heartbeat_matches);
            assert_eq!(r.variables.len(), 0);
        }
        Step::Continue(..) => panic!("not finished"),
    }
}

#[test]
fn unreadable_response_names_stage() {
    let (hs, _) = Handshake::start(1);
    let err = hs.on_response(&response(b"i", WireType::U16, true, &[1])).unwrap_err();
    assert_eq!(err.stage, Stage::BoardId);
    assert_eq!(err.error, PacketProtocolError::ProtocolViolation);
    let (hs, _) = Handshake::start(1);
    let err = hs.on_response(&Packet::new_unchecked(vec![0, 0, 0, 0, 0])).unwrap_err();
    assert_eq!(err.error, PacketProtocolError::Packet(PacketError::IncompletePayload));
}

#[test]
fn requests_have_fixed_layout() {
    assert_eq!(
        BoardId::encode_request().as_bytes(),
        build_request(b"i", WireType::U16, true, true, &[]).unwrap().as_bytes()
    );
    assert_eq!(
        BoardName::encode_request().as_bytes(),
        build_request(b"name", WireType::Callback, true, true, &[]).unwrap().as_bytes()
    );
    assert_eq!(
        WritableIdsAnnouncement::encode_request().as_bytes(),
        build_request(b"t", WireType::Callback, true, true, &[]).unwrap().as_bytes()
    );
    assert_eq!(
        TrackedVariables::encode_request().as_bytes(),
        build_request(b"w", WireType::Callback, true, true, &[]).unwrap().as_bytes()
    );
    let hb = Heartbeat(0xA5).encode_request();
    assert_eq!(hb.payload().unwrap(), vec![0xA5]);
    assert_eq!(hb.typ(), WireType::U8);
    assert!(hb.internal() && hb.response());
}

#[test]
fn end_list_count_widths() {
    assert_eq!(End::decode_response(&response(b"v", WireType::U8, true, &[7])).unwrap().0, 7);
    assert_eq!(
        End::decode_response(&response(b"v", WireType::U16, true, &[0x01, 0x02])).unwrap().0,
        0x0201
    );
    assert_eq!(
        End::decode_response(&response(b"v", WireType::U16, true, &[1])).unwrap_err(),
        PacketProtocolError::ProtocolViolation
    );
}

#[test]
fn tracked_variable_errors_leave_list() {
    let mut vars = TrackedVariables::new();
    let bad = response(b"x", WireType::U16, false, &[1, 2, 3]);
    assert_eq!(
        vars.decode_response_accumulating(&bad),
        Err(PacketProtocolError::ProtocolViolation)
    );
    assert_eq!(vars.len(), 0);
    let good = response(b"x", WireType::I16, false, &[0xFF, 0xFF]);
    vars.decode_response_accumulating(&good).unwrap();
    assert_eq!(vars.as_slice()[0].kind, VariableKind::I16(-1));
}

#[test]
fn second_interrupt_forces_exit() {
    assert_eq!(signal_action(false), SignalAction::RequestStop);
    assert_eq!(signal_action(true), SignalAction::ForceExit);
    let intr = Interruptor::new();
    assert!(!intr.is_set());
    assert_eq!(intr.on_signal(), (false, SignalAction::RequestStop));
    assert!(intr.is_set());
    assert_eq!(intr.clone().on_signal(), (true, SignalAction::ForceExit));
}

#[test]
fn board_name_bytes_kept() {
    let n = BoardName::decode_response(&response(b"name", WireType::Char, false, &[0xFF, 0x41]))
        .unwrap();
    assert_eq!(n.len(), 2);
    assert_eq!(n.as_str(), None);
}

#[test]
fn serial_settings_parse() {
    assert_eq!(DataBits::parse(" Five "), Ok(DataBits::Five));
    assert_eq!("8".parse::<DataBits>(), Ok(DataBits::Eight));
    assert_eq!(DataBits::parse("9"), Err("Invalid data bits".to_string()));
    assert_eq!(FlowControl::parse("HW"), Ok(FlowControl::Hardware));
    assert_eq!(FlowControl::parse("none"), Ok(FlowControl::Off));
    assert!(FlowControl::parse("xon").is_err());
    assert_eq!(Parity::parse("Even"), Ok(Parity::Even));
    assert_eq!(Parity::parse("none"), Ok(Parity::Off));
    assert!(Parity::parse("mark").is_err());
    assert_eq!(StopBits::parse("two"), Ok(StopBits::Two));
    assert_eq!(StopBits::parse("1"), Ok(StopBits::One));
    assert!(StopBits::parse("3").is_err());
}

#[test]
fn offset_packets_read_as_unknown() {
    let mut raw = response(b"x", WireType::U16, false, &[1, 2]).into_inner();
    raw[1] |= 0x80;
    let mut vars = TrackedVariables::new();
    vars.decode_response_accumulating(&Packet::new_unchecked(raw)).unwrap();
    assert_eq!(vars.as_slice()[0].kind, VariableKind::Unknown(8, vec![1, 2]));
}

#[test]
fn settings_errors_name_the_setting() {
    assert_eq!(FlowControl::parse("x"), Err("Invalid flow control".to_string()));
    assert_eq!(Parity::parse("x"), Err("Invalid parity".to_string()));
    assert_eq!(StopBits::parse("x"), Err("Invalid stop bits".to_string()));
}
