//! The messages of the diagnostic exchange: how each request is built and
//! how each response is read.

use crate::error::PacketProtocolError;
use crate::message::{is_valid_id, OwnedMessageId, WireType};
use crate::packet::{
    build_request, msg_id_error, hdr_offset, hdr_tag, id_field, is_complete, le16, payload_field, request_bytes, Packet,
};
use crate::variable::{decode_spec, utf8_str, KindView, VariableKind};
use vstd::prelude::*;
use vstd::slice::slice_subrange;
use vstd::utf8::{decode_utf8, valid_utf8};

verus! {

/// Id of the board-id channel.
pub open spec fn board_id_channel() -> Seq<u8> {
    seq![0x69u8]
}

/// Id of the heartbeat channel.
pub open spec fn heartbeat_channel() -> Seq<u8> {
    seq![0x68u8]
}

/// Id of the writable-ids announcement channel.
pub open spec fn announce_channel() -> Seq<u8> {
    seq![0x74u8]
}

/// Id of the tracked-variables channel.
pub open spec fn variables_channel() -> Seq<u8> {
    seq![0x77u8]
}

/// Id of the board-name channel.
pub open spec fn board_name_channel() -> Seq<u8> {
    seq![0x6eu8, 0x61u8, 0x6du8, 0x65u8]
}

/// The payload of a packet, or the packet error that keeps it from being
/// read.
pub open spec fn payload_result(p: Seq<u8>) -> Result<Seq<u8>, PacketProtocolError> {
    if is_complete(p) {
        Ok(payload_field(p))
    } else {
        Err(PacketProtocolError::Packet(crate::error::PacketError::IncompletePayload))
    }
}

/// The board id a response carries.
pub open spec fn board_id_of(p: Seq<u8>) -> Result<u16, PacketProtocolError> {
    match payload_result(p) {
        Err(e) => Err(e),
        Ok(d) => if d.len() < 2 {
            Err(PacketProtocolError::ProtocolViolation)
        } else {
            Ok(le16(d[0], d[1]) as u16)
        },
    }
}

/// The id count that ends an announcement.
pub open spec fn id_count_of(p: Seq<u8>) -> Result<nat, PacketProtocolError> {
    match payload_result(p) {
        Err(e) => Err(e),
        Ok(d) => if hdr_tag(p) == 6 {
            if d.len() < 1 {
                Err(PacketProtocolError::ProtocolViolation)
            } else {
                Ok(d[0] as nat)
            }
        } else if d.len() < 2 {
            Err(PacketProtocolError::ProtocolViolation)
        } else {
            Ok(le16(d[0], d[1]))
        },
    }
}

/// The value a heartbeat response echoes.
pub open spec fn echo_of(p: Seq<u8>) -> Result<u8, PacketProtocolError> {
    match payload_result(p) {
        Err(e) => Err(e),
        Ok(d) => if d.len() < 1 {
            Err(PacketProtocolError::ProtocolViolation)
        } else {
            Ok(d[0])
        },
    }
}

fn payload_of(p: &Packet) -> (r: Result<Vec<u8>, PacketProtocolError>)
    ensures
        match r {
            Ok(v) => payload_result(p@) == Ok::<Seq<u8>, PacketProtocolError>(v@),
            Err(e) => payload_result(p@) == Err::<Seq<u8>, PacketProtocolError>(e),
        },
{
    match p.payload() {
        Ok(v) => Ok(v),
        Err(e) => Err(PacketProtocolError::Packet(e)),
    }
}

fn request(id: &[u8], typ: WireType, payload: &[u8]) -> (r: Packet)
    requires
        1 <= id@.len() <= 15,
        payload@.len() <= 1023,
        typ.spec_tag() < 16,
    ensures
        r@ == request_bytes(id@, typ, true, true, payload@),
{
    build_request(id, typ, true, true, payload).unwrap()
}

/// The board's identifier.
#[derive(Clone, Copy, Debug, PartialEq, Eq, Structural)]
pub struct BoardId(pub u16);

impl BoardId {
    pub open spec fn request_spec() -> Seq<u8> {
        request_bytes(board_id_channel(), WireType::U16, true, true, Seq::empty())
    }

    /// An internal `U16` request on the board-id channel, without payload.
    pub fn encode_request() -> (r: Packet)
        ensures
            r@ == Self::request_spec(),
    {
        let id: Vec<u8> = vec![0x69u8];
        let empty: Vec<u8> = Vec::new();
        assert(id@ =~= board_id_channel());
        request(id.as_slice(), WireType::U16, empty.as_slice())
    }

    /// The first two payload bytes, low byte first.
    pub fn decode_response(p: &Packet) -> (r: Result<BoardId, PacketProtocolError>)
        ensures
            r is Ok <==> board_id_of(p@) is Ok,
            r matches Ok(b) ==> board_id_of(p@) == Ok::<u16, PacketProtocolError>(b.0),
            r matches Err(e) ==> board_id_of(p@) == Err::<u16, PacketProtocolError>(e),
            match payload_result(p@) {
                Err(e) => r == Err::<BoardId, PacketProtocolError>(e),
                Ok(d) => if d.len() < 2 {
                    r == Err::<BoardId, PacketProtocolError>(PacketProtocolError::ProtocolViolation)
                } else {
                    r matches Ok(b) && b.0 as nat == le16(d[0], d[1])
                },
            },
    {
        let d = payload_of(p)?;
        if d.len() < 2 {
            return Err(PacketProtocolError::ProtocolViolation);
        }
        Ok(BoardId(d[0] as u16 + 256 * d[1] as u16))
    }
}

/// The board's name, as the raw bytes it sent.
#[derive(Clone, Debug, PartialEq, Eq, Hash)]
pub struct BoardName(pub Vec<u8>);

impl BoardName {
    /// The name as text, when its bytes are UTF-8.
    pub fn as_str(&self) -> (r: Option<&str>)
        ensures
            r is Some <==> valid_utf8(self.0@),
            r matches Some(s) ==> s@ == decode_utf8(self.0@),
    {
        utf8_str(self.0.as_slice())
    }

    pub fn len(&self) -> (r: usize)
        ensures
            r == self.0@.len(),
    {
        self.0.len()
    }

    pub open spec fn request_spec() -> Seq<u8> {
        request_bytes(board_name_channel(), WireType::Callback, true, true, Seq::empty())
    }

    /// An internal `Callback` request on the board-name channel.
    pub fn encode_request() -> (r: Packet)
        ensures
            r@ == Self::request_spec(),
    {
        let id: Vec<u8> = vec![0x6eu8, 0x61u8, 0x6du8, 0x65u8];
        let empty: Vec<u8> = Vec::new();
        assert(id@ =~= board_name_channel());
        request(id.as_slice(), WireType::Callback, empty.as_slice())
    }

    /// The payload bytes.
    pub fn decode_response(p: &Packet) -> (r: Result<BoardName, PacketProtocolError>)
        ensures
            match payload_result(p@) {
                Err(e) => r == Err::<BoardName, PacketProtocolError>(e),
                Ok(d) => r matches Ok(n) && n.0@ == d,
            },
    {
        let d = payload_of(p)?;
        Ok(BoardName(d))
    }
}

/// The request that asks the board to announce its writable ids.
#[derive(Clone, Copy, Debug, PartialEq, Eq, Structural)]
pub struct WritableIdsAnnouncement;

impl WritableIdsAnnouncement {
    pub open spec fn request_spec() -> Seq<u8> {
        request_bytes(announce_channel(), WireType::Callback, true, true, Seq::empty())
    }

    /// An internal `Callback` request on the announcement channel.
    pub fn encode_request() -> (r: Packet)
        ensures
            r@ == Self::request_spec(),
    {
        let id: Vec<u8> = vec![0x74u8];
        let empty: Vec<u8> = Vec::new();
        assert(id@ =~= announce_channel());
        request(id.as_slice(), WireType::Callback, empty.as_slice())
    }
}

/// The ids of `s` from the segment that starts at `start`, scanning from
/// `i`: segments end at a zero byte or at the end, and only those that name
/// a message are kept.
pub open spec fn ids_from(s: Seq<u8>, start: int, i: int) -> Seq<Seq<u8>>
    decreases s.len() - i,
{
    if i >= s.len() {
        if is_valid_id(s.subrange(start, s.len() as int)) {
            seq![s.subrange(start, s.len() as int)]
        } else {
            Seq::empty()
        }
    } else if s[i] == 0 {
        let rest = ids_from(s, i + 1, i + 1);
        if is_valid_id(s.subrange(start, i)) {
            seq![s.subrange(start, i)] + rest
        } else {
            rest
        }
    } else {
        ids_from(s, start, i + 1)
    }
}

/// The ids of a zero-separated list, empty segments dropped.
pub open spec fn id_list(s: Seq<u8>) -> Seq<Seq<u8>> {
    ids_from(s, 0, 0)
}

pub open spec fn ids_view(v: Seq<OwnedMessageId>) -> Seq<Seq<u8>> {
    v.map_values(|m: OwnedMessageId| m@)
}

/// The ids a board announced, in the order received.
#[derive(Clone, Debug, PartialEq, Eq, Hash)]
pub struct IdsAnnouncement(pub Vec<OwnedMessageId>);

impl View for IdsAnnouncement {
    type V = Seq<Seq<u8>>;

    open spec fn view(&self) -> Seq<Seq<u8>> {
        ids_view(self.0@)
    }
}

impl IdsAnnouncement {
    pub fn as_slice(&self) -> (r: &[OwnedMessageId])
        ensures
            ids_view(r@) == self@,
    {
        self.0.as_slice()
    }

    pub fn len(&self) -> (r: usize)
        ensures
            r == self@.len(),
    {
        self.0.len()
    }

    /// Splits the payload at zero bytes and keeps each segment that names a
    /// message, in order.
    pub fn decode_response(p: &Packet) -> (r: Result<IdsAnnouncement, PacketProtocolError>)
        ensures
            match payload_result(p@) {
                Err(e) => r == Err::<IdsAnnouncement, PacketProtocolError>(e),
                Ok(d) => r matches Ok(a) && a@ == id_list(d),
            },
    {
        let d = payload_of(p)?;
        Ok(IdsAnnouncement(parse_id_list(d.as_slice())))
    }
}

/// The ids of a zero-separated list, empty segments dropped.
pub fn parse_id_list(d: &[u8]) -> (r: Vec<OwnedMessageId>)
    ensures
        ids_view(r@) == id_list(d@),
{
    let n = d.len();
    let mut ids: Vec<OwnedMessageId> = Vec::new();
    let mut start: usize = 0;
    let mut i: usize = 0;
    assert(ids_view(ids@) =~= Seq::empty());
    assert(ids_view(ids@) + ids_from(d@, 0, 0) =~= id_list(d@));
    while i < n
        invariant
            n == d@.len(),
            start <= i <= n,
            ids_view(ids@) + ids_from(d@, start as int, i as int) == id_list(d@),
        decreases n - i,
    {
        if d[i] == 0 {
            let ghost before = ids_view(ids@);
            match OwnedMessageId::new(slice_subrange(d, start, i)) {
                Some(id) => {
                    ids.push(id);
                    assert(ids_view(ids@) =~= before.push(id@));
                    assert(ids_view(ids@) + ids_from(d@, i + 1, i + 1) =~= before + (seq![
                        d@.subrange(start as int, i as int),
                    ] + ids_from(d@, i + 1, i + 1)));
                },
                None => {},
            }
            start = i + 1;
        }
        i = i + 1;
    }
    let ghost before = ids_view(ids@);
    match OwnedMessageId::new(slice_subrange(d, start, n)) {
        Some(id) => {
            ids.push(id);
            assert(ids_view(ids@) =~= before.push(id@));
        },
        None => {
            assert(before + Seq::<Seq<u8>>::empty() =~= before);
        },
    }
    ids
}

/// The count that ends an announcement.
#[derive(Clone, Copy, Debug, PartialEq, Eq, Structural)]
pub struct WritableIdsAnnouncementEndList(pub usize);

impl WritableIdsAnnouncementEndList {
    /// The count: one byte under `U8`, else two bytes, low byte first.
    pub fn decode_response(p: &Packet) -> (r: Result<
        WritableIdsAnnouncementEndList,
        PacketProtocolError,
    >)
        ensures
            r is Ok <==> id_count_of(p@) is Ok,
            r matches Ok(c) ==> id_count_of(p@) == Ok::<nat, PacketProtocolError>(c.0 as nat),
            r matches Err(e) ==> id_count_of(p@) == Err::<nat, PacketProtocolError>(e),
            match payload_result(p@) {
                Err(e) => r == Err::<WritableIdsAnnouncementEndList, PacketProtocolError>(e),
                Ok(d) => if hdr_tag(p@) == 6 {
                    if d.len() < 1 {
                        r == Err::<WritableIdsAnnouncementEndList, PacketProtocolError>(
                            PacketProtocolError::ProtocolViolation,
                        )
                    } else {
                        r matches Ok(c) && c.0 == d[0]
                    }
                } else if d.len() < 2 {
                    r == Err::<WritableIdsAnnouncementEndList, PacketProtocolError>(
                        PacketProtocolError::ProtocolViolation,
                    )
                } else {
                    r matches Ok(c) && c.0 as nat == le16(d[0], d[1])
                },
            },
    {
        let d = payload_of(p)?;
        if p.typ() == WireType::U8 {
            if d.len() < 1 {
                return Err(PacketProtocolError::ProtocolViolation);
            }
            Ok(WritableIdsAnnouncementEndList(d[0] as usize))
        } else {
            if d.len() < 2 {
                return Err(PacketProtocolError::ProtocolViolation);
            }
            Ok(WritableIdsAnnouncementEndList(d[0] as usize + 256 * d[1] as usize))
        }
    }
}

/// A message id with the value it carried.
#[derive(Clone, Debug, PartialEq, Eq, Hash)]
pub struct Variable {
    pub id: OwnedMessageId,
    pub kind: VariableKind,
}

impl View for Variable {
    type V = (Seq<u8>, KindView);

    open spec fn view(&self) -> (Seq<u8>, KindView) {
        (self.id@, self.kind@)
    }
}

pub open spec fn vars_view(v: Seq<Variable>) -> Seq<(Seq<u8>, KindView)> {
    v.map_values(|x: Variable| x@)
}

/// What one tracked-variable response adds to the list, or why it cannot.
/// A packet with the offset flag set carries part of a transfer, which is
/// not read: its payload is kept as an unknown value under its raw tag.
pub open spec fn variable_of(p: Seq<u8>) -> Result<(Seq<u8>, KindView), PacketProtocolError> {
    if msg_id_error(p) is Some {
        Err(PacketProtocolError::Packet(msg_id_error(p)->Some_0))
    } else if hdr_offset(p) {
        Ok((id_field(p), KindView::Unknown(hdr_tag(p), payload_field(p))))
    } else {
        match decode_spec(WireType::spec_from_tag(hdr_tag(p)), payload_field(p)) {
            Ok(k) => Ok((id_field(p), k)),
            Err(e) => Err(e),
        }
    }
}

/// The variables a board reported, in the order received.
#[derive(Clone, Debug, PartialEq, Eq, Hash, Default)]
pub struct TrackedVariables(pub Vec<Variable>);

impl View for TrackedVariables {
    type V = Seq<(Seq<u8>, KindView)>;

    open spec fn view(&self) -> Seq<(Seq<u8>, KindView)> {
        vars_view(self.0@)
    }
}

impl TrackedVariables {
    pub fn new() -> (r: Self)
        ensures
            r@ == Seq::<(Seq<u8>, KindView)>::empty(),
    {
        let r = TrackedVariables(Vec::new());
        assert(r@ =~= Seq::<(Seq<u8>, KindView)>::empty());
        r
    }

    pub fn as_slice(&self) -> (r: &[Variable])
        ensures
            vars_view(r@) == self@,
    {
        self.0.as_slice()
    }

    pub fn len(&self) -> (r: usize)
        ensures
            r == self@.len(),
    {
        self.0.len()
    }

    pub open spec fn request_spec() -> Seq<u8> {
        request_bytes(variables_channel(), WireType::Callback, true, true, Seq::empty())
    }

    /// An internal `Callback` request on the tracked-variables channel.
    pub fn encode_request() -> (r: Packet)
        ensures
            r@ == Self::request_spec(),
    {
        let id: Vec<u8> = vec![0x77u8];
        let empty: Vec<u8> = Vec::new();
        assert(id@ =~= variables_channel());
        request(id.as_slice(), WireType::Callback, empty.as_slice())
    }

    /// Reads one response and appends its id and value; on an error the
    /// list is left as it was.
    pub fn decode_response_accumulating(&mut self, p: &Packet) -> (r: Result<
        (),
        PacketProtocolError,
    >)
        ensures
            match variable_of(p@) {
                Ok(v) => r is Ok && final(self)@ == old(self)@.push(v),
                Err(e) => r == Err::<(), PacketProtocolError>(e) && final(self)@ == old(self)@,
            },
    {
        let id = match p.msg_id() {
            Ok(id) => id,
            Err(e) => return Err(PacketProtocolError::Packet(e)),
        };
        let typ = p.typ();
        let data = payload_of(p)?;
        let kind = if p.offset() {
            VariableKind::Unknown(p.typ_raw(), data)
        } else {
            VariableKind::from_wire(typ, data.as_slice())?
        };
        let ghost before = self@;
        self.0.push(Variable { id, kind });
        assert(self@ =~= before.push((id@, kind@)));
        Ok(())
    }
}

/// A heartbeat value, sent and echoed back.
#[derive(Clone, Copy, Debug, PartialEq, Eq, Structural)]
pub struct Heartbeat(pub u8);

impl Heartbeat {
    pub open spec fn request_spec(self) -> Seq<u8> {
        request_bytes(heartbeat_channel(), WireType::U8, true, true, seq![self.0])
    }

    /// An internal `U8` request on the heartbeat channel carrying the value.
    pub fn encode_request(&self) -> (r: Packet)
        ensures
            r@ == self.request_spec(),
    {
        let id: Vec<u8> = vec![0x68u8];
        let payload: Vec<u8> = vec![self.0];
        assert(id@ =~= heartbeat_channel());
        assert(payload@ =~= seq![self.0]);
        request(id.as_slice(), WireType::U8, payload.as_slice())
    }

    /// The first payload byte.
    pub fn decode_response(p: &Packet) -> (r: Result<Heartbeat, PacketProtocolError>)
        ensures
            r is Ok <==> echo_of(p@) is Ok,
            r matches Ok(h) ==> echo_of(p@) == Ok::<u8, PacketProtocolError>(h.0),
            r matches Err(e) ==> echo_of(p@) == Err::<u8, PacketProtocolError>(e),
            match payload_result(p@) {
                Err(e) => r == Err::<Heartbeat, PacketProtocolError>(e),
                Ok(d) => if d.len() < 1 {
                    r == Err::<Heartbeat, PacketProtocolError>(
                        PacketProtocolError::ProtocolViolation,
                    )
                } else {
                    r == Ok::<Heartbeat, PacketProtocolError>(Heartbeat(d[0]))
                },
            },
    {
        let d = payload_of(p)?;
        if d.len() < 1 {
            return Err(PacketProtocolError::ProtocolViolation);
        }
        Ok(Heartbeat(d[0]))
    }
}

} // verus!
