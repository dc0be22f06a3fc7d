use crate::error::PacketError;
use crate::message::{is_valid_id, OwnedMessageId, WireType, MAX_MSG_ID_SIZE};
use vstd::prelude::*;
use vstd::slice::{slice_subrange, slice_to_vec};

verus! {

/// Bytes of the fixed header: data length, type, flags, id length.
pub const HEADER_SIZE: usize = 3;

/// Bytes of the trailing checksum.
pub const CHECKSUM_SIZE: usize = 2;

/// Largest payload that the ten-bit data length field can announce.
pub const MAX_DATA_LENGTH: usize = 1023;

/// Room for the largest raw packet electricui-embedded accepts: header,
/// longest id, its 1024-byte payload limit and checksum.
pub const MAX_PACKET_SIZE: usize = 1044;

/// Names what `Packet::compute_checksum` of electricui-embedded returns for
/// the header, id and payload bytes of a packet (CRC-16/CCITT-FALSE).
pub uninterp spec fn packet_crc(body: Seq<u8>) -> u16;

/// Little-endian value of two bytes.
pub open spec fn le16(lo: u8, hi: u8) -> nat {
    lo as nat + 256 * (hi as nat)
}

pub open spec fn hdr_data_len(s: Seq<u8>) -> nat {
    s[0] as nat + 256 * ((s[1] as nat) % 4)
}

pub open spec fn hdr_tag(s: Seq<u8>) -> u8 {
    ((s[1] / 4) % 16) as u8
}

pub open spec fn hdr_internal(s: Seq<u8>) -> bool {
    (s[1] / 64) % 2 == 1
}

pub open spec fn hdr_offset(s: Seq<u8>) -> bool {
    s[1] >= 128
}

pub open spec fn hdr_id_len(s: Seq<u8>) -> nat {
    (s[2] % 16) as nat
}

pub open spec fn hdr_response(s: Seq<u8>) -> bool {
    (s[2] / 16) % 2 == 1
}

pub open spec fn hdr_acknum(s: Seq<u8>) -> u8 {
    s[2] / 32
}

/// Where the checksum starts: after header, id and payload.
pub open spec fn body_end(s: Seq<u8>) -> nat {
    HEADER_SIZE as nat + hdr_id_len(s) + hdr_data_len(s)
}

/// The buffer holds a header, a nonzero id length, the id, the payload
/// and room for the checksum.
pub open spec fn is_complete(s: Seq<u8>) -> bool {
    s.len() >= HEADER_SIZE + CHECKSUM_SIZE && hdr_id_len(s) >= 1 && s.len() >= body_end(s)
        + CHECKSUM_SIZE
}

pub open spec fn id_field(s: Seq<u8>) -> Seq<u8> {
    s.subrange(3, 3 + hdr_id_len(s) as int)
}

pub open spec fn payload_field(s: Seq<u8>) -> Seq<u8> {
    s.subrange(3 + hdr_id_len(s) as int, body_end(s) as int)
}

pub open spec fn stored_checksum(s: Seq<u8>) -> nat {
    le16(s[body_end(s) as int], s[body_end(s) + 1int])
}

/// A complete packet whose stored checksum matches its contents.
pub open spec fn is_valid_packet(s: Seq<u8>) -> bool {
    is_complete(s) && stored_checksum(s) == packet_crc(s.subrange(0, body_end(s) as int)) as nat
}

/// Why the id field of a packet cannot be read as a message id, if it can't.
pub open spec fn msg_id_error(s: Seq<u8>) -> Option<PacketError> {
    if s.len() < HEADER_SIZE {
        Some(PacketError::MissingHeader)
    } else if hdr_id_len(s) == 0 {
        Some(PacketError::InvalidMessageIdLength)
    } else if !is_complete(s) {
        Some(PacketError::IncompletePayload)
    } else if !is_valid_id(id_field(s)) {
        Some(PacketError::InvalidMessageId)
    } else {
        None
    }
}

/// The first error that validating the bytes of a packet meets, if any.
pub open spec fn validation_error(s: Seq<u8>) -> Option<PacketError> {
    if s.len() < HEADER_SIZE {
        Some(PacketError::MissingHeader)
    } else if s.len() < HEADER_SIZE + CHECKSUM_SIZE {
        Some(PacketError::MissingChecksum)
    } else if hdr_id_len(s) == 0 {
        Some(PacketError::InvalidMessageIdLength)
    } else if s.len() < body_end(s) + CHECKSUM_SIZE {
        Some(PacketError::IncompletePayload)
    } else if stored_checksum(s) != packet_crc(s.subrange(0, body_end(s) as int)) as nat {
        Some(PacketError::InvalidChecksum)
    } else {
        None
    }
}

/// The three header bytes for the given fields.
pub open spec fn header_bytes(
    data_len: nat,
    tag: u8,
    internal: bool,
    id_len: nat,
    response: bool,
) -> Seq<u8> {
    seq![
        (data_len % 256) as u8,
        (data_len / 256 + 4 * tag + if internal { 64nat } else { 0nat }) as u8,
        (id_len + if response { 16nat } else { 0nat }) as u8,
    ]
}

/// Header, id and payload of a request, before its checksum.
pub open spec fn request_body(
    id: Seq<u8>,
    typ: WireType,
    internal: bool,
    response: bool,
    payload: Seq<u8>,
) -> Seq<u8> {
    header_bytes(payload.len(), typ.spec_tag(), internal, id.len(), response) + id + payload
}

/// The raw bytes of a packet with acknowledgement number zero and no offset,
/// its checksum written last, low byte first.
pub open spec fn request_bytes(
    id: Seq<u8>,
    typ: WireType,
    internal: bool,
    response: bool,
    payload: Seq<u8>,
) -> Seq<u8> {
    let body = request_body(id, typ, internal, response, payload);
    let c = packet_crc(body);
    body + seq![(c % 256) as u8, (c / 256) as u8]
}

/// The error, if any, that building a request with these fields meets.
pub open spec fn request_error(id: Seq<u8>, typ: WireType, payload: Seq<u8>) -> Option<
    PacketError,
> {
    if id.len() == 0 || id.len() > MAX_MSG_ID_SIZE {
        Some(PacketError::InvalidMessageIdLength)
    } else if payload.len() > MAX_DATA_LENGTH {
        Some(PacketError::InvalidDataLength)
    } else if typ.spec_tag() >= 16 {
        Some(PacketError::InvalidType)
    } else {
        None
    }
}

/// Relies on electricui-embedded's `Packet::compute_checksum`: it returns the
/// CRC of the bytes before the checksum field and fails only on a zero id
/// length.
#[verifier::external_body]
fn compute_crc(raw: &[u8]) -> (r: Option<u16>)
    requires
        raw@.len() >= HEADER_SIZE,
        hdr_id_len(raw@) >= 1,
        raw@.len() >= body_end(raw@),
    ensures
        r == Some(packet_crc(raw@.subrange(0, body_end(raw@) as int))),
{
    electricui_embedded::wire::Packet::new_unchecked(raw).compute_checksum().ok()
}

/// A packet's raw bytes: header, id, payload and checksum.
#[derive(Clone, Debug)]
pub struct Packet {
    buf: Vec<u8>,
}

impl View for Packet {
    type V = Seq<u8>;

    closed spec fn view(&self) -> Seq<u8> {
        self.buf@
    }
}

impl Packet {
    /// Wraps bytes without looking at them.
    pub fn new_unchecked(buf: Vec<u8>) -> (r: Packet)
        ensures
            r@ == buf@,
    {
        Packet { buf }
    }

    /// Wraps bytes that form a complete packet with a matching checksum.
    pub fn new(buf: Vec<u8>) -> (r: Result<Packet, PacketError>)
        ensures
            validation_error(buf@) is None <==> r is Ok,
            r matches Ok(p) ==> p@ == buf@ && is_valid_packet(p@),
            r matches Err(e) ==> validation_error(buf@) == Some(e),
    {
        let p = Packet { buf };
        if p.buf.len() < HEADER_SIZE {
            return Err(PacketError::MissingHeader);
        }
        if p.buf.len() < HEADER_SIZE + CHECKSUM_SIZE {
            return Err(PacketError::MissingChecksum);
        }
        let id_len = p.id_length_raw() as usize;
        if id_len == 0 {
            return Err(PacketError::InvalidMessageIdLength);
        }
        let end = HEADER_SIZE + id_len + p.data_length() as usize;
        if p.buf.len() < end + CHECKSUM_SIZE {
            return Err(PacketError::IncompletePayload);
        }
        let stored = p.buf[end] as u16 + 256 * p.buf[end + 1] as u16;
        match compute_crc(p.buf.as_slice()) {
            Some(c) => {
                if c != stored {
                    Err(PacketError::InvalidChecksum)
                } else {
                    Ok(p)
                }
            },
            None => Err(PacketError::InvalidChecksum),
        }
    }

    pub fn as_bytes(&self) -> (r: &[u8])
        ensures
            r@ == self@,
    {
        self.buf.as_slice()
    }

    pub fn into_inner(self) -> (r: Vec<u8>)
        ensures
            r@ == self@,
    {
        self.buf
    }

    pub fn data_length(&self) -> (r: u16)
        requires
            self@.len() >= HEADER_SIZE,
        ensures
            r as nat == hdr_data_len(self@),
    {
        self.buf[0] as u16 + 256 * (self.buf[1] % 4) as u16
    }

    pub fn typ_raw(&self) -> (r: u8)
        requires
            self@.len() >= HEADER_SIZE,
        ensures
            r == hdr_tag(self@),
    {
        (self.buf[1] / 4) % 16
    }

    pub fn typ(&self) -> (r: WireType)
        requires
            self@.len() >= HEADER_SIZE,
        ensures
            r == WireType::spec_from_tag(hdr_tag(self@)),
    {
        WireType::from_tag(self.typ_raw())
    }

    pub fn internal(&self) -> (r: bool)
        requires
            self@.len() >= HEADER_SIZE,
        ensures
            r == hdr_internal(self@),
    {
        (self.buf[1] / 64) % 2 == 1
    }

    pub fn offset(&self) -> (r: bool)
        requires
            self@.len() >= HEADER_SIZE,
        ensures
            r == hdr_offset(self@),
    {
        self.buf[1] >= 128
    }

    pub fn id_length_raw(&self) -> (r: u8)
        requires
            self@.len() >= HEADER_SIZE,
        ensures
            r as nat == hdr_id_len(self@),
    {
        self.buf[2] % 16
    }

    pub fn response(&self) -> (r: bool)
        requires
            self@.len() >= HEADER_SIZE,
        ensures
            r == hdr_response(self@),
    {
        (self.buf[2] / 16) % 2 == 1
    }

    pub fn acknum(&self) -> (r: u8)
        requires
            self@.len() >= HEADER_SIZE,
        ensures
            r == hdr_acknum(self@),
    {
        self.buf[2] / 32
    }

    /// The id field, which must name a message.
    pub fn msg_id(&self) -> (r: Result<OwnedMessageId, PacketError>)
        ensures
            match msg_id_error(self@) {
                Some(e) => r == Err::<OwnedMessageId, PacketError>(e),
                None => r matches Ok(id) && id@ == id_field(self@),
            },
    {
        if self.buf.len() < HEADER_SIZE {
            return Err(PacketError::MissingHeader);
        }
        if self.id_length_raw() == 0 {
            return Err(PacketError::InvalidMessageIdLength);
        }
        if !self.check_complete() {
            return Err(PacketError::IncompletePayload);
        }
        let n = self.id_length_raw() as usize;
        match OwnedMessageId::new(slice_subrange(self.buf.as_slice(), 3, 3 + n)) {
            Some(id) => Ok(id),
            None => Err(PacketError::InvalidMessageId),
        }
    }

    /// A copy of the payload field.
    pub fn payload(&self) -> (r: Result<Vec<u8>, PacketError>)
        ensures
            r is Ok <==> is_complete(self@),
            r matches Ok(v) ==> v@ == payload_field(self@),
            r matches Err(e) ==> e == PacketError::IncompletePayload,
    {
        if !self.check_complete() {
            return Err(PacketError::IncompletePayload);
        }
        let start = 3 + self.id_length_raw() as usize;
        let end = start + self.data_length() as usize;
        Ok(slice_to_vec(slice_subrange(self.buf.as_slice(), start, end)))
    }

    fn check_complete(&self) -> (r: bool)
        ensures
            r == is_complete(self@),
    {
        if self.buf.len() < HEADER_SIZE + CHECKSUM_SIZE {
            return false;
        }
        let id_len = self.id_length_raw() as usize;
        id_len >= 1 && self.buf.len() >= HEADER_SIZE + id_len + self.data_length() as usize
            + CHECKSUM_SIZE
    }
}

/// Builds a request packet in `buf`, which the caller owns and may reuse
/// from one request to the next: header with acknowledgement zero and no
/// offset, then id and payload, then the checksum over all of them.  On an
/// error `buf` is left as it was; else it holds exactly the packet, whose
/// length is returned.
pub fn build_request_into(
    buf: &mut Vec<u8>,
    id: &[u8],
    typ: WireType,
    internal: bool,
    response: bool,
    payload: &[u8],
) -> (r: Result<usize, PacketError>)
    ensures
        request_error(id@, typ, payload@) is None <==> r is Ok,
        r matches Ok(n) ==> final(buf)@ == request_bytes(id@, typ, internal, response, payload@)
            && n == final(buf)@.len(),
        r matches Err(e) ==> request_error(id@, typ, payload@) == Some(e) && final(buf)@ == old(
            buf,
        )@,
{
    if id.len() == 0 || id.len() > MAX_MSG_ID_SIZE {
        return Err(PacketError::InvalidMessageIdLength);
    }
    if payload.len() > MAX_DATA_LENGTH {
        return Err(PacketError::InvalidDataLength);
    }
    let tag = typ.tag();
    if tag >= 16 {
        return Err(PacketError::InvalidType);
    }
    let dl = payload.len();
    buf.clear();
    buf.push((dl % 256) as u8);
    buf.push((dl / 256) as u8 + 4 * tag + if internal { 64u8 } else { 0u8 });
    buf.push(id.len() as u8 + if response { 16u8 } else { 0u8 });
    let ghost hdr = buf@;
    assert(hdr =~= header_bytes(dl as nat, tag, internal, id@.len(), response));
    buf.extend_from_slice(id);
    buf.extend_from_slice(payload);
    assert(buf@ =~= request_body(id@, typ, internal, response, payload@));
    proof {
        lemma_request_body_fields(id@, typ, internal, response, payload@);
    }
    let ghost body = buf@;
    assert(body.subrange(0, body_end(body) as int) =~= body);
    let c = compute_crc(buf.as_slice()).unwrap();
    buf.push((c % 256) as u8);
    buf.push((c / 256) as u8);
    assert(c == packet_crc(body));
    assert(buf@ =~= request_bytes(id@, typ, internal, response, payload@));
    Ok(buf.len())
}

/// Builds a request packet in a buffer of its own, as `build_request_into`
/// does.
pub fn build_request(
    id: &[u8],
    typ: WireType,
    internal: bool,
    response: bool,
    payload: &[u8],
) -> (r: Result<Packet, PacketError>)
    ensures
        request_error(id@, typ, payload@) is None <==> r is Ok,
        r matches Ok(p) ==> p@ == request_bytes(id@, typ, internal, response, payload@),
        r matches Err(e) ==> request_error(id@, typ, payload@) == Some(e),
{
    let mut buf: Vec<u8> = Vec::new();
    match build_request_into(&mut buf, id, typ, internal, response, payload) {
        Ok(_) => Ok(Packet { buf }),
        Err(e) => Err(e),
    }
}

/// The header of a request announces the fields it was built from.
pub proof fn lemma_request_body_fields(
    id: Seq<u8>,
    typ: WireType,
    internal: bool,
    response: bool,
    payload: Seq<u8>,
)
    requires
        request_error(id, typ, payload) is None,
    ensures
        ({
            let b = request_body(id, typ, internal, response, payload);
            &&& b.len() == 3 + id.len() + payload.len()
            &&& hdr_data_len(b) == payload.len()
            &&& hdr_tag(b) == typ.spec_tag()
            &&& hdr_internal(b) == internal
            &&& !hdr_offset(b)
            &&& hdr_id_len(b) == id.len()
            &&& hdr_response(b) == response
            &&& hdr_acknum(b) == 0
            &&& body_end(b) == b.len()
            &&& id_field(b) == id
            &&& payload_field(b) == payload
        }),
{
    let b = request_body(id, typ, internal, response, payload);
    let dl = payload.len();
    let t = typ.spec_tag();
    let i: nat = if internal { 64 } else { 0 };
    let r: nat = if response { 16 } else { 0 };
    assert(b[0] == (dl % 256) as u8);
    assert(b[1] == (dl / 256 + 4 * t + i) as u8);
    assert(b[2] == (id.len() + r) as u8);
    assert(dl / 256 < 4) by (nonlinear_arith)
        requires dl <= 1023;
    assert((dl / 256 + 4 * t + i) / 4 == t + i / 4) by (nonlinear_arith)
        requires dl / 256 < 4, i == 0 || i == 64;
    assert((dl % 256) + 256 * ((dl / 256) % 4) == dl) by (nonlinear_arith)
        requires dl / 256 < 4;
    assert((dl / 256 + 4 * t + i) % 4 == dl / 256) by (nonlinear_arith)
        requires dl / 256 < 4, i == 0 || i == 64;
    assert(id_field(b) =~= id);
    assert(payload_field(b) =~= payload);
}

} // verus!
