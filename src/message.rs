use vstd::prelude::*;
use vstd::slice::slice_to_vec;
use vstd::string::StringSliceAdditionalSpecFns;
use vstd::utf8::{decode_utf8, valid_utf8};
use crate::variable::utf8_str;

verus! {

/// Largest number of bytes in a message id.
pub const MAX_MSG_ID_SIZE: usize = 15;

/// How a payload's bytes are to be read.  Scalar and array forms of a type
/// share one tag and are told apart by the payload length alone.
#[derive(Clone, Copy, Debug, PartialEq, Eq, Structural)]
pub enum WireType {
    Callback,
    Custom,
    OffsetMetadata,
    Byte,
    Char,
    I8,
    U8,
    I16,
    U16,
    I32,
    U32,
    F32,
    F64,
    Unknown(u8),
}

impl WireType {
    /// The type named by a numeric tag.
    pub open spec fn spec_from_tag(t: u8) -> WireType {
        if t == 0 { WireType::Callback }
        else if t == 1 { WireType::Custom }
        else if t == 2 { WireType::OffsetMetadata }
        else if t == 3 { WireType::Byte }
        else if t == 4 { WireType::Char }
        else if t == 5 { WireType::I8 }
        else if t == 6 { WireType::U8 }
        else if t == 7 { WireType::I16 }
        else if t == 8 { WireType::U16 }
        else if t == 9 { WireType::I32 }
        else if t == 10 { WireType::U32 }
        else if t == 11 { WireType::F32 }
        else if t == 12 { WireType::F64 }
        else { WireType::Unknown(t) }
    }

    /// The numeric tag of a type.
    pub open spec fn spec_tag(self) -> u8 {
        match self {
            WireType::Callback => 0,
            WireType::Custom => 1,
            WireType::OffsetMetadata => 2,
            WireType::Byte => 3,
            WireType::Char => 4,
            WireType::I8 => 5,
            WireType::U8 => 6,
            WireType::I16 => 7,
            WireType::U16 => 8,
            WireType::I32 => 9,
            WireType::U32 => 10,
            WireType::F32 => 11,
            WireType::F64 => 12,
            WireType::Unknown(t) => t,
        }
    }

    /// Bytes per element; zero for the types whose payload is raw bytes.
    pub open spec fn spec_width(self) -> nat {
        match self {
            WireType::Byte | WireType::Char | WireType::I8 | WireType::U8 => 1,
            WireType::I16 | WireType::U16 => 2,
            WireType::I32 | WireType::U32 | WireType::F32 => 4,
            WireType::F64 => 8,
            _ => 0,
        }
    }

    /// A type as the wire can name it: an unknown tag is one that no known
    /// type uses, and every tag fits the four bits of the header field.
    pub open spec fn is_canonical(self) -> bool {
        match self {
            WireType::Unknown(t) => 13 <= t && t < 16,
            _ => true,
        }
    }

    pub fn from_tag(t: u8) -> (r: WireType)
        ensures
            r == Self::spec_from_tag(t),
    {
        match t {
            0 => WireType::Callback,
            1 => WireType::Custom,
            2 => WireType::OffsetMetadata,
            3 => WireType::Byte,
            4 => WireType::Char,
            5 => WireType::I8,
            6 => WireType::U8,
            7 => WireType::I16,
            8 => WireType::U16,
            9 => WireType::I32,
            10 => WireType::U32,
            11 => WireType::F32,
            12 => WireType::F64,
            _ => WireType::Unknown(t),
        }
    }

    pub fn tag(self) -> (r: u8)
        ensures
            r == self.spec_tag(),
    {
        match self {
            WireType::Callback => 0,
            WireType::Custom => 1,
            WireType::OffsetMetadata => 2,
            WireType::Byte => 3,
            WireType::Char => 4,
            WireType::I8 => 5,
            WireType::U8 => 6,
            WireType::I16 => 7,
            WireType::U16 => 8,
            WireType::I32 => 9,
            WireType::U32 => 10,
            WireType::F32 => 11,
            WireType::F64 => 12,
            WireType::Unknown(t) => t,
        }
    }

    pub fn width(self) -> (r: usize)
        ensures
            r == self.spec_width(),
    {
        match self {
            WireType::Byte | WireType::Char | WireType::I8 | WireType::U8 => 1,
            WireType::I16 | WireType::U16 => 2,
            WireType::I32 | WireType::U32 | WireType::F32 => 4,
            WireType::F64 => 8,
            _ => 0,
        }
    }
}

/// Reading a tag and writing it back gives the same tag, and a canonical
/// type survives the trip through its tag.
pub proof fn lemma_tag_round_trip(t: u8, w: WireType)
    ensures
        WireType::spec_from_tag(t).spec_tag() == t,
        t < 16 ==> WireType::spec_from_tag(t).is_canonical(),
        w.is_canonical() ==> WireType::spec_from_tag(w.spec_tag()) == w,
{
}

/// Whether bytes may name a message: one to fifteen bytes, and not the lone
/// zero byte.
pub open spec fn is_valid_id(id: Seq<u8>) -> bool {
    1 <= id.len() <= MAX_MSG_ID_SIZE && !(id.len() == 1 && id[0] == 0)
}

/// A message id owned apart from any packet buffer.
#[derive(Clone, Debug, PartialEq, Eq, Hash)]
pub struct OwnedMessageId(pub Vec<u8>);

impl View for OwnedMessageId {
    type V = Seq<u8>;

    open spec fn view(&self) -> Seq<u8> {
        self.0@
    }
}

impl OwnedMessageId {
    /// An id from bytes, if the bytes may name a message.
    pub fn new(id: &[u8]) -> (r: Option<Self>)
        ensures
            r.is_some() == is_valid_id(id@),
            r matches Some(m) ==> m@ == id@,
    {
        if id.len() == 0 || id.len() > MAX_MSG_ID_SIZE || (id.len() == 1 && id[0] == 0) {
            None
        } else {
            Some(OwnedMessageId(slice_to_vec(id)))
        }
    }

    pub fn as_bytes(&self) -> (r: &[u8])
        ensures
            r@ == self@,
    {
        self.0.as_slice()
    }

    /// The id as text, when its bytes are UTF-8.
    pub fn as_str(&self) -> (r: Option<&str>)
        ensures
            r is Some <==> valid_utf8(self@),
            r matches Some(s) ==> s@ == decode_utf8(self@),
    {
        utf8_str(self.0.as_slice())
    }

    pub fn from_utf8(s: &str) -> (r: Self)
        ensures
            r@ == s.spec_bytes(),
    {
        OwnedMessageId(slice_to_vec(s.as_bytes()))
    }

    pub fn len(&self) -> (r: usize)
        ensures
            r == self@.len(),
    {
        self.0.len()
    }

    /// An id copied out of the id field of a packet.
    pub fn from_wire(id: &[u8]) -> (r: Self)
        ensures
            r@ == id@,
    {
        OwnedMessageId(slice_to_vec(id))
    }
}

} // verus!
