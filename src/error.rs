use electricui_embedded::decoder::Error as EuiDecoderError;
use vstd::prelude::*;

verus! {

/// What can be wrong with the bytes of a packet.
#[derive(Clone, Copy, Debug, PartialEq, Eq, Structural)]
pub enum PacketError {
    MissingHeader,
    MissingChecksum,
    IncompletePayload,
    InvalidChecksum,
    InvalidMessageIdLength,
    InvalidMessageId,
    InvalidDataLength,
    InvalidType,
}

/// Why the contents of a packet could not be read as a protocol message.
#[derive(Clone, Copy, Debug, PartialEq, Eq, Structural)]
pub enum PacketProtocolError {
    Packet(PacketError),
    Utf8,
    ProtocolViolation,
}

/// A frame that the stream decoder of electricui-embedded rejected.
#[derive(Debug)]
pub struct DecoderError(pub EuiDecoderError);

} // verus!
