//! A client library for the ElectricUI binary protocol: typed payload
//! decoding, packet construction, stream framing and a diagnostic handshake.

pub mod codec;
pub mod error;
pub mod handshake;
pub mod interrupt;
pub mod le;
pub mod message;
pub mod opts;
pub mod packet;
pub mod types;
pub mod variable;

pub use codec::{Codec, Decoder, DecoderError, Encoder, EncoderError, Error};
pub use error::{PacketError, PacketProtocolError};
pub use handshake::{Handshake, HandshakeError, Report, Stage, Step};
pub use interrupt::{signal_action, Interruptor, SignalAction};
pub use message::{OwnedMessageId, WireType, MAX_MSG_ID_SIZE};
pub use packet::{build_request, build_request_into, Packet, MAX_DATA_LENGTH, MAX_PACKET_SIZE};
pub use types::{
    parse_id_list, BoardId, BoardName, Heartbeat, IdsAnnouncement, TrackedVariables, Variable,
    WritableIdsAnnouncement, WritableIdsAnnouncementEndList,
};
pub use variable::VariableKind;
pub use opts::{DataBits, FlowControl, Parity, StopBits};
