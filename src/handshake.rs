//! The diagnostic exchange: board id, board name, writable ids, tracked
//! variables and a heartbeat, one request at a time.  The caller sends the
//! packets each step hands out and feeds back every response packet, in
//! the order received.

use crate::error::PacketProtocolError;
use crate::packet::Packet;
use crate::types::{
    board_id_of, echo_of, id_count_of, id_list, payload_result, variable_of, BoardId, BoardName,
    Heartbeat, IdsAnnouncement, TrackedVariables, WritableIdsAnnouncement,
    WritableIdsAnnouncementEndList,
};
use vstd::prelude::*;

verus! {

/// The exchange a response belongs to.
#[derive(Clone, Copy, Debug, PartialEq, Eq, Structural)]
pub enum Stage {
    BoardId,
    BoardName,
    WritableIds,
    WritableIdsEnd,
    TrackedVariables,
    Heartbeat,
}

/// A response that could not be read, and the exchange it belonged to.
#[derive(Clone, Copy, Debug, PartialEq, Eq, Structural)]
pub struct HandshakeError {
    pub stage: Stage,
    pub error: PacketProtocolError,
}

/// What the exchange found out.
#[derive(Debug)]
pub struct Report {
    pub board_id: BoardId,
    pub board_name: BoardName,
    pub ids: IdsAnnouncement,
    pub id_count: usize,
    pub variables: TrackedVariables,
    pub heartbeat: Heartbeat,
    pub echo: Heartbeat,
    pub heartbeat_matches: bool,
}

/// Where the exchange stands, with what it has gathered so far.
#[derive(Debug)]
pub enum Handshake {
    AwaitBoardId { heartbeat: Heartbeat },
    AwaitBoardName { heartbeat: Heartbeat, board_id: BoardId },
    AwaitIds { heartbeat: Heartbeat, board_id: BoardId, board_name: BoardName },
    AwaitIdsEnd {
        heartbeat: Heartbeat,
        board_id: BoardId,
        board_name: BoardName,
        ids: IdsAnnouncement,
    },
    AwaitVariables {
        heartbeat: Heartbeat,
        board_id: BoardId,
        board_name: BoardName,
        ids: IdsAnnouncement,
        id_count: usize,
        variables: TrackedVariables,
        remaining: usize,
    },
    AwaitHeartbeat {
        heartbeat: Heartbeat,
        board_id: BoardId,
        board_name: BoardName,
        ids: IdsAnnouncement,
        id_count: usize,
        variables: TrackedVariables,
    },
}

/// What to do after a response: send these packets, in order, and feed back
/// the next response; or stop with the report.
#[derive(Debug)]
pub enum Step {
    Continue(Handshake, Vec<Packet>),
    Finished(Report),
}

pub open spec fn packets_view(v: Seq<Packet>) -> Seq<Seq<u8>> {
    v.map_values(|p: Packet| p@)
}

impl Handshake {
    pub open spec fn stage(&self) -> Stage {
        match self {
            Handshake::AwaitBoardId { .. } => Stage::BoardId,
            Handshake::AwaitBoardName { .. } => Stage::BoardName,
            Handshake::AwaitIds { .. } => Stage::WritableIds,
            Handshake::AwaitIdsEnd { .. } => Stage::WritableIdsEnd,
            Handshake::AwaitVariables { .. } => Stage::TrackedVariables,
            Handshake::AwaitHeartbeat { .. } => Stage::Heartbeat,
        }
    }

    pub open spec fn heartbeat(&self) -> Heartbeat {
        match self {
            Handshake::AwaitBoardId { heartbeat } => *heartbeat,
            Handshake::AwaitBoardName { heartbeat, .. } => *heartbeat,
            Handshake::AwaitIds { heartbeat, .. } => *heartbeat,
            Handshake::AwaitIdsEnd { heartbeat, .. } => *heartbeat,
            Handshake::AwaitVariables { heartbeat, .. } => *heartbeat,
            Handshake::AwaitHeartbeat { heartbeat, .. } => *heartbeat,
        }
    }

    /// Starts the exchange with the heartbeat value to send at its end, and
    /// hands out the board-id request.
    pub fn start(heartbeat: u8) -> (r: (Handshake, Packet))
        ensures
            r.0 == (Handshake::AwaitBoardId { heartbeat: Heartbeat(heartbeat) }),
            r.1@ == BoardId::request_spec(),
    {
        (Handshake::AwaitBoardId { heartbeat: Heartbeat(heartbeat) }, BoardId::encode_request())
    }

    /// Takes one response and decides the next step.  Any response that
    /// cannot be read ends the exchange with an error naming the stage.
    pub fn on_response(self, p: &Packet) -> (r: Result<Step, HandshakeError>)
        ensures
            r matches Err(e) ==> e.stage == self.stage(),
            r matches Ok(Step::Continue(h, _)) ==> h.heartbeat() == self.heartbeat(),
            match self {
                Handshake::AwaitBoardId { .. } => match board_id_of(p@) {
                    Err(e) => r == Err::<Step, HandshakeError>(
                        HandshakeError { stage: Stage::BoardId, error: e },
                    ),
                    Ok(id) => r matches Ok(Step::Continue(h, out)) && h matches (
                    Handshake::AwaitBoardName { board_id, .. }) && board_id.0 == id
                        && packets_view(out@) == seq![BoardName::request_spec()],
                },
                Handshake::AwaitBoardName { board_id: b0, .. } => match payload_result(p@) {
                    Err(e) => r == Err::<Step, HandshakeError>(
                        HandshakeError { stage: Stage::BoardName, error: e },
                    ),
                    Ok(d) => r matches Ok(Step::Continue(h, out)) && h matches (
                    Handshake::AwaitIds { board_id, board_name, .. }) && board_id == b0
                        && board_name.0@ == d && packets_view(out@) == seq![
                        WritableIdsAnnouncement::request_spec(),
                    ],
                },
                Handshake::AwaitIds { board_id: b0, board_name: n0, .. } => match payload_result(
                    p@,
                ) {
                    Err(e) => r == Err::<Step, HandshakeError>(
                        HandshakeError { stage: Stage::WritableIds, error: e },
                    ),
                    Ok(d) => r matches Ok(Step::Continue(h, out)) && h matches (
                    Handshake::AwaitIdsEnd { board_id, board_name, ids, .. }) && board_id == b0
                        && board_name == n0 && ids@ == id_list(d) && out@.len() == 0,
                },
                Handshake::AwaitIdsEnd { heartbeat: hb, board_id: b0, board_name: n0, ids: i0 } =>
                match id_count_of(
                    p@,
                ) {
                    Err(e) => r == Err::<Step, HandshakeError>(
                        HandshakeError { stage: Stage::WritableIdsEnd, error: e },
                    ),
                    Ok(n) => r matches Ok(Step::Continue(h, out)) && if n == 0 {
                        h matches (
                        Handshake::AwaitHeartbeat { board_id, board_name, ids, id_count, variables, .. })
                            && board_id == b0 && board_name == n0 && ids == i0 && id_count == 0
                            && variables@.len() == 0
                            && packets_view(out@) == seq![
                            TrackedVariables::request_spec(),
                            hb.request_spec(),
                        ]
                    } else {
                        h matches (
                        Handshake::AwaitVariables {
                            board_id,
                            board_name,
                            ids,
                            id_count,
                            variables,
                            remaining,
                            ..
                        }) && board_id == b0 && board_name == n0 && ids == i0 && id_count == n && remaining == n
                            && variables@.len() == 0 && packets_view(out@) == seq![
                            TrackedVariables::request_spec(),
                        ]
                    },
                },
                Handshake::AwaitVariables {
                    heartbeat: hb,
                    board_id: b0,
                    board_name: n0,
                    ids: i0,
                    id_count: c0,
                    variables: v0,
                    remaining: k,
                } =>
                match variable_of(p@) {
                    Err(e) => r == Err::<Step, HandshakeError>(
                        HandshakeError { stage: Stage::TrackedVariables, error: e },
                    ),
                    Ok(v) => r matches Ok(Step::Continue(h, out)) && if k <= 1 {
                        h matches (
                        Handshake::AwaitHeartbeat { board_id, board_name, ids, id_count, variables, .. })
                            && board_id == b0 && board_name == n0 && ids == i0 && id_count == c0
                            && variables@ == v0@.push(v) && packets_view(out@) == seq![
                            hb.request_spec(),
                        ]
                    } else {
                        h matches (
                        Handshake::AwaitVariables {
                            board_id,
                            board_name,
                            ids,
                            id_count,
                            variables,
                            remaining,
                            ..
                        }) && board_id == b0 && board_name == n0 && ids == i0 && id_count == c0
                            && variables@ == v0@.push(v) && remaining == k - 1 && out@.len() == 0
                    },
                },
                Handshake::AwaitHeartbeat {
                    heartbeat: hb,
                    board_id: b0,
                    board_name: n0,
                    ids: i0,
                    id_count: c0,
                    variables: v0,
                } => match echo_of(p@) {
                    Err(e) => r == Err::<Step, HandshakeError>(
                        HandshakeError { stage: Stage::Heartbeat, error: e },
                    ),
                    Ok(x) => r matches Ok(Step::Finished(rep)) && rep.heartbeat == hb
                        && rep.echo.0 == x && rep.heartbeat_matches == (x == hb.0)
                        && rep.board_id == b0 && rep.board_name == n0 && rep.ids == i0
                        && rep.id_count == c0
                        && rep.variables@ == v0@,
                },
            },
    {
        match self {
            Handshake::AwaitBoardId { heartbeat } => match BoardId::decode_response(p) {
                Err(e) => Err(HandshakeError { stage: Stage::BoardId, error: e }),
                Ok(board_id) => {
                    let out = vec![BoardName::encode_request()];
                    assert(packets_view(out@) =~= seq![BoardName::request_spec()]);
                    Ok(Step::Continue(Handshake::AwaitBoardName { heartbeat, board_id }, out))
                },
            },
            Handshake::AwaitBoardName { heartbeat, board_id } => match BoardName::decode_response(
                p,
            ) {
                Err(e) => Err(HandshakeError { stage: Stage::BoardName, error: e }),
                Ok(board_name) => {
                    let out = vec![WritableIdsAnnouncement::encode_request()];
                    assert(packets_view(out@) =~= seq![WritableIdsAnnouncement::request_spec()]);
                    Ok(
                        Step::Continue(
                            Handshake::AwaitIds { heartbeat, board_id, board_name },
                            out,
                        ),
                    )
                },
            },
            Handshake::AwaitIds { heartbeat, board_id, board_name } => {
                match IdsAnnouncement::decode_response(p) {
                    Err(e) => Err(HandshakeError { stage: Stage::WritableIds, error: e }),
                    Ok(ids) => {
                        let out: Vec<Packet> = Vec::new();
                        Ok(
                            Step::Continue(
                                Handshake::AwaitIdsEnd { heartbeat, board_id, board_name, ids },
                                out,
                            ),
                        )
                    },
                }
            },
            Handshake::AwaitIdsEnd { heartbeat, board_id, board_name, ids } => {
                match WritableIdsAnnouncementEndList::decode_response(p) {
                    Err(e) => Err(HandshakeError { stage: Stage::WritableIdsEnd, error: e }),
                    Ok(end) => {
                        let id_count = end.0;
                        let variables = TrackedVariables::new();
                        if id_count == 0 {
                            let out = vec![
                                TrackedVariables::encode_request(),
                                heartbeat.encode_request(),
                            ];
                            assert(packets_view(out@) =~= seq![
                                TrackedVariables::request_spec(),
                                heartbeat.request_spec(),
                            ]);
                            Ok(
                                Step::Continue(
                                    Handshake::AwaitHeartbeat {
                                        heartbeat,
                                        board_id,
                                        board_name,
                                        ids,
                                        id_count,
                                        variables,
                                    },
                                    out,
                                ),
                            )
                        } else {
                            let out = vec![TrackedVariables::encode_request()];
                            assert(packets_view(out@) =~= seq![TrackedVariables::request_spec()]);
                            Ok(
                                Step::Continue(
                                    Handshake::AwaitVariables {
                                        heartbeat,
                                        board_id,
                                        board_name,
                                        ids,
                                        id_count,
                                        variables,
                                        remaining: id_count,
                                    },
                                    out,
                                ),
                            )
                        }
                    },
                }
            },
            Handshake::AwaitVariables {
                heartbeat,
                board_id,
                board_name,
                ids,
                id_count,
                mut variables,
                remaining,
            } => {
                match variables.decode_response_accumulating(p) {
                    Err(e) => Err(HandshakeError { stage: Stage::TrackedVariables, error: e }),
                    Ok(()) => {
                        if remaining <= 1 {
                            let out = vec![heartbeat.encode_request()];
                            assert(packets_view(out@) =~= seq![heartbeat.request_spec()]);
                            Ok(
                                Step::Continue(
                                    Handshake::AwaitHeartbeat {
                                        heartbeat,
                                        board_id,
                                        board_name,
                                        ids,
                                        id_count,
                                        variables,
                                    },
                                    out,
                                ),
                            )
                        } else {
                            let out: Vec<Packet> = Vec::new();
                            Ok(
                                Step::Continue(
                                    Handshake::AwaitVariables {
                                        heartbeat,
                                        board_id,
                                        board_name,
                                        ids,
                                        id_count,
                                        variables,
                                        remaining: remaining - 1,
                                    },
                                    out,
                                ),
                            )
                        }
                    },
                }
            },
            Handshake::AwaitHeartbeat { heartbeat, board_id, board_name, ids, id_count, variables } => {
                match Heartbeat::decode_response(p) {
                    Err(e) => Err(HandshakeError { stage: Stage::Heartbeat, error: e }),
                    Ok(echo) => {
                        let heartbeat_matches = echo.0 == heartbeat.0;
                        Ok(
                            Step::Finished(
                                Report {
                                    board_id,
                                    board_name,
                                    ids,
                                    id_count,
                                    variables,
                                    heartbeat,
                                    echo,
                                    heartbeat_matches,
                                },
                            ),
                        )
                    },
                }
            },
        }
    }
}

} // verus!
