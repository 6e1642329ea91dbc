//! The server's end of a connection: what it answers to the upgrade
//! request and to each frame after it. Completed messages are echoed.

use vstd::prelude::*;
use vstd::utf8::encode_utf8;
use vstd::utf8::{decode_utf8, decode_utf8_encode_utf8, valid_utf8};
use crate::read::{
    FrameError, FIN_BIT, OP_BINARY, OP_PING, OP_PONG, OP_TEXT, parse_frame, read_header,
    valid_opcode,
};
use crate::mask::xor_mask;
use crate::handshake::{accept_response, negotiate_server, server_handshake};
use crate::message::{Message, MessageView, ReassemblyView};
use crate::session::{
    ConnectionState, Outcome, OutcomeView, Reaction, ReactionView, Role, Session, SessionError,
    SessionView, session_step,
};
use crate::write::{
    encode_frame, first_byte, lemma_first_byte, lemma_round_trip, lemma_round_trip_masked,
    send_message,
};

verus! {

/// The frame that echoes a message: a Text message goes back as one
/// Text frame and a Binary message as one Binary frame, both with FIN
/// and unmasked. Other messages are not echoed.
pub open spec fn echo_of(message: MessageView) -> Seq<u8> {
    match message {
        MessageView::Text(text) => encode_frame(FIN_BIT | OP_TEXT, encode_utf8(text), None),
        MessageView::Binary(bytes) => encode_frame(FIN_BIT | OP_BINARY, bytes, None),
        _ => Seq::empty(),
    }
}

/// The bytes a server sends after a frame: the reply that the frame
/// calls for, unmasked; failing that the echo of the message that the
/// frame completed, as long as this peer may still send.
pub open spec fn server_bytes(may_send: bool, reaction: ReactionView) -> Seq<u8> {
    match reaction.reply {
        Some(reply) => encode_frame(reply.byte1, reply.payload, None),
        None => match reaction.delivered {
            Some(message) => if may_send {
                echo_of(message)
            } else {
                Seq::empty()
            },
            None => Seq::empty(),
        },
    }
}

/// The server's step on one input.
///
/// While the handshake is open the input is the client's request: a
/// valid one opens the connection and is answered with the response
/// that grants the upgrade. After that the input is the bytes of one
/// frame, which is decoded and taken through `session_step` in the
/// server's role. Once the connection has ended nothing is read and
/// nothing sent. Every error closes the session.
pub open spec fn server_step(session: SessionView, input: Seq<u8>) -> (
    SessionView,
    Result<OutcomeView, SessionError>,
) {
    if session.state is Handshaking {
        match server_handshake(input) {
            Ok(accept_key) => (
                session.moved_to(ConnectionState::Open),
                Ok(
                    OutcomeView {
                        outgoing: accept_response(accept_key),
                        delivered: None,
                        terminate: false,
                        consumed: input.len(),
                    },
                ),
            ),
            Err(e) => (session.failed(), Err(SessionError::Handshake(e))),
        }
    } else if !session.state.takes_frames() {
        (session, Ok(OutcomeView::ended()))
    } else {
        match parse_frame(input) {
            Err(e) => (session.failed(), Err(SessionError::Frame(e))),
            Ok((frame, used)) => {
                let (next, outcome) = session_step(session, Role::Server, frame);
                match outcome {
                    Err(e) => (next, Err(SessionError::Frame(e))),
                    Ok(reaction) => (
                        next,
                        Ok(
                            OutcomeView {
                                outgoing: server_bytes(session.state.may_send(), reaction),
                                delivered: reaction.delivered,
                                terminate: reaction.terminate,
                                consumed: used,
                            },
                        ),
                    ),
                }
            },
        }
    }
}

/// Encodes what a server sends after a frame: see `server_bytes`.
pub fn server_reply(may_send: bool, reaction: &Reaction) -> (bytes: Vec<u8>)
    ensures
        bytes@ == server_bytes(may_send, reaction@),
{
    match &reaction.reply {
        Some(reply) => send_message(reply.byte1, reply.payload.as_slice()),
        None => {
            if !may_send {
                return Vec::new();
            }
            match &reaction.delivered {
                Some(Message::Text(text)) => send_message(
                    FIN_BIT | OP_TEXT,
                    text.as_str().as_bytes(),
                ),
                Some(Message::Binary(bytes)) => send_message(FIN_BIT | OP_BINARY, bytes.as_slice()),
                _ => Vec::new(),
            }
        },
    }
}

/// Serves one step of a client's connection: takes what the client sent,
/// the upgrade request first and then one frame at a time, and returns
/// what to send back, what message arrived and whether to hang up.
///
/// Fails with the handshake's error where the request is refused, and
/// with the frame's error where the frame is truncated or breaks the
/// protocol. After a failure the session is closed.
pub fn handle_client(session: &mut Session, input: &[u8]) -> (out: Result<Outcome, SessionError>)
    ensures
        final(session)@ == server_step(old(session)@, input@).0,
        server_step(old(session)@, input@).1 == match out {
            Ok(outcome) => Ok(outcome@),
            Err(e) => Err(e),
        },
{
    let state: ConnectionState = session.state();
    if matches!(state, ConnectionState::Handshaking) {
        return match negotiate_server(input) {
            Ok(response) => {
                session.established();
                Ok(
                    Outcome {
                        outgoing: response.to_bytes(),
                        delivered: None,
                        terminate: false,
                        consumed: input.len(),
                    },
                )
            },
            Err(e) => {
                session.fail();
                Err(SessionError::Handshake(e))
            },
        };
    }
    if !state.accepts_frames() {
        return Ok(Outcome { outgoing: Vec::new(), delivered: None, terminate: true, consumed: 0 });
    }
    match read_header(input) {
        Err(e) => {
            session.fail();
            Err(SessionError::Frame(e))
        },
        Ok((frame, used)) => match session.receive(Role::Server, frame) {
            Err(e) => Err(SessionError::Frame(e)),
            Ok(reaction) => {
                let outgoing = server_reply(state.can_send(), &reaction);
                Ok(
                    Outcome {
                        outgoing,
                        delivered: reaction.delivered,
                        terminate: reaction.terminate,
                        consumed: used,
                    },
                )
            },
        },
    }
}

/// A server echoes text: on an open connection with no message in
/// progress, one masked Text frame with FIN whose payload is valid UTF-8
/// comes back as one unmasked Text frame with the same payload, and the
/// session is as before.
pub proof fn lemma_server_echoes_text(session: SessionView, payload: Seq<u8>, key: Seq<u8>)
    requires
        session.state is Open,
        session.reassembly == ReassemblyView::idle(),
        payload.len() <= u64::MAX,
        key.len() == 4,
        valid_utf8(payload),
    ensures
        ({
            let input = encode_frame(FIN_BIT | OP_TEXT, xor_mask(payload, key), Some(key));
            server_step(session, input) == (
                session,
                Ok::<OutcomeView, SessionError>(
                    OutcomeView {
                        outgoing: encode_frame(FIN_BIT | OP_TEXT, payload, None),
                        delivered: Some(MessageView::Text(decode_utf8(payload))),
                        terminate: false,
                        consumed: input.len(),
                    },
                ),
            )
        }),
{
    lemma_first_byte(true, OP_TEXT);
    lemma_round_trip_masked(true, OP_TEXT, payload, key);
    decode_utf8_encode_utf8(payload);
    assert(Seq::<u8>::empty() + payload =~= payload);
}

/// A server answers a Ping: on an open connection, whatever the
/// reassembler holds, one masked Ping frame comes back as one unmasked
/// Pong frame with the same payload, and the session is as before.
pub proof fn lemma_server_answers_ping(session: SessionView, payload: Seq<u8>, key: Seq<u8>)
    requires
        session.state is Open,
        payload.len() <= u64::MAX,
        key.len() == 4,
    ensures
        ({
            let input = encode_frame(FIN_BIT | OP_PING, xor_mask(payload, key), Some(key));
            server_step(session, input) == (
                session,
                Ok::<OutcomeView, SessionError>(
                    OutcomeView {
                        outgoing: encode_frame(FIN_BIT | OP_PONG, payload, None),
                        delivered: Some(MessageView::Ping(payload)),
                        terminate: false,
                        consumed: input.len(),
                    },
                ),
            )
        }),
{
    lemma_first_byte(true, OP_PING);
    lemma_round_trip_masked(true, OP_PING, payload, key);
}

/// A server does not take unmasked frames: a frame written without a
/// masking key is a violation and closes the session.
pub proof fn lemma_server_refuses_unmasked(
    session: SessionView,
    fin: bool,
    opcode: u8,
    payload: Seq<u8>,
)
    requires
        session.state.takes_frames(),
        valid_opcode(opcode),
        payload.len() <= u64::MAX,
    ensures
        server_step(session, encode_frame(first_byte(fin, opcode), payload, None)) == (
            session.failed(),
            Err::<OutcomeView, SessionError>(SessionError::Frame(FrameError::ProtocolViolation)),
        ),
{
    lemma_round_trip(fin, opcode, payload);
}

} // verus!
