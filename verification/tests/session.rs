use ws_core::read::{
    FrameError, FrameHeader, OP_BINARY, OP_CLOSE, OP_CONTINUATION, OP_PING, OP_PONG, OP_TEXT,
};
use ws_core::message::Message;
use ws_core::session::ConnectionState::{Closed, ClosingReceived, ClosingSent, Handshaking, Open};
use ws_core::session::{react_to, ConnectionState, Reaction, Reply, Role, Session};

fn masked(fin: bool, opcode: u8, payload: &[u8]) -> FrameHeader {
    FrameHeader {
        fin,
        opcode,
        masked: true,
        payload_length: payload.len() as u64,
        masking_key: Some([1, 2, 3, 4]),
        decoded_data: payload.to_vec(),
    }
}

fn unmasked(fin: bool, opcode: u8, payload: &[u8]) -> FrameHeader {
    FrameHeader {
        fin,
        opcode,
        masked: false,
        payload_length: payload.len() as u64,
        masking_key: None,
        decoded_data: payload.to_vec(),
    }
}

fn open_session() -> Session {
    let mut session = Session::new();
    session.established();
    session
}

#[test]
fn a_session_starts_in_the_handshake() {
    let session = Session::new();
    assert_eq!(session.state(), ConnectionState::Handshaking);
    assert!(!session.in_message());
}

#[test]
fn the_handshake_opens_the_session() {
    let mut session = Session::new();
    session.established();
    assert_eq!(session.state(), ConnectionState::Open);
    // and only the handshake does
    session.end_of_stream();
    session.established();
    assert_eq!(session.state(), ConnectionState::Closed);
}

#[test]
fn life_cycle_transitions() {
    assert_eq!(Handshaking.handshake_done(), Open);
    assert_eq!(Open.handshake_done(), Open);
    assert_eq!(Closed.handshake_done(), Closed);

    assert_eq!(Open.close_sent(), ClosingSent);
    assert_eq!(ClosingReceived.close_sent(), Closed);
    assert_eq!(ClosingSent.close_sent(), ClosingSent);
    assert_eq!(Closed.close_sent(), Closed);
    assert_eq!(Handshaking.close_sent(), Handshaking);

    assert_eq!(Open.close_received(), ClosingReceived);
    assert_eq!(ClosingSent.close_received(), Closed);
    assert_eq!(ClosingReceived.close_received(), ClosingReceived);
    assert_eq!(Closed.close_received(), Closed);
    assert_eq!(Handshaking.close_received(), Handshaking);

    // both orders of the two Close frames end the connection
    assert_eq!(Open.close_sent().close_received(), Closed);
    assert_eq!(Open.close_received().close_sent(), Closed);
}

#[test]
fn what_each_state_allows() {
    for (state, takes, sends, closes) in [
        (Handshaking, false, false, false),
        (Open, true, true, true),
        (ClosingSent, true, false, false),
        (ClosingReceived, false, false, true),
        (Closed, false, false, false),
    ] {
        assert_eq!(state.accepts_frames(), takes);
        assert_eq!(state.can_send(), sends);
        assert_eq!(state.can_send_close(), closes);
    }
}

#[test]
fn masking_depends_on_the_role() {
    assert!(Role::Server.receives_masked());
    assert!(!Role::Client.receives_masked());
}

#[test]
fn a_frame_before_the_handshake_is_a_violation() {
    let mut session = Session::new();
    assert_eq!(
        session.receive(Role::Server, masked(true, OP_TEXT, b"x")),
        Err(FrameError::ProtocolViolation)
    );
    assert_eq!(session.state(), ConnectionState::Closed);
}

#[test]
fn a_server_refuses_unmasked_frames() {
    let mut session = open_session();
    assert_eq!(
        session.receive(Role::Server, unmasked(true, OP_TEXT, b"x")),
        Err(FrameError::ProtocolViolation)
    );
    assert_eq!(session.state(), ConnectionState::Closed);
}

#[test]
fn a_client_refuses_masked_frames() {
    let mut session = open_session();
    assert_eq!(
        session.receive(Role::Client, masked(true, OP_TEXT, b"x")),
        Err(FrameError::ProtocolViolation)
    );
    assert_eq!(session.state(), ConnectionState::Closed);

    let mut session = open_session();
    assert_eq!(
        session.receive(Role::Client, unmasked(true, OP_TEXT, b"x")),
        Ok(Reaction {
            reply: None,
            delivered: Some(Message::Text("x".to_string())),
            terminate: false
        })
    );
    assert_eq!(session.state(), ConnectionState::Open);
}

#[test]
fn data_messages_are_delivered() {
    let mut session = open_session();
    assert_eq!(
        session.receive(Role::Server, masked(false, OP_BINARY, &[1])),
        Ok(Reaction { reply: None, delivered: None, terminate: false })
    );
    assert!(session.in_message());
    assert_eq!(
        session.receive(Role::Server, masked(true, OP_CONTINUATION, &[2])),
        Ok(Reaction {
            reply: None,
            delivered: Some(Message::Binary(vec![1, 2])),
            terminate: false
        })
    );
    assert!(!session.in_message());
    assert_eq!(session.state(), ConnectionState::Open);
}

#[test]
fn a_ping_between_fragments_is_answered_and_the_message_completes() {
    let mut session = open_session();
    assert_eq!(
        session.receive(Role::Server, masked(false, OP_TEXT, b"Hel")),
        Ok(Reaction { reply: None, delivered: None, terminate: false })
    );
    assert_eq!(
        session.receive(Role::Server, masked(true, OP_PING, b"are you there")),
        Ok(Reaction {
            reply: Some(Reply { byte1: 0x8A, payload: b"are you there".to_vec() }),
            delivered: Some(Message::Ping(b"are you there".to_vec())),
            terminate: false
        })
    );
    assert!(session.in_message());
    assert_eq!(session.state(), ConnectionState::Open);
    assert_eq!(
        session.receive(Role::Server, masked(false, OP_CONTINUATION, b"lo, ")),
        Ok(Reaction { reply: None, delivered: None, terminate: false })
    );
    assert_eq!(
        session.receive(Role::Server, masked(true, OP_CONTINUATION, b"world")),
        Ok(Reaction {
            reply: None,
            delivered: Some(Message::Text("Hello, world".to_string())),
            terminate: false
        })
    );
}

#[test]
fn a_pong_is_noted_and_not_answered() {
    let mut session = open_session();
    assert_eq!(
        session.receive(Role::Server, masked(true, OP_PONG, b"x")),
        Ok(Reaction { reply: None, delivered: Some(Message::Pong(b"x".to_vec())), terminate: false })
    );
    assert_eq!(session.state(), ConnectionState::Open);
}

#[test]
fn a_close_is_echoed_once_and_ends_the_connection() {
    let mut session = open_session();
    assert_eq!(
        session.receive(Role::Server, masked(true, OP_CLOSE, &[0x03, 0xE8])),
        Ok(Reaction {
            reply: Some(Reply { byte1: 0x88, payload: vec![0x03, 0xE8] }),
            delivered: Some(Message::Close(vec![0x03, 0xE8])),
            terminate: true
        })
    );
    assert_eq!(session.state(), ConnectionState::Closed);
    // whatever comes after is dropped: no second echo
    assert_eq!(
        session.receive(Role::Server, masked(true, OP_CLOSE, &[0x03, 0xE8])),
        Ok(Reaction { reply: None, delivered: None, terminate: true })
    );
    assert_eq!(
        session.receive(Role::Server, masked(true, OP_PING, b"x")),
        Ok(Reaction { reply: None, delivered: None, terminate: true })
    );
    assert_eq!(session.state(), ConnectionState::Closed);
}

#[test]
fn a_close_with_no_payload_is_echoed_empty() {
    let mut session = open_session();
    assert_eq!(
        session.receive(Role::Server, masked(true, OP_CLOSE, &[])),
        Ok(Reaction {
            reply: Some(Reply { byte1: 0x88, payload: Vec::new() }),
            delivered: Some(Message::Close(Vec::new())),
            terminate: true
        })
    );
}

#[test]
fn a_close_after_our_own_is_not_echoed() {
    let mut session = open_session();
    assert_eq!(
        session.close(vec![0x03, 0xE8]),
        Some(Reply { byte1: 0x88, payload: vec![0x03, 0xE8] })
    );
    assert_eq!(session.state(), ConnectionState::ClosingSent);
    assert_eq!(session.close(vec![0x03, 0xE8]), None);
    assert_eq!(session.state(), ConnectionState::ClosingSent);
    assert_eq!(
        session.receive(Role::Server, masked(true, OP_CLOSE, &[0x03, 0xE8])),
        Ok(Reaction {
            reply: None,
            delivered: Some(Message::Close(vec![0x03, 0xE8])),
            terminate: true
        })
    );
    assert_eq!(session.state(), ConnectionState::Closed);
}

#[test]
fn after_our_close_nothing_more_is_sent() {
    let mut session = open_session();
    assert!(session.close(Vec::new()).is_some());
    assert_eq!(
        session.receive(Role::Server, masked(true, OP_PING, b"x")),
        Ok(Reaction { reply: None, delivered: Some(Message::Ping(b"x".to_vec())), terminate: false })
    );
    assert_eq!(
        session.receive(Role::Server, masked(true, OP_TEXT, b"late")),
        Ok(Reaction {
            reply: None,
            delivered: Some(Message::Text("late".to_string())),
            terminate: false
        })
    );
    assert_eq!(session.state(), ConnectionState::ClosingSent);
}

#[test]
fn an_error_closes_the_session_and_empties_the_reassembler() {
    let mut session = open_session();
    assert_eq!(
        session.receive(Role::Server, masked(false, OP_TEXT, b"a")),
        Ok(Reaction { reply: None, delivered: None, terminate: false })
    );
    assert_eq!(
        session.receive(Role::Server, masked(true, OP_TEXT, b"b")),
        Err(FrameError::ProtocolViolation)
    );
    assert_eq!(session.state(), ConnectionState::Closed);
    assert!(!session.in_message());

    let mut session = open_session();
    assert_eq!(
        session.receive(Role::Server, masked(true, OP_TEXT, &[0xFF, 0xFE])),
        Err(FrameError::ProtocolViolation)
    );
    assert_eq!(session.state(), ConnectionState::Closed);

    let mut session = open_session();
    assert_eq!(
        session.receive(Role::Server, masked(true, OP_CONTINUATION, b"x")),
        Err(FrameError::ProtocolViolation)
    );
    assert_eq!(session.state(), ConnectionState::Closed);
}

#[test]
fn the_end_of_the_stream_closes_the_session() {
    let mut session = open_session();
    session.end_of_stream();
    assert_eq!(session.state(), ConnectionState::Closed);
    let mut session = open_session();
    session.fail();
    assert_eq!(session.state(), ConnectionState::Closed);
}

#[test]
fn reactions_to_messages() {
    assert_eq!(
        react_to(ConnectionState::Open, Message::Ping(vec![1])),
        (
            ConnectionState::Open,
            Reaction {
                reply: Some(Reply { byte1: 0x8A, payload: vec![1] }),
                delivered: Some(Message::Ping(vec![1])),
                terminate: false
            }
        )
    );
    assert_eq!(
        react_to(ConnectionState::Open, Message::Close(vec![2])),
        (
            ConnectionState::Closed,
            Reaction {
                reply: Some(Reply { byte1: 0x88, payload: vec![2] }),
                delivered: Some(Message::Close(vec![2])),
                terminate: true
            }
        )
    );
    assert_eq!(
        react_to(ConnectionState::ClosingSent, Message::Close(vec![2])),
        (
            ConnectionState::Closed,
            Reaction { reply: None, delivered: Some(Message::Close(vec![2])), terminate: true }
        )
    );
    assert_eq!(
        react_to(ConnectionState::Open, Message::Text("t".to_string())),
        (
            ConnectionState::Open,
            Reaction {
                reply: None,
                delivered: Some(Message::Text("t".to_string())),
                terminate: false
            }
        )
    );
}

#[test]
fn closing_is_possible_only_once_and_only_when_open() {
    let mut session = Session::new();
    assert_eq!(session.close(vec![1]), None);
    assert_eq!(session.state(), Handshaking);

    let mut session = open_session();
    assert_eq!(session.close(Vec::new()), Some(Reply { byte1: 0x88, payload: Vec::new() }));
    assert_eq!(session.state(), ClosingSent);
    assert_eq!(session.close(Vec::new()), None);

    let mut session = open_session();
    session.end_of_stream();
    assert_eq!(session.close(Vec::new()), None);
    assert_eq!(session.state(), Closed);
}
