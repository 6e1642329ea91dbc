use ws_core::read::{
    FrameError, FrameHeader, OP_BINARY, OP_CLOSE, OP_CONTINUATION, OP_PING, OP_PONG, OP_TEXT,
};
use ws_core::message::{finish, Message, ReassemblyState};

fn frame(fin: bool, opcode: u8, payload: &[u8]) -> FrameHeader {
    FrameHeader {
        fin,
        opcode,
        masked: false,
        payload_length: payload.len() as u64,
        masking_key: None,
        decoded_data: payload.to_vec(),
    }
}

#[test]
fn a_single_text_frame_is_a_message() {
    let mut state = ReassemblyState::new();
    assert!(state.is_idle());
    assert_eq!(
        state.push(frame(true, OP_TEXT, b"hello")),
        Ok(Some(Message::Text("hello".to_string())))
    );
    assert!(state.is_idle());
}

#[test]
fn a_single_binary_frame_is_a_message() {
    let mut state = ReassemblyState::new();
    assert_eq!(
        state.push(frame(true, OP_BINARY, &[0xFF, 0x00, 0x80])),
        Ok(Some(Message::Binary(vec![0xFF, 0x00, 0x80])))
    );
    assert!(state.is_idle());
}

#[test]
fn three_text_fragments_make_one_message() {
    let mut state = ReassemblyState::new();
    assert_eq!(state.push(frame(false, OP_TEXT, b"Hel")), Ok(None));
    assert!(!state.is_idle());
    assert_eq!(state.push(frame(false, OP_CONTINUATION, b"lo, ")), Ok(None));
    assert!(!state.is_idle());
    assert_eq!(
        state.push(frame(true, OP_CONTINUATION, b"world")),
        Ok(Some(Message::Text("Hello, world".to_string())))
    );
    assert!(state.is_idle());
}

#[test]
fn binary_fragments_keep_the_first_opcode() {
    let mut state = ReassemblyState::new();
    assert_eq!(state.push(frame(false, OP_BINARY, &[1, 2])), Ok(None));
    assert_eq!(state.push(frame(false, OP_CONTINUATION, &[])), Ok(None));
    assert_eq!(
        state.push(frame(true, OP_CONTINUATION, &[3])),
        Ok(Some(Message::Binary(vec![1, 2, 3])))
    );
}

#[test]
fn text_is_validated_as_a_whole_not_frame_by_frame() {
    // U+20AC, the euro sign, is E2 82 AC: split across two frames
    let mut state = ReassemblyState::new();
    assert_eq!(state.push(frame(false, OP_TEXT, &[0xE2, 0x82])), Ok(None));
    assert_eq!(
        state.push(frame(true, OP_CONTINUATION, &[0xAC])),
        Ok(Some(Message::Text("\u{20AC}".to_string())))
    );
}

#[test]
fn continuation_without_a_start_is_a_violation() {
    let mut state = ReassemblyState::new();
    assert_eq!(
        state.push(frame(true, OP_CONTINUATION, b"x")),
        Err(FrameError::ProtocolViolation)
    );
    assert!(state.is_idle());
    assert_eq!(
        state.push(frame(false, OP_CONTINUATION, b"x")),
        Err(FrameError::ProtocolViolation)
    );
    assert!(state.is_idle());
}

#[test]
fn a_new_start_inside_a_message_is_a_violation() {
    let mut state = ReassemblyState::new();
    assert_eq!(state.push(frame(false, OP_TEXT, b"a")), Ok(None));
    assert_eq!(state.push(frame(true, OP_TEXT, b"b")), Err(FrameError::ProtocolViolation));
    // the state is idle again: a fresh message goes through, without the old bytes
    assert!(state.is_idle());
    assert_eq!(state.push(frame(true, OP_TEXT, b"c")), Ok(Some(Message::Text("c".to_string()))));

    let mut state = ReassemblyState::new();
    assert_eq!(state.push(frame(false, OP_BINARY, b"a")), Ok(None));
    assert_eq!(state.push(frame(false, OP_BINARY, b"b")), Err(FrameError::ProtocolViolation));
    assert!(state.is_idle());
}

#[test]
fn invalid_utf8_in_a_finished_text_message_is_a_violation() {
    let mut state = ReassemblyState::new();
    assert_eq!(state.push(frame(true, OP_TEXT, &[0xFF])), Err(FrameError::ProtocolViolation));
    assert!(state.is_idle());

    // valid pieces, invalid whole
    let mut state = ReassemblyState::new();
    assert_eq!(state.push(frame(false, OP_TEXT, b"ok")), Ok(None));
    assert_eq!(state.push(frame(false, OP_CONTINUATION, &[0xE2, 0x82])), Ok(None));
    assert_eq!(
        state.push(frame(true, OP_CONTINUATION, b"!")),
        Err(FrameError::ProtocolViolation)
    );
    assert!(state.is_idle());

    // a truncated sequence at the end
    let mut state = ReassemblyState::new();
    assert_eq!(state.push(frame(true, OP_TEXT, &[0x61, 0xC3])), Err(FrameError::ProtocolViolation));
    // an overlong encoding
    let mut state = ReassemblyState::new();
    assert_eq!(state.push(frame(true, OP_TEXT, &[0xC0, 0x80])), Err(FrameError::ProtocolViolation));
    // a surrogate
    let mut state = ReassemblyState::new();
    assert_eq!(
        state.push(frame(true, OP_TEXT, &[0xED, 0xA0, 0x80])),
        Err(FrameError::ProtocolViolation)
    );
}

#[test]
fn the_same_bytes_are_fine_as_binary() {
    let mut state = ReassemblyState::new();
    assert_eq!(state.push(frame(true, OP_BINARY, &[0xFF])), Ok(Some(Message::Binary(vec![0xFF]))));
}

#[test]
fn control_frames_pass_through_and_leave_the_state_alone() {
    let mut state = ReassemblyState::new();
    assert_eq!(state.push(frame(true, OP_PING, b"p")), Ok(Some(Message::Ping(b"p".to_vec()))));
    assert!(state.is_idle());

    assert_eq!(state.push(frame(false, OP_TEXT, b"a")), Ok(None));
    assert_eq!(state.push(frame(true, OP_PING, b"p")), Ok(Some(Message::Ping(b"p".to_vec()))));
    assert_eq!(state.push(frame(true, OP_PONG, b"q")), Ok(Some(Message::Pong(b"q".to_vec()))));
    assert_eq!(state.push(frame(true, OP_CLOSE, &[3, 232])), Ok(Some(Message::Close(vec![3, 232]))));
    assert!(!state.is_idle());
    assert_eq!(
        state.push(frame(true, OP_CONTINUATION, b"b")),
        Ok(Some(Message::Text("ab".to_string())))
    );
}

#[test]
fn an_undefined_opcode_is_a_violation() {
    let mut state = ReassemblyState::new();
    assert_eq!(state.push(frame(true, 0x3, b"x")), Err(FrameError::ProtocolViolation));
    assert_eq!(state.push(frame(false, OP_TEXT, b"a")), Ok(None));
    assert_eq!(state.push(frame(true, 0xB, b"x")), Err(FrameError::ProtocolViolation));
    assert!(state.is_idle());
}

#[test]
fn finishing_a_message() {
    assert_eq!(finish(OP_TEXT, b"abc".to_vec()), Ok(Message::Text("abc".to_string())));
    assert_eq!(finish(OP_TEXT, Vec::new()), Ok(Message::Text(String::new())));
    assert_eq!(finish(OP_TEXT, vec![0x80]), Err(FrameError::ProtocolViolation));
    assert_eq!(finish(OP_BINARY, vec![0x80]), Ok(Message::Binary(vec![0x80])));
    assert_eq!(
        finish(OP_TEXT, "gr\u{fc}\u{df} \u{1F600}".as_bytes().to_vec()),
        Ok(Message::Text("gr\u{fc}\u{df} \u{1F600}".to_string()))
    );
}
