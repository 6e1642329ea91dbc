//! Logical messages and the reassembler that folds a run of frames, one
//! start frame and any number of continuations, into one of them.

use vstd::prelude::*;
use vstd::utf8::{decode_utf8, valid_utf8};
use crate::read::{
    FrameError, FrameHeader, FrameView, OP_BINARY, OP_CLOSE, OP_CONTINUATION, OP_PING, OP_PONG,
    OP_TEXT,
};

verus! {

/// One complete message. A Close carries its payload as it came: the
/// optional status code and the reason, not taken apart.
#[derive(Debug, Clone, PartialEq, Eq)]
pub enum Message {
    Text(String),
    Binary(Vec<u8>),
    Ping(Vec<u8>),
    Pong(Vec<u8>),
    Close(Vec<u8>),
}

/// The mathematical content of a `Message`.
pub enum MessageView {
    Text(Seq<char>),
    Binary(Seq<u8>),
    Ping(Seq<u8>),
    Pong(Seq<u8>),
    Close(Seq<u8>),
}

impl View for Message {
    type V = MessageView;

    open spec fn view(&self) -> MessageView {
        match self {
            Message::Text(text) => MessageView::Text(text@),
            Message::Binary(bytes) => MessageView::Binary(bytes@),
            Message::Ping(bytes) => MessageView::Ping(bytes@),
            Message::Pong(bytes) => MessageView::Pong(bytes@),
            Message::Close(bytes) => MessageView::Close(bytes@),
        }
    }
}

/// What the reassembler holds between frames: the payload gathered so far
/// and the opcode of the frame that started the message, or none when idle.
pub struct ReassemblyState {
    accumulated_payload: Vec<u8>,
    message_opcode: Option<u8>,
}

/// The mathematical content of a `ReassemblyState`.
pub struct ReassemblyView {
    pub accumulated_payload: Seq<u8>,
    pub message_opcode: Option<u8>,
}

impl ReassemblyView {
    /// No message in progress.
    pub open spec fn idle() -> ReassemblyView {
        ReassemblyView { accumulated_payload: Seq::empty(), message_opcode: None }
    }

    /// Idle with nothing gathered, or in a message that a Text or a Binary frame started.
    pub open spec fn wf(self) -> bool {
        match self.message_opcode {
            None => self.accumulated_payload.len() == 0,
            Some(opcode) => opcode == OP_TEXT || opcode == OP_BINARY,
        }
    }
}

impl View for ReassemblyState {
    type V = ReassemblyView;

    closed spec fn view(&self) -> ReassemblyView {
        ReassemblyView {
            accumulated_payload: self.accumulated_payload@,
            message_opcode: self.message_opcode,
        }
    }
}

/// The message that a finished run of frames makes: text must be valid
/// UTF-8 as a whole, anything else is taken as it is.
pub open spec fn finish_message(opcode: u8, payload: Seq<u8>) -> Result<MessageView, FrameError> {
    if opcode == OP_TEXT {
        if valid_utf8(payload) {
            Ok(MessageView::Text(decode_utf8(payload)))
        } else {
            Err(FrameError::ProtocolViolation)
        }
    } else {
        Ok(MessageView::Binary(payload))
    }
}

/// The reassembler's step: the state after `frame` and what the frame
/// brought. A control frame is handed on at once and leaves the state as
/// it was. A data frame must start a message when none is in progress
/// and continue one when one is; its payload is appended, and with FIN
/// the message is finished and the state idle again. After an error the
/// state is idle.
pub open spec fn reassemble(state: ReassemblyView, frame: FrameView) -> (
    ReassemblyView,
    Result<Option<MessageView>, FrameError>,
) {
    if frame.opcode == OP_PING {
        (state, Ok(Some(MessageView::Ping(frame.payload))))
    } else if frame.opcode == OP_PONG {
        (state, Ok(Some(MessageView::Pong(frame.payload))))
    } else if frame.opcode == OP_CLOSE {
        (state, Ok(Some(MessageView::Close(frame.payload))))
    } else if frame.opcode == OP_CONTINUATION && state.message_opcode is Some || (frame.opcode
        == OP_TEXT || frame.opcode == OP_BINARY) && state.message_opcode is None {
        let opcode = match state.message_opcode {
            Some(started) => started,
            None => frame.opcode,
        };
        let payload = state.accumulated_payload + frame.payload;
        if !frame.fin {
            (ReassemblyView { accumulated_payload: payload, message_opcode: Some(opcode) }, Ok(None))
        } else {
            match finish_message(opcode, payload) {
                Ok(message) => (ReassemblyView::idle(), Ok(Some(message))),
                Err(e) => (ReassemblyView::idle(), Err(e)),
            }
        }
    } else {
        (ReassemblyView::idle(), Err(FrameError::ProtocolViolation))
    }
}

/// Wraps `String::from_utf8`: the text that `bytes` encode, if they are
/// valid UTF-8, and nothing if they are not.
#[verifier::external_body]
fn string_from_utf8(bytes: Vec<u8>) -> (text: Option<String>)
    ensures
        text is Some <==> valid_utf8(bytes@),
        text matches Some(s) ==> s@ == decode_utf8(bytes@),
{
    String::from_utf8(bytes).ok()
}

/// Makes the message that a finished run of frames stands for.
pub fn finish(opcode: u8, payload: Vec<u8>) -> (out: Result<Message, FrameError>)
    ensures
        finish_message(opcode, payload@) == match out {
            Ok(message) => Ok(message@),
            Err(e) => Err(e),
        },
{
    if opcode == OP_TEXT {
        match string_from_utf8(payload) {
            Some(text) => Ok(Message::Text(text)),
            None => Err(FrameError::ProtocolViolation),
        }
    } else {
        Ok(Message::Binary(payload))
    }
}

impl ReassemblyState {
    #[verifier::type_invariant]
    spec fn inv(self) -> bool {
        self@.wf()
    }

    /// An idle reassembler.
    pub fn new() -> (state: ReassemblyState)
        ensures
            state@ == ReassemblyView::idle(),
    {
        ReassemblyState { accumulated_payload: Vec::new(), message_opcode: None }
    }

    /// Tells whether no message is in progress.
    pub fn is_idle(&self) -> (idle: bool)
        ensures
            idle == (self@.message_opcode is None),
            self@.wf(),
    {
        proof {
            use_type_invariant(self);
        }
        self.message_opcode.is_none()
    }

    /// Feeds one frame to the reassembler and returns the message it
    /// completes, if it completes one.
    ///
    /// Fails with `ProtocolViolation` on a continuation when no message
    /// is in progress, on a new start frame while one is, on an opcode
    /// that is not defined, and on a finished text message that is not
    /// valid UTF-8.
    pub fn push(&mut self, frame: FrameHeader) -> (out: Result<Option<Message>, FrameError>)
        ensures
            final(self)@ == reassemble(old(self)@, frame@).0,
            reassemble(old(self)@, frame@).1 == match out {
                Ok(Some(message)) => Ok(Some(message@)),
                Ok(None) => Ok(None),
                Err(e) => Err(e),
            },
            final(self)@.wf(),
    {
        proof {
            use_type_invariant(&*self);
        }
        let opcode: u8 = frame.opcode;
        if opcode == OP_PING {
            return Ok(Some(Message::Ping(frame.decoded_data)));
        }
        if opcode == OP_PONG {
            return Ok(Some(Message::Pong(frame.decoded_data)));
        }
        if opcode == OP_CLOSE {
            return Ok(Some(Message::Close(frame.decoded_data)));
        }
        let started: Option<u8> = self.message_opcode;
        let mut payload: Vec<u8> = Vec::new();
        core::mem::swap(&mut payload, &mut self.accumulated_payload);
        let message_opcode: u8 = match started {
            Some(first) => {
                if opcode != OP_CONTINUATION {
                    self.message_opcode = None;
                    return Err(FrameError::ProtocolViolation);
                }
                first
            },
            None => {
                if opcode != OP_TEXT && opcode != OP_BINARY {
                    return Err(FrameError::ProtocolViolation);
                }
                opcode
            },
        };
        payload.extend_from_slice(frame.decoded_data.as_slice());
        assert(payload@ =~= old(self)@.accumulated_payload + frame@.payload);
        if !frame.fin {
            *self = ReassemblyState {
                accumulated_payload: payload,
                message_opcode: Some(message_opcode),
            };
            return Ok(None);
        }
        self.message_opcode = None;
        match finish(message_opcode, payload) {
            Ok(message) => Ok(Some(message)),
            Err(e) => Err(e),
        }
    }
}

/// What the reassembler reports for a finished run of frames.
pub open spec fn finished(opcode: u8, payload: Seq<u8>) -> Result<Option<MessageView>, FrameError> {
    match finish_message(opcode, payload) {
        Ok(message) => Ok(Some(message)),
        Err(e) => Err(e),
    }
}

/// The state after a run of frames, fed one by one.
pub open spec fn feed(state: ReassemblyView, frames: Seq<FrameView>) -> ReassemblyView
    decreases frames.len(),
{
    if frames.len() == 0 {
        state
    } else {
        reassemble(feed(state, frames.drop_last()), frames.last()).0
    }
}

/// The payloads of a run of frames, joined in order.
pub open spec fn joined_payload(frames: Seq<FrameView>) -> Seq<u8>
    decreases frames.len(),
{
    if frames.len() == 0 {
        Seq::empty()
    } else {
        joined_payload(frames.drop_last()) + frames.last().payload
    }
}

/// `frames` are the fragments of one message: a Text or Binary frame
/// first, continuations after it, and FIN on the last frame only.
pub open spec fn fragments_of(frames: Seq<FrameView>, opcode: u8) -> bool {
    &&& frames.len() >= 1
    &&& opcode == OP_TEXT || opcode == OP_BINARY
    &&& frames[0].opcode == opcode
    &&& forall|i: int| 1 <= i < frames.len() ==> (#[trigger] frames[i]).opcode == OP_CONTINUATION
    &&& forall|i: int| 0 <= i < frames.len() ==> ((#[trigger] frames[i]).fin <==> i == frames.len() - 1)
}

/// The reassembler keeps its invariant.
pub proof fn lemma_reassemble_wf(state: ReassemblyView, frame: FrameView)
    requires
        state.wf(),
    ensures
        reassemble(state, frame).0.wf(),
{
}

/// While the fragments of a message come in, the reassembler holds the
/// opcode of the first and the payloads so far, joined.
pub proof fn lemma_fragments_gathered(frames: Seq<FrameView>, opcode: u8, count: int)
    requires
        fragments_of(frames, opcode),
        1 <= count < frames.len(),
    ensures
        feed(ReassemblyView::idle(), frames.take(count)) == (ReassemblyView {
            accumulated_payload: joined_payload(frames.take(count)),
            message_opcode: Some(opcode),
        }),
    decreases count,
{
    let seen = frames.take(count);
    assert(seen.last() == frames[count - 1]);
    assert(seen.drop_last() =~= frames.take(count - 1));
    if count == 1 {
        assert(seen.drop_last().len() == 0);
        assert(joined_payload(seen.drop_last()) =~= Seq::<u8>::empty());
        assert(joined_payload(seen) =~= seen.last().payload);
        assert(Seq::<u8>::empty() + seen.last().payload =~= seen.last().payload);
    } else {
        lemma_fragments_gathered(frames, opcode, count - 1);
    }
}

/// Fragmentation reassembly: the fragments of a message, however many,
/// leave the reassembler idle and yield one message of the first
/// frame's kind whose bytes are the payloads joined in order, or a
/// violation if that message is text and the bytes are not valid UTF-8.
pub proof fn lemma_fragments_reassemble(frames: Seq<FrameView>, opcode: u8)
    requires
        fragments_of(frames, opcode),
    ensures
        reassemble(feed(ReassemblyView::idle(), frames.drop_last()), frames.last()) == (
            ReassemblyView::idle(),
            finished(opcode, joined_payload(frames)),
        ),
{
    let before = frames.drop_last();
    if frames.len() == 1 {
        assert(before.len() == 0);
        assert(joined_payload(before) =~= Seq::<u8>::empty());
        assert(Seq::<u8>::empty() + frames.last().payload =~= frames.last().payload);
    } else {
        assert(before =~= frames.take(frames.len() - 1));
        lemma_fragments_gathered(frames, opcode, frames.len() - 1);
    }
}

/// Fragmentation reassembly for three frames: a Text frame and two
/// continuations, FIN on the last, yield nothing, nothing, and then one
/// Text message that is the three payloads joined, if those are valid
/// UTF-8, and a violation if they are not.
pub proof fn lemma_three_fragments(first: FrameView, second: FrameView, third: FrameView)
    requires
        first.opcode == OP_TEXT && !first.fin,
        second.opcode == OP_CONTINUATION && !second.fin,
        third.opcode == OP_CONTINUATION && third.fin,
    ensures
        ({
            let (state1, out1) = reassemble(ReassemblyView::idle(), first);
            let (state2, out2) = reassemble(state1, second);
            let (state3, out3) = reassemble(state2, third);
            let joined = first.payload + second.payload + third.payload;
            &&& out1 == Ok::<Option<MessageView>, FrameError>(None)
            &&& out2 == Ok::<Option<MessageView>, FrameError>(None)
            &&& state3 == ReassemblyView::idle()
            &&& out3 == if valid_utf8(joined) {
                Ok(Some(MessageView::Text(decode_utf8(joined))))
            } else {
                Err(FrameError::ProtocolViolation)
            }
        }),
{
    assert(Seq::<u8>::empty() + first.payload =~= first.payload);
}

/// A continuation frame that arrives when no message is in progress is a violation.
pub proof fn lemma_orphan_continuation(frame: FrameView)
    requires
        frame.opcode == OP_CONTINUATION,
    ensures
        reassemble(ReassemblyView::idle(), frame) == (
            ReassemblyView::idle(),
            Err::<Option<MessageView>, FrameError>(FrameError::ProtocolViolation),
        ),
{
}

/// A frame that starts a message while another is in progress is a violation.
pub proof fn lemma_interrupted_message(state: ReassemblyView, frame: FrameView)
    requires
        state.message_opcode is Some,
        frame.opcode == OP_TEXT || frame.opcode == OP_BINARY,
    ensures
        reassemble(state, frame) == (
            ReassemblyView::idle(),
            Err::<Option<MessageView>, FrameError>(FrameError::ProtocolViolation),
        ),
{
}

/// Invalid UTF-8 rejection: a frame that completes a Text message whose
/// bytes, all fragments joined, are not valid UTF-8 is a violation, and
/// no message comes out.
pub proof fn lemma_invalid_text_rejected(state: ReassemblyView, frame: FrameView)
    requires
        frame.fin,
        (state.message_opcode is None && frame.opcode == OP_TEXT) || (state.message_opcode == Some(
            OP_TEXT,
        ) && frame.opcode == OP_CONTINUATION),
        !valid_utf8(state.accumulated_payload + frame.payload),
    ensures
        reassemble(state, frame) == (
            ReassemblyView::idle(),
            Err::<Option<MessageView>, FrameError>(FrameError::ProtocolViolation),
        ),
{
}

} // verus!
