//! The connection's life cycle and the control-frame handler: what one
//! peer does with each frame that arrives, and how the closing handshake
//! moves the connection to its end.

use vstd::prelude::*;
use crate::read::{FrameError, FrameHeader, FrameView, FIN_BIT, OP_CLOSE, OP_PING, OP_PONG};
use crate::handshake::HandshakeError;
use crate::message::{Message, MessageView, ReassemblyState, ReassemblyView, reassemble};

verus! {

/// Which end of the connection this peer is. A server receives masked
/// frames and sends unmasked ones; a client does the opposite.
#[derive(Debug, Clone, Copy, PartialEq, Eq, Structural)]
pub enum Role {
    Server,
    Client,
}

/// Where a connection stands between accept or connect and its end.
#[derive(Debug, Clone, Copy, PartialEq, Eq, Structural)]
pub enum ConnectionState {
    /// The opening handshake has not been completed.
    Handshaking,
    /// Frames flow in both directions.
    Open,
    /// This peer has sent Close and waits for the other's.
    ClosingSent,
    /// The other peer's Close has arrived and this peer's has not left yet.
    ClosingReceived,
    /// Both have sent Close, or the stream has ended.
    Closed,
}

impl Role {
    /// Whether the frames that this peer receives must be masked.
    pub open spec fn expects_masked(self) -> bool {
        self is Server
    }

    /// Tells whether the frames that this peer receives must be masked.
    pub fn receives_masked(self) -> (masked: bool)
        ensures
            masked == self.expects_masked(),
    {
        match self {
            Role::Server => true,
            Role::Client => false,
        }
    }
}

impl ConnectionState {
    /// The state once the opening handshake has succeeded.
    pub open spec fn after_handshake(self) -> ConnectionState {
        match self {
            ConnectionState::Handshaking => ConnectionState::Open,
            other => other,
        }
    }

    /// The state once this peer has sent a Close frame.
    pub open spec fn after_close_sent(self) -> ConnectionState {
        match self {
            ConnectionState::Open => ConnectionState::ClosingSent,
            ConnectionState::ClosingReceived => ConnectionState::Closed,
            other => other,
        }
    }

    /// The state once the other peer's Close frame has arrived.
    pub open spec fn after_close_received(self) -> ConnectionState {
        match self {
            ConnectionState::Open => ConnectionState::ClosingReceived,
            ConnectionState::ClosingSent => ConnectionState::Closed,
            other => other,
        }
    }

    /// Whether frames from the other peer are taken in this state.
    pub open spec fn takes_frames(self) -> bool {
        self is Open || self is ClosingSent
    }

    /// Whether this peer may still send frames other than Close.
    pub open spec fn may_send(self) -> bool {
        self is Open
    }

    /// Whether this peer may send its Close frame: it has not sent one
    /// yet, and the connection has been opened and has not ended.
    pub open spec fn may_send_close(self) -> bool {
        self is Open || self is ClosingReceived
    }

    /// The state once the opening handshake has succeeded.
    pub fn handshake_done(self) -> (next: ConnectionState)
        ensures
            next == self.after_handshake(),
    {
        match self {
            ConnectionState::Handshaking => ConnectionState::Open,
            other => other,
        }
    }

    /// The state once this peer has sent a Close frame.
    pub fn close_sent(self) -> (next: ConnectionState)
        ensures
            next == self.after_close_sent(),
    {
        match self {
            ConnectionState::Open => ConnectionState::ClosingSent,
            ConnectionState::ClosingReceived => ConnectionState::Closed,
            other => other,
        }
    }

    /// The state once the other peer's Close frame has arrived.
    pub fn close_received(self) -> (next: ConnectionState)
        ensures
            next == self.after_close_received(),
    {
        match self {
            ConnectionState::Open => ConnectionState::ClosingReceived,
            ConnectionState::ClosingSent => ConnectionState::Closed,
            other => other,
        }
    }

    /// Tells whether frames from the other peer are taken in this state.
    pub fn accepts_frames(self) -> (takes: bool)
        ensures
            takes == self.takes_frames(),
    {
        match self {
            ConnectionState::Open => true,
            ConnectionState::ClosingSent => true,
            _ => false,
        }
    }

    /// Tells whether this peer may send its Close frame.
    pub fn can_send_close(self) -> (may: bool)
        ensures
            may == self.may_send_close(),
    {
        match self {
            ConnectionState::Open => true,
            ConnectionState::ClosingReceived => true,
            _ => false,
        }
    }

    /// Tells whether this peer may still send frames other than Close.
    pub fn can_send(self) -> (may: bool)
        ensures
            may == self.may_send(),
    {
        match self {
            ConnectionState::Open => true,
            _ => false,
        }
    }
}

/// A frame that this peer is to send: its first byte, FIN and opcode
/// combined, and its payload, not yet masked.
#[derive(Debug, Clone, PartialEq, Eq)]
pub struct Reply {
    pub byte1: u8,
    pub payload: Vec<u8>,
}

/// The mathematical content of a `Reply`.
pub struct ReplyView {
    pub byte1: u8,
    pub payload: Seq<u8>,
}

impl View for Reply {
    type V = ReplyView;

    open spec fn view(&self) -> ReplyView {
        ReplyView { byte1: self.byte1, payload: self.payload@ }
    }
}

/// What a peer does about one frame: the frame it sends in answer, if
/// any; the message the frame brought or completed, if any; and whether
/// the connection ends here.
#[derive(Debug, Clone, PartialEq, Eq)]
pub struct Reaction {
    pub reply: Option<Reply>,
    pub delivered: Option<Message>,
    pub terminate: bool,
}

/// The mathematical content of a `Reaction`.
pub struct ReactionView {
    pub reply: Option<ReplyView>,
    pub delivered: Option<MessageView>,
    pub terminate: bool,
}

impl View for Reaction {
    type V = ReactionView;

    open spec fn view(&self) -> ReactionView {
        ReactionView {
            reply: match self.reply {
                Some(reply) => Some(reply@),
                None => None,
            },
            delivered: match self.delivered {
                Some(message) => Some(message@),
                None => None,
            },
            terminate: self.terminate,
        }
    }
}

/// Why a step of a connection failed: in the handshake or in the frames after it.
#[derive(Debug, Clone, Copy, PartialEq, Eq)]
pub enum SessionError {
    Handshake(HandshakeError),
    Frame(FrameError),
}

/// What a peer has to do after one step of its connection: the bytes to
/// send, if any; the message that arrived, if any; whether to hang up;
/// and how many bytes of the input the step used.
#[derive(Debug, Clone, PartialEq, Eq)]
pub struct Outcome {
    pub outgoing: Vec<u8>,
    pub delivered: Option<Message>,
    pub terminate: bool,
    pub consumed: usize,
}

/// The mathematical content of an `Outcome`.
pub struct OutcomeView {
    pub outgoing: Seq<u8>,
    pub delivered: Option<MessageView>,
    pub terminate: bool,
    pub consumed: nat,
}

impl View for Outcome {
    type V = OutcomeView;

    open spec fn view(&self) -> OutcomeView {
        OutcomeView {
            outgoing: self.outgoing@,
            delivered: match self.delivered {
                Some(message) => Some(message@),
                None => None,
            },
            terminate: self.terminate,
            consumed: self.consumed as nat,
        }
    }
}

impl OutcomeView {
    /// Nothing to send, nothing delivered, and the connection is over.
    pub open spec fn ended() -> OutcomeView {
        OutcomeView { outgoing: Seq::empty(), delivered: None, terminate: true, consumed: 0 }
    }
}

/// One connection as one peer sees it: its place in the life cycle and
/// its reassembler. Nothing of it is shared with other connections.
pub struct Session {
    state: ConnectionState,
    reassembly: ReassemblyState,
}

/// The mathematical content of a `Session`.
pub struct SessionView {
    pub state: ConnectionState,
    pub reassembly: ReassemblyView,
}

impl View for Session {
    type V = SessionView;

    closed spec fn view(&self) -> SessionView {
        SessionView { state: self.state, reassembly: self.reassembly@ }
    }
}

impl SessionView {
    /// A connection that has just been accepted or made.
    pub open spec fn start() -> SessionView {
        SessionView { state: ConnectionState::Handshaking, reassembly: ReassemblyView::idle() }
    }

    /// The session after a fatal error: closed, and nothing gathered.
    pub open spec fn failed(self) -> SessionView {
        SessionView { state: ConnectionState::Closed, reassembly: ReassemblyView::idle() }
    }

    /// The session in another state of the life cycle.
    pub open spec fn moved_to(self, state: ConnectionState) -> SessionView {
        SessionView { state, reassembly: self.reassembly }
    }
}

/// What a peer does about a message that a frame brought.
///
/// A Ping is answered at once by a Pong with the same payload, a Pong by
/// nothing. A Close is echoed with its payload if this peer has not sent
/// its own Close, and ends the connection either way. Text and Binary
/// are delivered. Once this peer has sent Close it sends nothing more.
pub open spec fn react(state: ConnectionState, message: MessageView) -> (
    ConnectionState,
    ReactionView,
) {
    match message {
        MessageView::Ping(payload) => (
            state,
            ReactionView {
                reply: if state.may_send() {
                    Some(ReplyView { byte1: FIN_BIT | OP_PONG, payload })
                } else {
                    None
                },
                delivered: Some(message),
                terminate: false,
            },
        ),
        MessageView::Close(payload) => {
            let heard = state.after_close_received();
            if heard.may_send_close() {
                (
                    heard.after_close_sent(),
                    ReactionView {
                        reply: Some(ReplyView { byte1: FIN_BIT | OP_CLOSE, payload }),
                        delivered: Some(message),
                        terminate: true,
                    },
                )
            } else {
                (heard, ReactionView { reply: None, delivered: Some(message), terminate: true })
            }
        },
        _ => (state, ReactionView { reply: None, delivered: Some(message), terminate: false }),
    }
}

/// The session's step on one decoded frame, for a peer in the given role.
///
/// Before the handshake is done a frame is a violation. After the
/// connection has ended, and once the other peer's Close has arrived, a
/// frame is dropped and the connection stays ended. Otherwise the frame
/// must be masked exactly if this peer is the server; it goes through the
/// reassembler, and the peer reacts to what comes out. Every error
/// closes the session and empties the reassembler.
pub open spec fn session_step(session: SessionView, role: Role, frame: FrameView) -> (
    SessionView,
    Result<ReactionView, FrameError>,
) {
    if session.state is Handshaking {
        (session.failed(), Err(FrameError::ProtocolViolation))
    } else if !session.state.takes_frames() {
        (session, Ok(ReactionView { reply: None, delivered: None, terminate: true }))
    } else if frame.masked != role.expects_masked() {
        (session.failed(), Err(FrameError::ProtocolViolation))
    } else {
        let (reassembly, outcome) = reassemble(session.reassembly, frame);
        match outcome {
            Err(e) => (session.failed(), Err(e)),
            Ok(None) => (
                SessionView { state: session.state, reassembly },
                Ok(ReactionView { reply: None, delivered: None, terminate: false }),
            ),
            Ok(Some(message)) => {
                let (state, reaction) = react(session.state, message);
                (SessionView { state, reassembly }, Ok(reaction))
            },
        }
    }
}

/// What happens when this peer closes the connection of its own accord:
/// if it may still send its Close frame, that frame goes out with
/// `payload` and the state moves on; if not, nothing is sent and nothing changes.
pub open spec fn begin_close(session: SessionView, payload: Seq<u8>) -> (
    SessionView,
    Option<ReplyView>,
) {
    if session.state.may_send_close() {
        (
            session.moved_to(session.state.after_close_sent()),
            Some(ReplyView { byte1: FIN_BIT | OP_CLOSE, payload }),
        )
    } else {
        (session, None)
    }
}

/// Decides what to do about a message that a frame brought, in the given state.
pub fn react_to(state: ConnectionState, message: Message) -> (out: (ConnectionState, Reaction))
    ensures
        (out.0, out.1@) == react(state, message@),
{
    match message {
        Message::Ping(payload) => {
            let reply = if state.can_send() {
                Some(Reply { byte1: FIN_BIT | OP_PONG, payload: payload.clone() })
            } else {
                None
            };
            (state, Reaction { reply, delivered: Some(Message::Ping(payload)), terminate: false })
        },
        Message::Close(payload) => {
            let heard = state.close_received();
            if heard.can_send_close() {
                let reply = Some(Reply { byte1: FIN_BIT | OP_CLOSE, payload: payload.clone() });
                (
                    heard.close_sent(),
                    Reaction { reply, delivered: Some(Message::Close(payload)), terminate: true },
                )
            } else {
                (
                    heard,
                    Reaction {
                        reply: None,
                        delivered: Some(Message::Close(payload)),
                        terminate: true,
                    },
                )
            }
        },
        other => (state, Reaction { reply: None, delivered: Some(other), terminate: false }),
    }
}

impl Session {
    /// A session for a connection that has just been accepted or made.
    pub fn new() -> (session: Session)
        ensures
            session@ == SessionView::start(),
    {
        Session { state: ConnectionState::Handshaking, reassembly: ReassemblyState::new() }
    }

    /// Where the connection stands.
    pub fn state(&self) -> (state: ConnectionState)
        ensures
            state == self@.state,
    {
        self.state
    }

    /// Tells whether a fragmented message is in progress.
    pub fn in_message(&self) -> (busy: bool)
        ensures
            busy == (self@.reassembly.message_opcode is Some),
    {
        !self.reassembly.is_idle()
    }

    /// Records that the opening handshake has succeeded.
    pub fn established(&mut self)
        ensures
            final(self)@ == old(self)@.moved_to(old(self)@.state.after_handshake()),
    {
        self.state = self.state.handshake_done();
    }

    /// Starts the closing handshake from this side: returns the Close
    /// frame to send, with `payload`, if this peer may still send one,
    /// and nothing if it has sent one already or the connection is not open.
    pub fn close(&mut self, payload: Vec<u8>) -> (out: Option<Reply>)
        ensures
            final(self)@ == begin_close(old(self)@, payload@).0,
            begin_close(old(self)@, payload@).1 == match out {
                Some(reply) => Some(reply@),
                None => None,
            },
    {
        if self.state.can_send_close() {
            self.state = self.state.close_sent();
            Some(Reply { byte1: FIN_BIT | OP_CLOSE, payload })
        } else {
            None
        }
    }

    /// Records that the stream has ended: the connection is closed.
    pub fn end_of_stream(&mut self)
        ensures
            final(self)@ == old(self)@.moved_to(ConnectionState::Closed),
    {
        self.state = ConnectionState::Closed;
    }

    /// Records a fatal error: the connection is closed and the reassembler emptied.
    pub fn fail(&mut self)
        ensures
            final(self)@ == old(self)@.failed(),
    {
        self.state = ConnectionState::Closed;
        self.reassembly = ReassemblyState::new();
    }

    /// Takes one decoded frame and says what this peer, in the given
    /// role, does about it.
    ///
    /// Fails with `ProtocolViolation` where the handshake has not been
    /// completed, where the frame is masked and should not be or the
    /// other way round, and where the reassembler refuses the frame.
    pub fn receive(&mut self, role: Role, frame: FrameHeader) -> (out: Result<
        Reaction,
        FrameError,
    >)
        ensures
            final(self)@ == session_step(old(self)@, role, frame@).0,
            session_step(old(self)@, role, frame@).1 == match out {
                Ok(reaction) => Ok(reaction@),
                Err(e) => Err(e),
            },
    {
        if matches!(self.state, ConnectionState::Handshaking) {
            self.fail();
            return Err(FrameError::ProtocolViolation);
        }
        if !self.state.accepts_frames() {
            return Ok(Reaction { reply: None, delivered: None, terminate: true });
        }
        if frame.masked != role.receives_masked() {
            self.fail();
            return Err(FrameError::ProtocolViolation);
        }
        match self.reassembly.push(frame) {
            Err(e) => {
                self.fail();
                Err(e)
            },
            Ok(None) => Ok(Reaction { reply: None, delivered: None, terminate: false }),
            Ok(Some(message)) => {
                let (state, reaction) = react_to(self.state, message);
                self.state = state;
                Ok(reaction)
            },
        }
    }
}

/// Control-frame interleaving: a Ping that arrives on an open
/// connection, between the fragments of a message or at any other time,
/// is answered by a Pong with the same payload and leaves the session as
/// it was, so that whatever frame comes next is handled as if the Ping
/// had not come.
pub proof fn lemma_ping_leaves_session(
    session: SessionView,
    role: Role,
    ping: FrameView,
    later: FrameView,
)
    requires
        session.state is Open,
        ping.opcode == OP_PING,
        ping.masked == role.expects_masked(),
    ensures
        session_step(session, role, ping) == (
            session,
            Ok::<ReactionView, FrameError>(
                ReactionView {
                    reply: Some(ReplyView { byte1: FIN_BIT | OP_PONG, payload: ping.payload }),
                    delivered: Some(MessageView::Ping(ping.payload)),
                    terminate: false,
                },
            ),
        ),
        session_step(session_step(session, role, ping).0, role, later) == session_step(
            session,
            role,
            later,
        ),
{
}

/// A Pong is taken note of and changes nothing.
pub proof fn lemma_pong_leaves_session(session: SessionView, role: Role, pong: FrameView)
    requires
        session.state.takes_frames(),
        pong.opcode == OP_PONG,
        pong.masked == role.expects_masked(),
    ensures
        session_step(session, role, pong) == (
            session,
            Ok::<ReactionView, FrameError>(
                ReactionView {
                    reply: None,
                    delivered: Some(MessageView::Pong(pong.payload)),
                    terminate: false,
                },
            ),
        ),
{
}

/// Close handshake: a Close that arrives when this peer has sent none is
/// echoed by exactly one Close frame with the same payload; one that
/// arrives after this peer's own Close is not echoed. Either way the
/// connection ends there, and no frame that comes later is answered.
pub proof fn lemma_close_handshake(
    session: SessionView,
    role: Role,
    close: FrameView,
    later: FrameView,
)
    requires
        session.state is Open || session.state is ClosingSent,
        close.opcode == OP_CLOSE,
        close.masked == role.expects_masked(),
    ensures
        ({
            let (ended, out) = session_step(session, role, close);
            &&& ended == session.moved_to(ConnectionState::Closed)
            &&& out == Ok::<ReactionView, FrameError>(
                ReactionView {
                    reply: if session.state is Open {
                        Some(ReplyView { byte1: FIN_BIT | OP_CLOSE, payload: close.payload })
                    } else {
                        None
                    },
                    delivered: Some(MessageView::Close(close.payload)),
                    terminate: true,
                },
            )
            &&& session_step(ended, role, later) == (
                ended,
                Ok::<ReactionView, FrameError>(
                    ReactionView { reply: None, delivered: None, terminate: true },
                ),
            )
        }),
{
}

/// Close handshake from this side: a peer that closes an open connection
/// sends one Close frame; the Close that answers it is not echoed and
/// ends the connection; and a second attempt to close sends nothing.
pub proof fn lemma_close_from_this_side(
    session: SessionView,
    role: Role,
    payload: Seq<u8>,
    answer: FrameView,
)
    requires
        session.state is Open,
        answer.opcode == OP_CLOSE,
        answer.masked == role.expects_masked(),
    ensures
        ({
            let (closing, sent) = begin_close(session, payload);
            let (ended, out) = session_step(closing, role, answer);
            &&& sent == Some(ReplyView { byte1: FIN_BIT | OP_CLOSE, payload })
            &&& closing == session.moved_to(ConnectionState::ClosingSent)
            &&& begin_close(closing, payload) == (closing, None::<ReplyView>)
            &&& ended == session.moved_to(ConnectionState::Closed)
            &&& out == Ok::<ReactionView, FrameError>(
                ReactionView {
                    reply: None,
                    delivered: Some(MessageView::Close(answer.payload)),
                    terminate: true,
                },
            )
            &&& begin_close(ended, payload) == (ended, None::<ReplyView>)
        }),
{
}

/// A frame whose masking is not what this peer's role calls for is a
/// violation and closes the session.
pub proof fn lemma_wrong_masking(session: SessionView, role: Role, frame: FrameView)
    requires
        session.state.takes_frames(),
        frame.masked != role.expects_masked(),
    ensures
        session_step(session, role, frame) == (
            session.failed(),
            Err::<ReactionView, FrameError>(FrameError::ProtocolViolation),
        ),
{
}

/// The closing handshake ends the connection in whichever order the two
/// Close frames pass.
pub proof fn lemma_both_closes_end(state: ConnectionState)
    requires
        state is Open,
    ensures
        state.after_close_sent().after_close_received() is Closed,
        state.after_close_received().after_close_sent() is Closed,
{
}

} // verus!
