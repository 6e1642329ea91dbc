//! The client's end of a connection: it asks for the upgrade with a
//! fresh key, checks the server's answer, greets the server with one
//! masked text frame and hangs up.

use vstd::prelude::*;
use vstd::string::StringSliceAdditionalSpecFns;
use vstd::utf8::encode_utf8;
use crate::read::{FIN_BIT, OP_TEXT};
use crate::handshake::{
    accept_key_of, check_response, client_request, client_verdict, upgrade_request,
};
use crate::mask::{apply_mask, xor_mask};
use crate::primitives::{base64, base64_standard, random_bytes};
use crate::session::{ConnectionState, Outcome, OutcomeView, SessionError};
use crate::write::{encode_frame, send_client_message};

verus! {

/// The text that the client sends once the connection is open.
pub const GREETING: &'static str = "Hello, server";

/// How many random bytes make a client's key.
pub const KEY_BYTES: u8 = 16;

/// A client's connection: where it stands, and the accept key that the
/// server must answer with once the request has been made.
pub struct Client {
    state: ConnectionState,
    expected_accept_key: Option<String>,
}

/// The mathematical content of a `Client`.
pub struct ClientView {
    pub state: ConnectionState,
    pub expected_accept_key: Option<Seq<char>>,
}

impl View for Client {
    type V = ClientView;

    closed spec fn view(&self) -> ClientView {
        ClientView {
            state: self.state,
            expected_accept_key: match self.expected_accept_key {
                Some(key) => Some(key@),
                None => None,
            },
        }
    }
}

impl ClientView {
    /// A client that has connected and not yet asked for the upgrade.
    pub open spec fn start() -> ClientView {
        ClientView { state: ConnectionState::Handshaking, expected_accept_key: None }
    }

    /// The client after its connection has ended.
    pub open spec fn closed(self) -> ClientView {
        ClientView { state: ConnectionState::Closed, expected_accept_key: self.expected_accept_key }
    }
}

/// The client's greeting as one frame: Text with FIN, masked with `mask`.
pub open spec fn greeting_frame(mask: Seq<u8>) -> Seq<u8> {
    encode_frame(FIN_BIT | OP_TEXT, xor_mask(GREETING.spec_bytes(), mask), Some(mask))
}

/// The client's step on one input, given the key text and the masking
/// key that chance provided.
///
/// A client that has not asked yet sends the upgrade request with
/// `key` and notes the accept key that answers it; the input is not
/// read. A client that has asked takes the input as the server's
/// response: if the response is in order it sends its greeting, masked
/// with `mask`, and hangs up; if not, the connection is closed with the
/// handshake's error. After that nothing is read and nothing sent.
pub open spec fn client_step(
    client: ClientView,
    host: Seq<char>,
    input: Seq<u8>,
    key: Seq<char>,
    mask: Seq<u8>,
) -> (ClientView, Result<OutcomeView, SessionError>) {
    if !(client.state is Handshaking) {
        (client, Ok(OutcomeView::ended()))
    } else {
        match client.expected_accept_key {
            None => (
                ClientView {
                    state: ConnectionState::Handshaking,
                    expected_accept_key: Some(accept_key_of(encode_utf8(key))),
                },
                Ok(
                    OutcomeView {
                        outgoing: client_request(host, key),
                        delivered: None,
                        terminate: false,
                        consumed: 0,
                    },
                ),
            ),
            Some(expected) => match client_verdict(input, expected) {
                Ok(()) => (
                    client.closed(),
                    Ok(
                        OutcomeView {
                            outgoing: greeting_frame(mask),
                            delivered: None,
                            terminate: true,
                            consumed: input.len(),
                        },
                    ),
                ),
                Err(e) => (client.closed(), Err(SessionError::Handshake(e))),
            },
        }
    }
}

/// Makes a fresh key for the upgrade request: the base64 text of
/// `bytes` random bytes.
pub fn generate_base64_key(bytes: u8) -> (key: String)
    ensures
        exists|raw: Seq<u8>| raw.len() == bytes && key@ == base64_standard(raw),
{
    let raw: Vec<u8> = random_bytes(bytes as usize);
    base64(raw.as_slice())
}

/// Makes a fresh masking key from four random bytes.
fn generate_masking_key() -> (key: [u8; 4]) {
    let raw: Vec<u8> = random_bytes(4);
    [raw[0], raw[1], raw[2], raw[3]]
}

/// The bytes of the client's greeting, masked with `mask`.
pub fn greeting(mask: [u8; 4]) -> (frame: Vec<u8>)
    ensures
        frame@ == greeting_frame(mask@),
{
    let masked: Vec<u8> = apply_mask(GREETING.as_bytes(), &mask);
    send_client_message(FIN_BIT | OP_TEXT, masked.as_slice(), mask)
}

impl Client {
    /// A client that has connected and not yet asked for the upgrade.
    pub fn new() -> (client: Client)
        ensures
            client@ == ClientView::start(),
    {
        Client { state: ConnectionState::Handshaking, expected_accept_key: None }
    }

    /// Where the connection stands.
    pub fn state(&self) -> (state: ConnectionState)
        ensures
            state == self@.state,
    {
        self.state
    }

    /// Takes one step with the key text and the masking key given: see `client_step`.
    pub fn step(&mut self, host: &str, input: &[u8], key: &str, mask: [u8; 4]) -> (out: Result<
        Outcome,
        SessionError,
    >)
        ensures
            final(self)@ == client_step(old(self)@, host@, input@, key@, mask@).0,
            client_step(old(self)@, host@, input@, key@, mask@).1 == match out {
                Ok(outcome) => Ok(outcome@),
                Err(e) => Err(e),
            },
    {
        if !matches!(self.state, ConnectionState::Handshaking) {
            return Ok(
                Outcome { outgoing: Vec::new(), delivered: None, terminate: true, consumed: 0 },
            );
        }
        match &self.expected_accept_key {
            None => {
                let (request, expected) = upgrade_request(host, key);
                self.expected_accept_key = Some(expected);
                Ok(Outcome { outgoing: request, delivered: None, terminate: false, consumed: 0 })
            },
            Some(expected) => {
                let verdict = check_response(input, expected.as_str());
                self.state = ConnectionState::Closed;
                match verdict {
                    Ok(()) => Ok(
                        Outcome {
                            outgoing: greeting(mask),
                            delivered: None,
                            terminate: true,
                            consumed: input.len(),
                        },
                    ),
                    Err(e) => Err(SessionError::Handshake(e)),
                }
            },
        }
    }
}

/// Drives one step of a client's connection to the server at `host`:
/// first it returns the upgrade request to send, with a fresh random
/// key; then, given the server's response, the greeting to send, masked
/// with a fresh random key, and the order to hang up.
///
/// Fails with the handshake's error where the response is not in
/// order. What is returned is what `client_step` gives for some key of
/// sixteen random bytes and some masking key.
pub fn handle_server(client: &mut Client, host: &str, input: &[u8]) -> (out: Result<
    Outcome,
    SessionError,
>)
    ensures
        exists|raw: Seq<u8>, mask: Seq<u8>|
            {
                &&& raw.len() == KEY_BYTES
                &&& mask.len() == 4
                &&& final(client)@ == (#[trigger] client_step(
                    old(client)@,
                    host@,
                    input@,
                    base64_standard(raw),
                    mask,
                )).0
                &&& client_step(old(client)@, host@, input@, base64_standard(raw), mask).1
                    == match out {
                    Ok(outcome) => Ok(outcome@),
                    Err(e) => Err(e),
                }
            },
{
    let key: String = generate_base64_key(KEY_BYTES);
    let mask: [u8; 4] = generate_masking_key();
    client.step(host, input, key.as_str(), mask)
}

} // verus!
