//! The handshake codec: the HTTP Upgrade exchange that turns a plain
//! connection into a WebSocket one, from the server's side and from the
//! client's.

use vstd::prelude::*;
use vstd::string::StringSliceAdditionalSpecFns;
use vstd::utf8::encode_utf8;
use crate::header::{contains, contains_bytes, has_header, header_value, header_value_of};
use crate::primitives::{base64, base64_standard, sha1, sha1_digest};

verus! {

/// The GUID that the protocol appends to the client's key.
pub const GUID: &'static str = "258EAFA5-E914-47DA-95CA-C5AB0DC85B11";

/// The token that marks a request or a response as an upgrade to WebSocket.
pub const UPGRADE_TOKEN: &'static str = "Upgrade: websocket";

/// The token by which a server confirms the upgrade.
pub const CONNECTION_TOKEN: &'static str = "Connection: Upgrade";

/// The header line that carries the client's key.
pub const KEY_HEADER: &'static str = "Sec-WebSocket-Key:";

/// The header line that carries the server's accept key.
pub const ACCEPT_HEADER: &'static str = "Sec-WebSocket-Accept:";

/// The blank line that ends a request or a response.
pub const BLANK_LINE: &'static str = "\r\n\r\n";

/// The server's response up to the accept key.
pub const RESPONSE_HEAD: &'static str =
    "HTTP/1.1 101 Switching Protocols\r\nUpgrade: websocket\r\nConnection: Upgrade\r\nSec-WebSocket-Accept: ";

/// The client's request up to the host.
pub const REQUEST_HEAD: &'static str = "GET / HTTP/1.1\r\nHost: ";

/// The client's request between the host and the key.
pub const REQUEST_MIDDLE: &'static str =
    "\r\nUpgrade: websocket\r\nConnection: Upgrade\r\nSec-WebSocket-Key: ";

/// The client's request after the key.
pub const REQUEST_TAIL: &'static str = "\r\nSec-WebSocket-Version: 13\r\n\r\n";

/// Why a handshake failed. Each is final for the connection attempt.
#[derive(Debug, Clone, Copy, PartialEq, Eq, Structural)]
pub enum HandshakeError {
    /// The text does not ask for, or does not grant, `Upgrade: websocket`.
    MissingUpgrade,
    /// The request has no `Sec-WebSocket-Key` header.
    MissingKey,
    /// The response lacks `Connection: Upgrade`.
    MissingConnection,
    /// The response has no `Sec-WebSocket-Accept` header.
    MissingAccept,
    /// The accept key in the response is not the one the client's key calls for.
    AcceptMismatch,
}

/// What a server answers to a valid upgrade request.
#[derive(Debug, Clone, PartialEq, Eq)]
pub struct AcceptResponse {
    pub accept_key: String,
}

/// The accept key for a client key: the base64 text of the SHA-1 digest
/// of the key followed by the GUID.
pub open spec fn accept_key_of(client_key: Seq<u8>) -> Seq<char> {
    base64_standard(sha1_digest(client_key + GUID.spec_bytes()))
}

/// The bytes of the response that grants the upgrade with `accept_key`.
pub open spec fn accept_response(accept_key: Seq<char>) -> Seq<u8> {
    RESPONSE_HEAD.spec_bytes() + encode_utf8(accept_key) + BLANK_LINE.spec_bytes()
}

/// What a server makes of a request: the accept key to answer with, or
/// the reason to refuse. The upgrade token is looked for anywhere in the
/// request; the key is the value of the last `Sec-WebSocket-Key` line.
pub open spec fn server_handshake(request: Seq<u8>) -> Result<Seq<char>, HandshakeError> {
    if !contains_bytes(request, UPGRADE_TOKEN.spec_bytes()) {
        Err(HandshakeError::MissingUpgrade)
    } else if !has_header(request, KEY_HEADER.spec_bytes()) {
        Err(HandshakeError::MissingKey)
    } else {
        Ok(accept_key_of(header_value(request, KEY_HEADER.spec_bytes())))
    }
}

/// The bytes of a client's upgrade request for `host` with the key text `key`.
pub open spec fn client_request(host: Seq<char>, key: Seq<char>) -> Seq<u8> {
    REQUEST_HEAD.spec_bytes() + encode_utf8(host) + REQUEST_MIDDLE.spec_bytes() + encode_utf8(key)
        + REQUEST_TAIL.spec_bytes()
}

/// What a client makes of a server's response, given the accept key it
/// expects: nothing to object to, or the first thing that is missing or wrong.
pub open spec fn client_verdict(response: Seq<u8>, expected: Seq<char>) -> Result<
    (),
    HandshakeError,
> {
    if !contains_bytes(response, UPGRADE_TOKEN.spec_bytes()) {
        Err(HandshakeError::MissingUpgrade)
    } else if !contains_bytes(response, CONNECTION_TOKEN.spec_bytes()) {
        Err(HandshakeError::MissingConnection)
    } else if !has_header(response, ACCEPT_HEADER.spec_bytes()) {
        Err(HandshakeError::MissingAccept)
    } else if header_value(response, ACCEPT_HEADER.spec_bytes()) != encode_utf8(expected) {
        Err(HandshakeError::AcceptMismatch)
    } else {
        Ok(())
    }
}

/// Tells whether `received` holds a whole request or response: whether
/// the blank line that ends it has arrived.
pub fn request_complete(received: &[u8]) -> (complete: bool)
    ensures
        complete == contains_bytes(received@, BLANK_LINE.spec_bytes()),
{
    contains(received, BLANK_LINE.as_bytes())
}

/// Computes the accept key that answers `client_key`.
pub fn accept_key(client_key: &[u8]) -> (key: String)
    ensures
        key@ == accept_key_of(client_key@),
{
    let mut salted: Vec<u8> = Vec::new();
    salted.extend_from_slice(client_key);
    salted.extend_from_slice(GUID.as_bytes());
    assert(salted@ =~= client_key@ + GUID.spec_bytes());
    let digest: [u8; 20] = sha1(salted.as_slice());
    base64(digest.as_slice())
}

impl AcceptResponse {
    /// The bytes to send: the status line `HTTP/1.1 101 Switching
    /// Protocols`, the three headers and the blank line.
    pub fn to_bytes(&self) -> (bytes: Vec<u8>)
        ensures
            bytes@ == accept_response(self.accept_key@),
    {
        let mut bytes: Vec<u8> = Vec::new();
        bytes.extend_from_slice(RESPONSE_HEAD.as_bytes());
        bytes.extend_from_slice(self.accept_key.as_str().as_bytes());
        bytes.extend_from_slice(BLANK_LINE.as_bytes());
        assert(bytes@ =~= accept_response(self.accept_key@));
        bytes
    }
}

/// The server's side of the handshake: reads a request, up through its
/// blank line, and answers with the accept key for the client's key.
///
/// Fails with `MissingUpgrade` where the request does not hold
/// `Upgrade: websocket`, and with `MissingKey` where it has no
/// `Sec-WebSocket-Key` header.
pub fn negotiate_server(request: &[u8]) -> (out: Result<AcceptResponse, HandshakeError>)
    ensures
        server_handshake(request@) == match out {
            Ok(response) => Ok(response.accept_key@),
            Err(e) => Err(e),
        },
{
    if !contains(request, UPGRADE_TOKEN.as_bytes()) {
        return Err(HandshakeError::MissingUpgrade);
    }
    match header_value_of(request, KEY_HEADER.as_bytes()) {
        None => Err(HandshakeError::MissingKey),
        Some(client_key) => Ok(AcceptResponse { accept_key: accept_key(client_key.as_slice()) }),
    }
}

/// The upgrade request for `host` that offers `key` as its key, and the
/// accept key that the server must answer with.
pub fn upgrade_request(host: &str, key: &str) -> (out: (Vec<u8>, String))
    ensures
        out.0@ == client_request(host@, key@),
        out.1@ == accept_key_of(encode_utf8(key@)),
{
    let mut request: Vec<u8> = Vec::new();
    request.extend_from_slice(REQUEST_HEAD.as_bytes());
    request.extend_from_slice(host.as_bytes());
    request.extend_from_slice(REQUEST_MIDDLE.as_bytes());
    request.extend_from_slice(key.as_bytes());
    request.extend_from_slice(REQUEST_TAIL.as_bytes());
    assert(request@ =~= client_request(host@, key@));
    let expected: String = accept_key(key.as_bytes());
    (request, expected)
}

/// The client's side of the handshake, first half: the upgrade request
/// for `host` that offers the base64 text of `key_bytes` as its key, and
/// the accept key that the server must answer with.
pub fn negotiate_client(host: &str, key_bytes: &[u8; 16]) -> (out: (Vec<u8>, String))
    ensures
        out.0@ == client_request(host@, base64_standard(key_bytes@)),
        out.1@ == accept_key_of(encode_utf8(base64_standard(key_bytes@))),
{
    let key: String = base64(key_bytes.as_slice());
    upgrade_request(host, key.as_str())
}

/// The client's side of the handshake, second half: checks the server's
/// response against the accept key that the client expects.
///
/// Fails with `MissingUpgrade`, `MissingConnection` or `MissingAccept`
/// where the response lacks `Upgrade: websocket`, `Connection: Upgrade`
/// or the `Sec-WebSocket-Accept` header, in that order, and with
/// `AcceptMismatch` where the header's value is not exactly the expected key.
pub fn check_response(response: &[u8], expected_accept_key: &str) -> (out: Result<
    (),
    HandshakeError,
>)
    ensures
        out == client_verdict(response@, expected_accept_key@),
{
    if !contains(response, UPGRADE_TOKEN.as_bytes()) {
        return Err(HandshakeError::MissingUpgrade);
    }
    if !contains(response, CONNECTION_TOKEN.as_bytes()) {
        return Err(HandshakeError::MissingConnection);
    }
    match header_value_of(response, ACCEPT_HEADER.as_bytes()) {
        None => Err(HandshakeError::MissingAccept),
        Some(received) => {
            if same_bytes(received.as_slice(), expected_accept_key.as_bytes()) {
                Ok(())
            } else {
                Err(HandshakeError::AcceptMismatch)
            }
        },
    }
}

/// Tells whether two byte strings are the same.
pub fn same_bytes(left: &[u8], right: &[u8]) -> (same: bool)
    ensures
        same == (left@ == right@),
{
    if left.len() != right.len() {
        return false;
    }
    let mut i: usize = 0;
    while i < left.len()
        invariant
            i <= left@.len(),
            left@.len() == right@.len(),
            forall|k: int| 0 <= k < i ==> left@[k] == right@[k],
        decreases left@.len() - i,
    {
        if left[i] != right[i] {
            return false;
        }
        i += 1;
    }
    assert(left@ =~= right@);
    true
}

} // verus!
