//! The frame codec's reading half: the wire layout of one frame and the
//! decoder that turns the bytes of a stream into a `FrameHeader`.

use vstd::prelude::*;
use vstd::slice::{slice_subrange, slice_to_vec};
use crate::bigendian::{be_value, lemma_be_value_bound, pow256, read_be};
use crate::mask::{apply_mask, xor_mask};

verus! {

/// Bit 7 of the first byte: this frame ends its message.
pub const FIN_BIT: u8 = 0x80;

/// Bits 3-0 of the first byte: the opcode.
pub const OPCODE_BITS: u8 = 0x0F;

/// Bit 7 of the second byte: a masking key follows the length.
pub const MASK_BIT: u8 = 0x80;

/// Bits 6-0 of the second byte: the base length.
pub const LENGTH_BITS: u8 = 0x7F;

/// Base length that announces a 16-bit length field.
pub const LENGTH_16: u8 = 126;

/// Base length that announces a 64-bit length field.
pub const LENGTH_64: u8 = 127;

/// Opcode of a frame that continues a fragmented message.
pub const OP_CONTINUATION: u8 = 0x0;

/// Opcode of a frame that starts a text message.
pub const OP_TEXT: u8 = 0x1;

/// Opcode of a frame that starts a binary message.
pub const OP_BINARY: u8 = 0x2;

/// Opcode of the control frame that closes the connection.
pub const OP_CLOSE: u8 = 0x8;

/// Opcode of the control frame that asks for a Pong.
pub const OP_PING: u8 = 0x9;

/// Opcode of the control frame that answers a Ping.
pub const OP_PONG: u8 = 0xA;

/// Why a frame could not be taken from the stream. Either is fatal to the connection.
#[derive(Debug, Clone, Copy, PartialEq, Eq, Structural)]
pub enum FrameError {
    /// The stream ended, or held fewer bytes than the frame declares.
    Truncated,
    /// The peer broke a rule of the protocol.
    ProtocolViolation,
}

/// One decoded frame: its flags, its length as declared on the wire, its
/// masking key if it had one, and its payload with the mask already removed.
#[derive(Debug, Clone, PartialEq, Eq)]
pub struct FrameHeader {
    pub fin: bool,
    pub opcode: u8,
    pub masked: bool,
    pub payload_length: u64,
    pub masking_key: Option<[u8; 4]>,
    pub decoded_data: Vec<u8>,
}

/// The mathematical content of a `FrameHeader`.
pub struct FrameView {
    pub fin: bool,
    pub opcode: u8,
    pub masked: bool,
    pub payload_length: u64,
    pub masking_key: Option<Seq<u8>>,
    pub payload: Seq<u8>,
}

impl View for FrameHeader {
    type V = FrameView;

    open spec fn view(&self) -> FrameView {
        FrameView {
            fin: self.fin,
            opcode: self.opcode,
            masked: self.masked,
            payload_length: self.payload_length,
            masking_key: match self.masking_key {
                Some(key) => Some(key@),
                None => None,
            },
            payload: self.decoded_data@,
        }
    }
}

impl FrameView {
    /// The invariant of a decoded frame: a defined opcode, a key exactly when
    /// masked, and as many payload bytes as declared.
    pub open spec fn wf(self) -> bool {
        &&& valid_opcode(self.opcode)
        &&& self.masked <==> self.masking_key is Some
        &&& self.masking_key matches Some(key) ==> key.len() == 4
        &&& self.payload_length == self.payload.len()
    }
}

/// The six opcodes the protocol defines; 0x3-0x7 and 0xB-0xF are reserved.
pub open spec fn valid_opcode(opcode: u8) -> bool {
    opcode == OP_CONTINUATION || opcode == OP_TEXT || opcode == OP_BINARY || opcode == OP_CLOSE
        || opcode == OP_PING || opcode == OP_PONG
}

/// The FIN flag in the first byte of a frame.
pub open spec fn fin_of(byte1: u8) -> bool {
    byte1 & FIN_BIT != 0
}

/// The opcode in the first byte of a frame; the three reserved bits are passed over.
pub open spec fn opcode_of(byte1: u8) -> u8 {
    byte1 & OPCODE_BITS
}

/// The mask flag in the second byte of a frame.
pub open spec fn masked_of(byte2: u8) -> bool {
    byte2 & MASK_BIT != 0
}

/// The base length in the second byte of a frame.
pub open spec fn base_length_of(byte2: u8) -> u8 {
    byte2 & LENGTH_BITS
}

/// How many bytes of extended length follow the second byte.
pub open spec fn length_field_size(byte2: u8) -> nat {
    if base_length_of(byte2) == LENGTH_16 {
        2
    } else if base_length_of(byte2) == LENGTH_64 {
        8
    } else {
        0
    }
}

/// How many bytes stand before the payload: the two fixed bytes, the
/// extended length and the masking key.
pub open spec fn header_size(byte2: u8) -> nat {
    2 + length_field_size(byte2) + if masked_of(byte2) {
        4nat
    } else {
        0nat
    }
}

/// The payload length that a header declares. The extended fields are big-endian.
pub open spec fn declared_length(bytes: Seq<u8>) -> nat
    recommends
        bytes.len() >= 2 + length_field_size(bytes[1]),
{
    if base_length_of(bytes[1]) == LENGTH_16 {
        be_value(bytes.subrange(2, 4))
    } else if base_length_of(bytes[1]) == LENGTH_64 {
        be_value(bytes.subrange(2, 10))
    } else {
        base_length_of(bytes[1]) as nat
    }
}

/// The masking key that a header carries, if any.
pub open spec fn declared_key(bytes: Seq<u8>) -> Option<Seq<u8>>
    recommends
        bytes.len() >= header_size(bytes[1]),
{
    if masked_of(bytes[1]) {
        Some(bytes.subrange(header_size(bytes[1]) - 4, header_size(bytes[1]) as int))
    } else {
        None
    }
}

/// How many bytes a reader must hold before it can say more about the
/// frame that starts with `prefix`: two to begin with, then the whole
/// header, then header and payload. A frame with an undefined opcode is
/// refused on its first two bytes.
pub open spec fn bytes_wanted(prefix: Seq<u8>) -> nat {
    if prefix.len() < 2 || !valid_opcode(opcode_of(prefix[0])) {
        2
    } else if prefix.len() < header_size(prefix[1]) {
        header_size(prefix[1])
    } else {
        header_size(prefix[1]) + declared_length(prefix)
    }
}

/// The frame at the start of `bytes` and the number of bytes it occupies,
/// or the reason there is none.
pub open spec fn parse_frame(bytes: Seq<u8>) -> Result<(FrameView, nat), FrameError> {
    if bytes.len() < 2 {
        Err(FrameError::Truncated)
    } else if !valid_opcode(opcode_of(bytes[0])) {
        Err(FrameError::ProtocolViolation)
    } else if bytes.len() < bytes_wanted(bytes) {
        Err(FrameError::Truncated)
    } else {
        let start = header_size(bytes[1]) as int;
        let wire = bytes.subrange(start, start + declared_length(bytes));
        Ok(
            (
                FrameView {
                    fin: fin_of(bytes[0]),
                    opcode: opcode_of(bytes[0]),
                    masked: masked_of(bytes[1]),
                    payload_length: declared_length(bytes) as u64,
                    masking_key: declared_key(bytes),
                    payload: match declared_key(bytes) {
                        Some(key) => xor_mask(wire, key),
                        None => wire,
                    },
                },
                bytes_wanted(bytes),
            ),
        )
    }
}

/// A frame is reported truncated exactly when fewer bytes are held than
/// are wanted.
pub proof fn lemma_truncated_iff_wanting(bytes: Seq<u8>)
    ensures
        parse_frame(bytes) == Err::<(FrameView, nat), FrameError>(FrameError::Truncated)
            <==> bytes.len() < bytes_wanted(bytes),
{
}

/// A decoded frame keeps the invariant of frames and lies within the bytes given.
pub proof fn lemma_parse_wf(bytes: Seq<u8>)
    ensures
        parse_frame(bytes) matches Ok((frame, used)) ==> frame.wf() && used <= bytes.len(),
{
    if parse_frame(bytes) is Ok {
        if base_length_of(bytes[1]) == LENGTH_64 {
            lemma_be_value_bound(bytes.subrange(2, 10));
            reveal_with_fuel(pow256, 9);
        } else if base_length_of(bytes[1]) == LENGTH_16 {
            lemma_be_value_bound(bytes.subrange(2, 4));
            reveal_with_fuel(pow256, 3);
        }
    }
}

/// Decoding reads the frame's own bytes and nothing after them: what
/// follows a whole frame on the stream does not change what is decoded.
pub proof fn lemma_parse_ignores_rest(bytes: Seq<u8>, rest: Seq<u8>)
    requires
        parse_frame(bytes) is Ok,
    ensures
        parse_frame(bytes + rest) == parse_frame(bytes),
{
    let all = bytes + rest;
    let header = header_size(bytes[1]) as int;
    assert(all[0] == bytes[0] && all[1] == bytes[1]);
    if base_length_of(bytes[1]) == LENGTH_16 {
        assert(all.subrange(2, 4) =~= bytes.subrange(2, 4));
    } else if base_length_of(bytes[1]) == LENGTH_64 {
        assert(all.subrange(2, 10) =~= bytes.subrange(2, 10));
    }
    let declared = declared_length(bytes);
    assert(declared_length(all) == declared);
    if masked_of(bytes[1]) {
        assert(all.subrange(header - 4, header) =~= bytes.subrange(header - 4, header));
    }
    assert(all.subrange(header, header + declared) =~= bytes.subrange(header, header + declared));
}

/// Tells whether `opcode` is one of the six defined ones.
pub fn is_valid_opcode(opcode: u8) -> (valid: bool)
    ensures
        valid == valid_opcode(opcode),
{
    opcode == OP_CONTINUATION || opcode == OP_TEXT || opcode == OP_BINARY || opcode == OP_CLOSE
        || opcode == OP_PING || opcode == OP_PONG
}

/// The length of the header that the second byte announces.
fn header_len(byte2: u8) -> (len: usize)
    ensures
        len == header_size(byte2),
        4 <= len <= 14 || len == 2 || len == 6,
{
    let base: u8 = byte2 & LENGTH_BITS;
    let field: usize = if base == LENGTH_16 {
        2
    } else if base == LENGTH_64 {
        8
    } else {
        0
    };
    if byte2 & MASK_BIT != 0 {
        2 + field + 4
    } else {
        2 + field
    }
}

/// The payload length that the header at the start of `bytes` declares.
fn declared_len(bytes: &[u8]) -> (len: u64)
    requires
        bytes@.len() >= 2 + length_field_size(bytes@[1]),
    ensures
        len == declared_length(bytes@),
{
    let base: u8 = bytes[1] & LENGTH_BITS;
    if base == LENGTH_16 {
        read_be(bytes, 2, 2)
    } else if base == LENGTH_64 {
        read_be(bytes, 2, 8)
    } else {
        base as u64
    }
}

/// How many bytes of the frame that starts with `prefix` a reader must hold
/// before it can go on: `None` where that number does not fit in a `usize`,
/// so that no buffer can hold the frame.
///
/// A reader that has `prefix` reads on until it holds that many bytes and
/// asks again; once it holds as many as wanted, `read_header` no longer
/// reports a truncated frame.
pub fn frame_bytes_wanted(prefix: &[u8]) -> (wanted: Option<usize>)
    ensures
        match wanted {
            Some(n) => n == bytes_wanted(prefix@),
            None => bytes_wanted(prefix@) > usize::MAX,
        },
{
    let held: usize = prefix.len();
    if held < 2 || !is_valid_opcode(prefix[0] & OPCODE_BITS) {
        return Some(2);
    }
    let header: usize = header_len(prefix[1]);
    if held < header {
        return Some(header);
    }
    let declared: u64 = declared_len(prefix);
    if declared > (usize::MAX - header) as u64 {
        None
    } else {
        Some(header + declared as usize)
    }
}

/// Decodes the frame at the start of `bytes`, as it came off the stream, and
/// says how many bytes it occupied. The payload is returned unmasked.
///
/// Fails with `Truncated` where `bytes` ends before the frame does, and with
/// `ProtocolViolation` where the opcode is not a defined one.
pub fn read_header(bytes: &[u8]) -> (out: Result<(FrameHeader, usize), FrameError>)
    ensures
        parse_frame(bytes@) == match out {
            Ok((frame, used)) => Ok((frame@, used as nat)),
            Err(e) => Err(e),
        },
        out matches Ok((frame, used)) ==> frame@.wf() && used <= bytes@.len(),
{
    let held: usize = bytes.len();
    if held < 2 {
        return Err(FrameError::Truncated);
    }
    let byte1: u8 = bytes[0];
    let byte2: u8 = bytes[1];
    let fin: bool = byte1 & FIN_BIT != 0;
    let opcode: u8 = byte1 & OPCODE_BITS;
    if !is_valid_opcode(opcode) {
        return Err(FrameError::ProtocolViolation);
    }
    let masked: bool = byte2 & MASK_BIT != 0;
    let header: usize = header_len(byte2);
    if held < header {
        return Err(FrameError::Truncated);
    }
    let payload_length: u64 = declared_len(bytes);
    if payload_length > (held - header) as u64 {
        return Err(FrameError::Truncated);
    }
    let end: usize = header + payload_length as usize;
    let wire = slice_subrange(bytes, header, end);
    if masked {
        let key: [u8; 4] = [
            bytes[header - 4],
            bytes[header - 3],
            bytes[header - 2],
            bytes[header - 1],
        ];
        assert(key@ =~= bytes@.subrange(header - 4, header as int));
        let decoded_data = apply_mask(wire, &key);
        Ok(
            (
                FrameHeader {
                    fin,
                    opcode,
                    masked,
                    payload_length,
                    masking_key: Some(key),
                    decoded_data,
                },
                end,
            ),
        )
    } else {
        let decoded_data = slice_to_vec(wire);
        Ok(
            (FrameHeader { fin, opcode, masked, payload_length, masking_key: None, decoded_data }, end),
        )
    }
}

} // verus!
