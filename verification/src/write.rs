//! The frame codec's writing half: the bytes of one frame, unmasked as a
//! server sends it or masked as a client does, and the proof that the
//! decoder reads back what was written.

use vstd::prelude::*;
use crate::bigendian::{be_bytes, lemma_be_round_trip, pow256, push_be};
use crate::read::{
    FrameError, FrameView, FIN_BIT, LENGTH_16, LENGTH_64, MASK_BIT, base_length_of, bytes_wanted,
    declared_length, fin_of, header_size, masked_of, opcode_of, parse_frame, valid_opcode,
};
use crate::mask::{lemma_mask_involution, xor_mask};

verus! {

/// The second byte of a frame and the extended length after it: lengths
/// below 126 in the byte itself, up to 65535 behind the marker 126 in two
/// bytes, larger ones behind the marker 127 in eight, big-endian.
pub open spec fn length_field(len: nat, mask_bit: u8) -> Seq<u8> {
    if len < 126 {
        seq![mask_bit | len as u8]
    } else if len <= 65535 {
        seq![mask_bit | LENGTH_16] + be_bytes(len, 2)
    } else {
        seq![mask_bit | LENGTH_64] + be_bytes(len, 8)
    }
}

/// The bytes of one frame. With a key the mask bit is set and the key
/// stands before the payload, which is written as given: whoever masks
/// has done so already.
pub open spec fn encode_frame(byte1: u8, payload: Seq<u8>, key: Option<Seq<u8>>) -> Seq<u8> {
    match key {
        None => seq![byte1] + length_field(payload.len(), 0) + payload,
        Some(k) => seq![byte1] + length_field(payload.len(), MASK_BIT) + k + payload,
    }
}

/// The first byte of a frame with the given FIN flag and opcode.
pub open spec fn first_byte(fin: bool, opcode: u8) -> u8 {
    if fin {
        FIN_BIT | opcode
    } else {
        opcode
    }
}

/// Combines the FIN flag and an opcode into the first byte of a frame.
pub fn make_first_byte(fin: bool, opcode: u8) -> (byte1: u8)
    ensures
        byte1 == first_byte(fin, opcode),
{
    if fin {
        FIN_BIT | opcode
    } else {
        opcode
    }
}

/// Appends the second byte and the extended length for a payload of `len` bytes.
fn push_length(frame: &mut Vec<u8>, len: usize, mask_bit: u8)
    ensures
        final(frame)@ == old(frame)@ + length_field(len as nat, mask_bit),
{
    if len < 126 {
        frame.push(mask_bit | len as u8);
        assert(final(frame)@ =~= old(frame)@ + length_field(len as nat, mask_bit));
    } else if len <= 65535 {
        frame.push(mask_bit | LENGTH_16);
        push_be(frame, len as u64, 2);
        assert(final(frame)@ =~= old(frame)@ + length_field(len as nat, mask_bit));
    } else {
        frame.push(mask_bit | LENGTH_64);
        push_be(frame, len as u64, 8);
        assert(final(frame)@ =~= old(frame)@ + length_field(len as nat, mask_bit));
    }
}

/// The bytes of an unmasked frame, as a server sends it: `byte1` carries
/// FIN and opcode, already combined.
pub fn send_server_message(byte1: u8, payload: &[u8]) -> (frame: Vec<u8>)
    ensures
        frame@ == encode_frame(byte1, payload@, None),
{
    let mut frame: Vec<u8> = Vec::new();
    frame.push(byte1);
    push_length(&mut frame, payload.len(), 0);
    frame.extend_from_slice(payload);
    assert(frame@ =~= encode_frame(byte1, payload@, None));
    frame
}

/// The bytes of a masked frame, as a client sends it. The mask bit is
/// set and `masking_key` stands before the payload; `payload` must have
/// been XORed with that key by the caller and is written as it is.
pub fn send_client_message(byte1: u8, payload: &[u8], masking_key: [u8; 4]) -> (frame: Vec<u8>)
    ensures
        frame@ == encode_frame(byte1, payload@, Some(masking_key@)),
{
    let mut frame: Vec<u8> = Vec::new();
    frame.push(byte1);
    push_length(&mut frame, payload.len(), MASK_BIT);
    frame.extend_from_slice(masking_key.as_slice());
    frame.extend_from_slice(payload);
    assert(frame@ =~= encode_frame(byte1, payload@, Some(masking_key@)));
    frame
}

/// The bytes of an unmasked frame: the same encoding as `send_server_message`.
pub fn send_message(byte1: u8, payload: &[u8]) -> (frame: Vec<u8>)
    ensures
        frame@ == encode_frame(byte1, payload@, None),
{
    send_server_message(byte1, payload)
}

/// The frame that the decoder finds in the bytes that `encode_frame` wrote.
pub open spec fn encoded_view(byte1: u8, payload: Seq<u8>, key: Option<Seq<u8>>) -> FrameView {
    FrameView {
        fin: fin_of(byte1),
        opcode: opcode_of(byte1),
        masked: key is Some,
        payload_length: payload.len() as u64,
        masking_key: key,
        payload: match key {
            Some(k) => xor_mask(payload, k),
            None => payload,
        },
    }
}

/// The decoder's answer for a frame `view` that occupied `used` bytes.
pub open spec fn decoded(view: FrameView, used: nat) -> Result<(FrameView, nat), FrameError> {
    Ok((view, used))
}

/// What the second byte of a written frame says, read back.
proof fn lemma_second_byte(len: nat, masked: bool)
    ensures
        ({
            let byte2 = length_field(
                len,
                if masked {
                    MASK_BIT
                } else {
                    0
                },
            )[0];
            &&& masked_of(byte2) == masked
            &&& base_length_of(byte2) == if len < 126 {
                len as u8
            } else if len <= 65535 {
                LENGTH_16
            } else {
                LENGTH_64
            }
        }),
{
    if len < 126 {
        let l = len as u8;
        assert((0u8 | l) & 0x7F == l && (0u8 | l) & 0x80 == 0) by (bit_vector)
            requires
                l < 126,
        ;
        assert((0x80u8 | l) & 0x7F == l && (0x80u8 | l) & 0x80 != 0) by (bit_vector)
            requires
                l < 126,
        ;
    } else {
        assert((0u8 | 126) & 0x7F == 126 && (0u8 | 126) & 0x80 == 0) by (bit_vector);
        assert((0x80u8 | 126) & 0x7F == 126 && (0x80u8 | 126) & 0x80 != 0) by (bit_vector);
        assert((0u8 | 127) & 0x7F == 127 && (0u8 | 127) & 0x80 == 0) by (bit_vector);
        assert((0x80u8 | 127) & 0x7F == 127 && (0x80u8 | 127) & 0x80 != 0) by (bit_vector);
    }
}

/// The decoder reads back what the encoder wrote, whatever follows it on
/// the stream: flags, opcode, length and key as given, and the payload
/// XORed with the key where there is one.
pub proof fn lemma_parse_encoded(byte1: u8, payload: Seq<u8>, key: Option<Seq<u8>>, rest: Seq<u8>)
    requires
        valid_opcode(opcode_of(byte1)),
        payload.len() <= u64::MAX,
        key matches Some(k) ==> k.len() == 4,
    ensures
        parse_frame(encode_frame(byte1, payload, key) + rest) == decoded(
            encoded_view(byte1, payload, key),
            encode_frame(byte1, payload, key).len(),
        ),
{
    let len = payload.len();
    let mask_bit: u8 = if key is Some {
        MASK_BIT
    } else {
        0
    };
    let field = length_field(len, mask_bit);
    let key_bytes: Seq<u8> = match key {
        Some(k) => k,
        None => Seq::empty(),
    };
    let frame = encode_frame(byte1, payload, key);
    let bytes = frame + rest;
    assert(frame =~= seq![byte1] + field + key_bytes + payload);
    lemma_second_byte(len, key is Some);
    reveal_with_fuel(pow256, 9);
    if len < 126 {
        assert(field.len() == 1);
    } else if len <= 65535 {
        lemma_be_round_trip(len, 2);
        assert(bytes.subrange(2, 4) =~= be_bytes(len, 2));
    } else {
        lemma_be_round_trip(len, 8);
        assert(bytes.subrange(2, 10) =~= be_bytes(len, 8));
    }
    assert(bytes[0] == byte1);
    assert(bytes[1] == field[0]);
    let header = header_size(bytes[1]);
    assert(header == 1 + field.len() + key_bytes.len());
    assert(declared_length(bytes) == len);
    assert(bytes_wanted(bytes) == frame.len());
    assert(bytes.subrange(header as int, header as int + len) =~= payload);
    if key is Some {
        assert(bytes.subrange(header - 4, header as int) =~= key_bytes);
    }
}

/// Round-trip framing: for every FIN flag, defined opcode and payload,
/// decoding the encoded frame gives back exactly that frame.
pub proof fn lemma_round_trip(fin: bool, opcode: u8, payload: Seq<u8>)
    requires
        valid_opcode(opcode),
        payload.len() <= u64::MAX,
    ensures
        parse_frame(encode_frame(first_byte(fin, opcode), payload, None)) == decoded(
            FrameView {
                fin,
                opcode,
                masked: false,
                payload_length: payload.len() as u64,
                masking_key: None,
                payload,
            },
            encode_frame(first_byte(fin, opcode), payload, None).len(),
        ),
{
    lemma_first_byte(fin, opcode);
    let byte1 = first_byte(fin, opcode);
    lemma_parse_encoded(byte1, payload, None, Seq::empty());
    assert(encode_frame(byte1, payload, None) + Seq::<u8>::empty() =~= encode_frame(
        byte1,
        payload,
        None,
    ));
}

/// Round-trip framing in the client's direction: a payload that was masked
/// with `key` and written with that key is decoded to the payload itself.
pub proof fn lemma_round_trip_masked(fin: bool, opcode: u8, payload: Seq<u8>, key: Seq<u8>)
    requires
        valid_opcode(opcode),
        payload.len() <= u64::MAX,
        key.len() == 4,
    ensures
        parse_frame(encode_frame(first_byte(fin, opcode), xor_mask(payload, key), Some(key)))
            == decoded(
            FrameView {
                fin,
                opcode,
                masked: true,
                payload_length: payload.len() as u64,
                masking_key: Some(key),
                payload,
            },
            encode_frame(first_byte(fin, opcode), xor_mask(payload, key), Some(key)).len(),
        ),
{
    lemma_first_byte(fin, opcode);
    let byte1 = first_byte(fin, opcode);
    let wire = xor_mask(payload, key);
    lemma_parse_encoded(byte1, wire, Some(key), Seq::empty());
    lemma_mask_involution(payload, key);
    assert(encode_frame(byte1, wire, Some(key)) + Seq::<u8>::empty() =~= encode_frame(
        byte1,
        wire,
        Some(key),
    ));
}

/// The first byte built from a FIN flag and a defined opcode holds both.
pub proof fn lemma_first_byte(fin: bool, opcode: u8)
    requires
        valid_opcode(opcode),
    ensures
        fin_of(first_byte(fin, opcode)) == fin,
        opcode_of(first_byte(fin, opcode)) == opcode,
{
    assert(opcode <= 10);
    assert((0x80u8 | opcode) & 0x80 != 0 && (0x80u8 | opcode) & 0x0F == opcode && opcode & 0x80
        == 0 && opcode & 0x0F == opcode) by (bit_vector)
        requires
            opcode <= 10,
    ;
}

} // verus!
