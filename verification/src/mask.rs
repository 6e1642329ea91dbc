//! Payload masking: the XOR obfuscation that every client-to-server frame
//! carries and no server-to-client frame may carry.

use vstd::prelude::*;

verus! {

/// `data` with byte `i` XORed with `key[i mod 4]`.
pub open spec fn xor_mask(data: Seq<u8>, key: Seq<u8>) -> Seq<u8>
    recommends
        key.len() == 4,
{
    Seq::new(data.len(), |i: int| data[i] ^ key[i % 4])
}

/// Masks or unmasks `data` with `key`; the two directions are the same operation.
pub fn apply_mask(data: &[u8], key: &[u8; 4]) -> (out: Vec<u8>)
    ensures
        out@ == xor_mask(data@, key@),
{
    let mut out: Vec<u8> = Vec::with_capacity(data.len());
    let mut i: usize = 0;
    while i < data.len()
        invariant
            i <= data.len(),
            out@ == xor_mask(data@.take(i as int), key@),
        decreases data.len() - i,
    {
        out.push(data[i] ^ key[i % 4]);
        i += 1;
    }
    assert(data@.take(data.len() as int) =~= data@);
    out
}

/// Masking is its own inverse: masking twice with the same key gives
/// back the bytes that went in, whatever the key and the bytes.
pub proof fn lemma_mask_involution(data: Seq<u8>, key: Seq<u8>)
    ensures
        xor_mask(xor_mask(data, key), key) == data,
{
    assert forall|i: int| 0 <= i < data.len() implies (data[i] ^ key[i % 4]) ^ key[i % 4]
        == data[i] by {
        let d = data[i];
        let k = key[i % 4];
        assert((d ^ k) ^ k == d) by (bit_vector);
    }
    assert(xor_mask(xor_mask(data, key), key) =~= data);
}

} // verus!
