//! The three outside computations the handshake and the client rest on:
//! SHA-1, base64 and random bytes. Each is called through one function
//! whose contract is taken on trust.

use vstd::prelude::*;
use base64::Engine;
use base64::engine::general_purpose::STANDARD;
use rand::Rng;
use sha1::{Digest, Sha1};

verus! {

/// The SHA-1 digest of `data`.
pub uninterp spec fn sha1_digest(data: Seq<u8>) -> Seq<u8>;

/// The base64 text of `data`, in the standard alphabet and with padding.
pub uninterp spec fn base64_standard(data: Seq<u8>) -> Seq<char>;

/// Calls `Digest::digest` of the `sha1` crate for `Sha1`. The contract
/// says only that the twenty bytes returned are the SHA-1 digest of `data`.
#[verifier::external_body]
pub(crate) fn sha1(data: &[u8]) -> (digest: [u8; 20])
    ensures
        digest@ == sha1_digest(data@),
{
    Sha1::digest(data).into()
}

/// Calls `Engine::encode` of the `base64` crate on its `STANDARD`
/// engine. The contract says only that the string returned is the
/// standard base64 text of `data`; the input is kept so short that the
/// length of that text fits in a `usize`, beyond which the call panics.
#[verifier::external_body]
pub(crate) fn base64(data: &[u8]) -> (text: String)
    requires
        (data@.len() + 2) / 3 * 4 <= usize::MAX,
    ensures
        text@ == base64_standard(data@),
{
    STANDARD.encode(data)
}

/// Calls `Rng::fill` of the `rand` crate on the thread's generator, for
/// a buffer of `count` bytes. The contract says only how many bytes come
/// back; which bytes they are is left open.
#[verifier::external_body]
pub(crate) fn random_bytes(count: usize) -> (bytes: Vec<u8>)
    ensures
        bytes@.len() == count,
{
    let mut bytes = vec![0u8; count];
    rand::rng().fill(&mut bytes[..]);
    bytes
}

} // verus!
