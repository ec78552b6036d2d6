//! The boundary to the BLAKE2 hashes: BLAKE2s-256 for the short protocol
//! hashes and BLAKE2b for key expansion and digests, each with its
//! personalization tag.

use vstd::prelude::*;

verus! {

/// What BLAKE2s-256 returns for a personalization and an input.
pub uninterp spec fn blake2s_of(personal: Seq<u8>, data: Seq<u8>) -> Seq<u8>;

/// What BLAKE2b returns for a personalization, an output length and an
/// input.
pub uninterp spec fn blake2b_of(personal: Seq<u8>, outlen: int, data: Seq<u8>) -> Seq<u8>;

/// Relies on `blake2s_simd::Params`: BLAKE2s with a 32-byte output and an
/// 8-byte personalization. The result depends on the arguments alone.
#[verifier::external_body]
pub(crate) fn blake2s_32(personal: &Vec<u8>, data: &Vec<u8>) -> (r: Vec<u8>)
    requires
        personal@.len() == 8,
    ensures
        r@ == blake2s_of(personal@, data@),
        r@.len() == 32,
{
    blake2s_simd::Params::new()
        .hash_length(32)
        .personal(personal.as_slice())
        .hash(data.as_slice())
        .as_bytes()
        .to_vec()
}

/// Relies on `blake2b_simd::Params`: BLAKE2b with the given output length
/// and a 16-byte personalization. The result depends on the arguments
/// alone.
#[verifier::external_body]
pub(crate) fn blake2b_hash(personal: &Vec<u8>, outlen: usize, data: &Vec<u8>) -> (r: Vec<u8>)
    requires
        personal@.len() == 16,
        1 <= outlen <= 64,
    ensures
        r@ == blake2b_of(personal@, outlen as int, data@),
        r@.len() == outlen,
{
    blake2b_simd::Params::new()
        .hash_length(outlen)
        .personal(personal.as_slice())
        .hash(data.as_slice())
        .as_bytes()
        .to_vec()
}

} // verus!
