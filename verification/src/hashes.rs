//! The two checksum digests the container format supports.

use vstd::prelude::*;

verus! {

/// The 28-byte SHA-224 digest of a byte sequence.
pub uninterp spec fn sha2_224_of(bytes: Seq<u8>) -> Seq<u8>;

/// The 28-byte SHA3-224 digest of a byte sequence.
pub uninterp spec fn sha3_224_of(bytes: Seq<u8>) -> Seq<u8>;

/// Relies on sha2::Sha224 through digest::Digest::digest: the SHA-224
/// digest of the input, 28 bytes, a function of the input bytes alone.
#[verifier::external_body]
pub(crate) fn sha2_224(bytes: &Vec<u8>) -> (r: Vec<u8>)
    ensures
        r@ == sha2_224_of(bytes@),
        r@.len() == 28,
{
    <sha2::Sha224 as sha2::Digest>::digest(bytes.as_slice()).to_vec()
}

/// Relies on sha3::Sha3_224 through digest::Digest::digest: the SHA3-224
/// digest of the input, 28 bytes, a function of the input bytes alone.
#[verifier::external_body]
pub(crate) fn sha3_224(bytes: &Vec<u8>) -> (r: Vec<u8>)
    ensures
        r@ == sha3_224_of(bytes@),
        r@.len() == 28,
{
    <sha3::Sha3_224 as sha3::Digest>::digest(bytes.as_slice()).to_vec()
}

} // verus!
