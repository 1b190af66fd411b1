//! The checksum of a payload: the first four bytes of its double SHA-256,
//! which the `bitcoin` crate computes.

use bitcoin::hashes::sha256d;
use vstd::prelude::*;

verus! {

/// The 32 bytes of SHA-256 applied twice to `data`.
pub uninterp spec fn sha256d_digest(data: Seq<u8>) -> Seq<u8>;

/// `bitcoin::hashes::sha256d::Hash::hash`, as a byte array: the double
/// SHA-256 of `data`. The digest depends on the bytes alone.
#[verifier::external_body]
pub(crate) fn sha256d_of(data: &[u8]) -> (digest: [u8; 32])
    ensures
        digest@ == sha256d_digest(data@),
{
    let hash: sha256d::Hash = bitcoin::hashes::Hash::hash(data);
    bitcoin::hashes::Hash::to_byte_array(hash)
}

/// The checksum that the frame of a payload carries.
pub open spec fn checksum_of(payload: Seq<u8>) -> Seq<u8> {
    let digest = sha256d_digest(payload);
    seq![digest[0], digest[1], digest[2], digest[3]]
}

/// Computes the checksum of a payload.
pub fn checksum(payload: &[u8]) -> (sum: [u8; 4])
    ensures
        sum@ == checksum_of(payload@),
{
    let digest = sha256d_of(payload);
    let sum: [u8; 4] = [digest[0], digest[1], digest[2], digest[3]];
    assert(sum@ =~= checksum_of(payload@));
    sum
}

} // verus!
