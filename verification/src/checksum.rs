//! The double-hash checksum that guards every payload.
//!
//! The digest of a payload is SHA-256 applied twice; the checksum carried in
//! an envelope is the first four bytes of that digest.

use vstd::prelude::*;

verus! {

/// SHA-256 is defined for messages shorter than 2^64 bits, that is 2^61 bytes.
pub const MAX_HASH_INPUT: u64 = 0x2000_0000_0000_0000;

/// SHA-256 of the SHA-256 of `data`, as `bitcoin_hashes` computes it.
pub uninterp spec fn sha256d(data: Seq<u8>) -> [u8; 32];

/// The digest of a payload as a byte sequence.
pub open spec fn spec_digest(payload: Seq<u8>) -> Seq<u8> {
    sha256d(payload)@
}

/// The first four bytes of the digest.
pub open spec fn spec_checksum4(payload: Seq<u8>) -> Seq<u8> {
    spec_digest(payload).subrange(0, 4)
}

/// Whether `claimed` is the checksum of `payload`.
pub open spec fn spec_verify(payload: Seq<u8>, claimed: Seq<u8>) -> bool {
    claimed == spec_checksum4(payload)
}

/// Calls `hash` of `bitcoin_hashes::sha256d::Hash` and takes the digest out
/// with `to_byte_array`. Trusted: the 32 bytes returned are a function of the input
/// bytes alone, named `sha256d`. The input is kept below 2^61 bytes, the range
/// in which the engine's bit count cannot overflow.
#[verifier::external_body]
fn sha256d_hash(data: &[u8]) -> (out: [u8; 32])
    requires
        data@.len() < MAX_HASH_INPUT,
    ensures
        out == sha256d(data@),
{
    let hash: bitcoin_hashes::sha256d::Hash = bitcoin_hashes::Hash::hash(data);
    bitcoin_hashes::Hash::to_byte_array(hash)
}

/// Double hash of `payload`. The payload must be shorter than 2^61 bytes, the
/// longest message that SHA-256 is defined for.
pub fn digest(payload: &[u8]) -> (out: [u8; 32])
    requires
        payload@.len() < MAX_HASH_INPUT,
    ensures
        out@ == spec_digest(payload@),
{
    sha256d_hash(payload)
}

/// First four bytes of the double hash of `payload`.
pub fn checksum4(payload: &[u8]) -> (out: [u8; 4])
    requires
        payload@.len() < MAX_HASH_INPUT,
    ensures
        out@ == spec_checksum4(payload@),
{
    let d: [u8; 32] = digest(payload);
    let out: [u8; 4] = [d[0], d[1], d[2], d[3]];
    assert(out@ =~= spec_checksum4(payload@));
    out
}

/// Whether `claimed` is the checksum of `payload`.
pub fn verify(payload: &[u8], claimed: [u8; 4]) -> (ok: bool)
    requires
        payload@.len() < MAX_HASH_INPUT,
    ensures
        ok == spec_verify(payload@, claimed@),
{
    let actual: [u8; 4] = checksum4(payload);
    let ok: bool = actual[0] == claimed[0] && actual[1] == claimed[1] && actual[2] == claimed[2]
        && actual[3] == claimed[3];
    proof {
        if ok {
            assert(claimed@ =~= actual@);
        }
    }
    ok
}

/// A payload always verifies against its own checksum.
pub proof fn lemma_checksum_verifies(payload: Seq<u8>)
    ensures
        spec_checksum4(payload).len() == 4,
        spec_verify(payload, spec_checksum4(payload)),
{
}

} // verus!
