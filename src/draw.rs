use vstd::prelude::*;
use crate::bytes::{le_bytes, le_value, u64_from_le_bytes, u64_to_le_bytes};
use crate::types::Round;

verus! {

/// The SHA3-256 digest of a byte string.
pub uninterp spec fn sha3_256_of(data: Seq<u8>) -> Seq<u8>;

/// Relies on tiny_keccak's `Sha3::v256` (FIPS-202 SHA3-256), finalized into a
/// 32-byte buffer: the digest depends on the input bytes alone.
#[verifier::external_body]
fn sha3_256(data: &[u8]) -> (r: Vec<u8>)
    ensures
        r@ == sha3_256_of(data@),
        r@.len() == 32,
{
    let mut hasher = tiny_keccak::Sha3::v256();
    tiny_keccak::Hasher::update(&mut hasher, data);
    let mut out = [0u8;32];
    tiny_keccak::Hasher::finalize(hasher, &mut out);
    out.to_vec()
}

/// One step of the deterministic generator: the state is replaced by its digest,
/// and the first eight bytes of the new state are the output.
pub open spec fn next_value(state: Seq<u8>) -> nat {
    le_value(sha3_256_of(state).take(8))
}

/// The draw that selects the proposer of `round`: the first output of the
/// generator seeded with the round's 8-byte little-endian encoding.
pub open spec fn draw_of(round: Round) -> nat {
    next_value(le_bytes(round as nat, 8))
}

/// Advances the generator state and returns the next pseudo-random value.
pub fn next(state: &mut Vec<u8>) -> (r: u64)
    ensures
        final(state)@ == sha3_256_of(old(state)@),
        r as nat == next_value(old(state)@),
{
    let digest = sha3_256(state.as_slice());
    *state = digest;
    u64_from_le_bytes(state.as_slice())
}

/// The selection draw for `round`, a function of the round alone.
pub fn round_draw(round: Round) -> (r: u64)
    ensures
        r as nat == draw_of(round),
{
    let mut state = u64_to_le_bytes(round);
    next(&mut state)
}

} // verus!
