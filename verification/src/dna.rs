use vstd::prelude::*;
use crate::encoding::{encode_random_payload, random_payload};
use crate::hashing::{blake2_128, blake2_128_of};
use crate::types::{AccountId, BlockNumber};

verus! {

broadcast use vstd::array::group_array_axioms;

/// What the chain offers as randomness when a kitty is made: the seed of its
/// randomness source, the block the seed belongs to, and the index of the
/// extrinsic being executed, if any.
#[derive(Clone, Copy, Debug, PartialEq, Eq)]
pub struct Entropy {
    pub random_seed: [u8; 32],
    pub seed_block: BlockNumber,
    pub extrinsic_index: Option<u32>,
}

/// The 16 random bytes drawn for `sender` from `entropy`.
pub open spec fn spec_random_value(entropy: Entropy, sender: AccountId) -> Seq<u8> {
    blake2_128_of(random_payload(entropy.random_seed@, entropy.seed_block, sender, entropy.extrinsic_index))
}

/// Draws 16 random bytes for `sender`: the Blake2-128 digest of the encoded
/// seed, the sender and the extrinsic index.
pub fn random_value(entropy: &Entropy, sender: AccountId) -> (v: [u8; 16])
    ensures
        v@ == spec_random_value(*entropy, sender),
{
    let payload = encode_random_payload(&entropy.random_seed, entropy.seed_block, sender, entropy.extrinsic_index);
    blake2_128(payload.as_slice())
}

/// One byte of a bred DNA: the bits of `a` where `selector` is set, the bits
/// of `b` elsewhere.
pub open spec fn mix_byte(a: u8, b: u8, selector: u8) -> u8 {
    (a & selector) | (b & !selector)
}

/// The DNA bred from `a` and `b` under `selector`, byte by byte.
pub open spec fn spec_mix_dna(a: Seq<u8>, b: Seq<u8>, selector: Seq<u8>) -> Seq<u8> {
    Seq::new(16, |i: int| mix_byte(a[i], b[i], selector[i]))
}

/// Breeds two DNAs: each bit comes from `a` where the selector bit is set and
/// from `b` where it is clear.
pub fn mix_dna(a: &[u8; 16], b: &[u8; 16], selector: &[u8; 16]) -> (child: [u8; 16])
    ensures
        child@ == spec_mix_dna(a@, b@, selector@),
{
    let mut data = [0u8; 16];
    for i in 0..16
        invariant
            forall|j: int| 0 <= j < i ==> data@[j] == mix_byte(a@[j], b@[j], selector@[j]),
    {
        data[i] = (a[i] & selector[i]) | (b[i] & !selector[i]);
    }
    assert(data@ =~= spec_mix_dna(a@, b@, selector@));
    data
}

/// The DNA with its last byte replaced by `asset`.
pub open spec fn spec_with_asset(dna: Seq<u8>, asset: u8) -> Seq<u8> {
    dna.update(15, asset)
}

/// Replaces the last byte of a DNA with `asset`.
pub fn with_asset(dna: &[u8; 16], asset: u8) -> (updated: [u8; 16])
    ensures
        updated@ == spec_with_asset(dna@, asset),
{
    let mut data = *dna;
    data[15] = asset;
    data
}

} // verus!
