use vstd::prelude::*;
use frame_support::pallet_prelude::Encode;

verus! {

/// The `n` bytes of `x`, least significant first.
pub open spec fn le_bytes(x: nat, n: nat) -> Seq<u8>
    decreases n,
{
    if n == 0 {
        Seq::empty()
    } else {
        seq![(x % 256) as u8] + le_bytes(x / 256, (n - 1) as nat)
    }
}

/// SCALE encoding of an optional value of 32 bits.
pub open spec fn option_u32_bytes(v: Option<u32>) -> Seq<u8> {
    match v {
        None => seq![0u8],
        Some(x) => seq![1u8] + le_bytes(x as nat, 4),
    }
}

/// Calls `Encode::encode` of parity-scale-codec on a `u32`. Trusted to give
/// its four little-endian bytes, as the crate's `impl_endians` writes them.
#[verifier::external_body]
pub(crate) fn encode_u32(x: u32) -> (bytes: Vec<u8>)
    ensures
        bytes@ == le_bytes(x as nat, 4),
{
    x.encode()
}

/// Calls `Encode::encode` of parity-scale-codec on a `u64`. Trusted to give
/// its eight little-endian bytes.
#[verifier::external_body]
pub(crate) fn encode_u64(x: u64) -> (bytes: Vec<u8>)
    ensures
        bytes@ == le_bytes(x as nat, 8),
{
    x.encode()
}

} // verus!

verus! {

/// SCALE encoding of the tuple `((seed, seed_block), who, extrinsic_index)`:
/// the seed's 32 bytes as they are, the two 64-bit numbers little-endian,
/// then the optional extrinsic index.
pub open spec fn random_payload(seed: Seq<u8>, seed_block: u64, who: u64, extrinsic_index: Option<u32>) -> Seq<u8> {
    seed + le_bytes(seed_block as nat, 8) + le_bytes(who as nat, 8) + option_u32_bytes(extrinsic_index)
}

/// Calls `Encode::encode` of parity-scale-codec on the tuple
/// `((seed, seed_block), who, extrinsic_index)`. Trusted to concatenate the
/// parts' encodings: a byte array as it is, integers little-endian, an
/// `Option` as a 0 byte or a 1 byte followed by the value.
#[verifier::external_body]
pub(crate) fn encode_random_payload(
    seed: &[u8; 32],
    seed_block: u64,
    who: u64,
    extrinsic_index: Option<u32>,
) -> (bytes: Vec<u8>)
    ensures
        bytes@ == random_payload(seed@, seed_block, who, extrinsic_index),
{
    ((*seed, seed_block), who, extrinsic_index).encode()
}

} // verus!
