use vstd::prelude::*;
use crate::encoding::{encode_u32, encode_u64, le_bytes};
use crate::types::{BlockNumber, KittyIndex};

verus! {

/// The prefix of every offchain-index key the pallet writes.
pub open spec fn onchain_tx_key() -> Seq<u8> {
    seq![
        107u8, 105, 116, 116, 121, 95, 112, 97, 108, 108, 101, 116, 58, 58,
        105, 110, 100, 101, 120, 105, 110, 103, 48, 49,
    ]
}

/// The byte that separates the prefix from the block number: `/`.
pub open spec fn key_separator() -> u8 {
    47u8
}

/// The offchain-index key of a block: the prefix, a `/`, and the block
/// number's SCALE encoding.
pub open spec fn spec_derive_key(block_number: BlockNumber) -> Seq<u8> {
    onchain_tx_key().push(key_separator()) + le_bytes(block_number as nat, 8)
}

/// The offchain-index key under which the value written in block
/// `block_number` is stored: `kitty_pallet::indexing01/` followed by the
/// block number's encoding.
pub fn derive_key(block_number: BlockNumber) -> (key: Vec<u8>)
    ensures
        key@ == spec_derive_key(block_number),
{
    let prefix: [u8; 24] = [
        107u8, 105, 116, 116, 121, 95, 112, 97, 108, 108, 101, 116, 58, 58,
        105, 110, 100, 101, 120, 105, 110, 103, 48, 49,
    ];
    let mut key: Vec<u8> = Vec::new();
    for i in 0..24
        invariant
            key@ == prefix@.take(i as int),
    {
        key.push(prefix[i]);
        assert(prefix@.take(i + 1) =~= prefix@.take(i as int).push(prefix@[i as int]));
    }
    assert(prefix@.take(24) =~= onchain_tx_key());
    key.push(47u8);
    let encoded = encode_u64(block_number);
    let ghost before = key@;
    let mut j: usize = 0;
    while j < encoded.len()
        invariant
            j <= encoded@.len(),
            key@ == before + encoded@.take(j as int),
        decreases encoded@.len() - j,
    {
        key.push(encoded[j]);
        assert(encoded@.take(j + 1) =~= encoded@.take(j as int).push(encoded@[j as int]));
        j = j + 1;
    }
    assert(encoded@.take(j as int) =~= encoded@);
    key
}

/// The value written to the offchain index when a kitty is created: the
/// encoding of the new kitty's id.
pub fn indexing_value(kitty_id: KittyIndex) -> (value: Vec<u8>)
    ensures
        value@ == le_bytes(kitty_id as nat, 4),
{
    encode_u32(kitty_id)
}

/// The asset byte the offchain worker writes into a kitty: 1 in odd blocks,
/// 2 in even ones.
pub open spec fn spec_offchain_asset(block_number: BlockNumber) -> u8 {
    if block_number % 2 != 0 { 1 } else { 2 }
}

/// How long the offchain worker waits before sending its transaction.
pub const OFFCHAIN_SLEEP_MILLIS: u64 = 8000;

/// A signed `update_kitty` call the offchain worker sends.
#[derive(Clone, Copy, Debug, PartialEq, Eq)]
pub struct SignedUpdate {
    pub kitty_id: KittyIndex,
    pub asset: u8,
}

/// The offchain worker's decision in block `block_number`, given the kitty id
/// read from the offchain index under `derive_key(block_number)`, if one was
/// stored there: when there is one, the entry is cleared, the worker waits
/// `OFFCHAIN_SLEEP_MILLIS`, then sends `update_kitty` for that id with the
/// block's asset byte; otherwise it does nothing.
pub fn offchain_worker(block_number: BlockNumber, indexed: Option<KittyIndex>) -> (task: Option<SignedUpdate>)
    ensures
        match indexed {
            Some(id) => task == Some(SignedUpdate { kitty_id: id, asset: spec_offchain_asset(block_number) }),
            None => task.is_none(),
        },
        indexed is Some && block_number % 2 == 1 ==> task is Some && task->Some_0.asset == 1,
        indexed is Some && block_number % 2 == 0 ==> task is Some && task->Some_0.asset == 2,
{
    match indexed {
        Some(kitty_id) => {
            let asset: u8 = if block_number % 2 != 0 { 1 } else { 2 };
            Some(SignedUpdate { kitty_id, asset })
        },
        None => None,
    }
}

} // verus!
