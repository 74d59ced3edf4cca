use pallet_kitties::balances::{Balances, CurrencyError};
use pallet_kitties::dna::{mix_dna, random_value, with_asset, Entropy};
use pallet_kitties::offchain::{derive_key, indexing_value, offchain_worker, SignedUpdate};
use pallet_kitties::types::{ensure_signed, DispatchError, GetDefaultValue, Origin};

#[test]
fn derive_key_is_prefix_slash_and_block_number() {
    let mut expected = b"kitty_pallet::indexing01/".to_vec();
    expected.extend_from_slice(&[0x2a, 0x01, 0, 0, 0, 0, 0, 0]);
    assert_eq!(derive_key(0x12a), expected);
    assert_ne!(derive_key(1), derive_key(2));
}

#[test]
fn indexing_value_is_little_endian_id() {
    assert_eq!(indexing_value(0x01020304), vec![4, 3, 2, 1]);
}

#[test]
fn offchain_worker_asset_follows_block_parity() {
    assert_eq!(offchain_worker(3, Some(5)), Some(SignedUpdate { kitty_id: 5, asset: 1 }));
    assert_eq!(offchain_worker(4, Some(5)), Some(SignedUpdate { kitty_id: 5, asset: 2 }));
    assert_eq!(offchain_worker(4, None), None);
}

#[test]
fn mix_dna_takes_bits_by_selector() {
    let a = [0xffu8; 16];
    let b = [0x00u8; 16];
    let mut sel = [0u8; 16];
    sel[0] = 0b1010_1010;
    sel[15] = 0xff;
    let c = mix_dna(&a, &b, &sel);
    assert_eq!(c[0], 0b1010_1010);
    assert_eq!(c[1], 0);
    assert_eq!(c[15], 0xff);
    assert_eq!(mix_dna(&a, &a, &sel), a);
}

#[test]
fn with_asset_replaces_last_byte() {
    let d = [3u8; 16];
    let u = with_asset(&d, 9);
    assert_eq!(u[15], 9);
    assert_eq!(&u[..15], &d[..15]);
}

#[test]
fn random_value_hashes_the_payload() {
    let e = Entropy { random_seed: [1u8; 32], seed_block: 2, extrinsic_index: None };
    let mut payload = vec![1u8; 32];
    payload.extend_from_slice(&2u64.to_le_bytes());
    payload.extend_from_slice(&3u64.to_le_bytes());
    payload.push(0);
    assert_eq!(random_value(&e, 3), sp_io::hashing::blake2_128(&payload));
    assert_ne!(random_value(&e, 3), random_value(&e, 4));
}

#[test]
fn balances_reserve_and_unreserve() {
    let mut b = Balances::new();
    assert!(b.make_free_balance_be(7, 50));
    assert!(b.can_reserve(7, 50));
    assert!(!b.can_reserve(7, 51));
    assert_eq!(b.reserve(7, 60), Err(CurrencyError::InsufficientBalance));
    assert_eq!(b.reserve(7, 30), Ok(()));
    assert_eq!((b.free_balance(7), b.reserved_balance(7)), (20, 30));
    assert_eq!(b.unreserve(7, 40), 10);
    assert_eq!((b.free_balance(7), b.reserved_balance(7)), (50, 0));
    assert!(b.reserve(7, 50).is_ok());
    assert!(!b.make_free_balance_be(7, u128::MAX));
    assert_eq!(b.free_balance(7), 0);
}

#[test]
fn origin_and_default_id() {
    assert_eq!(GetDefaultValue(), 0);
    assert_eq!(ensure_signed(Origin::signed(4)), Ok(4));
    assert_eq!(ensure_signed(Origin::Root), Err(DispatchError::BadOrigin));
}
