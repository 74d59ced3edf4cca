use pallet_kitties::balances::Balances;
use pallet_kitties::dna::Entropy;
use pallet_kitties::owned::MAX_KITTY_INDEX;
use pallet_kitties::pallet::{Config, Pallet};
use pallet_kitties::types::{DispatchError, Error, Event, Kitty, Origin};

const KITTY_PRICE: u128 = 10_000;

/// Genesis of the test runtime: accounts 0 and 2 are rich, account 1 holds
/// less than the kitty price.
fn new_test_ext() -> (Pallet, Balances) {
    let pallet = Pallet::new(Config { kitty_price: KITTY_PRICE });
    let mut balances = Balances::new();
    assert!(balances.make_free_balance_be(0, 1_000_000_000));
    assert!(balances.make_free_balance_be(1, 100));
    assert!(balances.make_free_balance_be(2, 1_000_000_000));
    (pallet, balances)
}

fn entropy(block: u64) -> Entropy {
    Entropy { random_seed: [7u8; 32], seed_block: block, extrinsic_index: Some(1) }
}

#[test]
fn it_works_for_create() {
    let (mut pallet, mut balances) = new_test_ext();
    let _account_id: u64 = 0;
    let r = pallet.create(&mut balances, Origin::signed(0), &entropy(1), 1);
    assert!(r.is_ok());
    assert_eq!(pallet.next_kitty_id(), 1);
    assert_eq!(balances.reserved_balance(0), KITTY_PRICE);
    let owners_before = pallet.kitty_owner(0);
    let reserved_before = (balances.reserved_balance(0), balances.reserved_balance(2));
    assert_eq!(
        pallet.transfer(&mut balances, Origin::signed(2), 0, _account_id),
        Err(DispatchError::Kitties(Error::NotOwner))
    );
    assert_eq!(pallet.kitty_owner(0), owners_before);
    assert_eq!((balances.reserved_balance(0), balances.reserved_balance(2)), reserved_before);
}

#[test]
fn create_kitty_fails_for_not_enough_balance() {
    let (mut pallet, mut balances) = new_test_ext();
    let account_id: u64 = 1;
    assert_eq!(
        pallet.create(&mut balances, Origin::signed(account_id), &entropy(1), 1).map(|_| ()),
        Err(DispatchError::Kitties(Error::NotEnoughBalance))
    );
    assert_eq!(pallet.next_kitty_id(), 0);
    assert_eq!(balances.reserved_balance(account_id), 0);
    assert_eq!(balances.free_balance(account_id), 100);
}

#[test]
fn create_kitty_fails_for_invalid_kitty_id() {
    let (mut pallet, mut balances) = new_test_ext();
    let account_id: u64 = 0;
    let max_index = u32::MAX;
    pallet.set_next_kitty_id(max_index);
    assert_eq!(
        pallet.create(&mut balances, Origin::signed(account_id), &entropy(1), 1).map(|_| ()),
        Err(DispatchError::Kitties(Error::InvalidKittyId))
    );
    assert_eq!(pallet.next_kitty_id(), max_index);
    assert_eq!(balances.reserved_balance(account_id), 0);
    assert_eq!(pallet.kitties(max_index), None);
}

#[test]
fn create_stores_kitty_owner_and_list() {
    let (mut pallet, mut balances) = new_test_ext();
    let (event, write) = pallet.create(&mut balances, Origin::signed(0), &entropy(3), 3).unwrap();
    let kitty = pallet.kitties(0).unwrap();
    assert_eq!(event, Event::KittyCreated(0, 0, kitty));
    assert_eq!(pallet.kitty_owner(0), Some(0));
    assert_eq!(pallet.all_kitties(0), vec![0]);
    assert_eq!(balances.free_balance(0), 1_000_000_000 - KITTY_PRICE);
    let mut key = b"kitty_pallet::indexing01/".to_vec();
    key.extend_from_slice(&3u64.to_le_bytes());
    assert_eq!(write.key, key);
    assert_eq!(write.value, vec![0, 0, 0, 0]);
}

#[test]
fn create_dna_is_blake2_of_encoded_seed() {
    let (mut pallet, mut balances) = new_test_ext();
    let e = Entropy { random_seed: [9u8; 32], seed_block: 5, extrinsic_index: Some(2) };
    pallet.create(&mut balances, Origin::signed(2), &e, 5).unwrap();
    let mut payload = vec![9u8; 32];
    payload.extend_from_slice(&5u64.to_le_bytes());
    payload.extend_from_slice(&2u64.to_le_bytes());
    payload.push(1);
    payload.extend_from_slice(&2u32.to_le_bytes());
    let expected = sp_io::hashing::blake2_128(&payload);
    assert_eq!(pallet.kitties(0), Some(Kitty(expected)));
    assert_ne!(&expected[..], &payload[..16]);
}

#[test]
fn create_is_refused_when_unsigned() {
    let (mut pallet, mut balances) = new_test_ext();
    assert_eq!(
        pallet.create(&mut balances, Origin::Unsigned, &entropy(1), 1).map(|_| ()),
        Err(DispatchError::BadOrigin)
    );
    assert_eq!(
        pallet.create(&mut balances, Origin::Root, &entropy(1), 1).map(|_| ()),
        Err(DispatchError::BadOrigin)
    );
    assert_eq!(pallet.next_kitty_id(), 0);
}

#[test]
fn create_fails_when_owner_list_is_full() {
    let pallet = Pallet::new(Config { kitty_price: 1 });
    let mut pallet = pallet;
    let mut balances = Balances::new();
    assert!(balances.make_free_balance_be(0, 1_000_000));
    for i in 0..MAX_KITTY_INDEX {
        pallet.create(&mut balances, Origin::signed(0), &entropy(i as u64), 1).unwrap();
    }
    assert_eq!(pallet.all_kitties(0).len(), MAX_KITTY_INDEX as usize);
    assert_eq!(
        pallet.create(&mut balances, Origin::signed(0), &entropy(999), 1).map(|_| ()),
        Err(DispatchError::Kitties(Error::OwnTooManyKitties))
    );
    assert_eq!(pallet.next_kitty_id(), MAX_KITTY_INDEX);
    assert_eq!(balances.reserved_balance(0), MAX_KITTY_INDEX as u128);
}

#[test]
fn breed_mixes_parents_by_selector() {
    let (mut pallet, mut balances) = new_test_ext();
    pallet.create(&mut balances, Origin::signed(0), &entropy(1), 1).unwrap();
    pallet.create(&mut balances, Origin::signed(0), &entropy(2), 2).unwrap();
    let a = pallet.kitties(0).unwrap().0;
    let b = pallet.kitties(1).unwrap().0;
    let selector = [0b1111_0000u8; 16];
    let event = pallet.breed_with_selector(&mut balances, 2, 0, 1, selector).unwrap();
    let mut expected = [0u8; 16];
    for i in 0..16 {
        expected[i] = (a[i] & 0xf0) | (b[i] & 0x0f);
    }
    assert_eq!(event, Event::KittyBreed(2, 2, Kitty(expected)));
    assert_eq!(pallet.kitties(2), Some(Kitty(expected)));
    assert_eq!(pallet.kitty_owner(2), Some(2));
    assert_eq!(pallet.all_kitties(2), vec![2]);
    assert_eq!(balances.reserved_balance(2), KITTY_PRICE);
}

#[test]
fn breed_with_drawn_selector() {
    let (mut pallet, mut balances) = new_test_ext();
    pallet.create(&mut balances, Origin::signed(0), &entropy(1), 1).unwrap();
    pallet.create(&mut balances, Origin::signed(0), &entropy(2), 2).unwrap();
    let e = entropy(4);
    let r = pallet.breed(&mut balances, Origin::signed(0), 0, 1, &e).unwrap();
    assert_eq!(pallet.next_kitty_id(), 3);
    assert_eq!(r, Event::KittyBreed(0, 2, pallet.kitties(2).unwrap()));
    assert_eq!(pallet.all_kitties(0), vec![0, 1, 2]);
}

#[test]
fn breed_refusals() {
    let (mut pallet, mut balances) = new_test_ext();
    pallet.create(&mut balances, Origin::signed(0), &entropy(1), 1).unwrap();
    assert_eq!(
        pallet.breed(&mut balances, Origin::signed(0), 0, 0, &entropy(2)),
        Err(DispatchError::Kitties(Error::SameKittyId))
    );
    assert_eq!(
        pallet.breed(&mut balances, Origin::signed(1), 0, 5, &entropy(2)),
        Err(DispatchError::Kitties(Error::NotEnoughBalance))
    );
    assert_eq!(
        pallet.breed(&mut balances, Origin::signed(0), 0, 5, &entropy(2)),
        Err(DispatchError::Kitties(Error::InvalidKittyId))
    );
    assert_eq!(
        pallet.breed(&mut balances, Origin::Unsigned, 0, 5, &entropy(2)),
        Err(DispatchError::BadOrigin)
    );
    assert_eq!(pallet.next_kitty_id(), 1);
    assert_eq!(balances.reserved_balance(0), KITTY_PRICE);
}

#[test]
fn transfer_moves_kitty_and_reservation() {
    let (mut pallet, mut balances) = new_test_ext();
    pallet.create(&mut balances, Origin::signed(0), &entropy(1), 1).unwrap();
    pallet.create(&mut balances, Origin::signed(0), &entropy(2), 2).unwrap();
    let r = pallet.transfer(&mut balances, Origin::signed(0), 0, 2);
    assert_eq!(r, Ok(Event::KittyTrnsferred(0, 2, 0)));
    assert_eq!(pallet.kitty_owner(0), Some(2));
    assert_eq!(pallet.all_kitties(0), vec![1]);
    assert_eq!(pallet.all_kitties(2), vec![0]);
    assert_eq!(balances.reserved_balance(0), KITTY_PRICE);
    assert_eq!(balances.reserved_balance(2), KITTY_PRICE);
    assert_eq!(balances.free_balance(0), 1_000_000_000 - KITTY_PRICE);
    assert_eq!(balances.free_balance(2), 1_000_000_000 - KITTY_PRICE);
}

#[test]
fn transfer_to_self_moves_kitty_to_end_of_list() {
    let (mut pallet, mut balances) = new_test_ext();
    pallet.create(&mut balances, Origin::signed(0), &entropy(1), 1).unwrap();
    pallet.create(&mut balances, Origin::signed(0), &entropy(2), 2).unwrap();
    assert_eq!(pallet.transfer(&mut balances, Origin::signed(0), 0, 0), Ok(Event::KittyTrnsferred(0, 0, 0)));
    assert_eq!(pallet.all_kitties(0), vec![1, 0]);
    assert_eq!(balances.reserved_balance(0), 2 * KITTY_PRICE);
}

#[test]
fn transfer_refusals() {
    let (mut pallet, mut balances) = new_test_ext();
    pallet.create(&mut balances, Origin::signed(0), &entropy(1), 1).unwrap();
    assert_eq!(
        pallet.transfer(&mut balances, Origin::signed(0), 0, 1),
        Err(DispatchError::Kitties(Error::NotEnoughBalance))
    );
    assert_eq!(
        pallet.transfer(&mut balances, Origin::signed(0), 7, 2),
        Err(DispatchError::Kitties(Error::InvalidKittyId))
    );
    assert_eq!(
        pallet.transfer(&mut balances, Origin::Root, 0, 2),
        Err(DispatchError::BadOrigin)
    );
    assert_eq!(pallet.kitty_owner(0), Some(0));
    assert_eq!(pallet.all_kitties(0), vec![0]);
}

#[test]
fn update_kitty_sets_last_byte_for_any_signer() {
    let (mut pallet, mut balances) = new_test_ext();
    pallet.create(&mut balances, Origin::signed(0), &entropy(1), 1).unwrap();
    let before = pallet.kitties(0).unwrap().0;
    assert_eq!(pallet.update_kitty(Origin::signed(1), 0, 42), Ok(()));
    let after = pallet.kitties(0).unwrap().0;
    assert_eq!(after[15], 42);
    assert_eq!(&after[..15], &before[..15]);
    assert_eq!(
        pallet.update_kitty(Origin::signed(1), 3, 42),
        Err(DispatchError::Kitties(Error::InvalidKittyId))
    );
    assert_eq!(pallet.update_kitty(Origin::Unsigned, 0, 1), Err(DispatchError::BadOrigin));
}

#[test]
fn transfer_round_trip_restores_owner_and_balances() {
    let (mut pallet, mut balances) = new_test_ext();
    pallet.create(&mut balances, Origin::signed(0), &entropy(1), 1).unwrap();
    let before = [(balances.free_balance(0), balances.reserved_balance(0)), (balances.free_balance(2), balances.reserved_balance(2))];
    pallet.transfer(&mut balances, Origin::signed(0), 0, 2).unwrap();
    pallet.transfer(&mut balances, Origin::signed(2), 0, 0).unwrap();
    let after = [(balances.free_balance(0), balances.reserved_balance(0)), (balances.free_balance(2), balances.reserved_balance(2))];
    assert_eq!(pallet.kitty_owner(0), Some(0));
    assert_eq!(before, after);
    assert_eq!(pallet.all_kitties(0), vec![0]);
    assert_eq!(pallet.all_kitties(2), Vec::<u32>::new());
}

#[test]
fn kitty_calls_keep_total_balances() {
    let (mut pallet, mut balances) = new_test_ext();
    let total = |b: &Balances, who: u64| b.free_balance(who) + b.reserved_balance(who);
    let totals = [total(&balances, 0), total(&balances, 1), total(&balances, 2)];
    pallet.create(&mut balances, Origin::signed(0), &entropy(1), 1).unwrap();
    pallet.create(&mut balances, Origin::signed(2), &entropy(2), 2).unwrap();
    pallet.breed(&mut balances, Origin::signed(2), 0, 1, &entropy(3)).unwrap();
    pallet.transfer(&mut balances, Origin::signed(0), 0, 2).unwrap();
    assert_eq!([total(&balances, 0), total(&balances, 1), total(&balances, 2)], totals);
    assert_eq!(balances.reserved_balance(0), 0);
    assert_eq!(balances.reserved_balance(2), 3 * KITTY_PRICE);
}

#[test]
fn offchain_update_reaches_the_created_kitty() {
    let (mut pallet, mut balances) = new_test_ext();
    pallet.create(&mut balances, Origin::signed(0), &entropy(1), 1).unwrap();
    let (_, write) = pallet.create(&mut balances, Origin::signed(0), &entropy(2), 2).unwrap();
    assert_eq!(write.value, vec![1, 0, 0, 0]);
    let indexed = u32::from_le_bytes([write.value[0], write.value[1], write.value[2], write.value[3]]);
    let update = pallet_kitties::offchain::offchain_worker(2, Some(indexed)).unwrap();
    assert_eq!(update.kitty_id, 1);
    assert_eq!(pallet.update_kitty(Origin::signed(0), update.kitty_id, update.asset), Ok(()));
    assert_eq!(pallet.kitties(1).unwrap().0[15], 2);
}
