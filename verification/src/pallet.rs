use vstd::prelude::*;
use std::collections::HashMap;
use frame_support::traits::ConstU32;
use frame_support::BoundedVec;
use crate::balances::{free_of, ledger_reserve, Balances, Ledger};
use crate::dna::{mix_dna, random_value, spec_mix_dna, spec_random_value, spec_with_asset, with_asset, Entropy};
use crate::encoding::le_bytes;
use crate::laws::{
    law_mint_keeps_backing, law_mint_keeps_index_exact, law_transfer_keeps_backing,
    law_transfer_keeps_index_exact,
};
use crate::model::{is_first_index, lemma_first_index_exists, lemma_transfer_keeps_wf, PalletState};
use crate::offchain::{derive_key, indexing_value, spec_derive_key};
use crate::owned::{
    owned_get, owned_ids, owned_len, owned_new, owned_remove, owned_to_vec, owned_try_push,
    MAX_KITTY_INDEX,
};
use crate::types::{
    ensure_signed, AccountId, Balance, BlockNumber, DispatchError, Error, Event, Kitty, KittyIndex,
    Origin,
};

verus! {

broadcast use vstd::std_specs::hash::group_hash_axioms;

/// The pallet's settings, which the runtime chooses. The most kitties one
/// account may list is `MAX_KITTY_INDEX`, the bound of the list type.
#[derive(Clone, Copy, Debug, PartialEq, Eq)]
pub struct Config {
    /// The price reserved from an account for every kitty it gets.
    pub kitty_price: Balance,
}

/// An entry the pallet asks the runtime to write to the offchain index.
#[derive(Debug, PartialEq, Eq)]
pub struct IndexWrite {
    pub key: Vec<u8>,
    pub value: Vec<u8>,
}

/// The kitties pallet's storage and calls.
pub struct Pallet {
    kitty_price: Balance,
    next_kitty_id: KittyIndex,
    kitties: HashMap<KittyIndex, Kitty>,
    kitty_owner: HashMap<KittyIndex, AccountId>,
    all_kitties: HashMap<AccountId, BoundedVec<KittyIndex, ConstU32<MAX_KITTY_INDEX>>>,
}

impl View for Pallet {
    type V = PalletState;

    closed spec fn view(&self) -> PalletState {
        PalletState {
            kitty_price: self.kitty_price,
            next_kitty_id: self.next_kitty_id,
            kitties: self.kitties@,
            kitty_owner: self.kitty_owner@,
            all_kitties: Map::new(
                |who: AccountId| true,
                |who: AccountId|
                    if self.all_kitties@.contains_key(who) {
                        owned_ids(self.all_kitties@[who])
                    } else {
                        Seq::empty()
                    },
            ),
        }
    }
}

impl Pallet {
    /// The pallet at genesis: no kitties, the counter at `GetDefaultValue()`.
    pub fn new(config: Config) -> (p: Pallet)
        ensures
            p@.wf(),
            p@.index_exact(),
            forall|ledger: Ledger| #[trigger] p@.reservations_back_kitties(ledger),
            p@.kitty_price == config.kitty_price,
            p@.next_kitty_id == 0,
            p@.kitties == Map::<KittyIndex, Kitty>::empty(),
            p@.kitty_owner == Map::<KittyIndex, AccountId>::empty(),
            forall|who: AccountId| #[trigger] p@.all_kitties[who] == Seq::<KittyIndex>::empty(),
    {
        let p = Pallet {
            kitty_price: config.kitty_price,
            next_kitty_id: crate::types::GetDefaultValue(),
            kitties: HashMap::new(),
            kitty_owner: HashMap::new(),
            all_kitties: HashMap::new(),
        };
        assert(p@.kitty_owner.dom() =~= p@.kitties.dom());
        assert forall|who: AccountId| #[trigger] p@.all_kitties[who].no_duplicates() by {
            assert(p@.all_kitties[who] == Seq::<KittyIndex>::empty());
        }
        p
    }

    /// The id the next kitty will get.
    pub fn next_kitty_id(&self) -> (id: KittyIndex)
        ensures
            id == self@.next_kitty_id,
    {
        self.next_kitty_id
    }

    /// Overwrites the id the next kitty will get.
    pub fn set_next_kitty_id(&mut self, id: KittyIndex)
        requires
            old(self)@.wf(),
        ensures
            final(self)@ == (PalletState { next_kitty_id: id, ..old(self)@ }),
            final(self)@.wf(),
            old(self)@.index_exact() && id >= old(self)@.next_kitty_id ==> final(self)@.index_exact(),
    {
        self.next_kitty_id = id;
        assert(self@.all_kitties =~= old(self)@.all_kitties);
    }

    /// The price reserved for every kitty.
    pub fn kitty_price(&self) -> (price: Balance)
        ensures
            price == self@.kitty_price,
    {
        self.kitty_price
    }

    /// The kitty with id `id`, if there is one.
    pub fn kitties(&self, id: KittyIndex) -> (k: Option<Kitty>)
        ensures
            k == (if self@.kitties.contains_key(id) { Some(self@.kitties[id]) } else { None }),
    {
        match self.kitties.get(&id) {
            Some(k) => Some(*k),
            None => None,
        }
    }

    /// The owner of kitty `id`, if it has one.
    pub fn kitty_owner(&self, id: KittyIndex) -> (o: Option<AccountId>)
        ensures
            o == (if self@.kitty_owner.contains_key(id) { Some(self@.kitty_owner[id]) } else { None }),
    {
        match self.kitty_owner.get(&id) {
            Some(o) => Some(*o),
            None => None,
        }
    }

    /// The ids of the kitties `who` got, oldest first.
    pub fn all_kitties(&self, who: AccountId) -> (ids: Vec<KittyIndex>)
        ensures
            ids@ == self@.all_kitties[who],
    {
        match self.all_kitties.get(&who) {
            Some(v) => owned_to_vec(v),
            None => Vec::new(),
        }
    }

    /// The id the next kitty will get, unless none is left: the last value of
    /// `KittyIndex` is never handed out.
    fn get_next_id(&self) -> (r: Result<KittyIndex, ()>)
        ensures
            r is Ok <==> self@.next_kitty_id < u32::MAX,
            r is Ok ==> r->Ok_0 == self@.next_kitty_id,
    {
        let kitty_id = self.next_kitty_id;
        if u32::MAX <= kitty_id {
            Err(())
        } else {
            Ok(kitty_id)
        }
    }

    /// The kitty with id `kitty_id`, or an error when there is none.
    fn get_kitty(&self, kitty_id: KittyIndex) -> (r: Result<Kitty, ()>)
        ensures
            r is Ok <==> self@.kitties.contains_key(kitty_id),
            r is Ok ==> r->Ok_0 == self@.kitties[kitty_id],
    {
        match self.kitties.get(&kitty_id) {
            Some(kitty) => Ok(*kitty),
            None => Err(()),
        }
    }

    /// How many kitties `who` has listed.
    fn owned_count(&self, who: AccountId) -> (n: usize)
        ensures
            n == self@.all_kitties[who].len(),
    {
        match self.all_kitties.get(&who) {
            Some(v) => owned_len(v),
            None => 0,
        }
    }

    /// Appends `id` to the list of `who`, which has room for it.
    fn list_push(&mut self, who: AccountId, id: KittyIndex)
        requires
            old(self)@.all_kitties[who].len() < MAX_KITTY_INDEX,
        ensures
            final(self)@ == (PalletState {
                all_kitties: old(self)@.all_kitties.insert(who, old(self)@.all_kitties[who].push(id)),
                ..old(self)@
            }),
    {
        let mut list = match self.all_kitties.remove(&who) {
            Some(v) => v,
            None => owned_new(),
        };
        let pushed = owned_try_push(&mut list, id);
        assert(pushed is Ok);
        self.all_kitties.insert(who, list);
        assert(self@.all_kitties =~= old(self)@.all_kitties.insert(who, old(self)@.all_kitties[who].push(id)));
    }

    /// Removes the first occurrence of `id` from the list of `who`, which
    /// holds it.
    fn list_release(&mut self, who: AccountId, id: KittyIndex)
        requires
            old(self)@.all_kitties[who].contains(id),
        ensures
            final(self)@ == (PalletState {
                all_kitties: old(self)@.released(who, id),
                ..old(self)@
            }),
    {
        let ghost s = old(self)@.all_kitties[who];
        let mut list = match self.all_kitties.remove(&who) {
            Some(v) => v,
            None => owned_new(),
        };
        let n = owned_len(&list);
        let mut index: usize = 0;
        while index < n && owned_get(&list, index) != id
            invariant
                owned_ids(list) == s,
                n == s.len(),
                index <= n,
                forall|j: int| 0 <= j < index ==> s[j] != id,
            decreases n - index,
        {
            index = index + 1;
        }
        proof {
            if index == n {
                let k = choose|k: int| 0 <= k < s.len() && s[k] == id;
                assert(s[k] == id);
            }
            assert(is_first_index(s, id, index as int));
            let c = choose|i: int| is_first_index(s, id, i);
            assert(c == index as int) by {
                if c < index as int {
                    assert(s[c] != id);
                } else if c > index as int {
                    assert(s[index as int] != id);
                }
            }
        }
        owned_remove(&mut list, index);
        self.all_kitties.insert(who, list);
        assert(self@.all_kitties =~= old(self)@.released(who, id));
    }

    /// Gives `who` a new kitty under the next id: reserves the kitty price
    /// from `who`, stores the kitty and its owner, advances the id counter and
    /// lists the id for `who`. The caller has made sure that the free balance
    /// of `who` covers the price, that an id is left and that `who` has room
    /// for one more kitty.
    fn mint(&mut self, balances: &mut Balances, who: AccountId, kitty: Kitty) -> (r: Result<KittyIndex, DispatchError>)
        requires
            old(self)@.wf(),
            old(balances).wf(),
            old(self)@.next_kitty_id < u32::MAX,
            old(self)@.all_kitties[who].len() < MAX_KITTY_INDEX,
            free_of(old(balances).view(), who) >= old(self)@.kitty_price,
        ensures
            final(self)@.wf(),
            final(balances).wf(),
            old(self)@.index_exact() ==> final(self)@.index_exact(),
            old(self)@.reservations_back_kitties(old(balances).view())
                ==> final(self)@.reservations_back_kitties(final(balances).view()),
            r == Ok::<KittyIndex, DispatchError>(old(self)@.next_kitty_id),
            final(self)@ == old(self)@.mint(who, kitty),
            final(balances).view() == ledger_reserve(old(balances).view(), who, old(self)@.kitty_price as nat),
    {
        let kitty_id = self.next_kitty_id;
        match balances.reserve(who, self.kitty_price) {
            Ok(()) => {},
            Err(_) => {
                return Err(DispatchError::InsufficientBalance);
            },
        }
        let next_kitty_id = kitty_id + 1;
        self.kitties.insert(kitty_id, kitty);
        self.kitty_owner.insert(kitty_id, who);
        self.next_kitty_id = next_kitty_id;
        self.list_push(who, kitty_id);
        proof {
            let s0 = old(self)@;
            let s1 = self@;
            assert(s1.kitties =~= s0.mint(who, kitty).kitties);
            assert(s1.kitty_owner =~= s0.mint(who, kitty).kitty_owner);
            assert(s1.kitty_owner.dom() =~= s1.kitties.dom());
            assert forall|id: KittyIndex| #[trigger] s1.kitty_owner.contains_key(id)
                implies s1.all_kitties[s1.kitty_owner[id]].contains(id) by {
                if id == kitty_id {
                    assert(s1.all_kitties[who][s1.all_kitties[who].len() - 1] == id);
                } else {
                    let w = s0.kitty_owner[id];
                    assert(s0.all_kitties[w].contains(id));
                    if w == who {
                        let k = choose|k: int| 0 <= k < s0.all_kitties[w].len() && s0.all_kitties[w][k] == id;
                        assert(s1.all_kitties[w][k] == id);
                    }
                }
            }
            assert forall|a: AccountId| #[trigger] s1.all_kitties[a].len() <= MAX_KITTY_INDEX by {
                assert(s0.all_kitties[a].len() <= MAX_KITTY_INDEX);
            }
            if s0.index_exact() {
                law_mint_keeps_index_exact(s0, who, kitty);
            }
            if s0.reservations_back_kitties(old(balances).view()) {
                law_mint_keeps_backing(s0, old(balances).view(), who, kitty);
            }
        }
        Ok(kitty_id)
    }

    /// Creates a kitty with DNA `dna` for `who` in block `block_number`.
    ///
    /// In this order: refused with `NotEnoughBalance` when the free balance of
    /// `who` does not cover the kitty price, with `InvalidKittyId` when the
    /// next id is the last value of `KittyIndex`, with `OwnTooManyKitties`
    /// when `who` already lists the most kitties an account may; a refused
    /// call changes nothing. Otherwise the price is reserved from `who`, the
    /// kitty is stored under the next id and owned and listed by `who`, the
    /// counter moves on, and the call announces `KittyCreated` and asks for
    /// the new kitty's id to be written to the offchain index under the
    /// block's key, for the offchain worker of that block to update it.
    pub fn create_with_dna(
        &mut self,
        balances: &mut Balances,
        who: AccountId,
        dna: [u8; 16],
        block_number: BlockNumber,
    ) -> (r: Result<(Event, IndexWrite), DispatchError>)
        requires
            old(self)@.wf(),
            old(balances).wf(),
        ensures
            final(self)@.wf(),
            final(balances).wf(),
            old(self)@.index_exact() ==> final(self)@.index_exact(),
            old(self)@.reservations_back_kitties(old(balances).view())
                ==> final(self)@.reservations_back_kitties(final(balances).view()),
            r is Ok <==> old(self)@.create_error(old(balances).view(), who) is None,
            r is Err ==> r->Err_0 == DispatchError::Kitties(old(self)@.create_error(old(balances).view(), who)->Some_0)
                && final(self)@ == old(self)@ && final(balances).view() == old(balances).view(),
            r is Ok ==> {
                let (event, write) = r->Ok_0;
                &&& final(self)@ == old(self)@.mint(who, Kitty(dna))
                &&& final(balances).view() == ledger_reserve(old(balances).view(), who, old(self)@.kitty_price as nat)
                &&& event == Event::KittyCreated(who, old(self)@.next_kitty_id, Kitty(dna))
                &&& write.key@ == spec_derive_key(block_number)
                &&& write.value@ == le_bytes(old(self)@.next_kitty_id as nat, 4)
            },
    {
        if !balances.can_reserve(who, self.kitty_price) {
            return Err(DispatchError::Kitties(Error::NotEnoughBalance));
        }
        let kitty_id = match self.get_next_id() {
            Ok(id) => id,
            Err(()) => {
                return Err(DispatchError::Kitties(Error::InvalidKittyId));
            },
        };
        if self.owned_count(who) >= MAX_KITTY_INDEX as usize {
            return Err(DispatchError::Kitties(Error::OwnTooManyKitties));
        }
        let kitty = Kitty(dna);
        let kitty_id = self.mint(balances, who, kitty)?;
        let write = IndexWrite { key: derive_key(block_number), value: indexing_value(kitty_id) };
        Ok((Event::KittyCreated(who, kitty_id, kitty), write))
    }

    /// The `create` call: the account that signed it gets a new kitty, whose
    /// DNA is drawn from `entropy` for that account. Refused with `BadOrigin`
    /// when the call is not signed; otherwise as `create_with_dna` with the
    /// drawn DNA.
    pub fn create(
        &mut self,
        balances: &mut Balances,
        origin: Origin,
        entropy: &Entropy,
        block_number: BlockNumber,
    ) -> (r: Result<(Event, IndexWrite), DispatchError>)
        requires
            old(self)@.wf(),
            old(balances).wf(),
        ensures
            final(self)@.wf(),
            final(balances).wf(),
            old(self)@.index_exact() ==> final(self)@.index_exact(),
            old(self)@.reservations_back_kitties(old(balances).view())
                ==> final(self)@.reservations_back_kitties(final(balances).view()),
            !(origin is Signed) ==> r == Err::<(Event, IndexWrite), DispatchError>(DispatchError::BadOrigin)
                && final(self)@ == old(self)@ && final(balances).view() == old(balances).view(),
            origin is Signed ==> {
                let who = origin->Signed_0;
                &&& r is Ok <==> old(self)@.create_error(old(balances).view(), who) is None
                &&& r is Err ==> r->Err_0 == DispatchError::Kitties(old(self)@.create_error(old(balances).view(), who)->Some_0)
                    && final(self)@ == old(self)@ && final(balances).view() == old(balances).view()
                &&& r is Ok ==> {
                    let (event, write) = r->Ok_0;
                    let kitty = event->KittyCreated_2;
                    &&& kitty.0@ == spec_random_value(*entropy, who)
                    &&& event == Event::KittyCreated(who, old(self)@.next_kitty_id, kitty)
                    &&& final(self)@ == old(self)@.mint(who, kitty)
                    &&& final(balances).view() == ledger_reserve(old(balances).view(), who, old(self)@.kitty_price as nat)
                    &&& write.key@ == spec_derive_key(block_number)
                    &&& write.value@ == le_bytes(old(self)@.next_kitty_id as nat, 4)
                }
            },
    {
        let who = ensure_signed(origin)?;
        let dna = random_value(entropy, who);
        self.create_with_dna(balances, who, dna, block_number)
    }

    /// Breeds kitties `kitty_id_1` and `kitty_id_2` for `who`: the child's DNA
    /// takes each bit from the first parent where `selector` has it set and
    /// from the second elsewhere.
    ///
    /// In this order: refused with `SameKittyId` when the two ids are equal,
    /// with `NotEnoughBalance` when the free balance of `who` does not cover
    /// the kitty price, with `InvalidKittyId` when either parent does not
    /// exist or no id is left, with `OwnTooManyKitties` when `who` already
    /// lists the most kitties an account may; a refused call changes nothing.
    /// Otherwise the child is minted for `who` as `create_with_dna` mints, and
    /// the call announces `KittyBreed`.
    pub fn breed_with_selector(
        &mut self,
        balances: &mut Balances,
        who: AccountId,
        kitty_id_1: KittyIndex,
        kitty_id_2: KittyIndex,
        selector: [u8; 16],
    ) -> (r: Result<Event, DispatchError>)
        requires
            old(self)@.wf(),
            old(balances).wf(),
        ensures
            final(self)@.wf(),
            final(balances).wf(),
            old(self)@.index_exact() ==> final(self)@.index_exact(),
            old(self)@.reservations_back_kitties(old(balances).view())
                ==> final(self)@.reservations_back_kitties(final(balances).view()),
            r is Ok <==> old(self)@.breed_error(old(balances).view(), who, kitty_id_1, kitty_id_2) is None,
            r is Err ==> r->Err_0 == DispatchError::Kitties(
                old(self)@.breed_error(old(balances).view(), who, kitty_id_1, kitty_id_2)->Some_0,
            ) && final(self)@ == old(self)@ && final(balances).view() == old(balances).view(),
            r is Ok ==> {
                let child = r->Ok_0->KittyBreed_2;
                &&& child.0@ == spec_mix_dna(
                    old(self)@.kitties[kitty_id_1].0@,
                    old(self)@.kitties[kitty_id_2].0@,
                    selector@,
                )
                &&& r->Ok_0 == Event::KittyBreed(who, old(self)@.next_kitty_id, child)
                &&& final(self)@ == old(self)@.mint(who, child)
                &&& final(balances).view() == ledger_reserve(old(balances).view(), who, old(self)@.kitty_price as nat)
            },
    {
        if kitty_id_1 == kitty_id_2 {
            return Err(DispatchError::Kitties(Error::SameKittyId));
        }
        if !balances.can_reserve(who, self.kitty_price) {
            return Err(DispatchError::Kitties(Error::NotEnoughBalance));
        }
        let kitty_1 = match self.get_kitty(kitty_id_1) {
            Ok(k) => k,
            Err(()) => {
                return Err(DispatchError::Kitties(Error::InvalidKittyId));
            },
        };
        let kitty_2 = match self.get_kitty(kitty_id_2) {
            Ok(k) => k,
            Err(()) => {
                return Err(DispatchError::Kitties(Error::InvalidKittyId));
            },
        };
        match self.get_next_id() {
            Ok(_) => {},
            Err(()) => {
                return Err(DispatchError::Kitties(Error::InvalidKittyId));
            },
        }
        if self.owned_count(who) >= MAX_KITTY_INDEX as usize {
            return Err(DispatchError::Kitties(Error::OwnTooManyKitties));
        }
        let new_kitty = Kitty(mix_dna(&kitty_1.0, &kitty_2.0, &selector));
        let kitty_id = self.mint(balances, who, new_kitty)?;
        Ok(Event::KittyBreed(who, kitty_id, new_kitty))
    }

    /// The `breed` call: the account that signed it gets a child of kitties
    /// `kitty_id_1` and `kitty_id_2`, with a selector drawn from `entropy` for
    /// that account. Refused with `BadOrigin` when the call is not signed;
    /// otherwise as `breed_with_selector` with the drawn selector.
    pub fn breed(
        &mut self,
        balances: &mut Balances,
        origin: Origin,
        kitty_id_1: KittyIndex,
        kitty_id_2: KittyIndex,
        entropy: &Entropy,
    ) -> (r: Result<Event, DispatchError>)
        requires
            old(self)@.wf(),
            old(balances).wf(),
        ensures
            final(self)@.wf(),
            final(balances).wf(),
            old(self)@.index_exact() ==> final(self)@.index_exact(),
            old(self)@.reservations_back_kitties(old(balances).view())
                ==> final(self)@.reservations_back_kitties(final(balances).view()),
            !(origin is Signed) ==> r == Err::<Event, DispatchError>(DispatchError::BadOrigin)
                && final(self)@ == old(self)@ && final(balances).view() == old(balances).view(),
            origin is Signed ==> {
                let who = origin->Signed_0;
                &&& r is Ok <==> old(self)@.breed_error(old(balances).view(), who, kitty_id_1, kitty_id_2) is None
                &&& r is Err ==> r->Err_0 == DispatchError::Kitties(
                    old(self)@.breed_error(old(balances).view(), who, kitty_id_1, kitty_id_2)->Some_0,
                ) && final(self)@ == old(self)@ && final(balances).view() == old(balances).view()
                &&& r is Ok ==> {
                    let child = r->Ok_0->KittyBreed_2;
                    &&& child.0@ == spec_mix_dna(
                        old(self)@.kitties[kitty_id_1].0@,
                        old(self)@.kitties[kitty_id_2].0@,
                        spec_random_value(*entropy, who),
                    )
                    &&& r->Ok_0 == Event::KittyBreed(who, old(self)@.next_kitty_id, child)
                    &&& final(self)@ == old(self)@.mint(who, child)
                    &&& final(balances).view() == ledger_reserve(old(balances).view(), who, old(self)@.kitty_price as nat)
                }
            },
    {
        let who = ensure_signed(origin)?;
        let selector = random_value(entropy, who);
        self.breed_with_selector(balances, who, kitty_id_1, kitty_id_2, selector)
    }

    /// The `transfer` call: the account that signed it hands kitty
    /// `kitty_id` to `new_owner`.
    ///
    /// In this order: refused with `BadOrigin` when the call is not signed,
    /// with `NotEnoughBalance` when the free balance of `new_owner` does not
    /// cover the kitty price, with `InvalidKittyId` when there is no such
    /// kitty, with `NotOwner` when the signer does not own it, with
    /// `OwnTooManyKitties` when `new_owner` could not list one more; a refused
    /// call changes nothing. Otherwise the price is unreserved for the signer
    /// and reserved from `new_owner`, the kitty's owner becomes `new_owner`,
    /// the signer's list loses the kitty's first occurrence and `new_owner`'s
    /// list gains it at the end, and the call announces `KittyTrnsferred`.
    pub fn transfer(
        &mut self,
        balances: &mut Balances,
        origin: Origin,
        kitty_id: KittyIndex,
        new_owner: AccountId,
    ) -> (r: Result<Event, DispatchError>)
        requires
            old(self)@.wf(),
            old(balances).wf(),
        ensures
            final(self)@.wf(),
            final(balances).wf(),
            old(self)@.index_exact() ==> final(self)@.index_exact(),
            old(self)@.reservations_back_kitties(old(balances).view())
                ==> final(self)@.reservations_back_kitties(final(balances).view()),
            !(origin is Signed) ==> r == Err::<Event, DispatchError>(DispatchError::BadOrigin)
                && final(self)@ == old(self)@ && final(balances).view() == old(balances).view(),
            origin is Signed ==> {
                let who = origin->Signed_0;
                &&& r is Ok <==> old(self)@.transfer_error(old(balances).view(), who, kitty_id, new_owner) is None
                &&& r is Err ==> r->Err_0 == DispatchError::Kitties(
                    old(self)@.transfer_error(old(balances).view(), who, kitty_id, new_owner)->Some_0,
                ) && final(self)@ == old(self)@ && final(balances).view() == old(balances).view()
                &&& r is Ok ==> {
                    &&& r->Ok_0 == Event::KittyTrnsferred(who, new_owner, kitty_id)
                    &&& final(self)@ == old(self)@.transfer(who, kitty_id, new_owner)
                    &&& final(balances).view() == old(self)@.transfer_ledger(old(balances).view(), who, new_owner)
                }
            },
    {
        let who = ensure_signed(origin)?;
        let kitty_price = self.kitty_price;
        if !balances.can_reserve(new_owner, kitty_price) {
            return Err(DispatchError::Kitties(Error::NotEnoughBalance));
        }
        match self.get_kitty(kitty_id) {
            Ok(_) => {},
            Err(()) => {
                return Err(DispatchError::Kitties(Error::InvalidKittyId));
            },
        }
        match self.kitty_owner(kitty_id) {
            Some(owner) => {
                if owner != who {
                    return Err(DispatchError::Kitties(Error::NotOwner));
                }
            },
            None => {
                return Err(DispatchError::Kitties(Error::NotOwner));
            },
        }
        let room = if who == new_owner {
            true
        } else {
            self.owned_count(new_owner) < MAX_KITTY_INDEX as usize
        };
        proof {
            let list = old(self)@.all_kitties[who];
            assert(list.contains(kitty_id));
            let k = choose|k: int| 0 <= k < list.len() && list[k] == kitty_id;
            lemma_first_index_exists(list, kitty_id, k);
            assert(list.len() <= MAX_KITTY_INDEX);
        }
        if !room {
            return Err(DispatchError::Kitties(Error::OwnTooManyKitties));
        }
        balances.unreserve(who, kitty_price);
        match balances.reserve(new_owner, kitty_price) {
            Ok(()) => {},
            Err(_) => {
                return Err(DispatchError::InsufficientBalance);
            },
        }
        self.kitty_owner.insert(kitty_id, new_owner);
        self.list_release(who, kitty_id);
        self.list_push(new_owner, kitty_id);
        proof {
            let s0 = old(self)@;
            let s1 = self@;
            let t = s0.transfer(who, kitty_id, new_owner);
            assert(s1.kitty_owner =~= t.kitty_owner);
            assert(s1.all_kitties =~= t.all_kitties);
            assert(s1.kitty_owner.dom() =~= s1.kitties.dom());
            lemma_transfer_keeps_wf(s0, who, kitty_id, new_owner);
            if s0.index_exact() {
                law_transfer_keeps_index_exact(s0, who, kitty_id, new_owner);
            }
            if s0.reservations_back_kitties(old(balances).view()) {
                law_transfer_keeps_backing(s0, old(balances).view(), who, kitty_id, new_owner);
            }
        }
        Ok(Event::KittyTrnsferred(who, new_owner, kitty_id))
    }

    /// The `update_kitty` call: the last byte of kitty `kitty_id`'s DNA
    /// becomes `asset`. Any signed account may make it. Refused with
    /// `BadOrigin` when the call is not signed and with `InvalidKittyId` when
    /// there is no such kitty; a refused call changes nothing.
    pub fn update_kitty(&mut self, origin: Origin, kitty_id: KittyIndex, asset: u8) -> (r: Result<(), DispatchError>)
        requires
            old(self)@.wf(),
        ensures
            final(self)@.wf(),
            old(self)@.index_exact() ==> final(self)@.index_exact(),
            !(origin is Signed) ==> r == Err::<(), DispatchError>(DispatchError::BadOrigin) && final(self)@ == old(self)@,
            origin is Signed ==> {
                &&& r is Ok <==> old(self)@.kitties.contains_key(kitty_id)
                &&& r is Err ==> r == Err::<(), DispatchError>(DispatchError::Kitties(Error::InvalidKittyId))
                    && final(self)@ == old(self)@
                &&& r is Ok ==> {
                    let kitty = final(self)@.kitties[kitty_id];
                    &&& kitty.0@ == spec_with_asset(old(self)@.kitties[kitty_id].0@, asset)
                    &&& final(self)@ == (PalletState {
                        kitties: old(self)@.kitties.insert(kitty_id, kitty),
                        ..old(self)@
                    })
                }
            },
    {
        let _who = ensure_signed(origin)?;
        let kitty = match self.get_kitty(kitty_id) {
            Ok(k) => k,
            Err(()) => {
                return Err(DispatchError::Kitties(Error::InvalidKittyId));
            },
        };
        let new_kitty = Kitty(with_asset(&kitty.0, asset));
        self.kitties.insert(kitty_id, new_kitty);
        proof {
            let s0 = old(self)@;
            let s1 = self@;
            assert(s1.all_kitties =~= s0.all_kitties);
            assert(s1.kitties.dom() =~= s0.kitties.dom());
            assert(s1.kitty_owner == s0.kitty_owner);
        }
        Ok(())
    }
}


} // verus!
