use vstd::prelude::*;
use crate::balances::{free_of, ledger_reserve, ledger_unreserve, reserved_of, Ledger};
use crate::owned::MAX_KITTY_INDEX;
use crate::types::{AccountId, Balance, Error, Kitty, KittyIndex};

verus! {

/// What the pallet keeps in storage.
pub struct PalletState {
    /// The price reserved from an account for every kitty it gets.
    pub kitty_price: Balance,
    /// The id the next kitty will get.
    pub next_kitty_id: KittyIndex,
    /// Every kitty, by id.
    pub kitties: Map<KittyIndex, Kitty>,
    /// The owner of every kitty, by id.
    pub kitty_owner: Map<KittyIndex, AccountId>,
    /// For every account the ids of the kitties it got, oldest first (empty
    /// for an account that never got one).
    pub all_kitties: Map<AccountId, Seq<KittyIndex>>,
}

/// Whether `i` is the first position of `x` in `s`.
pub open spec fn is_first_index(s: Seq<KittyIndex>, x: KittyIndex, i: int) -> bool {
    &&& 0 <= i < s.len()
    &&& s[i] == x
    &&& forall|j: int| 0 <= j < i ==> s[j] != x
}

/// `s` without the first occurrence of `x`.
pub open spec fn without_first(s: Seq<KittyIndex>, x: KittyIndex) -> Seq<KittyIndex> {
    s.remove(choose|i: int| is_first_index(s, x, i))
}

impl PalletState {
    /// Every account has a list, empty when it never got a kitty.
    pub open spec fn lists_every_account(self) -> bool {
        forall|who: AccountId| #[trigger] self.all_kitties.dom().contains(who)
    }

    /// The ownership index agrees with the owners: whoever owns a kitty
    /// lists it, and owned kitties are exactly the stored ones; no list holds
    /// more than the bound.
    pub open spec fn wf(self) -> bool {
        &&& self.lists_every_account()
        &&& self.kitty_owner.dom() == self.kitties.dom()
        &&& forall|id: KittyIndex| #[trigger] self.kitty_owner.contains_key(id)
            ==> self.all_kitties[self.kitty_owner[id]].contains(id)
        &&& forall|who: AccountId| #[trigger] self.all_kitties[who].len() <= MAX_KITTY_INDEX
    }

    /// The ownership index is exact: every id ever handed out is below the
    /// counter, each account lists exactly the kitties it owns, and no list
    /// names a kitty twice.
    pub open spec fn index_exact(self) -> bool {
        &&& self.lists_every_account()
        &&& forall|id: KittyIndex| #[trigger] self.kitties.contains_key(id) ==> id < self.next_kitty_id
        &&& forall|who: AccountId, id: KittyIndex| #[trigger] self.all_kitties[who].contains(id)
            <==> (self.kitty_owner.contains_key(id) && self.kitty_owner[id] == who)
        &&& forall|who: AccountId| #[trigger] self.all_kitties[who].no_duplicates()
    }

    /// Every kitty an account lists is backed by one kitty price in the
    /// account's reserved balance.
    pub open spec fn reservations_back_kitties(self, ledger: Ledger) -> bool {
        forall|who: AccountId| #[trigger] reserved_of(ledger, who) >= self.kitty_price * self.all_kitties[who].len()
    }

    /// The state after `who` got the kitty `kitty` under the next id.
    pub open spec fn mint(self, who: AccountId, kitty: Kitty) -> PalletState {
        let id = self.next_kitty_id;
        PalletState {
            next_kitty_id: (id + 1) as KittyIndex,
            kitties: self.kitties.insert(id, kitty),
            kitty_owner: self.kitty_owner.insert(id, who),
            all_kitties: self.all_kitties.insert(who, self.all_kitties[who].push(id)),
            ..self
        }
    }

    /// Why `who` may not create a kitty, if it may not.
    pub open spec fn create_error(self, ledger: Ledger, who: AccountId) -> Option<Error> {
        if free_of(ledger, who) < self.kitty_price {
            Some(Error::NotEnoughBalance)
        } else if self.next_kitty_id == u32::MAX {
            Some(Error::InvalidKittyId)
        } else if self.all_kitties[who].len() >= MAX_KITTY_INDEX {
            Some(Error::OwnTooManyKitties)
        } else {
            None
        }
    }

    /// Why `who` may not breed kitties `id1` and `id2`, if it may not.
    pub open spec fn breed_error(
        self,
        ledger: Ledger,
        who: AccountId,
        id1: KittyIndex,
        id2: KittyIndex,
    ) -> Option<Error> {
        if id1 == id2 {
            Some(Error::SameKittyId)
        } else if free_of(ledger, who) < self.kitty_price {
            Some(Error::NotEnoughBalance)
        } else if !self.kitties.contains_key(id1) || !self.kitties.contains_key(id2) {
            Some(Error::InvalidKittyId)
        } else if self.next_kitty_id == u32::MAX {
            Some(Error::InvalidKittyId)
        } else if self.all_kitties[who].len() >= MAX_KITTY_INDEX {
            Some(Error::OwnTooManyKitties)
        } else {
            None
        }
    }

    /// The ownership index once `who` has given up kitty `id`.
    pub open spec fn released(self, who: AccountId, id: KittyIndex) -> Map<AccountId, Seq<KittyIndex>> {
        self.all_kitties.insert(who, without_first(self.all_kitties[who], id))
    }

    /// Why `who` may not hand kitty `id` to `new_owner`, if it may not.
    pub open spec fn transfer_error(
        self,
        ledger: Ledger,
        who: AccountId,
        id: KittyIndex,
        new_owner: AccountId,
    ) -> Option<Error> {
        if free_of(ledger, new_owner) < self.kitty_price {
            Some(Error::NotEnoughBalance)
        } else if !self.kitties.contains_key(id) {
            Some(Error::InvalidKittyId)
        } else if !(self.kitty_owner.contains_key(id) && self.kitty_owner[id] == who) {
            Some(Error::NotOwner)
        } else if self.released(who, id)[new_owner].len() >= MAX_KITTY_INDEX {
            Some(Error::OwnTooManyKitties)
        } else {
            None
        }
    }

    /// The state after `who` handed kitty `id` to `new_owner`.
    pub open spec fn transfer(self, who: AccountId, id: KittyIndex, new_owner: AccountId) -> PalletState {
        let released = self.released(who, id);
        PalletState {
            kitty_owner: self.kitty_owner.insert(id, new_owner),
            all_kitties: released.insert(new_owner, released[new_owner].push(id)),
            ..self
        }
    }

    /// The ledger after the price of kitty ownership moved from `who`'s
    /// reserve back to `who` and into `new_owner`'s reserve.
    pub open spec fn transfer_ledger(self, ledger: Ledger, who: AccountId, new_owner: AccountId) -> Ledger {
        ledger_reserve(
            ledger_unreserve(ledger, who, self.kitty_price as nat),
            new_owner,
            self.kitty_price as nat,
        )
    }
}

/// A sequence that holds `x` has a first position of `x`.
pub proof fn lemma_first_index_exists(s: Seq<KittyIndex>, x: KittyIndex, k: int)
    requires
        0 <= k < s.len(),
        s[k] == x,
    ensures
        exists|i: int| is_first_index(s, x, i),
    decreases k,
{
    if exists|j: int| 0 <= j < k && s[j] == x {
        let j = choose|j: int| 0 <= j < k && s[j] == x;
        lemma_first_index_exists(s, x, j);
    } else {
        assert(is_first_index(s, x, k));
    }
}

/// Handing a kitty over keeps the ownership index in agreement with the
/// owners.
pub(crate) proof fn lemma_transfer_keeps_wf(s: PalletState, who: AccountId, id: KittyIndex, new_owner: AccountId)
    requires
        s.wf(),
        s.kitties.contains_key(id),
        s.kitty_owner.contains_key(id),
        s.kitty_owner[id] == who,
        s.released(who, id)[new_owner].len() < MAX_KITTY_INDEX,
    ensures
        s.transfer(who, id, new_owner).wf(),
{
    let t = s.transfer(who, id, new_owner);
    let l = s.all_kitties[who];
    assert(l.contains(id));
    let k0 = choose|k: int| 0 <= k < l.len() && l[k] == id;
    lemma_first_index_exists(l, id, k0);
    let i = choose|i: int| is_first_index(l, id, i);
    let released = s.released(who, id);
    assert(released[who] == l.remove(i));
    assert(t.kitty_owner.dom() =~= t.kitties.dom());
    assert forall|k: KittyIndex| #[trigger] t.kitty_owner.contains_key(k)
        implies t.all_kitties[t.kitty_owner[k]].contains(k) by {
        let list = t.all_kitties[t.kitty_owner[k]];
        if k == id {
            assert(list[list.len() - 1] == id);
        } else {
            let w = s.kitty_owner[k];
            assert(s.all_kitties[w].contains(k));
            let j = choose|j: int| 0 <= j < s.all_kitties[w].len() && s.all_kitties[w][j] == k;
            // position of k in w's list once `id` has left `who`'s list
            let j1 = if w == who { if j < i { j } else { j - 1 } } else { j };
            assert(released[w][j1] == k);
            if w == new_owner {
                assert(t.all_kitties[w][j1] == k);
            } else {
                assert(t.all_kitties[w] == released[w]);
            }
        }
    }
    assert forall|a: AccountId| #[trigger] t.all_kitties[a].len() <= MAX_KITTY_INDEX by {
        assert(s.all_kitties[a].len() <= MAX_KITTY_INDEX);
    }
}

} // verus!
