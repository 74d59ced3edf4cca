use vstd::prelude::*;
use std::collections::HashMap;

verus! {

broadcast use vstd::std_specs::hash::group_hash_axioms;

/// Free and reserved balance of one account.
#[derive(Clone, Copy, Debug, PartialEq, Eq)]
pub struct AccountData {
    pub free: u128,
    pub reserved: u128,
}

/// Why a reservation was refused.
#[derive(Clone, Copy, Debug, PartialEq, Eq)]
pub enum CurrencyError {
    /// The free balance is lower than the amount to reserve.
    InsufficientBalance,
}

/// The reservable currency the pallet charges kitties in: for every account a
/// free and a reserved balance, whose sum always fits in a `u128`. The node's
/// runtime chooses its own currency; this ledger is the one the pallet is
/// run against here (its test runtime among others), with the semantics of
/// a reservable currency: `can_reserve` exactly when the free balance covers
/// the amount, `reserve` all or nothing, `unreserve` as much as is reserved.
pub struct Balances {
    accounts: HashMap<u64, AccountData>,
}

/// Abstract state of a `Balances`: every account, seen or not, with its
/// free and reserved balance (zero for accounts never touched).
pub type Ledger = Map<u64, (nat, nat)>;

pub open spec fn free_of(l: Ledger, who: u64) -> nat {
    l[who].0
}

pub open spec fn reserved_of(l: Ledger, who: u64) -> nat {
    l[who].1
}

/// The ledger after `reserve(who, amount)` has moved `amount` from free to
/// reserved.
pub open spec fn ledger_reserve(l: Ledger, who: u64, amount: nat) -> Ledger {
    l.insert(who, ((free_of(l, who) - amount) as nat, reserved_of(l, who) + amount))
}

/// The part of `amount` that `unreserve(who, amount)` can move back: no more
/// than what is reserved.
pub open spec fn unreservable(l: Ledger, who: u64, amount: nat) -> nat {
    if amount <= reserved_of(l, who) {
        amount
    } else {
        reserved_of(l, who)
    }
}

/// The ledger after `unreserve(who, amount)`.
pub open spec fn ledger_unreserve(l: Ledger, who: u64, amount: nat) -> Ledger {
    let moved = unreservable(l, who, amount);
    l.insert(who, (free_of(l, who) + moved, (reserved_of(l, who) - moved) as nat))
}

/// The ledger has an entry for every account.
pub open spec fn ledger_total(l: Ledger) -> bool {
    forall|who: u64| #[trigger] l.dom().contains(who)
}

/// The total (free plus reserved) balance of `who`.
pub open spec fn total_of(l: Ledger, who: u64) -> nat {
    free_of(l, who) + reserved_of(l, who)
}

impl Balances {
    pub closed spec fn view(&self) -> Ledger {
        Map::new(
            |who: u64| true,
            |who: u64|
                if self.accounts@.contains_key(who) {
                    (self.accounts@[who].free as nat, self.accounts@[who].reserved as nat)
                } else {
                    (0nat, 0nat)
                },
        )
    }

    /// Every account's total balance fits in a `u128`.
    pub open spec fn wf(&self) -> bool {
        &&& ledger_total(self.view())
        &&& forall|who: u64| #[trigger] total_of(self.view(), who) <= u128::MAX
    }

    fn data(&self, who: u64) -> (d: AccountData)
        ensures
            d.free == free_of(self.view(), who),
            d.reserved == reserved_of(self.view(), who),
    {
        match self.accounts.get(&who) {
            Some(d) => *d,
            None => AccountData { free: 0, reserved: 0 },
        }
    }

    fn store(&mut self, who: u64, d: AccountData)
        ensures
            final(self).view() == old(self).view().insert(who, (d.free as nat, d.reserved as nat)),
    {
        self.accounts.insert(who, d);
        assert(self.view() =~= old(self).view().insert(who, (d.free as nat, d.reserved as nat)));
    }

    /// A ledger in which every account holds nothing.
    pub fn new() -> (b: Balances)
        ensures
            b.wf(),
            forall|who: u64| #[trigger] b.view()[who] == (0nat, 0nat),
    {
        Balances { accounts: HashMap::new() }
    }

    /// Sets the free balance of `who`; refused (and nothing changes) when the
    /// account's total would no longer fit in a `u128`.
    pub fn make_free_balance_be(&mut self, who: u64, value: u128) -> (ok: bool)
        requires
            old(self).wf(),
        ensures
            final(self).wf(),
            ok == (value + reserved_of(old(self).view(), who) <= u128::MAX),
            ok ==> final(self).view() == old(self).view().insert(
                who,
                (value as nat, reserved_of(old(self).view(), who)),
            ),
            !ok ==> final(self).view() == old(self).view(),
    {
        let d = self.data(who);
        if d.reserved <= u128::MAX - value {
            self.store(who, AccountData { free: value, reserved: d.reserved });
            assert forall|a: u64| #[trigger] total_of(self.view(), a) <= u128::MAX by {
                assert(total_of(old(self).view(), a) <= u128::MAX);
            }
            true
        } else {
            false
        }
    }

    /// The free balance of `who`.
    pub fn free_balance(&self, who: u64) -> (b: u128)
        ensures
            b == free_of(self.view(), who),
    {
        self.data(who).free
    }

    /// The reserved balance of `who`.
    pub fn reserved_balance(&self, who: u64) -> (b: u128)
        ensures
            b == reserved_of(self.view(), who),
    {
        self.data(who).reserved
    }

    /// Whether `reserve(who, value)` would succeed: the free balance covers it.
    pub fn can_reserve(&self, who: u64, value: u128) -> (ok: bool)
        ensures
            ok == (free_of(self.view(), who) >= value),
    {
        self.data(who).free >= value
    }

    /// Moves `value` from the free to the reserved balance of `who`; when the
    /// free balance is lower, nothing moves and an error is returned.
    pub fn reserve(&mut self, who: u64, value: u128) -> (r: Result<(), CurrencyError>)
        requires
            old(self).wf(),
        ensures
            final(self).wf(),
            r is Ok <==> free_of(old(self).view(), who) >= value,
            r is Ok ==> final(self).view() == ledger_reserve(old(self).view(), who, value as nat),
            r is Err ==> r == Err::<(), CurrencyError>(CurrencyError::InsufficientBalance)
                && final(self).view() == old(self).view(),
    {
        let d = self.data(who);
        if d.free < value {
            return Err(CurrencyError::InsufficientBalance);
        }
        assert(total_of(self.view(), who) <= u128::MAX);
        self.store(who, AccountData { free: d.free - value, reserved: d.reserved + value });
        assert forall|a: u64| #[trigger] total_of(self.view(), a) <= u128::MAX by {
            assert(total_of(old(self).view(), a) <= u128::MAX);
        }
        Ok(())
    }

    /// Moves up to `value` from the reserved to the free balance of `who`,
    /// as much as is reserved; returns the part of `value` that could not
    /// be moved.
    pub fn unreserve(&mut self, who: u64, value: u128) -> (rest: u128)
        requires
            old(self).wf(),
        ensures
            final(self).wf(),
            final(self).view() == ledger_unreserve(old(self).view(), who, value as nat),
            rest == value - unreservable(old(self).view(), who, value as nat),
    {
        let d = self.data(who);
        let moved = if value <= d.reserved { value } else { d.reserved };
        assert(total_of(self.view(), who) <= u128::MAX);
        self.store(who, AccountData { free: d.free + moved, reserved: d.reserved - moved });
        assert forall|a: u64| #[trigger] total_of(self.view(), a) <= u128::MAX by {
            assert(total_of(old(self).view(), a) <= u128::MAX);
        }
        value - moved
    }
}

} // verus!
