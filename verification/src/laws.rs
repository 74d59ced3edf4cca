use vstd::prelude::*;
use crate::balances::{
    free_of, ledger_reserve, ledger_total, ledger_unreserve, reserved_of, total_of, unreservable,
    Ledger,
};
use crate::dna::{mix_byte, spec_mix_dna, spec_with_asset};
use crate::encoding::le_bytes;
use crate::model::{is_first_index, lemma_first_index_exists, PalletState};
use crate::offchain::{key_separator, onchain_tx_key, spec_derive_key, spec_offchain_asset};
use crate::owned::MAX_KITTY_INDEX;
use crate::types::{AccountId, Error, Kitty, KittyIndex};

verus! {

/// Reserving moves funds from an account's free to its reserved balance: no
/// account's total balance changes.
pub proof fn law_reserve_keeps_totals(ledger: Ledger, who: AccountId, amount: nat)
    requires
        free_of(ledger, who) >= amount,
    ensures
        forall|a: AccountId| #[trigger] total_of(ledger_reserve(ledger, who, amount), a) == total_of(ledger, a),
{
}

/// Unreserving moves funds back from an account's reserved to its free
/// balance: no account's total balance changes.
pub proof fn law_unreserve_keeps_totals(ledger: Ledger, who: AccountId, amount: nat)
    ensures
        forall|a: AccountId| #[trigger] total_of(ledger_unreserve(ledger, who, amount), a) == total_of(ledger, a),
{
}

/// Handing a kitty over moves the price between reserves and never changes
/// any account's total balance.
pub proof fn law_transfer_keeps_totals(s: PalletState, ledger: Ledger, who: AccountId, new_owner: AccountId)
    requires
        free_of(ledger, new_owner) >= s.kitty_price,
    ensures
        forall|a: AccountId| #[trigger] total_of(s.transfer_ledger(ledger, who, new_owner), a) == total_of(ledger, a),
{
    let l1 = ledger_unreserve(ledger, who, s.kitty_price as nat);
    law_unreserve_keeps_totals(ledger, who, s.kitty_price as nat);
    assert(free_of(l1, new_owner) >= s.kitty_price);
    law_reserve_keeps_totals(l1, new_owner, s.kitty_price as nat);
}

/// Handing a kitty to another account and straight back gives it its old
/// owner again and, when the first owner had the price reserved, leaves every
/// balance as it was.
pub proof fn law_transfer_round_trip(
    s: PalletState,
    ledger: Ledger,
    who: AccountId,
    id: KittyIndex,
    new_owner: AccountId,
)
    requires
        s.kitty_owner.contains_key(id),
        s.kitty_owner[id] == who,
        ledger_total(ledger),
        reserved_of(ledger, who) >= s.kitty_price,
        free_of(ledger, new_owner) >= s.kitty_price,
    ensures
        s.transfer(who, id, new_owner).transfer(new_owner, id, who).kitty_owner == s.kitty_owner,
        s.transfer(who, id, new_owner).transfer_ledger(
            s.transfer_ledger(ledger, who, new_owner),
            new_owner,
            who,
        ) == ledger,
{
    let p = s.kitty_price as nat;
    assert(s.transfer(who, id, new_owner).transfer(new_owner, id, who).kitty_owner =~= s.kitty_owner);
    let l1 = ledger_unreserve(ledger, who, p);
    assert(unreservable(ledger, who, p) == p);
    let l2 = ledger_reserve(l1, new_owner, p);
    assert(reserved_of(l2, new_owner) >= p);
    let l3 = ledger_unreserve(l2, new_owner, p);
    assert(unreservable(l2, new_owner, p) == p);
    let l4 = ledger_reserve(l3, who, p);
    assert(l4 =~= ledger);
}

/// A new list that holds `x` once: pushing an id that is not there keeps
/// a list free of repeats.
proof fn lemma_push_no_duplicates(s: Seq<KittyIndex>, x: KittyIndex)
    requires
        s.no_duplicates(),
        !s.contains(x),
    ensures
        s.push(x).no_duplicates(),
        forall|y: KittyIndex| #[trigger] s.push(x).contains(y) <==> (s.contains(y) || y == x),
{
    assert forall|y: KittyIndex| #[trigger] s.push(x).contains(y) implies (s.contains(y) || y == x) by {
        let k = choose|k: int| 0 <= k < s.push(x).len() && s.push(x)[k] == y;
        if k < s.len() {
            assert(s[k] == y);
        }
    }
    assert forall|y: KittyIndex| s.contains(y) implies #[trigger] s.push(x).contains(y) by {
        let k = choose|k: int| 0 <= k < s.len() && s[k] == y;
        assert(s.push(x)[k] == y);
    }
    assert(s.push(x)[s.len() as int] == x);
}

/// Removing the only occurrence of `x` from a list without repeats leaves a
/// list without repeats that holds everything else.
proof fn lemma_remove_no_duplicates(s: Seq<KittyIndex>, x: KittyIndex, i: int)
    requires
        s.no_duplicates(),
        is_first_index(s, x, i),
    ensures
        s.remove(i).no_duplicates(),
        forall|y: KittyIndex| #[trigger] s.remove(i).contains(y) <==> (s.contains(y) && y != x),
{
    let r = s.remove(i);
    assert forall|y: KittyIndex| #[trigger] r.contains(y) implies (s.contains(y) && y != x) by {
        let k = choose|k: int| 0 <= k < r.len() && r[k] == y;
        if k < i {
            assert(s[k] == y);
        } else {
            assert(s[k + 1] == y);
        }
    }
    assert forall|y: KittyIndex| (s.contains(y) && y != x) implies #[trigger] r.contains(y) by {
        let k = choose|k: int| 0 <= k < s.len() && s[k] == y;
        if k < i {
            assert(r[k] == y);
        } else {
            assert(k != i);
            assert(r[k - 1] == y);
        }
    }
}

/// A new kitty gets an id no kitty had, and the ownership index stays exact:
/// the account that got it lists it once, and nothing else changes hands.
pub proof fn law_mint_keeps_index_exact(s: PalletState, who: AccountId, kitty: Kitty)
    requires
        s.wf(),
        s.index_exact(),
        s.next_kitty_id < u32::MAX,
    ensures
        !s.kitties.contains_key(s.next_kitty_id),
        s.mint(who, kitty).index_exact(),
{
    let id = s.next_kitty_id;
    let t = s.mint(who, kitty);
    assert(!s.all_kitties[who].contains(id)) by {
        if s.all_kitties[who].contains(id) {
            assert(s.kitty_owner.contains_key(id));
            assert(s.kitty_owner.dom().contains(id));
            assert(s.kitties.contains_key(id));
        }
    }
    lemma_push_no_duplicates(s.all_kitties[who], id);
    assert forall|w: AccountId, k: KittyIndex| #[trigger] t.all_kitties[w].contains(k)
        <==> (t.kitty_owner.contains_key(k) && t.kitty_owner[k] == w) by {
        if w == who {
            assert(t.all_kitties[w] == s.all_kitties[who].push(id));
        } else {
            assert(t.all_kitties[w] == s.all_kitties[w]);
            if k == id {
                assert(!s.all_kitties[w].contains(id)) by {
                    if s.all_kitties[w].contains(id) {
                        assert(s.kitty_owner.contains_key(id));
                        assert(s.kitty_owner.dom().contains(id));
                        assert(s.kitties.contains_key(id));
                    }
                }
            }
        }
    }
    assert forall|w: AccountId| #[trigger] t.all_kitties[w].no_duplicates() by {
        if w != who {
            assert(t.all_kitties[w] == s.all_kitties[w]);
        }
    }
}

/// Handing a kitty over keeps the ownership index exact: the old owner no
/// longer lists it, the new owner lists it once, and nothing else changes.
pub proof fn law_transfer_keeps_index_exact(s: PalletState, who: AccountId, id: KittyIndex, new_owner: AccountId)
    requires
        s.index_exact(),
        s.kitty_owner.contains_key(id),
        s.kitty_owner[id] == who,
    ensures
        s.transfer(who, id, new_owner).index_exact(),
{
    let t = s.transfer(who, id, new_owner);
    let l = s.all_kitties[who];
    assert(l.contains(id));
    let k0 = choose|k: int| 0 <= k < l.len() && l[k] == id;
    lemma_first_index_exists(l, id, k0);
    let i = choose|i: int| is_first_index(l, id, i);
    let released = s.released(who, id);
    assert(released[who] == l.remove(i));
    lemma_remove_no_duplicates(l, id, i);
    assert(!released[new_owner].contains(id)) by {
        if new_owner != who {
            assert(released[new_owner] == s.all_kitties[new_owner]);
            if s.all_kitties[new_owner].contains(id) {
                assert(s.kitty_owner[id] == new_owner);
            }
        }
    }
    assert(released[new_owner].no_duplicates()) by {
        if new_owner != who {
            assert(released[new_owner] == s.all_kitties[new_owner]);
        }
    }
    lemma_push_no_duplicates(released[new_owner], id);
    assert forall|w: AccountId, k: KittyIndex| #[trigger] t.all_kitties[w].contains(k)
        <==> (t.kitty_owner.contains_key(k) && t.kitty_owner[k] == w) by {
        if w == new_owner {
            assert(t.all_kitties[w] == released[new_owner].push(id));
            if w == who {
                assert(released[w] == l.remove(i));
            } else {
                assert(released[w] == s.all_kitties[w]);
            }
        } else if w == who {
            assert(t.all_kitties[w] == l.remove(i));
        } else {
            assert(t.all_kitties[w] == s.all_kitties[w]);
        }
    }
    assert forall|w: AccountId| #[trigger] t.all_kitties[w].no_duplicates() by {
        if w != new_owner && w != who {
            assert(t.all_kitties[w] == s.all_kitties[w]);
        } else if w == who && w != new_owner {
            assert(t.all_kitties[w] == l.remove(i));
        }
    }
}

/// A bred byte has only bits that one of its parents has, keeps every bit
/// both parents share, and is the parents' byte when both parents agree.
pub proof fn law_child_byte_from_parents(a: u8, b: u8, selector: u8)
    ensures
        mix_byte(a, b, selector) & !(a | b) == 0,
        (a & b) & !mix_byte(a, b, selector) == 0,
        mix_byte(a, a, selector) == a,
        mix_byte(a, b, 0xff) == a,
        mix_byte(a, b, 0) == b,
{
    assert(((a & selector) | (b & !selector)) & !(a | b) == 0) by (bit_vector);
    assert((a & b) & !((a & selector) | (b & !selector)) == 0) by (bit_vector);
    assert((a & selector) | (a & !selector) == a) by (bit_vector);
    assert((a & 0xff) | (b & !0xffu8) == a) by (bit_vector);
    assert((a & 0) | (b & !0u8) == b) by (bit_vector);
}

/// A bred DNA takes every byte from its parents as `law_child_byte_from_parents`
/// says, and breeding a DNA with itself gives it back.
pub proof fn law_child_dna_from_parents(a: Seq<u8>, b: Seq<u8>, selector: Seq<u8>)
    requires
        a.len() == 16,
        b.len() == 16,
        selector.len() == 16,
    ensures
        spec_mix_dna(a, b, selector).len() == 16,
        forall|i: int| 0 <= i < 16 ==> #[trigger] spec_mix_dna(a, b, selector)[i] & !(a[i] | b[i]) == 0,
        forall|i: int| 0 <= i < 16 ==> (a[i] & b[i]) & !#[trigger] spec_mix_dna(a, b, selector)[i] == 0,
        spec_mix_dna(a, a, selector) == a,
{
    assert forall|i: int| 0 <= i < 16 implies #[trigger] spec_mix_dna(a, b, selector)[i] & !(a[i] | b[i]) == 0 by {
        law_child_byte_from_parents(a[i], b[i], selector[i]);
    }
    assert forall|i: int| 0 <= i < 16 implies (a[i] & b[i]) & !#[trigger] spec_mix_dna(a, b, selector)[i] == 0 by {
        law_child_byte_from_parents(a[i], b[i], selector[i]);
    }
    assert forall|i: int| 0 <= i < 16 implies #[trigger] spec_mix_dna(a, a, selector)[i] == a[i] by {
        law_child_byte_from_parents(a[i], a[i], selector[i]);
    }
    assert(spec_mix_dna(a, a, selector) =~= a);
}

/// Updating a kitty's asset byte changes its last DNA byte and no other.
pub proof fn law_update_touches_last_byte_only(dna: Seq<u8>, asset: u8)
    requires
        dna.len() == 16,
    ensures
        spec_with_asset(dna, asset).len() == 16,
        spec_with_asset(dna, asset)[15] == asset,
        forall|i: int| 0 <= i < 15 ==> #[trigger] spec_with_asset(dna, asset)[i] == dna[i],
{
}

/// Equal encodings of `n` bytes come from equal numbers below `256^n`.
proof fn lemma_le_bytes_injective(x: nat, y: nat, n: nat)
    requires
        le_bytes(x, n) == le_bytes(y, n),
        x < vstd::arithmetic::power::pow(256, n),
        y < vstd::arithmetic::power::pow(256, n),
    ensures
        x == y,
    decreases n,
{
    if n == 0 {
        vstd::arithmetic::power::lemma_pow0(256);
    } else {
        let n1 = (n - 1) as nat;
        assert(le_bytes(x, n) == seq![(x % 256) as u8] + le_bytes(x / 256, n1));
        assert(le_bytes(y, n) == seq![(y % 256) as u8] + le_bytes(y / 256, n1));
        assert(le_bytes(x, n)[0] == (x % 256) as u8);
        assert(le_bytes(y, n)[0] == (y % 256) as u8);
        assert((x % 256) as u8 == (y % 256) as u8);
        assert(x % 256 == y % 256);
        assert(le_bytes(x / 256, n1) =~= le_bytes(x, n).subrange(1, le_bytes(x, n).len() as int));
        assert(le_bytes(y / 256, n1) =~= le_bytes(y, n).subrange(1, le_bytes(y, n).len() as int));
        vstd::arithmetic::power::lemma_pow_positive(256, n1);
        assert(vstd::arithmetic::power::pow(256, n) == 256 * vstd::arithmetic::power::pow(256, n1)) by {
            vstd::arithmetic::power::lemma_pow_adds(256, 1, n1);
            vstd::arithmetic::power::lemma_pow1(256);
        }
        let p = vstd::arithmetic::power::pow(256, n1);
        assert(x / 256 < p) by (nonlinear_arith)
            requires x < 256 * p, p > 0;
        assert(y / 256 < p) by (nonlinear_arith)
            requires y < 256 * p, p > 0;
        lemma_le_bytes_injective(x / 256, y / 256, n1);
        assert(x == 256 * (x / 256) + x % 256) by (nonlinear_arith);
        assert(y == 256 * (y / 256) + y % 256) by (nonlinear_arith);
    }
}

/// Different blocks write to different offchain-index keys.
pub proof fn law_derive_key_injective(b1: u64, b2: u64)
    requires
        b1 != b2,
    ensures
        spec_derive_key(b1) != spec_derive_key(b2),
{
    let prefix = onchain_tx_key().push(key_separator());
    if spec_derive_key(b1) == spec_derive_key(b2) {
        assert(le_bytes(b1 as nat, 8) =~= spec_derive_key(b1).subrange(prefix.len() as int, spec_derive_key(b1).len() as int));
        assert(le_bytes(b2 as nat, 8) =~= spec_derive_key(b2).subrange(prefix.len() as int, spec_derive_key(b2).len() as int));
        assert(vstd::arithmetic::power::pow(256, 8) == 0x1_0000_0000_0000_0000) by {
            vstd::arithmetic::power::lemma_pow_adds(256, 4, 4);
            reveal_with_fuel(vstd::arithmetic::power::pow, 9);
        }
        lemma_le_bytes_injective(b1 as nat, b2 as nat, 8);
    }
}

/// A new kitty is backed by the price reserved for it: when every listed
/// kitty was backed by one price in its owner's reserve, it still is after a
/// kitty is minted and its price reserved.
pub proof fn law_mint_keeps_backing(s: PalletState, ledger: Ledger, who: AccountId, kitty: Kitty)
    requires
        s.lists_every_account(),
        ledger_total(ledger),
        s.reservations_back_kitties(ledger),
        free_of(ledger, who) >= s.kitty_price,
    ensures
        s.mint(who, kitty).reservations_back_kitties(ledger_reserve(ledger, who, s.kitty_price as nat)),
{
    let t = s.mint(who, kitty);
    let l1 = ledger_reserve(ledger, who, s.kitty_price as nat);
    let p = s.kitty_price as int;
    assert forall|w: AccountId| #[trigger] reserved_of(l1, w) >= t.kitty_price * t.all_kitties[w].len() by {
        assert(reserved_of(ledger, w) >= p * s.all_kitties[w].len());
        if w == who {
            let n = s.all_kitties[w].len() as int;
            assert(t.all_kitties[w].len() == n + 1);
            assert(p * (n + 1) == p * n + p) by (nonlinear_arith);
        } else {
            assert(t.all_kitties[w] == s.all_kitties[w]);
        }
    }
}

/// Handing a kitty over hands its backing over too: when every listed kitty
/// was backed by one price in its owner's reserve, it still is after the
/// price moved from the old owner's reserve to the new owner's.
pub proof fn law_transfer_keeps_backing(
    s: PalletState,
    ledger: Ledger,
    who: AccountId,
    id: KittyIndex,
    new_owner: AccountId,
)
    requires
        s.lists_every_account(),
        ledger_total(ledger),
        s.reservations_back_kitties(ledger),
        s.all_kitties[who].contains(id),
        free_of(ledger, new_owner) >= s.kitty_price,
    ensures
        s.transfer(who, id, new_owner).reservations_back_kitties(s.transfer_ledger(ledger, who, new_owner)),
{
    let t = s.transfer(who, id, new_owner);
    let p = s.kitty_price as int;
    let list = s.all_kitties[who];
    let n = list.len() as int;
    let k0 = choose|k: int| 0 <= k < list.len() && list[k] == id;
    lemma_first_index_exists(list, id, k0);
    let i = choose|i: int| is_first_index(list, id, i);
    let released = s.released(who, id);
    assert(released[who].len() == n - 1);
    assert(reserved_of(ledger, who) >= p * n);
    assert(p * n >= p) by (nonlinear_arith)
        requires n >= 1, p >= 0;
    assert(p * n - p == p * (n - 1)) by (nonlinear_arith);
    let l1 = ledger_unreserve(ledger, who, p as nat);
    assert(unreservable(ledger, who, p as nat) == p);
    let l2 = ledger_reserve(l1, new_owner, p as nat);
    assert(l2 == s.transfer_ledger(ledger, who, new_owner));
    assert forall|w: AccountId| #[trigger] reserved_of(l2, w) >= t.kitty_price * t.all_kitties[w].len() by {
        assert(reserved_of(ledger, w) >= p * s.all_kitties[w].len());
        if w == new_owner {
            let m = released[w].len() as int;
            assert(t.all_kitties[w].len() == m + 1);
            assert(p * (m + 1) == p * m + p) by (nonlinear_arith);
            if w != who {
                assert(released[w] == s.all_kitties[w]);
            }
        } else if w == who {
            assert(t.all_kitties[w] == released[who]);
        } else {
            assert(t.all_kitties[w] == s.all_kitties[w]);
        }
    }
}

/// The offchain worker writes asset 1 into a kitty in odd blocks and asset
/// 2 in even blocks.
pub proof fn law_offchain_asset_by_parity(block_number: u64)
    ensures
        block_number % 2 == 1 ==> spec_offchain_asset(block_number) == 1,
        block_number % 2 == 0 ==> spec_offchain_asset(block_number) == 2,
{
}

/// Creating a kitty succeeds exactly when the signer's free balance covers
/// the price, an id is left (the counter is below the last value of
/// `KittyIndex`) and the signer's list has room; how many kitties exist in
/// total plays no part. When the balance covers the price, the only reason
/// to refuse with `InvalidKittyId` is that the counter is at its last value.
pub proof fn law_create_refusals(s: PalletState, ledger: Ledger, who: AccountId)
    ensures
        s.create_error(ledger, who) is None <==> (
            free_of(ledger, who) >= s.kitty_price
            && s.next_kitty_id < u32::MAX
            && s.all_kitties[who].len() < MAX_KITTY_INDEX
        ),
        s.create_error(ledger, who) == Some(Error::NotEnoughBalance) <==> free_of(ledger, who) < s.kitty_price,
        s.create_error(ledger, who) == Some(Error::InvalidKittyId) <==> (
            free_of(ledger, who) >= s.kitty_price && s.next_kitty_id == u32::MAX
        ),
        s.create_error(ledger, who) == Some(Error::OwnTooManyKitties) <==> (
            free_of(ledger, who) >= s.kitty_price
            && s.next_kitty_id < u32::MAX
            && s.all_kitties[who].len() >= MAX_KITTY_INDEX
        ),
{
}

/// Breeding is refused with `SameKittyId` exactly when both ids are equal,
/// and succeeds exactly when the ids differ, the signer's free balance covers
/// the price, both parents exist, an id is left and the signer's list has
/// room; so whether it succeeds does not depend on the order of the parents.
pub proof fn law_breed_refusals(s: PalletState, ledger: Ledger, who: AccountId, id1: KittyIndex, id2: KittyIndex)
    ensures
        s.breed_error(ledger, who, id1, id2) == Some(Error::SameKittyId) <==> id1 == id2,
        s.breed_error(ledger, who, id1, id2) is None <==> (
            id1 != id2
            && free_of(ledger, who) >= s.kitty_price
            && s.kitties.contains_key(id1)
            && s.kitties.contains_key(id2)
            && s.next_kitty_id < u32::MAX
            && s.all_kitties[who].len() < MAX_KITTY_INDEX
        ),
        s.breed_error(ledger, who, id1, id2) == s.breed_error(ledger, who, id2, id1),
{
}

/// Whether a transfer is refused depends only on the new owner's free
/// balance, the kitty's existence and owner and the new owner's room: never
/// on the signer's own free balance nor on the kitty's id. A transfer by
/// the kitty's owner succeeds whenever the new owner's free balance covers
/// the price and the new owner has room (always, when it hands the kitty to
/// itself).
pub proof fn law_transfer_refusals(
    s: PalletState,
    ledger: Ledger,
    other: Ledger,
    who: AccountId,
    id: KittyIndex,
    new_owner: AccountId,
)
    requires
        s.wf(),
    ensures
        s.transfer_error(ledger, who, id, new_owner) is None <==> (
            free_of(ledger, new_owner) >= s.kitty_price
            && s.kitties.contains_key(id)
            && s.kitty_owner.contains_key(id)
            && s.kitty_owner[id] == who
            && (who == new_owner || s.all_kitties[new_owner].len() < MAX_KITTY_INDEX)
        ),
        free_of(other, new_owner) == free_of(ledger, new_owner)
            ==> s.transfer_error(other, who, id, new_owner) == s.transfer_error(ledger, who, id, new_owner),
{
    if s.kitties.contains_key(id) && s.kitty_owner.contains_key(id) && s.kitty_owner[id] == who {
        let l = s.all_kitties[who];
        assert(l.contains(id));
        let k0 = choose|k: int| 0 <= k < l.len() && l[k] == id;
        lemma_first_index_exists(l, id, k0);
        let i = choose|i: int| is_first_index(l, id, i);
        let released = s.released(who, id);
        assert(released[who].len() == l.len() - 1);
        assert(l.len() <= MAX_KITTY_INDEX);
        if who != new_owner {
            assert(released[new_owner] == s.all_kitties[new_owner]);
        }
    }
}

/// A new kitty goes under the counter's value, which moves on by one; the
/// kitty is owned by the account that got it and ends that account's list;
/// no other kitty, owner or list changes.
pub proof fn law_mint_effect(s: PalletState, who: AccountId, kitty: Kitty)
    requires
        s.next_kitty_id < u32::MAX,
    ensures
        ({
            let t = s.mint(who, kitty);
            let id = s.next_kitty_id;
            &&& t.next_kitty_id == id + 1
            &&& t.kitty_price == s.kitty_price
            &&& t.kitties.contains_key(id) && t.kitties[id] == kitty
            &&& t.kitty_owner.contains_key(id) && t.kitty_owner[id] == who
            &&& t.all_kitties[who].len() == s.all_kitties[who].len() + 1
            &&& t.all_kitties[who].last() == id
            &&& t.all_kitties[who].drop_last() == s.all_kitties[who]
            &&& forall|k: KittyIndex| k != id ==> #[trigger] t.kitties.contains_key(k) == s.kitties.contains_key(k)
                && t.kitties[k] == s.kitties[k]
            &&& forall|k: KittyIndex| k != id ==> #[trigger] t.kitty_owner.contains_key(k) == s.kitty_owner.contains_key(k)
                && t.kitty_owner[k] == s.kitty_owner[k]
            &&& forall|w: AccountId| w != who ==> #[trigger] t.all_kitties[w] == s.all_kitties[w]
        }),
{
    let t = s.mint(who, kitty);
    assert(t.all_kitties[who].drop_last() =~= s.all_kitties[who]);
}

/// Handing kitty `id` from its owner `who` to `new_owner` makes `new_owner`
/// its owner and puts it at the end of `new_owner`'s list; `who`'s list
/// holds it once less; the kitties, the counter and every other owner and
/// list stay as they were.
pub proof fn law_transfer_effect(s: PalletState, who: AccountId, id: KittyIndex, new_owner: AccountId)
    requires
        s.wf(),
        s.kitty_owner.contains_key(id),
        s.kitty_owner[id] == who,
    ensures
        ({
            let t = s.transfer(who, id, new_owner);
            &&& t.kitties == s.kitties
            &&& t.next_kitty_id == s.next_kitty_id
            &&& t.kitty_price == s.kitty_price
            &&& t.kitty_owner.contains_key(id) && t.kitty_owner[id] == new_owner
            &&& forall|k: KittyIndex| k != id ==> #[trigger] t.kitty_owner.contains_key(k) == s.kitty_owner.contains_key(k)
                && t.kitty_owner[k] == s.kitty_owner[k]
            &&& t.all_kitties[new_owner].last() == id
            &&& t.all_kitties[new_owner].len() == if who == new_owner {
                s.all_kitties[new_owner].len()
            } else {
                s.all_kitties[new_owner].len() + 1
            }
            &&& who != new_owner ==> t.all_kitties[new_owner].drop_last() == s.all_kitties[new_owner]
            &&& who != new_owner ==> t.all_kitties[who].len() + 1 == s.all_kitties[who].len()
            &&& who != new_owner ==> t.all_kitties[who].to_multiset() == s.all_kitties[who].to_multiset().remove(id)
            &&& forall|w: AccountId| w != who && w != new_owner ==> #[trigger] t.all_kitties[w] == s.all_kitties[w]
        }),
{
    let t = s.transfer(who, id, new_owner);
    let l = s.all_kitties[who];
    assert(l.contains(id));
    let k0 = choose|k: int| 0 <= k < l.len() && l[k] == id;
    lemma_first_index_exists(l, id, k0);
    let i = choose|i: int| is_first_index(l, id, i);
    let released = s.released(who, id);
    assert(released[who] == l.remove(i));
    assert(t.kitty_owner.dom() =~= s.kitty_owner.dom());
    if who != new_owner {
        assert(t.all_kitties[new_owner].drop_last() =~= s.all_kitties[new_owner]);
        assert(t.all_kitties[who] == l.remove(i));
        l.to_multiset_ensures();
        assert(l.remove(i).to_multiset() =~= l.to_multiset().remove(id));
    }
}

/// Reserving `amount` for `who` takes it from `who`'s free balance and adds
/// it to `who`'s reserved balance; no other account changes.
pub proof fn law_reserve_effect(ledger: Ledger, who: AccountId, amount: nat)
    requires
        ledger_total(ledger),
        free_of(ledger, who) >= amount,
    ensures
        free_of(ledger_reserve(ledger, who, amount), who) + amount == free_of(ledger, who),
        reserved_of(ledger_reserve(ledger, who, amount), who) == reserved_of(ledger, who) + amount,
        forall|a: AccountId| a != who ==> #[trigger] ledger_reserve(ledger, who, amount)[a] == ledger[a],
{
}

/// Unreserving `amount` for `who` moves the whole amount back to `who`'s
/// free balance when that much is reserved, and everything reserved
/// otherwise; no other account changes.
pub proof fn law_unreserve_effect(ledger: Ledger, who: AccountId, amount: nat)
    requires
        ledger_total(ledger),
    ensures
        reserved_of(ledger, who) >= amount ==> {
            &&& free_of(ledger_unreserve(ledger, who, amount), who) == free_of(ledger, who) + amount
            &&& reserved_of(ledger_unreserve(ledger, who, amount), who) + amount == reserved_of(ledger, who)
        },
        reserved_of(ledger, who) < amount ==> {
            &&& free_of(ledger_unreserve(ledger, who, amount), who) == total_of(ledger, who)
            &&& reserved_of(ledger_unreserve(ledger, who, amount), who) == 0
        },
        forall|a: AccountId| a != who ==> #[trigger] ledger_unreserve(ledger, who, amount)[a] == ledger[a],
{
}

} // verus!
