use vstd::prelude::*;

verus! {

/// An account, as the test runtime numbers them.
pub type AccountId = u64;

/// The number that identifies a kitty.
pub type KittyIndex = u32;

/// An amount of the currency that kitties are paid in.
pub type Balance = u128;

/// The height of a block.
pub type BlockNumber = u64;

/// A kitty: nothing but its 128-bit DNA.
#[derive(Clone, Copy, Debug, PartialEq, Eq)]
pub struct Kitty(pub [u8; 16]);

/// The pallet's own errors.
#[derive(Clone, Copy, Debug, PartialEq, Eq)]
pub enum Error {
    /// No kitty has the given id, or no id is left to hand out.
    InvalidKittyId,
    /// The next id would not fit in a `KittyIndex`.
    KittyIdOverflow,
    /// A kitty cannot be bred with itself.
    SameKittyId,
    /// The caller does not own the kitty.
    NotOwner,
    /// The free balance does not cover the kitty price.
    NotEnoughBalance,
    /// The account already owns as many kitties as it may.
    OwnTooManyKitties,
}

/// Why a call was refused.
#[derive(Clone, Copy, Debug, PartialEq, Eq)]
pub enum DispatchError {
    /// The call was not signed by an account.
    BadOrigin,
    /// The pallet refused the call.
    Kitties(Error),
    /// The currency refused to reserve the price.
    InsufficientBalance,
}

/// What a successful call announces.
#[derive(Clone, Copy, Debug, PartialEq, Eq)]
pub enum Event {
    /// An account created a kitty: owner, id, kitty.
    KittyCreated(AccountId, KittyIndex, Kitty),
    /// An account bred a kitty: owner, id, kitty.
    KittyBreed(AccountId, KittyIndex, Kitty),
    /// A kitty changed hands: old owner, new owner, id.
    KittyTrnsferred(AccountId, AccountId, KittyIndex),
}

/// Who a call comes from.
#[derive(Clone, Copy, Debug, PartialEq, Eq)]
pub enum Origin {
    /// The root of the chain.
    Root,
    /// An account that signed the call.
    Signed(AccountId),
    /// Nobody: an unsigned call.
    Unsigned,
}

impl Origin {
    /// The origin of a call signed by `who`.
    pub fn signed(who: AccountId) -> (o: Origin)
        ensures
            o == Origin::Signed(who),
    {
        Origin::Signed(who)
    }
}

/// The account that signed the call, or `BadOrigin` when none did.
pub fn ensure_signed(origin: Origin) -> (r: Result<AccountId, DispatchError>)
    ensures
        match origin {
            Origin::Signed(who) => r == Ok::<AccountId, DispatchError>(who),
            _ => r == Err::<AccountId, DispatchError>(DispatchError::BadOrigin),
        },
{
    match origin {
        Origin::Signed(who) => Ok(who),
        _ => Err(DispatchError::BadOrigin),
    }
}

/// The id of the first kitty, which the next-id counter starts from.
#[allow(non_snake_case)]
pub fn GetDefaultValue() -> (id: KittyIndex)
    ensures
        id == 0,
{
    0
}

} // verus!
