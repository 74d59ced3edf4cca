use vstd::prelude::*;
use frame_support::traits::ConstU32;
use frame_support::BoundedVec;

verus! {

#[verifier::external_type_specification]
#[verifier::external_body]
pub struct ExConstU32<const T: u32>(ConstU32<T>);

#[verifier::external_type_specification]
#[verifier::external_body]
#[verifier::reject_recursive_types(T)]
#[verifier::reject_recursive_types(S)]
pub struct ExBoundedVec<T, S>(BoundedVec<T, S>);

/// The most kitties one account can own.
pub const MAX_KITTY_INDEX: u32 = 256;

/// The ids that one `BoundedVec` of owned kitties holds, in order.
pub uninterp spec fn owned_ids(v: BoundedVec<u32, ConstU32<MAX_KITTY_INDEX>>) -> Seq<u32>;

/// Calls `BoundedVec::new`: the empty list.
#[verifier::external_body]
pub(crate) fn owned_new() -> (v: BoundedVec<u32, ConstU32<MAX_KITTY_INDEX>>)
    ensures
        owned_ids(v) == Seq::<u32>::empty(),
{
    BoundedVec::new()
}

} // verus!

verus! {

/// Calls `len` of the `Vec` that a `BoundedVec` dereferences to.
#[verifier::external_body]
pub(crate) fn owned_len(v: &BoundedVec<u32, ConstU32<MAX_KITTY_INDEX>>) -> (n: usize)
    ensures
        n == owned_ids(*v).len(),
{
    v.len()
}

/// Reads the item at `index` through the `Vec` that a `BoundedVec`
/// dereferences to; the caller keeps `index` in bounds, where indexing does
/// not panic.
#[verifier::external_body]
pub(crate) fn owned_get(v: &BoundedVec<u32, ConstU32<MAX_KITTY_INDEX>>, index: usize) -> (x: u32)
    requires
        index < owned_ids(*v).len(),
    ensures
        x == owned_ids(*v)[index as int],
{
    v[index]
}

/// Calls `BoundedVec::try_push`: appends `x` while fewer than the bound are
/// held, and otherwise hands `x` back and changes nothing.
#[verifier::external_body]
pub(crate) fn owned_try_push(
    v: &mut BoundedVec<u32, ConstU32<MAX_KITTY_INDEX>>,
    x: u32,
) -> (r: Result<(), u32>)
    ensures
        r is Ok <==> owned_ids(*old(v)).len() < MAX_KITTY_INDEX,
        r is Ok ==> owned_ids(*final(v)) == owned_ids(*old(v)).push(x),
        r is Err ==> r->Err_0 == x && owned_ids(*final(v)) == owned_ids(*old(v)),
{
    v.try_push(x)
}

/// Calls `BoundedVec::remove`, which removes and returns the item at
/// `index`; the caller keeps `index` in bounds, where it does not panic.
#[verifier::external_body]
pub(crate) fn owned_remove(v: &mut BoundedVec<u32, ConstU32<MAX_KITTY_INDEX>>, index: usize) -> (x: u32)
    requires
        index < owned_ids(*old(v)).len(),
    ensures
        x == owned_ids(*old(v))[index as int],
        owned_ids(*final(v)) == owned_ids(*old(v)).remove(index as int),
{
    v.remove(index)
}

/// Copies the items of a `BoundedVec` into a `Vec`, in order.
#[verifier::external_body]
pub(crate) fn owned_to_vec(v: &BoundedVec<u32, ConstU32<MAX_KITTY_INDEX>>) -> (items: Vec<u32>)
    ensures
        items@ == owned_ids(*v),
{
    v.to_vec()
}

} // verus!
