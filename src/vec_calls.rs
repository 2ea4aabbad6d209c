//! The calls into `std` that vstd gives no contract, each behind a wrapper
//! whose contract states what the standard library documents.
use std::collections::TryReserveError;
use std::mem::MaybeUninit;
use vstd::prelude::*;

use crate::tracked_vec::room_for;

verus! {

/// Relies on the `TryFrom<Vec<T>>` impl of `[T; N]`: it succeeds exactly
/// when the length is `N`, keeping the order, and otherwise hands the
/// vector back.
#[verifier::external_body]
pub(crate) fn vec_into_array<T, const N: usize>(v: Vec<T>) -> (r: Result<[T; N], Vec<T>>)
    ensures
        (match r {
            Ok(a) => v@.len() == N && a@ == v@,
            Err(w) => v@.len() != N && w == v,
        }),
{
    v.try_into()
}

/// Relies on the `Hash` impl of `Vec<T>`, which feeds the length and the
/// elements to `state`; nothing is assumed of the hasher afterwards.
#[verifier::external_body]
pub(crate) fn hash_vec<T: core::hash::Hash, H: core::hash::Hasher>(v: &Vec<T>, state: &mut H) {
    core::hash::Hash::hash(v, state)
}

/// Relies on the `From<[T; N]>` impl of `Vec<T>`: the same elements in the
/// same order.
#[verifier::external_body]
pub(crate) fn vec_from_array<T, const N: usize>(a: [T; N]) -> (r: Vec<T>)
    ensures
        r@ == a@,
{
    Vec::from(a)
}

/// Relies on `Vec::capacity`: a vector's capacity is never below its length.
#[verifier::external_body]
pub(crate) fn vec_capacity<T>(v: &Vec<T>) -> (r: usize)
    ensures
        r >= v@.len(),
{
    v.capacity()
}

/// Relies on `Vec::reserve_exact`: it changes capacity, never the elements.
/// It panics when the capacity asked for overflows `usize` or exceeds
/// `isize::MAX` bytes, which `room_for` leaves out.
#[verifier::external_body]
pub(crate) fn vec_reserve_exact<T>(v: &mut Vec<T>, additional: usize)
    requires
        room_for::<T>(old(v)@.len() + additional),
    ensures
        final(v)@ == old(v)@,
{
    v.reserve_exact(additional)
}

/// Relies on `Vec::try_reserve_exact`: it changes capacity, never the
/// elements, and reports failure instead of panicking; the capacity asked
/// for overflowing `usize` is such a failure.
#[verifier::external_body]
pub(crate) fn vec_try_reserve_exact<T>(v: &mut Vec<T>, additional: usize) -> (r: Result<(), TryReserveError>)
    ensures
        final(v)@ == old(v)@,
        old(v)@.len() + additional > usize::MAX ==> r is Err,
{
    v.try_reserve_exact(additional)
}

/// Relies on `Vec::shrink_to_fit`: it changes capacity, never the elements.
#[verifier::external_body]
pub(crate) fn vec_shrink_to_fit<T>(v: &mut Vec<T>)
    ensures
        final(v)@ == old(v)@,
{
    v.shrink_to_fit()
}

/// Relies on `Vec::shrink_to`: it changes capacity, never the elements.
#[verifier::external_body]
pub(crate) fn vec_shrink_to<T>(v: &mut Vec<T>, min_capacity: usize)
    ensures
        final(v)@ == old(v)@,
{
    v.shrink_to(min_capacity)
}

/// Relies on `Vec::spare_capacity_mut`: the slice lies past the length, so
/// what is written through it leaves the elements as they are.
#[verifier::external_body]
pub(crate) fn vec_spare_capacity_mut<T>(v: &mut Vec<T>) -> (r: &mut [MaybeUninit<T>])
    ensures
        final(v)@ == old(v)@,
{
    v.spare_capacity_mut()
}

/// Relies on `Vec::into_boxed_slice`: the same elements in the same order.
#[verifier::external_body]
pub(crate) fn vec_into_boxed_slice<T>(v: Vec<T>) -> (r: Box<[T]>)
    ensures
        r@ == v@,
{
    v.into_boxed_slice()
}

} // verus!
