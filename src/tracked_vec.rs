use std::collections::TryReserveError;
use std::mem::MaybeUninit;
use vstd::prelude::*;
use vstd::std_specs::cmp::PartialEqSpec;
use vstd::std_specs::cmp::PartialOrdSpec;
use vstd::std_specs::iter::IteratorSpec;
use vstd::string::StringSliceAdditionalSpecFns;

use crate::compact::{dedup_flags, keep_only, keys_match, prior_kept, select};
use crate::vec_calls::{
    hash_vec, vec_capacity, vec_from_array, vec_into_array, vec_into_boxed_slice, vec_reserve_exact,
    vec_shrink_to, vec_shrink_to_fit, vec_spare_capacity_mut, vec_try_reserve_exact,
};

verus! {

/// A `Vec<T>` together with a revision counter and the revision that
/// `changed` saw last.
pub struct ChangeTrackingVec<T> {
    revision: usize,
    checked_revision: usize,
    inner: Vec<T>,
}

impl<T> View for ChangeTrackingVec<T> {
    type V = Seq<T>;

    /// The elements, in order.
    closed spec fn view(&self) -> Seq<T> {
        self.inner@
    }
}

impl<T> ChangeTrackingVec<T> {
    /// The number of calls so far that could have changed the contents.
    pub closed spec fn rev(&self) -> nat {
        self.revision as nat
    }

    /// The revision that the last call of `changed` saw (zero before any).
    pub closed spec fn checked(&self) -> nat {
        self.checked_revision as nat
    }

    /// `changed` would now report true.
    pub open spec fn is_dirty(&self) -> bool {
        self.rev() != self.checked()
    }

    /// The counter can take one more step.
    pub open spec fn can_bump(&self) -> bool {
        self.rev() < usize::MAX
    }

    /// `self` is `prev` after one counted call: the revision is one higher
    /// and the last observed revision is kept.
    pub open spec fn bumped_from(&self, prev: &Self) -> bool {
        &&& self.rev() == prev.rev() + 1
        &&& self.checked() == prev.checked()
    }

    fn n(inner: Vec<T>) -> (r: Self)
        ensures
            r@ == inner@,
            r.rev() == 0,
            r.checked() == 0,
    {
        ChangeTrackingVec { revision: 0, checked_revision: 0, inner }
    }

    /// An empty sequence at revision zero.
    pub fn new() -> (r: Self)
        ensures
            r@ == Seq::<T>::empty(),
            r.rev() == 0,
            r.checked() == 0,
    {
        Self::n(Vec::new())
    }

    /// Counts one change without touching the contents.
    pub fn count(&mut self)
        requires
            old(self).can_bump(),
        ensures
            final(self)@ == old(self)@,
            final(self).bumped_from(old(self)),
    {
        self.revision = self.revision + 1;
    }

    /// The current revision.
    pub fn revision(&self) -> (r: usize)
        ensures
            r == self.rev(),
    {
        self.revision
    }

    /// Whether the revision moved since the last call, which records the
    /// current revision as seen.
    pub fn changed(&mut self) -> (r: bool)
        ensures
            r == old(self).is_dirty(),
            final(self)@ == old(self)@,
            final(self).rev() == old(self).rev(),
            final(self).checked() == old(self).rev(),
    {
        let rev = self.revision;
        let changed = rev != self.checked_revision;
        self.checked_revision = rev;
        changed
    }

    /// The underlying vector, read only; the revision stays.
    pub fn inner(&self) -> (r: &Vec<T>)
        ensures
            r@ == self@,
    {
        &self.inner
    }

    /// The underlying vector for any change; counts one change.
    pub fn inner_mut(&mut self) -> (r: &mut Vec<T>)
        requires
            old(self).can_bump(),
        ensures
            r@ == old(self)@,
            final(self)@ == final(r)@,
            final(self).bumped_from(old(self)),
    {
        self.count();
        &mut self.inner
    }

    /// The underlying vector, giving up the counter.
    pub fn into_inner(self) -> (r: Vec<T>)
        ensures
            r@ == self@,
    {
        self.inner
    }
}


/// Storage for `count` elements of `T` can be asked for: the count fits in
/// `usize` and the bytes in `isize`.
pub open spec fn room_for<T>(count: int) -> bool {
    &&& count <= usize::MAX
    &&& count * vstd::layout::size_of::<T>() <= isize::MAX
}

impl<T> ChangeTrackingVec<T> {
    /// An empty sequence with room for `capacity` elements, at revision zero.
    pub fn with_capacity(capacity: usize) -> (r: Self)
        ensures
            r@ == Seq::<T>::empty(),
            r.rev() == 0,
            r.checked() == 0,
    {
        Self::n(Vec::with_capacity(capacity))
    }

    /// How many elements fit before the storage grows.
    pub fn capacity(&self) -> (r: usize)
        ensures
            r >= self@.len(),
    {
        vec_capacity(&self.inner)
    }

    /// Makes room for `additional` more elements; counts one change.
    pub fn reserve(&mut self, additional: usize)
        requires
            old(self).can_bump(),
            room_for::<T>(old(self)@.len() + additional),
        ensures
            final(self)@ == old(self)@,
            final(self).bumped_from(old(self)),
    {
        self.inner_mut().reserve(additional)
    }

    /// Makes room for exactly `additional` more elements; counts one change.
    pub fn reserve_exact(&mut self, additional: usize)
        requires
            old(self).can_bump(),
            room_for::<T>(old(self)@.len() + additional),
        ensures
            final(self)@ == old(self)@,
            final(self).bumped_from(old(self)),
    {
        vec_reserve_exact(self.inner_mut(), additional)
    }

    /// Tries to make room for `additional` more elements; counts one change
    /// whether or not the allocation succeeds.
    pub fn try_reserve(&mut self, additional: usize) -> (r: Result<(), TryReserveError>)
        requires
            old(self).can_bump(),
        ensures
            final(self)@ == old(self)@,
            final(self).bumped_from(old(self)),
    {
        self.inner_mut().try_reserve(additional)
    }

    /// Tries to make room for exactly `additional` more elements; counts one
    /// change whether or not the allocation succeeds.
    pub fn try_reserve_exact(&mut self, additional: usize) -> (r: Result<(), TryReserveError>)
        requires
            old(self).can_bump(),
        ensures
            old(self)@.len() + additional > usize::MAX ==> r is Err,
            final(self)@ == old(self)@,
            final(self).bumped_from(old(self)),
    {
        vec_try_reserve_exact(self.inner_mut(), additional)
    }

    /// Gives back unused storage; counts one change.
    pub fn shrink_to_fit(&mut self)
        requires
            old(self).can_bump(),
        ensures
            final(self)@ == old(self)@,
            final(self).bumped_from(old(self)),
    {
        vec_shrink_to_fit(self.inner_mut())
    }

    /// Gives back unused storage down to `min_capacity`; counts one change.
    pub fn shrink_to(&mut self, min_capacity: usize)
        requires
            old(self).can_bump(),
        ensures
            final(self)@ == old(self)@,
            final(self).bumped_from(old(self)),
    {
        vec_shrink_to(self.inner_mut(), min_capacity)
    }

    /// The elements as a boxed slice, giving up the counter.
    pub fn into_boxed_slice(self) -> (r: Box<[T]>)
        ensures
            r@ == self@,
    {
        vec_into_boxed_slice(self.into_inner())
    }

    /// Keeps the first `len` elements (all of them if there are fewer);
    /// counts one change.
    pub fn truncate(&mut self, len: usize)
        requires
            old(self).can_bump(),
        ensures
            len <= old(self)@.len() ==> final(self)@ == old(self)@.subrange(0, len as int),
            len > old(self)@.len() ==> final(self)@ == old(self)@,
            final(self).bumped_from(old(self)),
    {
        self.inner_mut().truncate(len)
    }

    /// The unused storage past the last element; counts one change, since
    /// a caller may fill it and then grow the length by other means.
    pub fn spare_capacity_mut(&mut self) -> (r: &mut [MaybeUninit<T>])
        requires
            old(self).can_bump(),
        ensures
            final(self)@ == old(self)@,
            final(self).bumped_from(old(self)),
    {
        vec_spare_capacity_mut(self.inner_mut())
    }

    /// The elements as a slice; the revision stays.
    pub fn as_slice(&self) -> (r: &[T])
        ensures
            r@ == self@,
    {
        self.inner.as_slice()
    }

    /// The elements as a mutable slice; counts one change.
    pub fn as_mut_slice(&mut self) -> (r: &mut [T])
        requires
            old(self).can_bump(),
        ensures
            r@ == old(self)@,
            final(self)@ == final(r)@,
            final(self).bumped_from(old(self)),
    {
        self.inner_mut().as_mut_slice()
    }

    /// Removes the element at `index` and puts the last element in its
    /// place; counts one change.
    pub fn swap_remove(&mut self, index: usize) -> (r: T)
        requires
            old(self).can_bump(),
            index < old(self)@.len(),
        ensures
            r == old(self)@[index as int],
            final(self)@ == old(self)@.update(index as int, old(self)@.last()).drop_last(),
            final(self).bumped_from(old(self)),
    {
        self.inner_mut().swap_remove(index)
    }

    /// Puts `element` at `index`, shifting the later ones up; counts one change.
    pub fn insert(&mut self, index: usize, element: T)
        requires
            old(self).can_bump(),
            index <= old(self)@.len(),
        ensures
            final(self)@ == old(self)@.insert(index as int, element),
            final(self).bumped_from(old(self)),
    {
        self.inner_mut().insert(index, element)
    }

    /// Takes out the element at `index`, shifting the later ones down;
    /// counts one change.
    pub fn remove(&mut self, index: usize) -> (r: T)
        requires
            old(self).can_bump(),
            index < old(self)@.len(),
        ensures
            r == old(self)@[index as int],
            final(self)@ == old(self)@.remove(index as int),
            final(self).bumped_from(old(self)),
    {
        self.inner_mut().remove(index)
    }

    /// Adds `value` at the end; counts one change.
    pub fn push(&mut self, value: T)
        requires
            old(self).can_bump(),
        ensures
            final(self)@ == old(self)@.push(value),
            final(self).bumped_from(old(self)),
    {
        self.inner_mut().push(value)
    }

    /// Takes out the last element, if any; counts one change either way.
    pub fn pop(&mut self) -> (r: Option<T>)
        requires
            old(self).can_bump(),
        ensures
            old(self)@.len() > 0 ==> r == Some(old(self)@.last()) && final(self)@
                == old(self)@.drop_last(),
            old(self)@.len() == 0 ==> r is None && final(self)@ == old(self)@,
            final(self).bumped_from(old(self)),
    {
        self.inner_mut().pop()
    }

    /// Moves all elements of `other` to the end of `self`; counts one change
    /// on each of the two.
    pub fn append(&mut self, other: &mut Self)
        requires
            old(self).can_bump(),
            old(other).can_bump(),
        ensures
            final(self)@ == old(self)@ + old(other)@,
            final(other)@ == Seq::<T>::empty(),
            final(self).bumped_from(old(self)),
            final(other).bumped_from(old(other)),
    {
        self.inner_mut().append(other.inner_mut())
    }

    /// Takes out the elements at `start..end` and returns them in order;
    /// counts one change.
    pub fn drain(&mut self, start: usize, end: usize) -> (r: Vec<T>)
        requires
            old(self).can_bump(),
            start <= end <= old(self)@.len(),
        ensures
            r@ == old(self)@.subrange(start as int, end as int),
            final(self)@ == old(self)@.subrange(0, start as int) + old(self)@.subrange(
                end as int,
                old(self)@.len() as int,
            ),
            final(self).bumped_from(old(self)),
    {
        let v = self.inner_mut();
        let mut tail = v.split_off(end);
        let taken = v.split_off(start);
        v.append(&mut tail);
        taken
    }

    /// Replaces the elements at `start..end` with `replace_with` and returns
    /// the ones taken out; counts one change.
    pub fn splice(&mut self, start: usize, end: usize, replace_with: Vec<T>) -> (r: Vec<T>)
        requires
            old(self).can_bump(),
            start <= end <= old(self)@.len(),
        ensures
            r@ == old(self)@.subrange(start as int, end as int),
            final(self)@ == old(self)@.subrange(0, start as int) + replace_with@
                + old(self)@.subrange(end as int, old(self)@.len() as int),
            final(self).bumped_from(old(self)),
    {
        let mut replace_with = replace_with;
        let v = self.inner_mut();
        let mut tail = v.split_off(end);
        let taken = v.split_off(start);
        v.append(&mut replace_with);
        v.append(&mut tail);
        taken
    }

    /// Removes every element; counts one change.
    pub fn clear(&mut self)
        requires
            old(self).can_bump(),
        ensures
            final(self)@ == Seq::<T>::empty(),
            final(self).bumped_from(old(self)),
    {
        self.inner_mut().clear()
    }

    /// The number of elements.
    pub fn len(&self) -> (r: usize)
        ensures
            r == self@.len(),
    {
        self.inner.len()
    }

    /// Whether there are no elements.
    pub fn is_empty(&self) -> (r: bool)
        ensures
            r == (self@.len() == 0),
    {
        self.inner.is_empty()
    }
}

impl<T> ChangeTrackingVec<T> {
    /// Keeps the elements for which `f` returns true, in order, asking `f`
    /// once for each element from the first to the last; counts one change.
    pub fn retain<F: Fn(&T) -> bool>(&mut self, f: F)
        requires
            old(self).can_bump(),
            forall|x: &T| #[trigger] f.requires((x,)),
        ensures
            exists|keep: Seq<bool>|
                {
                    &&& keep.len() == old(self)@.len()
                    &&& forall|i: int|
                        0 <= i < keep.len() ==> f.ensures((&old(self)@[i],), #[trigger] keep[i])
                    &&& final(self)@ == select(old(self)@, keep)
                },
            final(self).bumped_from(old(self)),
    {
        let v = self.inner_mut();
        let mut keep: Vec<bool> = Vec::new();
        let n = v.len();
        let mut i: usize = 0;
        while i < n
            invariant
                n == v@.len(),
                i <= n,
                keep@.len() == i,
                forall|x: &T| #[trigger] f.requires((x,)),
                forall|k: int| 0 <= k < i ==> f.ensures((&v@[k],), #[trigger] keep@[k]),
            decreases n - i,
        {
            let b = f(&v[i]);
            keep.push(b);
            i = i + 1;
        }
        let ghost before = v@;
        keep_only(v, &keep);
        assert(forall|k: int| 0 <= k < keep@.len() ==> f.ensures((&before[k],), #[trigger] keep@[k]));
    }
}

impl<T> ChangeTrackingVec<T> {
    /// Removes each element that `same(element, last kept element)` puts
    /// with the last element kept before it; the first element always stays.
    /// Counts one change.
    pub fn dedup_by<F: Fn(&T, &T) -> bool>(&mut self, same_bucket: F)
        requires
            old(self).can_bump(),
            forall|a: &T, b: &T| #[trigger] same_bucket.requires((a, b)),
        ensures
            exists|keep: Seq<bool>|
                {
                    &&& keep.len() == old(self)@.len()
                    &&& old(self)@.len() > 0 ==> keep[0]
                    &&& forall|i: int|
                        0 < i < keep.len() ==> same_bucket.ensures(
                            (&old(self)@[i], &old(self)@[prior_kept(keep, i)]),
                            !(#[trigger] keep[i]),
                        )
                    &&& final(self)@ == select(old(self)@, keep)
                },
            final(self).bumped_from(old(self)),
    {
        let v = self.inner_mut();
        let keep = dedup_flags(v, &same_bucket);
        keep_only(v, &keep);
    }

    /// Removes each element whose key, by `key`, equals the key of the last
    /// element kept before it; the first element always stays. Counts one
    /// change.
    pub fn dedup_by_key<K: PartialEq, F: Fn(&T) -> K>(&mut self, key: F)
        requires
            old(self).can_bump(),
            forall|a: &T| #[trigger] key.requires((a,)),
        ensures
            exists|keep: Seq<bool>|
                {
                    &&& keep.len() == old(self)@.len()
                    &&& old(self)@.len() > 0 ==> keep[0]
                    &&& forall|i: int|
                        0 < i < keep.len() ==> keys_match(
                            &key,
                            &old(self)@[i],
                            &old(self)@[prior_kept(keep, i)],
                            !(#[trigger] keep[i]),
                        )
                    &&& final(self)@ == select(old(self)@, keep)
                },
            final(self).bumped_from(old(self)),
    {
        let key_fn = &key;
        let same = |a: &T, b: &T| -> (r: bool)
            requires
                key_fn.requires((a,)),
                key_fn.requires((b,)),
            ensures
                keys_match(key_fn, a, b, r),
            {
                let ka = key_fn(a);
                let kb = key_fn(b);
                ka == kb
            };
        let v = self.inner_mut();
        let keep = dedup_flags(v, &same);
        keep_only(v, &keep);
    }

    /// Grows to `new_len` with values made by `f`, or cuts back to
    /// `new_len`; counts one change.
    pub fn resize_with<F: Fn() -> T>(&mut self, new_len: usize, f: F)
        requires
            old(self).can_bump(),
            f.requires(()),
        ensures
            new_len <= old(self)@.len() ==> final(self)@ == old(self)@.subrange(0, new_len as int),
            new_len > old(self)@.len() ==> {
                &&& final(self)@.len() == new_len
                &&& final(self)@.subrange(0, old(self)@.len() as int) == old(self)@
                &&& forall|i: int|
                    old(self)@.len() <= i < new_len ==> f.ensures((), #[trigger] final(self)@[i])
            },
            final(self).bumped_from(old(self)),
    {
        let v = self.inner_mut();
        if new_len <= v.len() {
            v.truncate(new_len);
            return;
        }
        let ghost start = v@;
        while v.len() < new_len
            invariant
                start.len() <= v@.len() <= new_len,
                v@.subrange(0, start.len() as int) == start,
                f.requires(()),
                forall|i: int| start.len() <= i < v@.len() ==> f.ensures((), #[trigger] v@[i]),
            decreases new_len - v@.len(),
        {
            let x = f();
            let ghost prev = v@;
            v.push(x);
            assert(v@.subrange(0, start.len() as int) =~= prev.subrange(0, start.len() as int));
        }
    }
}

impl<T: PartialEq> ChangeTrackingVec<T> {
    /// Removes each element equal to the last element kept before it, so
    /// that no two neighbours are equal; counts one change.
    pub fn dedup(&mut self)
        requires
            old(self).can_bump(),
        ensures
            exists|keep: Seq<bool>|
                {
                    &&& keep.len() == old(self)@.len()
                    &&& old(self)@.len() > 0 ==> keep[0]
                    &&& forall|i: int|
                        0 < i < keep.len() ==> (<T as PartialEqSpec>::obeys_eq_spec() ==> (!(
                        #[trigger] keep[i]) <==> old(self)@[i].eq_spec(
                            &old(self)@[prior_kept(keep, i)],
                        )))
                    &&& final(self)@ == select(old(self)@, keep)
                },
            final(self).bumped_from(old(self)),
    {
        let same = |a: &T, b: &T| -> (r: bool)
            ensures
                <T as PartialEqSpec>::obeys_eq_spec() ==> r == a.eq_spec(b),
            { a == b };
        let v = self.inner_mut();
        let keep = dedup_flags(v, &same);
        keep_only(v, &keep);
    }
}

impl<T: Clone> ChangeTrackingVec<T> {
    /// Grows to `new_len` with clones of `value`, or cuts back to `new_len`;
    /// counts one change.
    pub fn resize(&mut self, new_len: usize, value: T)
        requires
            old(self).can_bump(),
        ensures
            new_len <= old(self)@.len() ==> final(self)@ == old(self)@.subrange(0, new_len as int),
            new_len > old(self)@.len() ==> {
                &&& final(self)@.len() == new_len
                &&& final(self)@.subrange(0, old(self)@.len() as int) == old(self)@
                &&& forall|i: int|
                    old(self)@.len() <= i < new_len ==> cloned::<T>(value, #[trigger] final(self)@[i])
            },
            final(self).bumped_from(old(self)),
    {
        self.inner_mut().resize(new_len, value)
    }

    /// Adds clones of the elements of `other` at the end; counts one change.
    pub fn extend_from_slice(&mut self, other: &[T])
        requires
            old(self).can_bump(),
        ensures
            final(self)@.len() == old(self)@.len() + other@.len(),
            final(self)@.subrange(0, old(self)@.len() as int) == old(self)@,
            forall|i: int|
                0 <= i < other@.len() ==> cloned::<T>(
                    other@[i],
                    #[trigger] final(self)@[old(self)@.len() + i],
                ),
            final(self).bumped_from(old(self)),
    {
        self.inner_mut().extend_from_slice(other)
    }

    /// Adds clones of the elements at `start..end` at the end; counts one change.
    pub fn extend_from_within(&mut self, start: usize, end: usize)
        requires
            old(self).can_bump(),
            start <= end <= old(self)@.len(),
        ensures
            final(self)@.len() == old(self)@.len() + (end - start),
            final(self)@.subrange(0, old(self)@.len() as int) == old(self)@,
            forall|i: int|
                0 <= i < end - start ==> cloned::<T>(
                    old(self)@[start + i],
                    #[trigger] final(self)@[old(self)@.len() + i],
                ),
            final(self).bumped_from(old(self)),
    {
        let mut copies: Vec<T> = Vec::new();
        copies.extend_from_slice(&self.inner.as_slice()[start..end]);
        self.inner_mut().append(&mut copies);
    }
}

impl<T> ChangeTrackingVec<T> {
    /// The elements as an array of length `N`, or `self` back, untouched,
    /// when the length is not `N`.
    pub fn into_array<const N: usize>(self) -> (r: Result<[T; N], Self>)
        ensures
            self@.len() == N ==> r is Ok && r->Ok_0@ == self@,
            self@.len() != N ==> r == Err::<[T; N], Self>(self),
    {
        if self.inner.len() != N {
            return Err(self);
        }
        match vec_into_array(self.inner) {
            Ok(a) => Ok(a),
            Err(v) => Err(Self::n(v)),
        }
    }
}

impl<T: Clone> Clone for ChangeTrackingVec<T> {
    /// Clones of the elements, at revision zero.
    fn clone(&self) -> (r: Self)
        ensures
            r@.len() == self@.len(),
            forall|i: int| 0 <= i < self@.len() ==> cloned::<T>(self@[i], #[trigger] r@[i]),
            r.rev() == 0,
            r.checked() == 0,
    {
        Self::n(self.inner.clone())
    }
}

impl<T> Default for ChangeTrackingVec<T> {
    /// An empty sequence at revision zero.
    fn default() -> (r: Self)
        ensures
            r@ == Seq::<T>::empty(),
            r.rev() == 0,
            r.checked() == 0,
    {
        Self::new()
    }
}

impl<T> From<Vec<T>> for ChangeTrackingVec<T> {
    /// Tracks `v` from revision zero.
    fn from(v: Vec<T>) -> (r: Self)
        ensures
            r@ == v@,
            r.rev() == 0,
            r.checked() == 0,
    {
        ChangeTrackingVec { revision: 0, checked_revision: 0, inner: v }
    }
}

impl<T> vstd::std_specs::convert::FromSpecImpl<Vec<T>> for ChangeTrackingVec<T> {
    open spec fn obeys_from_spec() -> bool {
        true
    }

    closed spec fn from_spec(v: Vec<T>) -> Self {
        ChangeTrackingVec { revision: 0, checked_revision: 0, inner: v }
    }
}

impl<T: Clone> From<&[T]> for ChangeTrackingVec<T> {
    /// Clones of the elements of `s`, tracked from revision zero.
    fn from(s: &[T]) -> (r: Self)
        ensures
            r@.len() == s@.len(),
            forall|i: int| 0 <= i < s@.len() ==> cloned::<T>(s@[i], #[trigger] r@[i]),
            r.rev() == 0,
            r.checked() == 0,
    {
        let mut v: Vec<T> = Vec::new();
        v.extend_from_slice(s);
        Self::n(v)
    }
}

impl<T: Clone> vstd::std_specs::convert::FromSpecImpl<&[T]> for ChangeTrackingVec<T> {
    open spec fn obeys_from_spec() -> bool {
        false
    }

    closed spec fn from_spec(s: &[T]) -> Self {
        vstd::pervasive::arbitrary()
    }
}

impl<T: Clone> From<&mut [T]> for ChangeTrackingVec<T> {
    /// Clones of the elements of `s`, which stays as it was, tracked from revision zero.
    fn from(s: &mut [T]) -> (r: Self)
        ensures
            r@.len() == old(s)@.len(),
            forall|i: int| 0 <= i < old(s)@.len() ==> cloned::<T>(old(s)@[i], #[trigger] r@[i]),
            final(s)@ == old(s)@,
            r.rev() == 0,
            r.checked() == 0,
    {
        let mut v: Vec<T> = Vec::new();
        v.extend_from_slice(&*s);
        Self::n(v)
    }
}

impl<T: Clone> vstd::std_specs::convert::FromSpecImpl<&mut [T]> for ChangeTrackingVec<T> {
    open spec fn obeys_from_spec() -> bool {
        false
    }

    closed spec fn from_spec(s: &mut [T]) -> Self {
        vstd::pervasive::arbitrary()
    }
}

impl<T, const N: usize> From<[T; N]> for ChangeTrackingVec<T> {
    /// The elements of `a`, in order, tracked from revision zero.
    fn from(a: [T; N]) -> (r: Self)
        ensures
            r@ == a@,
            r.rev() == 0,
            r.checked() == 0,
    {
        Self::n(vec_from_array(a))
    }
}

impl<T, const N: usize> vstd::std_specs::convert::FromSpecImpl<[T; N]> for ChangeTrackingVec<T> {
    open spec fn obeys_from_spec() -> bool {
        false
    }

    closed spec fn from_spec(a: [T; N]) -> Self {
        vstd::pervasive::arbitrary()
    }
}

impl<T> From<Box<[T]>> for ChangeTrackingVec<T> {
    /// The elements of `b`, in order, tracked from revision zero.
    fn from(b: Box<[T]>) -> (r: Self)
        ensures
            r@ == b@,
            r.rev() == 0,
            r.checked() == 0,
    {
        Self::n(b.into_vec())
    }
}

impl<T> vstd::std_specs::convert::FromSpecImpl<Box<[T]>> for ChangeTrackingVec<T> {
    open spec fn obeys_from_spec() -> bool {
        false
    }

    closed spec fn from_spec(b: Box<[T]>) -> Self {
        vstd::pervasive::arbitrary()
    }
}

impl From<&str> for ChangeTrackingVec<u8> {
    /// The UTF-8 bytes of `s`, tracked from revision zero.
    fn from(s: &str) -> (r: Self)
        ensures
            r@ == s.spec_bytes(),
            r.rev() == 0,
            r.checked() == 0,
    {
        let bytes = s.as_bytes();
        let mut v: Vec<u8> = Vec::new();
        v.extend_from_slice(bytes);
        assert(v@ =~= bytes@);
        Self::n(v)
    }
}

impl vstd::std_specs::convert::FromSpecImpl<&str> for ChangeTrackingVec<u8> {
    open spec fn obeys_from_spec() -> bool {
        false
    }

    closed spec fn from_spec(s: &str) -> Self {
        vstd::pervasive::arbitrary()
    }
}

impl<T> IntoIterator for ChangeTrackingVec<T> {
    type Item = T;

    type IntoIter = std::vec::IntoIter<T>;

    /// The elements, by value, first to last.
    fn into_iter(self) -> (r: std::vec::IntoIter<T>)
        ensures
            r.remaining() == self@,
    {
        proof {
            vstd::std_specs::vec::axiom_spec_into_iter(self.inner);
        }
        self.inner.into_iter()
    }
}

impl<'a, T> IntoIterator for &'a ChangeTrackingVec<T> {
    type Item = &'a T;

    type IntoIter = std::slice::Iter<'a, T>;

    /// The elements, by reference, first to last; the revision stays.
    fn into_iter(self) -> (r: std::slice::Iter<'a, T>)
        ensures
            r.remaining() == self@.as_ref(),
    {
        let sl = self.inner.as_slice();
        proof {
            vstd::std_specs::slice::axiom_spec_slice_iter(sl);
        }
        sl.iter()
    }
}

impl<T> core::ops::Deref for ChangeTrackingVec<T> {
    type Target = [T];

    /// The elements as a slice; the revision stays.
    fn deref(&self) -> (r: &[T])
        ensures
            r@ == self@,
    {
        self.inner.as_slice()
    }
}

impl<T> AsRef<Vec<T>> for ChangeTrackingVec<T> {
    /// The underlying vector, read only; the revision stays.
    fn as_ref(&self) -> (r: &Vec<T>)
        ensures
            ({
                let v: &Vec<T> = r;
                v@ == self@
            }),
    {
        &self.inner
    }
}

impl<T> AsRef<[T]> for ChangeTrackingVec<T> {
    /// The elements as a slice; the revision stays.
    fn as_ref(&self) -> (r: &[T])
        ensures
            ({
                let s: &[T] = r;
                s@ == self@
            }),
    {
        self.inner.as_slice()
    }
}

impl<T> From<ChangeTrackingVec<T>> for Box<[T]> {
    /// The elements as a boxed slice, giving up the counter.
    fn from(v: ChangeTrackingVec<T>) -> (r: Box<[T]>)
        ensures
            r@ == v@,
    {
        v.into_boxed_slice()
    }
}

impl<T> vstd::std_specs::convert::FromSpecImpl<ChangeTrackingVec<T>> for Box<[T]> {
    open spec fn obeys_from_spec() -> bool {
        false
    }

    closed spec fn from_spec(v: ChangeTrackingVec<T>) -> Self {
        vstd::pervasive::arbitrary()
    }
}

impl<T: PartialEq> PartialEq for ChangeTrackingVec<T> {
    /// Compares the elements only, never the revisions.
    fn eq(&self, other: &Self) -> (r: bool) {
        self.inner == other.inner
    }
}

impl<T: PartialEq> vstd::std_specs::cmp::PartialEqSpecImpl for ChangeTrackingVec<T> {
    open spec fn obeys_eq_spec() -> bool {
        <T as PartialEqSpec>::obeys_eq_spec()
    }

    open spec fn eq_spec(&self, other: &Self) -> bool {
        elements_eq(self@, other@)
    }
}

impl<T: PartialOrd> PartialOrd for ChangeTrackingVec<T> {
    /// Orders by the elements only, first difference first, a prefix before
    /// any longer sequence; the revisions play no part.
    fn partial_cmp(&self, other: &Self) -> (r: Option<core::cmp::Ordering>) {
        let a = &self.inner;
        let b = &other.inner;
        let mut i: usize = 0;
        assert(self@ == a@ && other@ == b@);
        assert(a@.subrange(0, a@.len() as int) =~= a@);
        assert(b@.subrange(0, b@.len() as int) =~= b@);
        while i < a.len() && i < b.len()
            invariant
                self@ == a@,
                other@ == b@,
                i <= a@.len(),
                i <= b@.len(),
                <T as PartialOrdSpec>::obeys_partial_cmp_spec() ==> lex_cmp(a@, b@) == lex_cmp(
                    a@.subrange(i as int, a@.len() as int),
                    b@.subrange(i as int, b@.len() as int),
                ),
            decreases a@.len() - i,
        {
            let ghost ra = a@.subrange(i as int, a@.len() as int);
            let ghost rb = b@.subrange(i as int, b@.len() as int);
            assert(ra.drop_first() =~= a@.subrange(i + 1, a@.len() as int));
            assert(rb.drop_first() =~= b@.subrange(i + 1, b@.len() as int));
            assert(ra[0] == a@[i as int] && rb[0] == b@[i as int]);
            assert(lex_cmp(ra, rb) == match ra[0].partial_cmp_spec(&rb[0]) {
                Some(core::cmp::Ordering::Equal) => lex_cmp(ra.drop_first(), rb.drop_first()),
                o => o,
            });
            let o = a[i].partial_cmp(&b[i]);
            match o {
                Some(core::cmp::Ordering::Equal) => {},
                _ => {
                    return o;
                },
            }
            i = i + 1;
        }
        if a.len() == b.len() {
            Some(core::cmp::Ordering::Equal)
        } else if a.len() < b.len() {
            Some(core::cmp::Ordering::Less)
        } else {
            Some(core::cmp::Ordering::Greater)
        }
    }
}

impl<T: PartialOrd> vstd::std_specs::cmp::PartialOrdSpecImpl for ChangeTrackingVec<T> {
    open spec fn obeys_partial_cmp_spec() -> bool {
        <T as PartialOrdSpec>::obeys_partial_cmp_spec()
    }

    open spec fn partial_cmp_spec(&self, other: &Self) -> Option<core::cmp::Ordering> {
        lex_cmp(self@, other@)
    }
}

/// Lexicographic order by `T`'s own `partial_cmp`: the first pair of
/// elements that is not equal decides; if one sequence is a prefix of the
/// other, the shorter one comes first.
pub open spec fn lex_cmp<T: PartialOrd>(a: Seq<T>, b: Seq<T>) -> Option<core::cmp::Ordering>
    decreases a.len(),
{
    if a.len() == 0 || b.len() == 0 {
        if a.len() == b.len() {
            Some(core::cmp::Ordering::Equal)
        } else if a.len() < b.len() {
            Some(core::cmp::Ordering::Less)
        } else {
            Some(core::cmp::Ordering::Greater)
        }
    } else {
        match a[0].partial_cmp_spec(&b[0]) {
            Some(core::cmp::Ordering::Equal) => lex_cmp(a.drop_first(), b.drop_first()),
            o => o,
        }
    }
}

impl<T: Eq> Eq for ChangeTrackingVec<T> {

}

impl<T: core::hash::Hash> core::hash::Hash for ChangeTrackingVec<T> {
    /// Hashes the elements only, never the revisions.
    fn hash<H: core::hash::Hasher>(&self, state: &mut H) {
        hash_vec(&self.inner, state)
    }
}

/// The two sequences have the same length and equal elements at each
/// position, by `T`'s own `==`.
pub open spec fn elements_eq<T: PartialEq>(a: Seq<T>, b: Seq<T>) -> bool {
    &&& a.len() == b.len()
    &&& forall|i: int| 0 <= i < a.len() ==> #[trigger] a[i].eq_spec(&b[i])
}

} // verus!
