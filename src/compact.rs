//! Removing elements in place by a vector of keep flags, and the spec
//! functions that describe the result.
use vstd::prelude::*;
use vstd::std_specs::cmp::PartialEqSpec;

verus! {

/// The elements of `s` at the positions where `keep` is true, in order.
pub open spec fn select<T>(s: Seq<T>, keep: Seq<bool>) -> Seq<T>
    decreases s.len(),
{
    if s.len() == 0 {
        Seq::empty()
    } else {
        let rest = select(s.drop_last(), keep.subrange(0, s.len() - 1));
        if keep[s.len() - 1] {
            rest.push(s.last())
        } else {
            rest
        }
    }
}

/// One call of `key` on `a` and one on `b` give keys whose `==` is `r`,
/// wherever `K`'s `==` follows its specification.
pub open spec fn keys_match<T, K: PartialEq, F: Fn(&T) -> K>(key: &F, a: &T, b: &T, r: bool) -> bool {
    exists|ka: K, kb: K|
        {
            &&& #[trigger] key.ensures((a,), ka)
            &&& #[trigger] key.ensures((b,), kb)
            &&& <K as PartialEqSpec>::obeys_eq_spec() ==> r == ka.eq_spec(&kb)
        }
}

/// The last position before `i` where `keep` is true, or -1 if none is.
pub open spec fn prior_kept(keep: Seq<bool>, i: int) -> int
    decreases i,
{
    if i <= 0 {
        -1
    } else if keep[i - 1] {
        i - 1
    } else {
        prior_kept(keep, i - 1)
    }
}

/// Positions before `keep.len()` see the same prior kept position after
/// one more flag is added.
proof fn lemma_prior_kept_push(keep: Seq<bool>, b: bool, i: int)
    requires
        i <= keep.len(),
    ensures
        prior_kept(keep.push(b), i) == prior_kept(keep, i),
    decreases i,
{
    if i > 0 {
        lemma_prior_kept_push(keep, b, i - 1);
    }
}

/// Decides, by `same`, which elements of `v` to keep: the first one always,
/// and each later one unless `same` says it belongs with the last one kept.
pub(crate) fn dedup_flags<T, F: Fn(&T, &T) -> bool>(v: &Vec<T>, same: &F) -> (keep: Vec<bool>)
    requires
        forall|a: &T, b: &T| #[trigger] same.requires((a, b)),
    ensures
        keep@.len() == v@.len(),
        v@.len() > 0 ==> keep@[0],
        forall|i: int|
            0 < i < keep@.len() ==> same.ensures(
                (&v@[i], &v@[prior_kept(keep@, i)]),
                !(#[trigger] keep@[i]),
            ),
{
    let n = v.len();
    let mut keep: Vec<bool> = Vec::new();
    if n == 0 {
        return keep;
    }
    keep.push(true);
    let mut last: usize = 0;
    let mut i: usize = 1;
    while i < n
        invariant
            n == v@.len(),
            1 <= i <= n,
            keep@.len() == i,
            keep@[0],
            last < i,
            last as int == prior_kept(keep@, i as int),
            forall|a: &T, b: &T| #[trigger] same.requires((a, b)),
            forall|k: int|
                0 < k < i ==> same.ensures(
                    (&v@[k], &v@[prior_kept(keep@, k)]),
                    !(#[trigger] keep@[k]),
                ),
        decreases n - i,
    {
        let dup = same(&v[i], &v[last]);
        let ghost prev = keep@;
        keep.push(!dup);
        proof {
            assert forall|k: int| 0 < k <= i implies prior_kept(keep@, k) == prior_kept(prev, k) by {
                lemma_prior_kept_push(prev, !dup, k);
            }
            assert(keep@[i as int] == !dup);
        }
        if !dup {
            last = i;
        }
        i = i + 1;
    }
    keep
}

/// Keeps the elements of `v` at the positions where `keep` is true, in order.
pub(crate) fn keep_only<T>(v: &mut Vec<T>, keep: &Vec<bool>)
    requires
        keep@.len() == old(v)@.len(),
    ensures
        final(v)@ == select(old(v)@, keep@),
{
    let ghost orig = v@;
    let n = v.len();
    let mut stack: Vec<T> = Vec::new();
    while v.len() > 0
        invariant
            n == orig.len(),
            v@ == orig.subrange(0, v@.len() as int),
            stack@.len() == n - v@.len(),
            forall|k: int| 0 <= k < stack@.len() ==> #[trigger] stack@[k] == orig[n - 1 - k],
        decreases v@.len(),
    {
        let x = v.pop().unwrap();
        stack.push(x);
    }
    assert(select(orig.subrange(0, 0), keep@.subrange(0, 0)) == Seq::<T>::empty());
    while stack.len() > 0
        invariant
            n == orig.len(),
            keep@.len() == n,
            stack@.len() <= n,
            forall|k: int| 0 <= k < stack@.len() ==> #[trigger] stack@[k] == orig[n - 1 - k],
            v@ == select(
                orig.subrange(0, n - stack@.len()),
                keep@.subrange(0, n - stack@.len()),
            ),
        decreases stack@.len(),
    {
        let ghost j = n - stack@.len();
        let x = stack.pop().unwrap();
        assert(x == orig[j]);
        let ghost s1 = orig.subrange(0, j + 1);
        let ghost k1 = keep@.subrange(0, j + 1);
        assert(s1.drop_last() =~= orig.subrange(0, j));
        assert(k1.subrange(0, j) =~= keep@.subrange(0, j));
        if keep[n - 1 - stack.len()] {
            v.push(x);
        }
    }
    assert(orig.subrange(0, n as int) =~= orig);
    assert(keep@.subrange(0, n as int) =~= keep@);
}

} // verus!
