use vstd::prelude::*;
use vstd::std_specs::cmp::PartialEqSpec;

use crate::compact::select;
use crate::tracked_vec::ChangeTrackingVec;

verus! {

/// Over any run of counted calls, each taking one state to the next, the
/// revision grows by exactly the number of calls.
pub proof fn lemma_revision_counts_calls<T>(states: Seq<ChangeTrackingVec<T>>)
    requires
        states.len() > 0,
        forall|i: int| 0 <= i < states.len() - 1 ==> #[trigger] states[i + 1].bumped_from(&states[i]),
    ensures
        states.last().rev() == states[0].rev() + (states.len() - 1),
        states.last().rev() >= states[0].rev(),
    decreases states.len(),
{
    if states.len() > 1 {
        let prefix = states.drop_last();
        assert forall|i: int| 0 <= i < prefix.len() - 1 implies #[trigger] prefix[i + 1].bumped_from(
            &prefix[i],
        ) by {
            assert(states[i + 1].bumped_from(&states[i]));
        }
        lemma_revision_counts_calls(prefix);
        let k = states.len() - 2;
        assert(states[k + 1].bumped_from(&states[k]));
        assert(prefix.last() == states[k]);
    }
}

/// A new sequence reports no change; one counted call later it reports a
/// change; once that report is taken, it reports none again.
pub proof fn lemma_change_is_reported_once<T>(
    fresh: ChangeTrackingVec<T>,
    after_call: ChangeTrackingVec<T>,
    after_check: ChangeTrackingVec<T>,
)
    requires
        fresh.rev() == 0,
        fresh.checked() == 0,
        after_call.bumped_from(&fresh),
        after_check.rev() == after_call.rev(),
        after_check.checked() == after_call.rev(),
    ensures
        !fresh.is_dirty(),
        after_call.is_dirty(),
        !after_check.is_dirty(),
{
}

/// Right after `changed` has been asked (nothing pending), one counted call
/// makes `changed` report a change, whatever that call did to the elements.
pub proof fn lemma_one_call_after_check_is_reported<T>(
    observed: ChangeTrackingVec<T>,
    after_call: ChangeTrackingVec<T>,
)
    requires
        !observed.is_dirty(),
        after_call.bumped_from(&observed),
    ensures
        after_call.is_dirty(),
        after_call.rev() == observed.rev() + 1,
{
}

/// Keeping every position keeps the whole sequence: a `retain` or `dedup`
/// that removes nothing leaves the elements as they were (and, as every
/// counted call, still raises the revision by one).
pub proof fn lemma_select_keeping_all<T>(s: Seq<T>, keep: Seq<bool>)
    requires
        keep.len() == s.len(),
        forall|i: int| 0 <= i < keep.len() ==> #[trigger] keep[i],
    ensures
        select(s, keep) == s,
    decreases s.len(),
{
    if s.len() > 0 {
        let k = keep.subrange(0, s.len() - 1);
        assert forall|i: int| 0 <= i < k.len() implies #[trigger] k[i] by {
            assert(keep[i]);
        }
        lemma_select_keeping_all(s.drop_last(), k);
        assert(keep[s.len() - 1]);
        assert(s.drop_last().push(s.last()) =~= s);
    }
}

/// Whether two sequences compare equal depends on their elements alone:
/// swapping one for another with the same elements and any revisions
/// leaves the answer as it was.
pub proof fn lemma_eq_ignores_revisions<T: PartialEq>(
    a: ChangeTrackingVec<T>,
    b: ChangeTrackingVec<T>,
    b2: ChangeTrackingVec<T>,
)
    requires
        b2@ == b@,
    ensures
        a.eq_spec(&b) == a.eq_spec(&b2),
        b.eq_spec(&a) == b2.eq_spec(&a),
{
}

/// Inserting at `i` keeps every other element, in order: those before `i`
/// stay where they were and those from `i` on move up by one.
pub proof fn lemma_insert_keeps_order<T>(s: Seq<T>, i: int, x: T)
    requires
        0 <= i <= s.len(),
    ensures
        s.insert(i, x).len() == s.len() + 1,
        s.insert(i, x)[i] == x,
        forall|j: int| 0 <= j < i ==> #[trigger] s.insert(i, x)[j] == s[j],
        forall|j: int| i <= j < s.len() ==> s.insert(i, x)[j + 1] == #[trigger] s[j],
{
}

/// Removing at `i` keeps every other element, in order: those before `i`
/// stay where they were and those after `i` move down by one.
pub proof fn lemma_remove_keeps_order<T>(s: Seq<T>, i: int)
    requires
        0 <= i < s.len(),
    ensures
        s.remove(i).len() == s.len() - 1,
        forall|j: int| 0 <= j < i ==> #[trigger] s.remove(i)[j] == s[j],
        forall|j: int| i < j < s.len() ==> s.remove(i)[j - 1] == #[trigger] s[j],
{
}

/// Swap-removing at `i` does not keep the order: the last element takes
/// the freed place, and every other element stays where it was.
pub proof fn lemma_swap_remove_moves_last<T>(s: Seq<T>, i: int)
    requires
        0 <= i < s.len(),
    ensures
        s.update(i, s.last()).drop_last().len() == s.len() - 1,
        i < s.len() - 1 ==> s.update(i, s.last()).drop_last()[i] == s.last(),
        forall|j: int|
            0 <= j < s.len() - 1 && j != i ==> #[trigger] s.update(i, s.last()).drop_last()[j] == s[j],
{
}

} // verus!
