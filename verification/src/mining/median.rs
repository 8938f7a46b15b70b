//! The lower median.

use vstd::prelude::*;

verus! {

/// Where `value` goes among the first `n` of an ascending sequence.
pub open spec fn slot(sorted: Seq<i64>, value: i64, n: int) -> int
    decreases n,
{
    if n <= 0 {
        0
    } else if sorted[n - 1] > value {
        slot(sorted, value, n - 1)
    } else {
        n
    }
}

/// The values in ascending order.
pub open spec fn ascending(values: Seq<i64>) -> Seq<i64>
    decreases values.len(),
{
    if values.len() == 0 {
        Seq::empty()
    } else {
        let before = ascending(values.drop_last());
        before.insert(slot(before, values.last(), before.len() as int), values.last())
    }
}

/// The middle one of the values in ascending order, the lower of the two middle ones
/// where their number is even, and 0 where there is none.
pub open spec fn median_of(values: Seq<i64>) -> i64 {
    if values.len() == 0 {
        0
    } else {
        ascending(values)[(values.len() - 1) / 2]
    }
}

proof fn slot_in_bounds(sorted: Seq<i64>, value: i64, n: int)
    requires
        0 <= n <= sorted.len(),
    ensures
        0 <= slot(sorted, value, n) <= n,
        forall|i: int| slot(sorted, value, n) <= i < n ==> sorted[i] > value,
        slot(sorted, value, n) > 0 ==> sorted[slot(sorted, value, n) - 1] <= value,
    decreases n,
{
    if n > 0 && sorted[n - 1] > value {
        slot_in_bounds(sorted, value, n - 1);
    }
}

/// Putting values in ascending order neither adds nor drops any and leaves none behind
/// a greater one.
pub proof fn ascending_is_sorted_permutation(values: Seq<i64>)
    ensures
        ascending(values).len() == values.len(),
        ascending(values).to_multiset() == values.to_multiset(),
        forall|i: int, j: int|
            0 <= i <= j < values.len() ==> #[trigger] ascending(values)[i] <= #[trigger] ascending(
                values,
            )[j],
    decreases values.len(),
{
    broadcast use vstd::seq_lib::group_to_multiset_ensures;

    if values.len() > 0 {
        let rest = values.drop_last();
        let before = ascending(rest);
        ascending_is_sorted_permutation(rest);
        let at = slot(before, values.last(), before.len() as int);
        slot_in_bounds(before, values.last(), before.len() as int);
        assert(values =~= rest.push(values.last()));
        let after = before.insert(at, values.last());
        assert(after.remove(at) =~= before);
        assert(after.to_multiset().remove(values.last()) == before.to_multiset());
        assert(after.contains(after[at]));
        assert(after.to_multiset() =~= before.to_multiset().insert(values.last()));
        assert forall|i: int, j: int| 0 <= i <= j < values.len() implies after[i] <= after[j] by {
            if i < at && j > at {
                assert(after[i] == before[i]);
                assert(after[j] == before[j - 1]);
            } else if i < at && j == at {
                assert(after[i] == before[i]);
                assert(before[i] <= before[at - 1]);
            } else if i == at && j > at {
                assert(after[j] == before[j - 1]);
            } else if i > at {
                assert(after[i] == before[i - 1]);
                assert(after[j] == before[j - 1]);
            }
        }
    } else {
        assert(ascending(values) =~= values);
    }
}

/// The median is one of the values; in ascending order none before it is greater, and
/// none behind it is smaller.
pub proof fn median_splits(values: Seq<i64>)
    requires
        values.len() > 0,
    ensures
        values.contains(median_of(values)),
        forall|i: int|
            0 <= i <= (values.len() - 1) / 2 ==> #[trigger] ascending(values)[i] <= median_of(
                values,
            ),
        forall|i: int|
            (values.len() - 1) / 2 <= i < values.len() ==> #[trigger] ascending(values)[i]
                >= median_of(values),
{
    broadcast use vstd::seq_lib::group_to_multiset_ensures;

    ascending_is_sorted_permutation(values);
    assert(ascending(values).contains(median_of(values)));
    assert(ascending(values).to_multiset().count(median_of(values)) > 0);
}

pub fn median(values: &[i64]) -> (r: i64)
    ensures
        r == median_of(values@),
{
    if values.len() == 0 {
        return 0;
    }
    let mut sorted: Vec<i64> = Vec::new();
    for i in 0..values.len()
        invariant
            sorted@ == ascending(values@.take(i as int)),
            sorted@.len() == i,
    {
        let value: i64 = values[i];
        let mut n: usize = sorted.len();
        while n > 0 && sorted[n - 1] > value
            invariant
                n <= sorted@.len(),
                slot(sorted@, value, sorted@.len() as int) == slot(sorted@, value, n as int),
            decreases n,
        {
            n = n - 1;
        }
        sorted.insert(n, value);
        proof {
            assert(values@.take(i + 1).drop_last() =~= values@.take(i as int));
        }
    }
    proof {
        assert(values@.take(values@.len() as int) =~= values@);
    }
    sorted[(sorted.len() - 1) / 2]
}

} // verus!
