use vstd::prelude::*;

use crate::item::Item;

verus! {

/// The sum of the values of the items, as a mathematical integer.
pub open spec fn total_value(s: Seq<Item>) -> nat
    decreases s.len(),
{
    if s.len() == 0 {
        0
    } else {
        (total_value(s.drop_last()) + s.last().value) as nat
    }
}

/// The sum of the weights of the items, as a mathematical integer.
pub open spec fn total_weight(s: Seq<Item>) -> nat
    decreases s.len(),
{
    if s.len() == 0 {
        0
    } else {
        (total_weight(s.drop_last()) + s.last().weight) as nat
    }
}

/// A total as a `u64`, or `None` where it is too large for one.
pub open spec fn checked_total(t: nat) -> Option<u64> {
    if t <= u64::MAX {
        Some(t as u64)
    } else {
        None
    }
}

proof fn lemma_totals_grow(s: Seq<Item>, i: int, j: int)
    requires
        0 <= i <= j <= s.len(),
    ensures
        total_value(s.take(i)) <= total_value(s.take(j)),
        total_weight(s.take(i)) <= total_weight(s.take(j)),
    decreases j - i,
{
    if i < j {
        lemma_totals_grow(s, i, j - 1);
        assert(s.take(j).drop_last() =~= s.take(j - 1));
    }
}

/// The sum of the values of `items`; `None` where it exceeds `u64::MAX`
/// (the sum never wraps). The sum over no items is zero.
pub fn sum_values(items: &[Item]) -> (r: Option<u64>)
    ensures
        r == checked_total(total_value(items@)),
{
    let n: usize = items.len();
    let mut acc: u64 = 0;
    let mut i: usize = 0;
    while i < n
        invariant
            n == items@.len(),
            i <= n,
            acc == total_value(items@.take(i as int)),
        decreases n - i,
    {
        assert(items@.take(i as int + 1).drop_last() =~= items@.take(i as int));
        let v = items[i].value;
        if v > u64::MAX - acc {
            proof {
                lemma_totals_grow(items@, i as int + 1, n as int);
                assert(items@.take(n as int) =~= items@);
            }
            return None;
        }
        acc = acc + v;
        i = i + 1;
    }
    assert(items@.take(n as int) =~= items@);
    Some(acc)
}

/// The sum of the weights of `items`; `None` where it exceeds `u64::MAX`
/// (the sum never wraps). The sum over no items is zero.
pub fn sum_weights(items: &[Item]) -> (r: Option<u64>)
    ensures
        r == checked_total(total_weight(items@)),
{
    let n: usize = items.len();
    let mut acc: u64 = 0;
    let mut i: usize = 0;
    while i < n
        invariant
            n == items@.len(),
            i <= n,
            acc == total_weight(items@.take(i as int)),
        decreases n - i,
    {
        assert(items@.take(i as int + 1).drop_last() =~= items@.take(i as int));
        let w = items[i].weight;
        if w > u64::MAX - acc {
            proof {
                lemma_totals_grow(items@, i as int + 1, n as int);
                assert(items@.take(n as int) =~= items@);
            }
            return None;
        }
        acc = acc + w;
        i = i + 1;
    }
    assert(items@.take(n as int) =~= items@);
    Some(acc)
}

} // verus!
