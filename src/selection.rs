use vstd::prelude::*;

use crate::item::Item;

verus! {

broadcast use vstd::seq_lib::group_seq_properties;

/// Position `i` is among the indices `sel`.
pub open spec fn chosen(sel: Seq<usize>, i: int) -> bool {
    exists|k: int| 0 <= k < sel.len() && sel[k] as int == i
}

/// The items of `items` whose position is among `sel`, in the order they stand
/// in `items`. Each is taken once; indices past the end match nothing.
pub open spec fn selected(items: Seq<Item>, sel: Seq<usize>) -> Seq<Item>
    decreases items.len(),
{
    if items.len() == 0 {
        Seq::empty()
    } else if chosen(sel, items.len() - 1) {
        selected(items.drop_last(), sel).push(items.last())
    } else {
        selected(items.drop_last(), sel)
    }
}

fn is_chosen(sel: &[usize], i: usize) -> (r: bool)
    ensures
        r == chosen(sel@, i as int),
{
    let mut k: usize = 0;
    while k < sel.len()
        invariant
            k <= sel@.len(),
            forall|j: int| 0 <= j < k ==> sel@[j] != i,
        decreases sel@.len() - k,
    {
        if sel[k] == i {
            return true;
        }
        k = k + 1;
    }
    false
}

/// Returns the items whose position appears in `selected_indices`, in the order
/// of `items` rather than that of the indices. Repeated indices select an item
/// once, and indices out of range are ignored.
pub fn select_items(items: &[Item], selected_indices: &[usize]) -> (r: Vec<Item>)
    ensures
        r@ == selected(items@, selected_indices@),
{
    let n: usize = items.len();
    let mut out: Vec<Item> = Vec::new();
    let mut i: usize = 0;
    while i < n
        invariant
            n == items@.len(),
            i <= n,
            out@ == selected(items@.take(i as int), selected_indices@),
        decreases n - i,
    {
        assert(items@.take(i as int + 1).drop_last() =~= items@.take(i as int));
        if is_chosen(selected_indices, i) {
            out.push(items[i]);
        }
        i = i + 1;
    }
    assert(items@.take(n as int) =~= items@);
    out
}

/// Selecting with no indices gives no items, whatever the items.
pub proof fn lemma_select_none(items: Seq<Item>)
    ensures
        selected(items, Seq::empty()) == Seq::<Item>::empty(),
    decreases items.len(),
{
    if items.len() > 0 {
        lemma_select_none(items.drop_last());
    }
}

/// Selecting with the one index `i`, within bounds, gives exactly `items[i]`.
pub proof fn lemma_select_one(items: Seq<Item>, i: usize)
    requires
        i < items.len(),
    ensures
        selected(items, seq![i]) == seq![items[i as int]],
    decreases items.len(),
{
    let sel = seq![i];
    if items.len() - 1 == i {
        assert(sel[0] == i);
        assert(chosen(sel, i as int));
        assert forall|j: int| 0 <= j < items.len() - 1 implies !chosen(sel, j) by {
            assert(sel.len() == 1 && sel[0] == i);
        }
        lemma_not_chosen_prefix(items.drop_last(), sel);
        assert(Seq::<Item>::empty().push(items.last()) =~= seq![items[i as int]]);
    } else {
        assert(sel.len() == 1 && sel[0] == i);
        assert(!chosen(sel, items.len() - 1));
        lemma_select_one(items.drop_last(), i);
    }
}

proof fn lemma_not_chosen_prefix(items: Seq<Item>, sel: Seq<usize>)
    requires
        forall|j: int| 0 <= j < items.len() ==> !chosen(sel, j),
    ensures
        selected(items, sel) == Seq::<Item>::empty(),
    decreases items.len(),
{
    if items.len() > 0 {
        lemma_not_chosen_prefix(items.drop_last(), sel);
    }
}

/// The selection depends on which indices are given, not on their order or
/// repetition: two index lists naming the same positions select the same items,
/// in the order of `items`.
pub proof fn lemma_select_ignores_index_order(
    items: Seq<Item>,
    sel1: Seq<usize>,
    sel2: Seq<usize>,
)
    requires
        forall|i: int| 0 <= i < items.len() ==> (chosen(sel1, i) <==> chosen(sel2, i)),
    ensures
        selected(items, sel1) == selected(items, sel2),
    decreases items.len(),
{
    if items.len() > 0 {
        lemma_select_ignores_index_order(items.drop_last(), sel1, sel2);
    }
}

} // verus!
