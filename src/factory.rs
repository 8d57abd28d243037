use vstd::prelude::*;

use crate::item::Item;

verus! {

/// Makes one item from two answers of a bounded random source: the first,
/// drawn from `[min_value, max_value]`, is its value; the second, drawn from
/// `[min_weight, max_weight]`, is its weight.
pub fn make_rand_item(
    value: u64,
    weight: u64,
    min_value: u64,
    max_value: u64,
    min_weight: u64,
    max_weight: u64,
) -> (r: Item)
    requires
        min_value <= value <= max_value,
        min_weight <= weight <= max_weight,
    ensures
        r == (Item { value, weight }),
        min_value <= r.value <= max_value,
        min_weight <= r.weight <= max_weight,
{
    Item { value, weight }
}

/// Makes `num_items` items from the answers of a bounded random source, taken
/// in the order they were drawn: item `k` has its value from answer `2k`, drawn
/// from `[min_value, max_value]`, and its weight from answer `2k + 1`, drawn
/// from `[min_weight, max_weight]`. No items are made from no answers.
pub fn make_items(
    draws: &[u64],
    num_items: usize,
    min_value: u64,
    max_value: u64,
    min_weight: u64,
    max_weight: u64,
) -> (r: Vec<Item>)
    requires
        draws@.len() == 2 * num_items,
        forall|k: int|
            0 <= k < num_items ==> min_value <= #[trigger] draws@[2 * k] <= max_value,
        forall|k: int|
            0 <= k < num_items ==> min_weight <= #[trigger] draws@[2 * k + 1] <= max_weight,
    ensures
        r@.len() == num_items,
        forall|k: int|
            0 <= k < num_items ==> #[trigger] r@[k] == (Item {
                value: draws@[2 * k],
                weight: draws@[2 * k + 1],
            }),
        forall|k: int|
            0 <= k < num_items ==> min_value <= (#[trigger] r@[k]).value <= max_value
                && min_weight <= r@[k].weight <= max_weight,
{
    let n_draws: usize = draws.len();
    let mut items: Vec<Item> = Vec::new();
    let mut k: usize = 0;
    while k < num_items
        invariant
            n_draws == draws@.len(),
            draws@.len() == 2 * num_items,
            forall|j: int|
                0 <= j < num_items ==> min_value <= #[trigger] draws@[2 * j] <= max_value,
            forall|j: int|
                0 <= j < num_items ==> min_weight <= #[trigger] draws@[2 * j + 1] <= max_weight,
            k <= num_items,
            items@.len() == k,
            forall|j: int|
                0 <= j < k ==> #[trigger] items@[j] == (Item {
                    value: draws@[2 * j],
                    weight: draws@[2 * j + 1],
                }),
        decreases num_items - k,
    {
        let d: usize = 2 * k;
        assert(min_value <= draws@[2 * k as int] <= max_value);
        assert(min_weight <= draws@[2 * k as int + 1] <= max_weight);
        let item = make_rand_item(
            draws[d],
            draws[d + 1],
            min_value,
            max_value,
            min_weight,
            max_weight,
        );
        items.push(item);
        k = k + 1;
    }
    items
}

} // verus!
