use knapsack_items::{select_items, Item};

fn abc() -> Vec<Item> {
    vec![
        Item { value: 1, weight: 10 },
        Item { value: 2, weight: 20 },
        Item { value: 3, weight: 30 },
    ]
}

#[test]
fn select_follows_item_order() {
    let items = abc();
    assert_eq!(select_items(&items, &[2, 0]), vec![items[0], items[2]]);
}

#[test]
fn select_with_no_indices_is_empty() {
    let items = abc();
    assert!(select_items(&items, &[]).is_empty());
    assert!(select_items(&[], &[]).is_empty());
}

#[test]
fn select_one_index() {
    let items = abc();
    assert_eq!(select_items(&items, &[1]), vec![items[1]]);
}

#[test]
fn select_ignores_duplicates_and_out_of_range() {
    let items = abc();
    assert_eq!(select_items(&items, &[1, 7, 1, 3]), vec![items[1]]);
    assert!(select_items(&items, &[5]).is_empty());
}
