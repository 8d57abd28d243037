use knapsack_items::{make_items, make_rand_item, Item};

#[test]
fn rand_item_takes_value_then_weight() {
    let item = make_rand_item(7, 20, 1, 10, 20, 29);
    assert_eq!(item, Item { value: 7, weight: 20 });
    assert_eq!(make_rand_item(7, 7, 5, 10, 5, 10), Item { value: 7, weight: 7 });
}

#[test]
fn make_items_has_requested_length() {
    let draws: Vec<u64> = vec![1, 11, 2, 12, 3, 10, 5, 11];
    let items = make_items(&draws, 4, 1, 5, 10, 12);
    assert_eq!(items.len(), 4);
    for it in &items {
        assert!(1 <= it.value && it.value <= 5);
        assert!(10 <= it.weight && it.weight <= 12);
    }
    assert_eq!(items[0], Item { value: 1, weight: 11 });
    assert_eq!(items[3], Item { value: 5, weight: 11 });
    assert_eq!(make_items(&[7, 7], 1, 5, 10, 5, 10), vec![Item { value: 7, weight: 7 }]);
    assert!(make_items(&[], 0, 1, 5, 1, 5).is_empty());
}
