use knapsack_items::{sort_by_density, Item};

#[test]
fn density_1() {
    let items: Vec<Item> = vec![
        Item { value: 3, weight: 1 },
        Item { value: 1, weight: 6 },
        Item { value: 1, weight: 10 },
        Item { value: 1, weight: 8 },
        Item { value: 1, weight: 1 },
        Item { value: 6, weight: 1 },
    ];
    let sorted = sort_by_density(&items);
    let correct: Vec<usize> = vec![5, 0, 4, 1, 3, 2];
    for (i, ix) in correct.iter().enumerate() {
        assert!(sorted[i] == items[*ix]);
    }
}

#[test]
fn density_2() {
    let items: Vec<Item> = vec![
        Item { value: 60, weight: 60 },
        Item { value: 60, weight: 30 },
        Item { value: 60, weight: 20 },
        Item { value: 60, weight: 15 },
        Item { value: 60, weight: 12 },
        Item { value: 60, weight: 10 },
        Item { value: 60, weight: 6 },
        Item { value: 60, weight: 5 },
        Item { value: 60, weight: 4 },
        Item { value: 60, weight: 3 },
        Item { value: 60, weight: 2 },
        Item { value: 60, weight: 1 },
    ];
    let sorted = sort_by_density(&items);
    let correct: Vec<usize> = vec![11, 10, 9, 8, 7, 6, 5, 4, 3, 2, 1, 0];
    for (i, ix) in correct.iter().enumerate() {
        assert!(sorted[i] == items[*ix]);
    }
}

#[test]
fn density_3() {
    let items: Vec<Item> = vec![
        Item { value: 1, weight: 60 },
        Item { value: 2, weight: 60 },
        Item { value: 3, weight: 60 },
        Item { value: 4, weight: 60 },
        Item { value: 5, weight: 60 },
        Item { value: 6, weight: 60 },
        Item { value: 10, weight: 60 },
        Item { value: 12, weight: 62 },
        Item { value: 15, weight: 65 },
        Item { value: 20, weight: 60 },
        Item { value: 30, weight: 60 },
        Item { value: 60, weight: 60 },
    ];
    let sorted = sort_by_density(&items);
    let correct: Vec<usize> = vec![11, 10, 9, 8, 7, 6, 5, 4, 3, 2, 1, 0];
    for (i, ix) in correct.iter().enumerate() {
        assert!(sorted[i] == items[*ix]);
    }
}

#[test]
fn ranking_reference_scenario() {
    let items: Vec<Item> = vec![
        Item { value: 3, weight: 1 },
        Item { value: 1, weight: 1 },
        Item { value: 1, weight: 6 },
        Item { value: 6, weight: 1 },
    ];
    let sorted = sort_by_density(&items);
    assert_eq!(sorted, vec![items[3], items[0], items[1], items[2]]);
}

#[test]
fn ranking_is_stable_on_equal_density() {
    let items: Vec<Item> = vec![Item { value: 1, weight: 1 }, Item { value: 2, weight: 2 }];
    let sorted = sort_by_density(&items);
    assert_eq!(sorted, vec![items[0], items[1]]);
    let reversed: Vec<Item> = vec![Item { value: 2, weight: 2 }, Item { value: 1, weight: 1 }];
    assert_eq!(sort_by_density(&reversed), reversed);
}

#[test]
fn ranking_keeps_every_item_and_descends() {
    let items: Vec<Item> = vec![
        Item { value: 5, weight: 3 },
        Item { value: 1, weight: 9 },
        Item { value: 5, weight: 3 },
        Item { value: 7, weight: 2 },
        Item { value: 0, weight: 4 },
    ];
    let sorted = sort_by_density(&items);
    assert_eq!(sorted.len(), items.len());
    for w in sorted.windows(2) {
        assert!(w[0].denser_or_equal(&w[1]));
    }
    let mut a: Vec<(u64, u64)> = items.iter().map(|i| (i.value, i.weight)).collect();
    let mut b: Vec<(u64, u64)> = sorted.iter().map(|i| (i.value, i.weight)).collect();
    a.sort();
    b.sort();
    assert_eq!(a, b);
}

#[test]
fn ranking_puts_zero_weight_first() {
    let items: Vec<Item> = vec![
        Item { value: 100, weight: 1 },
        Item { value: 0, weight: 0 },
        Item { value: 5, weight: 0 },
        Item { value: 1, weight: 2 },
    ];
    let sorted = sort_by_density(&items);
    assert_eq!(sorted, vec![items[1], items[2], items[0], items[3]]);
}

#[test]
fn ranking_of_nothing_is_empty() {
    let items: Vec<Item> = vec![];
    assert!(sort_by_density(&items).is_empty());
}

#[test]
fn ranking_compares_exactly_at_large_values() {
    let a = Item { value: u64::MAX, weight: u64::MAX - 1 };
    let b = Item { value: u64::MAX - 1, weight: u64::MAX - 2 };
    // (2^64-1)/(2^64-2) is less than (2^64-2)/(2^64-3)
    assert!(!a.denser_or_equal(&b));
    assert!(b.denser_or_equal(&a));
    assert_eq!(sort_by_density(&[a, b]), vec![b, a]);
}

#[test]
fn ranking_matches_a_stable_sort_on_many_items() {
    let mut items: Vec<Item> = Vec::new();
    for k in 0..97u64 {
        items.push(Item { value: (k * 37) % 11, weight: (k * 13) % 5 });
    }
    let mut expected = items.clone();
    expected.sort_by(|a, b| {
        let key = |x: &Item| (x.weight == 0, x.value as u128, x.weight as u128);
        let (az, av, aw) = key(a);
        let (bz, bv, bw) = key(b);
        match (az, bz) {
            (true, true) => std::cmp::Ordering::Equal,
            (true, false) => std::cmp::Ordering::Less,
            (false, true) => std::cmp::Ordering::Greater,
            (false, false) => (bv * aw).cmp(&(av * bw)),
        }
    });
    assert_eq!(sort_by_density(&items), expected);
}
