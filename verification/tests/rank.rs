use call_browser::rank::arrange;
use call_browser::rank::find_slot;
use call_browser::rank::rank;
use call_browser::row::Item;

fn item(node: u32, key: u64) -> Item {
    Item { node, key, label: format!("row {}", node) }
}

fn items(keys: &[u64]) -> Vec<Item> {
    keys.iter().enumerate().map(|(i, key)| item(i as u32, *key)).collect()
}

fn nodes(items: &[Item]) -> Vec<u32> {
    items.iter().map(|item| item.node).collect()
}

fn sorted_like_the_standard_library(keys: &[u64]) -> Vec<Item> {
    let mut expected = items(keys);
    expected.sort_by(|a, b| b.key.cmp(&a.key));
    expected
}

#[test]
fn ranking_nothing_gives_nothing() {
    assert!(rank(Vec::new()).is_empty());
}

#[test]
fn ranking_puts_the_highest_key_first() {
    assert_eq!(nodes(&rank(items(&[5, 0, 3, 8]))), vec![3, 0, 2, 1]);
    assert_eq!(nodes(&rank(items(&[1, 2, 3]))), vec![2, 1, 0]);
    assert_eq!(nodes(&rank(items(&[3, 2, 1]))), vec![0, 1, 2]);
    assert_eq!(nodes(&rank(items(&[4]))), vec![0]);
}

#[test]
fn ranking_keeps_ties_in_order() {
    assert_eq!(nodes(&rank(items(&[7, 0, 7, 0, 9, 7]))), vec![4, 0, 2, 5, 1, 3]);
    assert_eq!(nodes(&rank(items(&[2, 2, 2, 2]))), vec![0, 1, 2, 3]);
    assert_eq!(nodes(&rank(items(&[0, u64::MAX, 0, u64::MAX]))), vec![1, 3, 0, 2]);
}

#[test]
fn ranking_keeps_every_row() {
    let ranked = rank(items(&[1, 9, 1, 4]));
    assert_eq!(ranked.len(), 4);
    for row in items(&[1, 9, 1, 4]) {
        assert!(ranked.contains(&row));
    }
}

#[test]
fn ranking_agrees_with_a_stable_sort() {
    let cases: [&[u64]; 6] = [
        &[],
        &[1],
        &[5, 0, 3, 8],
        &[3, 1, 4, 1, 5, 9, 2, 6, 5, 3, 5, 8, 9, 7, 9],
        &[0, 0, 0, 1, 0, 0],
        &[9, 8, 7, 7, 8, 9, 7, 8, 9],
    ];
    for keys in cases.iter() {
        assert_eq!(rank(items(keys)), sorted_like_the_standard_library(keys));
    }
    let mut seed: u64 = 12345;
    for len in 0..40usize {
        let mut keys = Vec::new();
        for _ in 0..len {
            seed = seed.wrapping_mul(6364136223846793005).wrapping_add(1442695040888963407);
            keys.push((seed >> 33) % 5);
        }
        assert_eq!(rank(items(&keys)), sorted_like_the_standard_library(&keys));
    }
}

#[test]
fn the_slot_is_behind_the_higher_keys() {
    let ranked = items(&[9, 7, 7, 3]);
    assert_eq!(find_slot(&ranked, 10), 0);
    assert_eq!(find_slot(&ranked, 9), 0);
    assert_eq!(find_slot(&ranked, 8), 1);
    assert_eq!(find_slot(&ranked, 7), 1);
    assert_eq!(find_slot(&ranked, 5), 3);
    assert_eq!(find_slot(&ranked, 3), 3);
    assert_eq!(find_slot(&ranked, 0), 4);
    assert_eq!(find_slot(&Vec::new(), 0), 0);
}

#[test]
fn up_to_three_rows_are_left_as_they_are() {
    assert!(arrange(Vec::new()).is_empty());
    assert_eq!(nodes(&arrange(items(&[0]))), vec![0]);
    assert_eq!(nodes(&arrange(items(&[0, 1]))), vec![0, 1]);
    assert_eq!(nodes(&arrange(items(&[0, 1, 2]))), vec![0, 1, 2]);
    assert_eq!(nodes(&arrange(items(&[0, 1, 900]))), vec![0, 1, 2]);
}

#[test]
fn more_than_three_rows_are_ranked_behind_the_first() {
    assert_eq!(nodes(&arrange(items(&[0, 1, 2, 3]))), vec![0, 3, 2, 1]);
    assert_eq!(nodes(&arrange(items(&[0, 5, 0, 3, 8]))), vec![0, 4, 1, 3, 2]);
}

#[test]
fn the_first_row_stays_first_whatever_its_key() {
    assert_eq!(nodes(&arrange(items(&[0, 3, 2, 1]))), vec![0, 1, 2, 3]);
    assert_eq!(nodes(&arrange(items(&[100, 1, 2, 3]))), vec![0, 3, 2, 1]);
    assert_eq!(nodes(&arrange(items(&[2, 1, 2, 3]))), vec![0, 3, 2, 1]);
}
