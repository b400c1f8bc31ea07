use termenu::{rank_items, Item, Ranker, PARALLEL_THRESHOLD};

fn items_of(labels: &[&str]) -> Vec<Item<usize>> {
    labels.iter().enumerate().map(|(i, l)| Item::new(l, i)).collect()
}

fn chars(s: &str) -> Vec<char> {
    s.chars().collect()
}

#[test]
fn rank_items_orders_by_score_then_index() {
    let mut items = items_of(&["a", "b", "c", "d", "e"]);
    let outcomes = vec![
        Some((5, vec![0])),
        None,
        Some((9, vec![0])),
        Some((5, vec![0])),
        Some((7, vec![0])),
    ];
    let r = rank_items(&mut items, outcomes);
    assert_eq!(r, vec![2, 4, 0, 3]);
    assert_eq!(items[2].score(), Some(9));
    assert_eq!(items[1].score(), None);
    assert_eq!(items[0].matched_positions(), Some(&vec![0]));
}

#[test]
fn rank_items_drops_zero_and_negative_scores() {
    let mut items = items_of(&["a", "b", "c"]);
    let outcomes = vec![Some((0, vec![])), Some((-3, vec![1])), Some((1, vec![2]))];
    let r = rank_items(&mut items, outcomes);
    assert_eq!(r, vec![2]);
    assert_eq!(items[0].score(), None);
    assert!(items[1].matched_positions().is_none());
    assert_eq!(items[2].score(), Some(1));
    assert_eq!(items[2].matched_positions(), Some(&vec![2]));
}

#[test]
fn rank_items_of_nothing_is_empty() {
    let mut items: Vec<Item<usize>> = Vec::new();
    assert!(rank_items(&mut items, Vec::new()).is_empty());
}

#[test]
fn ranking_keeps_positive_scores_in_non_increasing_order() {
    let labels = ["src/main.rs", "readme", "src/menu.rs", "Makefile", "mod.rs", "m", "emu"];
    let mut items = items_of(&labels);
    let mut ranker = Ranker::new();
    let r = ranker.rank(&mut items, &chars("mu"));
    assert!(!r.is_empty());
    let scores: Vec<i64> = r.iter().map(|&i| items[i].score().unwrap()).collect();
    assert!(scores.iter().all(|&s| s > 0));
    assert!(scores.windows(2).all(|w| w[0] >= w[1]));
    for (i, it) in items.iter().enumerate() {
        assert_eq!(it.score().is_some(), r.contains(&i));
    }
}

#[test]
fn ranking_twice_gives_the_same_result() {
    let labels = ["alpha", "alphabet", "gamma", "lambda", "zeta", "al"];
    let mut items = items_of(&labels);
    let mut ranker = Ranker::new();
    let q = chars("al");
    let r1 = ranker.rank(&mut items, &q);
    let s1: Vec<Option<i64>> = items.iter().map(|i| i.score()).collect();
    let first_positions: Vec<Option<Vec<usize>>> = items.iter().map(|i| i.matched_positions().cloned()).collect();
    let r2 = ranker.rank(&mut items, &q);
    let s2: Vec<Option<i64>> = items.iter().map(|i| i.score()).collect();
    let second_positions: Vec<Option<Vec<usize>>> = items.iter().map(|i| i.matched_positions().cloned()).collect();
    assert_eq!(r1, r2);
    assert_eq!(s1, s2);
    assert_eq!(first_positions, second_positions);
}

#[test]
fn matching_ignores_case_for_a_lower_case_query() {
    let mut items = items_of(&["APPLE", "Banana", "grApe"]);
    let r = Ranker::new().rank(&mut items, &chars("ap"));
    assert!(r.contains(&0));
    assert!(r.contains(&2));
    assert!(!r.contains(&1));
}

#[test]
fn matched_positions_are_character_offsets() {
    let mut items = items_of(&["éxa"]);
    let r = Ranker::new().rank(&mut items, &chars("a"));
    assert_eq!(r, vec![0]);
    assert_eq!(items[0].matched_positions(), Some(&vec![2]));
}

#[test]
fn large_stores_rank_like_small_ones() {
    let n = PARALLEL_THRESHOLD + 501;
    let labels: Vec<String> = (0..n).map(|i| format!("entry {} {}", i, i % 13)).collect();
    let mut big: Vec<Item<usize>> = labels.iter().enumerate().map(|(i, l)| Item::new(l, i)).collect();
    let q = chars("e19");
    let r = Ranker::new().rank(&mut big, &q);
    assert!(!r.is_empty());
    // the same labels ranked in two smaller halves give the same scores
    let half = n / 2;
    let mut first: Vec<Item<usize>> = labels[..half].iter().enumerate().map(|(i, l)| Item::new(l, i)).collect();
    let mut second: Vec<Item<usize>> = labels[half..].iter().enumerate().map(|(i, l)| Item::new(l, i)).collect();
    let mut ranker = Ranker::new();
    ranker.rank(&mut first, &q);
    ranker.rank(&mut second, &q);
    for i in 0..n {
        let small = if i < half { &first[i] } else { &second[i - half] };
        assert_eq!(big[i].score(), small.score());
        assert_eq!(big[i].matched_positions(), small.matched_positions());
    }
    let scores: Vec<i64> = r.iter().map(|&i| big[i].score().unwrap()).collect();
    for w in r.windows(2) {
        let (a, b) = (big[w[0]].score().unwrap(), big[w[1]].score().unwrap());
        assert!(a > b || (a == b && w[0] < w[1]));
    }
    assert!(scores.iter().all(|&s| s > 0));
}
