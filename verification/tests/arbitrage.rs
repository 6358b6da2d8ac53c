use dex_arbitrage::arbitrage::candidate_pairs;

#[test]
fn cheaper_pool_is_bought() {
    // Pool 0 quotes 2000, pool 1 quotes 2050.
    assert_eq!(candidate_pairs(&vec![Some(2000), Some(2050)]), vec![(0, 1)]);
}

#[test]
fn equal_prices_give_no_candidate() {
    assert!(candidate_pairs(&vec![Some(7), Some(7)]).is_empty());
}

#[test]
fn all_pairs_in_order() {
    assert_eq!(
        candidate_pairs(&vec![Some(3), Some(1), Some(2)]),
        vec![(1, 0), (1, 2), (2, 0)]
    );
}

#[test]
fn unknown_prices_are_skipped() {
    assert_eq!(candidate_pairs(&vec![None, Some(1), Some(2), None]), vec![(1, 2)]);
    assert!(candidate_pairs(&vec![]).is_empty());
}
