use dex_arbitrage::stableswap::{
    check_swap_indices, is_priceable_swap, pair_swap_indices, SwapIndexError,
};

#[test]
fn valid_indices() {
    assert_eq!(check_swap_indices(2, 0, 1), Ok(()));
    assert!(is_priceable_swap(3, 2, 0));
}

#[test]
fn index_out_of_range() {
    assert_eq!(check_swap_indices(2, 0, 2), Err(SwapIndexError::InvalidTokenIndex));
    assert_eq!(check_swap_indices(2, 5, 5), Err(SwapIndexError::InvalidTokenIndex));
    assert!(!is_priceable_swap(2, 2, 0));
}

#[test]
fn same_token() {
    assert_eq!(check_swap_indices(3, 1, 1), Err(SwapIndexError::SameToken));
    assert!(!is_priceable_swap(3, 1, 1));
}

#[test]
fn pair_directions() {
    assert_eq!(pair_swap_indices(2, true), Some((0, 1)));
    assert_eq!(pair_swap_indices(3, false), Some((1, 0)));
    assert_eq!(pair_swap_indices(1, true), None);
}
