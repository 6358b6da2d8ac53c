use dex_arbitrage::triangular::{find_first_leading, find_triangular_routes, path_string};

fn pairs(list: &[(&str, &str)]) -> Vec<(String, String)> {
    list.iter().map(|(a, b)| (a.to_string(), b.to_string())).collect()
}

#[test]
fn test_find_triangular_paths() {
    // Create some pairs with slight mispricing
    let pairs = pairs(&[("ETH", "USDC"), ("USDC", "DAI"), ("DAI", "ETH")]);

    let paths = find_triangular_routes("ETH", &pairs);

    assert!(!paths.is_empty());
    assert_eq!(paths, vec![(0, 1, 2)]);
}

#[test]
fn route_uses_first_closing_pair() {
    let pairs = pairs(&[
        ("ETH", "USDC"),
        ("DAI", "ETH"),
        ("USDC", "DAI"),
        ("USDC", "WBTC"),
        ("DAI", "ETH"),
        ("WBTC", "ETH"),
    ]);
    assert_eq!(find_triangular_routes("ETH", &pairs), vec![(0, 2, 1), (0, 3, 5)]);
}

#[test]
fn no_route_back_to_start() {
    let pairs = pairs(&[("ETH", "USDC"), ("USDC", "DAI"), ("DAI", "WBTC")]);
    assert!(find_triangular_routes("ETH", &pairs).is_empty());
}

#[test]
fn second_hop_may_not_return_to_start() {
    let pairs = pairs(&[("ETH", "USDC"), ("USDC", "ETH")]);
    assert!(find_triangular_routes("ETH", &pairs).is_empty());
}

#[test]
fn first_leading_pair() {
    let pairs = pairs(&[("A", "B"), ("C", "A"), ("C", "A")]);
    assert_eq!(find_first_leading(&pairs, &"C".to_string(), &"A".to_string()), Some(1));
    assert_eq!(find_first_leading(&pairs, &"B".to_string(), &"A".to_string()), None);
}

#[test]
fn route_text() {
    let reached = vec!["USDC".to_string(), "DAI".to_string(), "ETH".to_string()];
    assert_eq!(path_string("ETH", &reached), "ETH -> USDC -> DAI -> ETH");
    assert_eq!(path_string("ETH", &vec![]), "ETH");
}
