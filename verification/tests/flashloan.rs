use dex_arbitrage::flashloan::{
    count_swaps, estimate_gas, provider_from_name, validate_operations, BuildError, FlashloanProvider, OperationKind,
    BPS_DENOMINATOR,
};
use dex_arbitrage::gas::flashloan_arb_gas_limit;

fn fee_rate(p: FlashloanProvider) -> f64 {
    p.fee_rate() as f64 / BPS_DENOMINATOR as f64
}

#[test]
fn test_provider_fees() {
    assert!((fee_rate(FlashloanProvider::Aave) - 0.0009).abs() < 1e-10);
    assert!((fee_rate(FlashloanProvider::DyDx)).abs() < 1e-10);
}

#[test]
fn test_tx_builder() {
    // USDC -> ETH on Uniswap, ETH -> USDC on SushiSwap, then repay the loan.
    let ops = vec![OperationKind::Swap, OperationKind::Swap, OperationKind::Repay];
    assert!(validate_operations(&ops).is_ok());

    assert_eq!(ops.len(), 3);
    assert!(estimate_gas(&ops) > 0);
    let loan_amount = 100_000.0;
    let repay_amount = loan_amount * (1.0 + fee_rate(FlashloanProvider::Aave));
    assert!(repay_amount > loan_amount);
}

#[test]
fn test_tx_builder_validation() {
    let ops = vec![OperationKind::Swap];
    let result = validate_operations(&ops);
    assert!(result.is_err());
}

#[test]
fn provider_fee_table() {
    assert_eq!(FlashloanProvider::Aave.fee_rate(), 9);
    assert_eq!(FlashloanProvider::DyDx.fee_rate(), 0);
    assert_eq!(FlashloanProvider::UniswapV3.fee_rate(), 5);
    assert_eq!(FlashloanProvider::Balancer.fee_rate(), 0);
}

#[test]
fn provider_loan_limits() {
    assert_eq!(FlashloanProvider::Aave.max_loan_usd(), 1_000_000_000);
    assert_eq!(FlashloanProvider::DyDx.max_loan_usd(), 500_000_000);
    assert_eq!(FlashloanProvider::UniswapV3.max_loan_usd(), 100_000_000);
    assert_eq!(FlashloanProvider::Balancer.max_loan_usd(), 50_000_000);
}

#[test]
fn empty_transaction_is_refused() {
    assert_eq!(validate_operations(&vec![]), Err(BuildError::MissingFinalRepay));
}

#[test]
fn repay_must_be_last() {
    let ops = vec![OperationKind::Repay, OperationKind::Swap];
    assert_eq!(validate_operations(&ops), Err(BuildError::MissingFinalRepay));
    let ops = vec![OperationKind::Transfer];
    assert_eq!(validate_operations(&ops), Err(BuildError::MissingFinalRepay));
}

#[test]
fn appending_repay_always_builds() {
    for ops in [
        vec![],
        vec![OperationKind::Swap],
        vec![OperationKind::Repay, OperationKind::Transfer],
    ] {
        let mut ops = ops;
        ops.push(OperationKind::Repay);
        assert_eq!(validate_operations(&ops), Ok(()));
    }
}

#[test]
fn gas_counts_only_swaps() {
    assert_eq!(estimate_gas(&vec![]), 100_000);
    assert_eq!(estimate_gas(&vec![OperationKind::Repay]), 100_000);
    let ops = vec![
        OperationKind::Swap,
        OperationKind::Transfer,
        OperationKind::Swap,
        OperationKind::Repay,
    ];
    assert_eq!(count_swaps(&ops), 2);
    assert_eq!(estimate_gas(&ops), 400_000);
}

#[test]
fn gas_matches_arbitrage_gas_limit() {
    let ops = vec![
        OperationKind::Swap,
        OperationKind::Swap,
        OperationKind::Swap,
        OperationKind::Repay,
    ];
    assert_eq!(estimate_gas(&ops), flashloan_arb_gas_limit(3));
}

#[test]
fn provider_names() {
    assert_eq!(provider_from_name("aave"), FlashloanProvider::Aave);
    assert_eq!(provider_from_name("dydx"), FlashloanProvider::DyDx);
    assert_eq!(provider_from_name("balancer"), FlashloanProvider::Aave);
    assert_eq!(provider_from_name("DYDX"), FlashloanProvider::Aave);
}
