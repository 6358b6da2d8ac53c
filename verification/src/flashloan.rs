use vstd::prelude::*;

use crate::gas::{arb_gas_limit, FLASHLOAN_BASE_GAS, SWAP_GAS};

verus! {

/// Providers of uncollateralised loans that must be repaid within the same transaction.
#[derive(Debug, Clone, Copy, PartialEq, Eq, Structural)]
pub enum FlashloanProvider {
    /// Aave V3: 9 basis points.
    Aave,
    /// dYdX: no fee (the loan needs collateral in the pool).
    DyDx,
    /// Uniswap V3: 5 basis points.
    UniswapV3,
    /// Balancer: no fee.
    Balancer,
}

/// Basis points in one whole: a fee of `b` basis points on `x` is `x * b / BPS_DENOMINATOR`.
pub const BPS_DENOMINATOR: u64 = 10_000;

/// The fee of a provider in basis points.
pub open spec fn provider_fee_bps(p: FlashloanProvider) -> nat {
    match p {
        FlashloanProvider::Aave => 9,
        FlashloanProvider::DyDx => 0,
        FlashloanProvider::UniswapV3 => 5,
        FlashloanProvider::Balancer => 0,
    }
}

/// The largest loan, in whole US dollars, that a provider can lend.
pub open spec fn provider_max_loan_usd(p: FlashloanProvider) -> nat {
    match p {
        FlashloanProvider::Aave => 1_000_000_000,
        FlashloanProvider::DyDx => 500_000_000,
        FlashloanProvider::UniswapV3 => 100_000_000,
        FlashloanProvider::Balancer => 50_000_000,
    }
}

impl FlashloanProvider {
    /// The fee rate, in basis points of the loan: 9 for Aave (0.09%), 0 for dYdX, 5 for
    /// Uniswap V3 (0.05%), 0 for Balancer.
    pub fn fee_rate(&self) -> (bps: u64)
        ensures
            bps == provider_fee_bps(*self),
    {
        match self {
            FlashloanProvider::Aave => 9,
            FlashloanProvider::DyDx => 0,
            FlashloanProvider::UniswapV3 => 5,
            FlashloanProvider::Balancer => 0,
        }
    }

    /// The approximate largest loan the provider can lend, in whole US dollars.
    pub fn max_loan_usd(&self) -> (usd: u64)
        ensures
            usd == provider_max_loan_usd(*self),
    {
        match self {
            FlashloanProvider::Aave => 1_000_000_000,
            FlashloanProvider::DyDx => 500_000_000,
            FlashloanProvider::UniswapV3 => 100_000_000,
            FlashloanProvider::Balancer => 50_000_000,
        }
    }
}

/// The provider named on the command line: `dydx` is dYdX, and any other name
/// (such as `aave`) is Aave.
pub fn provider_from_name(name: &str) -> (p: FlashloanProvider)
    ensures
        name@ == "dydx"@ ==> p == FlashloanProvider::DyDx,
        name@ != "dydx"@ ==> p == FlashloanProvider::Aave,
{
    let n: String = name.to_owned();
    if n == "dydx".to_owned() {
        FlashloanProvider::DyDx
    } else {
        FlashloanProvider::Aave
    }
}

/// The kind of one step of a flashloan transaction.
#[derive(Debug, Clone, Copy, PartialEq, Eq, Structural)]
pub enum OperationKind {
    /// A swap on a DEX.
    Swap,
    /// A token transfer.
    Transfer,
    /// The repayment of the loan.
    Repay,
}

/// Why a flashloan transaction cannot be built.
#[derive(Debug, Clone, Copy, PartialEq, Eq, Structural)]
pub enum BuildError {
    /// The last operation is not the repayment (or there is no operation at all).
    MissingFinalRepay,
}

/// A transaction is well formed when its last operation repays the loan.
pub open spec fn ends_with_repay(kinds: Seq<OperationKind>) -> bool {
    kinds.len() > 0 && kinds.last() == OperationKind::Repay
}

/// The number of swaps among the operations.
pub open spec fn swap_count(kinds: Seq<OperationKind>) -> nat
    decreases kinds.len(),
{
    if kinds.len() == 0 {
        0
    } else {
        swap_count(kinds.drop_last()) + if kinds.last() == OperationKind::Swap {
            1nat
        } else {
            0nat
        }
    }
}

/// The gas that a transaction with these operations is estimated to use.
pub open spec fn tx_gas(kinds: Seq<OperationKind>) -> int {
    FLASHLOAN_BASE_GAS + SWAP_GAS * swap_count(kinds)
}

/// There are never more swaps than operations.
pub proof fn lemma_swap_count_bounded(kinds: Seq<OperationKind>)
    ensures
        swap_count(kinds) <= kinds.len(),
    decreases kinds.len(),
{
    if kinds.len() > 0 {
        lemma_swap_count_bounded(kinds.drop_last());
    }
}

/// Checks that a sequence of operations forms a valid flashloan transaction:
/// it must end with the repayment of the loan.
pub fn validate_operations(kinds: &Vec<OperationKind>) -> (r: Result<(), BuildError>)
    ensures
        r is Ok <==> ends_with_repay(kinds@),
        r is Err ==> r == Err::<(), BuildError>(BuildError::MissingFinalRepay),
        r is Ok <==> (kinds.len() > 0 && kinds@[kinds.len() - 1] == OperationKind::Repay),
{
    let n = kinds.len();
    if n == 0 {
        return Err(BuildError::MissingFinalRepay);
    }
    match kinds[n - 1] {
        OperationKind::Repay => Ok(()),
        _ => Err(BuildError::MissingFinalRepay),
    }
}

/// Counts the swaps among the operations.
pub fn count_swaps(kinds: &Vec<OperationKind>) -> (c: usize)
    ensures
        c == swap_count(kinds@),
{
    let mut c: usize = 0;
    let mut i: usize = 0;
    while i < kinds.len()
        invariant
            i <= kinds.len(),
            c == swap_count(kinds@.take(i as int)),
            c <= i,
        decreases kinds.len() - i,
    {
        assert(kinds@.take(i + 1).drop_last() =~= kinds@.take(i as int));
        match kinds[i] {
            OperationKind::Swap => {
                c = c + 1;
            },
            _ => {},
        }
        i = i + 1;
    }
    assert(kinds@.take(kinds.len() as int) =~= kinds@);
    c
}

/// Estimates the gas of a flashloan transaction: a fixed overhead for the loan
/// plus a fixed amount for each swap.
pub fn estimate_gas(kinds: &Vec<OperationKind>) -> (g: u64)
    requires
        tx_gas(kinds@) <= u64::MAX,
    ensures
        g == tx_gas(kinds@),
{
    let c = count_swaps(kinds);
    assert(c * SWAP_GAS <= u64::MAX);
    let c64: u64 = c as u64;
    FLASHLOAN_BASE_GAS + c64 * SWAP_GAS
}

/// Appending the repayment to any sequence of operations yields a transaction that builds.
pub proof fn lemma_repay_makes_valid(kinds: Seq<OperationKind>)
    ensures
        ends_with_repay(kinds.push(OperationKind::Repay)),
{
}

/// An empty transaction never builds.
pub proof fn lemma_empty_is_invalid()
    ensures
        !ends_with_repay(Seq::<OperationKind>::empty()),
{
}

/// Each added swap raises the gas estimate by the per-swap gas, and any other
/// operation leaves it unchanged.
pub proof fn lemma_gas_per_operation(kinds: Seq<OperationKind>, k: OperationKind)
    ensures
        tx_gas(kinds.push(k)) == tx_gas(kinds) + if k == OperationKind::Swap {
            SWAP_GAS as int
        } else {
            0
        },
{
    assert(kinds.push(k).drop_last() =~= kinds);
}

/// The gas estimate of a transaction is the flashloan-arbitrage gas limit for
/// its number of swaps.
pub proof fn lemma_tx_gas_is_arb_gas_limit(kinds: Seq<OperationKind>)
    ensures
        tx_gas(kinds) == arb_gas_limit(swap_count(kinds)),
{
}

/// A transaction builds only when it has operations and the last one repays the loan;
/// every other transaction is refused for its missing final repayment.
pub proof fn law_validate_operations(kinds: Seq<OperationKind>, r: Result<(), BuildError>)
    requires
        r is Ok <==> ends_with_repay(kinds),
        r is Err ==> r == Err::<(), BuildError>(BuildError::MissingFinalRepay),
    ensures
        r is Ok <==> (kinds.len() > 0 && kinds[kinds.len() - 1] == OperationKind::Repay),
        (kinds.len() == 0 || kinds[kinds.len() - 1] != OperationKind::Repay) ==> r == Err::<
            (),
            BuildError,
        >(BuildError::MissingFinalRepay),
{
}

} // verus!
