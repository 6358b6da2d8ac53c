use vstd::prelude::*;

verus! {

/// Why a swap between two tokens of a multi-token pool is refused before any pricing.
#[derive(Debug, Clone, Copy, PartialEq, Eq, Structural)]
pub enum SwapIndexError {
    /// One of the two token indices is not a token of the pool.
    InvalidTokenIndex,
    /// The two token indices are the same.
    SameToken,
}

/// Tokens `i` and `j` of a pool of `n_tokens` tokens can be swapped.
pub open spec fn is_valid_swap(n_tokens: int, i: int, j: int) -> bool {
    0 <= i < n_tokens && 0 <= j < n_tokens && i != j
}

/// Checks the token indices of a swap from token `i` to token `j`: both must be tokens
/// of the pool (checked first), and they must differ.
pub fn check_swap_indices(n_tokens: usize, i: usize, j: usize) -> (r: Result<(), SwapIndexError>)
    ensures
        r is Ok <==> is_valid_swap(n_tokens as int, i as int, j as int),
        (i >= n_tokens || j >= n_tokens) ==> r == Err::<(), SwapIndexError>(SwapIndexError::InvalidTokenIndex),
        (i < n_tokens && j < n_tokens && i == j) ==> r == Err::<(), SwapIndexError>(SwapIndexError::SameToken),
        (i < n_tokens && j < n_tokens && i != j) ==> r == Ok::<(), SwapIndexError>(()),
{
    if i >= n_tokens || j >= n_tokens {
        return Err(SwapIndexError::InvalidTokenIndex);
    }
    if i == j {
        return Err(SwapIndexError::SameToken);
    }
    Ok(())
}

/// Whether a swap between tokens `i` and `j` can be priced; an unpriceable swap
/// yields nothing.
pub fn is_priceable_swap(n_tokens: usize, i: usize, j: usize) -> (b: bool)
    ensures
        b == is_valid_swap(n_tokens as int, i as int, j as int),
        b == (i < n_tokens && j < n_tokens && i != j),
{
    i < n_tokens && j < n_tokens && i != j
}

/// The token indices of a swap between the first two tokens of a pool: from token 0
/// to token 1 when selling X for Y, the other way otherwise. A pool needs at least two
/// tokens, and has no such swap otherwise.
pub fn pair_swap_indices(n_tokens: usize, is_x_to_y: bool) -> (r: Option<(usize, usize)>)
    ensures
        n_tokens < 2 ==> r is None,
        n_tokens >= 2 ==> r == Some(if is_x_to_y { (0usize, 1usize) } else { (1usize, 0usize) }),
{
    if n_tokens < 2 {
        None
    } else if is_x_to_y {
        Some((0, 1))
    } else {
        Some((1, 0))
    }
}

/// A swap between the first two tokens always passes the index checks.
pub proof fn lemma_pair_swap_is_valid(n_tokens: int)
    requires
        n_tokens >= 2,
    ensures
        is_valid_swap(n_tokens, 0, 1),
        is_valid_swap(n_tokens, 1, 0),
{
}

/// Any two distinct tokens of the pool can be swapped: the index checks accept them and
/// the swap is priceable; indices out of range are refused as invalid and equal indices
/// as the same token.
pub proof fn law_swap_indices(n_tokens: usize, i: usize, j: usize, r: Result<(), SwapIndexError>, b: bool)
    requires
        r is Ok <==> is_valid_swap(n_tokens as int, i as int, j as int),
        (i >= n_tokens || j >= n_tokens) ==> r == Err::<(), SwapIndexError>(SwapIndexError::InvalidTokenIndex),
        (i < n_tokens && j < n_tokens && i == j) ==> r == Err::<(), SwapIndexError>(SwapIndexError::SameToken),
        b == is_valid_swap(n_tokens as int, i as int, j as int),
    ensures
        (i < n_tokens && j < n_tokens && i != j) ==> r == Ok::<(), SwapIndexError>(()) && b,
        (i >= n_tokens || j >= n_tokens || i == j) ==> r is Err && !b,
{
    if i < n_tokens && j < n_tokens && i != j {
        if let Ok(u) = r {
            assert(u == ());
        }
    }
}

} // verus!
