use vstd::prelude::*;

verus! {

/// Buying on pool `i` and selling on pool `j` is a candidate when both prices are
/// known and pool `i` is strictly cheaper. A price without a key (not a number)
/// never compares as cheaper or dearer.
pub open spec fn is_candidate(price_keys: Seq<Option<u64>>, i: int, j: int) -> bool {
    &&& 0 <= i < price_keys.len()
    &&& 0 <= j < price_keys.len()
    &&& i != j
    &&& price_keys[i] is Some
    &&& price_keys[j] is Some
    &&& price_keys[i]->0 < price_keys[j]->0
}

/// Pairs of pool indices in lexicographic order.
pub open spec fn pair_before(a: (usize, usize), b: (usize, usize)) -> bool {
    a.0 < b.0 || (a.0 == b.0 && a.1 < b.1)
}

/// Lists every ordered pair of pools (buy on the first, sell on the second) where the
/// first pool quotes a strictly lower price, in lexicographic order of the indices.
///
/// `price_keys[i]` orders the spot price of pool `i`: a lower key is a lower price;
/// `None` stands for a price that is not a number.
pub fn candidate_pairs(price_keys: &Vec<Option<u64>>) -> (pairs: Vec<(usize, usize)>)
    ensures
        forall|k: int|
            0 <= k < pairs.len() ==> is_candidate(
                price_keys@,
                (#[trigger] pairs@[k]).0 as int,
                pairs@[k].1 as int,
            ),
        forall|i: int, j: int|
            is_candidate(price_keys@, i, j) ==> pairs@.contains((i as usize, j as usize)),
        forall|k: int, l: int|
            0 <= k < l < pairs.len() ==> pair_before(#[trigger] pairs@[k], #[trigger] pairs@[l]),
        forall|i: usize, j: usize|
            i < price_keys.len() && j < price_keys.len() && i != j && price_keys@[i as int] is Some
                && price_keys@[j as int] is Some && price_keys@[i as int]->0
                < price_keys@[j as int]->0 ==> #[trigger] pairs@.contains((i, j)),
{
    let n = price_keys.len();
    let mut pairs: Vec<(usize, usize)> = Vec::new();
    let mut i: usize = 0;
    while i < n
        invariant
            n == price_keys.len(),
            i <= n,
            forall|k: int|
                0 <= k < pairs.len() ==> is_candidate(
                    price_keys@,
                    (#[trigger] pairs@[k]).0 as int,
                    pairs@[k].1 as int,
                ) && pairs@[k].0 < i,
            forall|a: int, b: int|
                0 <= a < i && is_candidate(price_keys@, a, b) ==> pairs@.contains(
                    (a as usize, b as usize),
                ),
            forall|k: int, l: int|
                0 <= k < l < pairs.len() ==> pair_before(#[trigger] pairs@[k], #[trigger] pairs@[l]),
        decreases n - i,
    {
        let mut j: usize = 0;
        while j < n
            invariant
                n == price_keys.len(),
                i < n,
                j <= n,
                forall|k: int|
                    0 <= k < pairs.len() ==> is_candidate(
                        price_keys@,
                        (#[trigger] pairs@[k]).0 as int,
                        pairs@[k].1 as int,
                    ) && pair_before(pairs@[k], (i, j)),
                forall|a: int, b: int|
                    (0 <= a < i || (a == i && 0 <= b < j)) && is_candidate(price_keys@, a, b)
                        ==> pairs@.contains((a as usize, b as usize)),
                forall|k: int, l: int|
                    0 <= k < l < pairs.len() ==> pair_before(#[trigger] pairs@[k], #[trigger] pairs@[l]),
            decreases n - j,
        {
            if i != j {
                match (price_keys[i], price_keys[j]) {
                    (Some(ki), Some(kj)) => {
                        if ki < kj {
                            let ghost old_pairs = pairs@;
                            pairs.push((i, j));
                            proof {
                                assert forall|a: int, b: int|
                                    (0 <= a < i || (a == i && 0 <= b < j + 1)) && is_candidate(
                                        price_keys@,
                                        a,
                                        b,
                                    ) implies pairs@.contains((a as usize, b as usize)) by {
                                    if a == i && b == j {
                                        assert(pairs@[old_pairs.len() as int] == (i, j));
                                    } else {
                                        let k = choose|k: int|
                                            0 <= k < old_pairs.len() && old_pairs[k] == (
                                                a as usize,
                                                b as usize,
                                            );
                                        assert(pairs@[k] == old_pairs[k]);
                                    }
                                }
                            }
                        }
                    },
                    _ => {},
                }
            }
            j = j + 1;
        }
        i = i + 1;
    }
    proof {
        assert forall|i: usize, j: usize|
            i < price_keys.len() && j < price_keys.len() && i != j && price_keys@[i as int] is Some
                && price_keys@[j as int] is Some && price_keys@[i as int]->0
                < price_keys@[j as int]->0 implies #[trigger] pairs@.contains((i, j)) by {
            law_candidate_pairs_complete(price_keys@, pairs@, i, j);
        }
    }
    pairs
}

/// No candidate pair buys and sells on the same pool, and along every candidate the
/// buying pool's price key is strictly below the selling pool's.
pub proof fn lemma_candidates_buy_low_sell_high(price_keys: Seq<Option<u64>>, i: int, j: int)
    requires
        is_candidate(price_keys, i, j),
    ensures
        i != j,
        price_keys[i]->0 < price_keys[j]->0,
        !is_candidate(price_keys, j, i),
{
}

/// Every pair of pools with known prices where the first is strictly cheaper is listed,
/// however far apart the two pools are in the list.
pub proof fn law_candidate_pairs_complete(
    price_keys: Seq<Option<u64>>,
    pairs: Seq<(usize, usize)>,
    i: usize,
    j: usize,
)
    requires
        forall|i: int, j: int|
            is_candidate(price_keys, i, j) ==> pairs.contains((i as usize, j as usize)),
        i < price_keys.len(),
        j < price_keys.len(),
        i != j,
        price_keys[i as int] is Some,
        price_keys[j as int] is Some,
        price_keys[i as int]->0 < price_keys[j as int]->0,
    ensures
        pairs.contains((i, j)),
{
    assert(is_candidate(price_keys, i as int, j as int));
}

/// Every listed pair buys on a pool with a known price that is strictly below the known
/// price of a different pool it sells on, and the pairs come in lexicographic order.
pub proof fn law_candidate_pairs_sound(price_keys: Seq<Option<u64>>, pairs: Seq<(usize, usize)>)
    requires
        forall|k: int|
            0 <= k < pairs.len() ==> is_candidate(
                price_keys,
                (#[trigger] pairs[k]).0 as int,
                pairs[k].1 as int,
            ),
        forall|k: int, l: int| 0 <= k < l < pairs.len() ==> pair_before(#[trigger] pairs[k], #[trigger] pairs[l]),
    ensures
        forall|k: int|
            0 <= k < pairs.len() ==> {
                let (a, b) = #[trigger] pairs[k];
                &&& a < price_keys.len()
                &&& b < price_keys.len()
                &&& a != b
                &&& price_keys[a as int] is Some
                &&& price_keys[b as int] is Some
                &&& price_keys[a as int]->0 < price_keys[b as int]->0
            },
        forall|k: int, l: int|
            0 <= k < l < pairs.len() ==> (#[trigger] pairs[k]).0 < (#[trigger] pairs[l]).0 || (
            pairs[k].0 == pairs[l].0 && pairs[k].1 < pairs[l].1),
{
}

} // verus!
