use vstd::prelude::*;

verus! {

/// In a ranking by descending key, item `a` comes before item `b` when its key
/// is larger, or when the keys are equal and `a` came first (the ranking is stable).
pub open spec fn ranked_before(keys: Seq<u64>, a: int, b: int) -> bool {
    keys[a] > keys[b] || (keys[a] == keys[b] && a < b)
}

/// `order` lists item indices of `keys` ranked by descending key, ties kept in
/// their input order.
pub open spec fn is_descending_ranking(keys: Seq<u64>, order: Seq<usize>) -> bool {
    &&& forall|k: int| 0 <= k < order.len() ==> #[trigger] order[k] < keys.len()
    &&& forall|k: int, l: int|
        0 <= k < l < order.len() ==> ranked_before(keys, #[trigger] order[k] as int, #[trigger] order[l] as int)
}

/// Ranks the items by descending key with a stable order on ties: the result is a
/// permutation of `0..keys.len()`.
///
/// Items whose order comes from floating-point values are ranked by integer keys
/// that order the same way.
pub fn rank_descending(keys: &Vec<u64>) -> (order: Vec<usize>)
    ensures
        order.len() == keys.len(),
        is_descending_ranking(keys@, order@),
{
    let n = keys.len();
    let mut order: Vec<usize> = Vec::new();
    let mut i: usize = 0;
    while i < n
        invariant
            n == keys.len(),
            i <= n,
            order.len() == i,
            forall|k: int| 0 <= k < order.len() ==> #[trigger] order@[k] < i,
            is_descending_ranking(keys@, order@),
        decreases n - i,
    {
        let ki = keys[i];
        let mut pos: usize = 0;
        while pos < order.len() && keys[order[pos]] >= ki
            invariant
                n == keys.len(),
                ki == keys@[i as int],
                i < n,
                pos <= order.len(),
                forall|k: int| 0 <= k < order.len() ==> #[trigger] order@[k] < i,
                forall|k: int| 0 <= k < pos ==> keys@[#[trigger] order@[k] as int] >= ki,
            decreases order.len() - pos,
        {
            pos = pos + 1;
        }
        let ghost old_order = order@;
        proof {
            if pos < old_order.len() {
                assert forall|k: int| pos <= k < old_order.len() implies keys@[#[trigger] old_order[k] as int] < ki by {
                    if k > pos {
                        assert(ranked_before(keys@, old_order[pos as int] as int, old_order[k] as int));
                    }
                }
            }
        }
        order.insert(pos, i);
        proof {
            let s = order@;
            assert forall|k: int| 0 <= k < s.len() implies #[trigger] s[k] < i + 1 by {
                if k < pos {
                    assert(s[k] == old_order[k]);
                } else if k > pos {
                    assert(s[k] == old_order[k - 1]);
                }
            }
            assert forall|k: int, l: int| 0 <= k < l < s.len() implies ranked_before(
                keys@,
                #[trigger] s[k] as int,
                #[trigger] s[l] as int,
            ) by {
                if l < pos {
                    assert(s[k] == old_order[k] && s[l] == old_order[l]);
                } else if l == pos {
                    assert(s[k] == old_order[k]);
                    assert(keys@[old_order[k] as int] >= ki);
                } else if k < pos {
                    assert(s[k] == old_order[k] && s[l] == old_order[l - 1]);
                } else if k == pos {
                    assert(s[l] == old_order[l - 1]);
                    assert(keys@[old_order[l - 1] as int] < ki);
                } else {
                    assert(s[k] == old_order[k - 1] && s[l] == old_order[l - 1]);
                }
            }
        }
        i = i + 1;
    }
    order
}

/// A descending ranking never lists an item twice.
pub proof fn lemma_ranking_is_duplicate_free(keys: Seq<u64>, order: Seq<usize>)
    requires
        is_descending_ranking(keys, order),
    ensures
        forall|k: int, l: int| 0 <= k < l < order.len() ==> order[k] != order[l],
{
    assert forall|k: int, l: int| 0 <= k < l < order.len() implies order[k] != order[l] by {
        assert(ranked_before(keys, order[k] as int, order[l] as int));
    }
}

/// Along a descending ranking the keys never increase.
pub proof fn lemma_ranking_keys_descend(keys: Seq<u64>, order: Seq<usize>)
    requires
        is_descending_ranking(keys, order),
    ensures
        forall|k: int, l: int|
            0 <= k < l < order.len() ==> keys[order[k] as int] >= keys[order[l] as int],
{
    assert forall|k: int, l: int| 0 <= k < l < order.len() implies keys[order[k] as int]
        >= keys[order[l] as int] by {
        assert(ranked_before(keys, order[k] as int, order[l] as int));
    }
}

/// A descending ranking as long as the item list holds every item exactly once.
pub proof fn lemma_ranking_is_permutation(keys: Seq<u64>, order: Seq<usize>)
    requires
        is_descending_ranking(keys, order),
        order.len() == keys.len(),
    ensures
        forall|j: usize| j < keys.len() ==> #[trigger] order.contains(j),
{
    let ints = order.map_values(|x: usize| x as int);
    assert(ints.no_duplicates()) by {
        assert forall|k: int, l: int| 0 <= k < ints.len() && 0 <= l < ints.len() && k != l implies ints[k]
            != ints[l] by {
            if k < l {
                assert(ranked_before(keys, order[k] as int, order[l] as int));
            } else {
                assert(ranked_before(keys, order[l] as int, order[k] as int));
            }
        }
    }
    ints.unique_seq_to_set();
    let all = vstd::set_lib::set_int_range(0, keys.len() as int);
    vstd::set_lib::lemma_int_range(0, keys.len() as int);
    assert(ints.to_set().subset_of(all)) by {
        assert forall|x: int| ints.to_set().contains(x) implies all.contains(x) by {
            let k = choose|k: int| 0 <= k < ints.len() && ints[k] == x;
            assert(order[k] < keys.len());
        }
    }
    vstd::seq_lib::seq_to_set_is_finite(ints);
    vstd::set_lib::lemma_subset_equality(ints.to_set(), all);
    assert forall|j: usize| j < keys.len() implies #[trigger] order.contains(j) by {
        assert(all.contains(j as int));
        assert(ints.to_set().contains(j as int));
        let k = choose|k: int| 0 <= k < ints.len() && ints[k] == j as int;
        assert(order[k] == j);
    }
}

/// Position `b` holds the largest known key, and no earlier position holds it.
pub open spec fn is_first_largest(keys: Seq<Option<u64>>, b: int) -> bool {
    &&& 0 <= b < keys.len()
    &&& keys[b] is Some
    &&& forall|k: int| 0 <= k < keys.len() && (#[trigger] keys[k]) is Some ==> keys[k]->0 <= keys[b]->0
    &&& forall|k: int| 0 <= k < b && (#[trigger] keys[k]) is Some ==> keys[k]->0 < keys[b]->0
}

/// The first position holding the largest key, skipping positions without a key; `None`
/// when no position has a key.
///
/// A search over candidate sizes keeps a candidate only when it is strictly better than
/// the best so far, starting below every value: positions whose value is not a number,
/// or is minus infinity, never win and have no key.
pub fn first_largest(keys: &Vec<Option<u64>>) -> (r: Option<usize>)
    ensures
        r is None <==> forall|k: int| 0 <= k < keys.len() ==> (#[trigger] keys@[k]) is None,
        r matches Some(b) ==> is_first_largest(keys@, b as int),
{
    let mut best: Option<usize> = None;
    let mut best_key: u64 = 0;
    let mut k: usize = 0;
    while k < keys.len()
        invariant
            k <= keys.len(),
            best is None <==> forall|q: int| 0 <= q < k ==> (#[trigger] keys@[q]) is None,
            best matches Some(b) ==> is_first_largest(keys@.take(k as int), b as int) && keys@[b as int]
                == Some(best_key),
        decreases keys.len() - k,
    {
        match keys[k] {
            Some(v) => {
                let better = match best {
                    None => true,
                    Some(_) => v > best_key,
                };
                if better {
                    best = Some(k);
                    best_key = v;
                }
            },
            None => {},
        }
        proof {
            let t = keys@.take(k + 1);
            assert(t.drop_last() =~= keys@.take(k as int));
            if best is None {
                assert forall|q: int| 0 <= q < k + 1 implies (#[trigger] keys@[q]) is None by {
                    if q < k {
                        assert(keys@.take(k as int)[q] == keys@[q]);
                    }
                }
            }
        }
        k = k + 1;
    }
    assert(keys@.take(keys.len() as int) =~= keys@);
    best
}

} // verus!
