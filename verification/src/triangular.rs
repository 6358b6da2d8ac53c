use vstd::prelude::*;

verus! {

/// Trading pairs as (token sold, token bought), by the characters of their names.
pub open spec fn pair_names(pairs: Seq<(String, String)>) -> Seq<(Seq<char>, Seq<char>)> {
    pairs.map_values(|p: (String, String)| (p.0@, p.1@))
}

/// Pair `k` leads from `from` to `to`.
pub open spec fn leads(pairs: Seq<(String, String)>, k: int, from: Seq<char>, to: Seq<char>) -> bool {
    0 <= k < pairs.len() && pairs[k].0@ == from && pairs[k].1@ == to
}

/// Pair `k` is the first pair leading from `from` to `to`.
pub open spec fn is_first_leading(
    pairs: Seq<(String, String)>,
    k: int,
    from: Seq<char>,
    to: Seq<char>,
) -> bool {
    &&& leads(pairs, k, from, to)
    &&& forall|m: int| 0 <= m < k ==> !#[trigger] leads(pairs, m, from, to)
}

/// The pairs `(i, j, k)` form a triangle from `start` back to it: pair `i` sells `start`,
/// pair `j` sells what pair `i` buys and buys something other than `start`, and pair `k`
/// is the first pair that sells what pair `j` buys for `start`.
pub open spec fn is_triangle(pairs: Seq<(String, String)>, start: Seq<char>, r: (usize, usize, usize)) -> bool {
    &&& 0 <= r.0 < pairs.len()
    &&& 0 <= r.1 < pairs.len()
    &&& pairs[r.0 as int].0@ == start
    &&& pairs[r.1 as int].0@ == pairs[r.0 as int].1@
    &&& pairs[r.1 as int].1@ != start
    &&& is_first_leading(pairs, r.2 as int, pairs[r.1 as int].1@, start)
}

/// Triangles ordered by their first pair, then by their second.
pub open spec fn triangle_before(a: (usize, usize, usize), b: (usize, usize, usize)) -> bool {
    a.0 < b.0 || (a.0 == b.0 && a.1 < b.1)
}

/// Finds the first pair leading from `from` to `to`, if there is one.
pub fn find_first_leading(pairs: &Vec<(String, String)>, from: &String, to: &String) -> (r: Option<usize>)
    ensures
        r matches Some(k) ==> is_first_leading(pairs@, k as int, from@, to@),
        r is None ==> forall|m: int| 0 <= m < pairs.len() ==> !#[trigger] leads(pairs@, m, from@, to@),
{
    let mut m: usize = 0;
    while m < pairs.len()
        invariant
            m <= pairs.len(),
            forall|q: int| 0 <= q < m ==> !#[trigger] leads(pairs@, q, from@, to@),
        decreases pairs.len() - m,
    {
        if pairs[m].0 == *from && pairs[m].1 == *to {
            return Some(m);
        }
        m = m + 1;
    }
    None
}

/// Finds every triangular route that starts and ends at `start_token`: first a pair
/// selling the start token, then a pair selling what it bought for a third token,
/// then the first pair selling that token back for the start token.
///
/// Each route is given by the indices of its three pairs in `pairs`, ordered by the
/// first pair and then the second.
pub fn find_triangular_routes(start_token: &str, pairs: &Vec<(String, String)>) -> (routes: Vec<(usize, usize, usize)>)
    ensures
        forall|q: int| 0 <= q < routes.len() ==> is_triangle(pairs@, start_token@, #[trigger] routes@[q]),
        forall|r: (usize, usize, usize)| is_triangle(pairs@, start_token@, r) ==> routes@.contains(r),
        forall|q: int, l: int|
            0 <= q < l < routes.len() ==> triangle_before(#[trigger] routes@[q], #[trigger] routes@[l]),
        forall|i: usize, j: usize, k: usize|
            i < pairs.len() && j < pairs.len() && k < pairs.len() && pairs@[i as int].0@ == start_token@
                && pairs@[j as int].0@ == pairs@[i as int].1@ && pairs@[j as int].1@ != start_token@
                && pairs@[k as int].0@ == pairs@[j as int].1@ && pairs@[k as int].1@ == start_token@
                && (forall|m: int|
                0 <= m < k ==> !((#[trigger] pairs@[m]).0@ == pairs@[j as int].1@ && pairs@[m].1@
                    == start_token@)) ==> #[trigger] routes@.contains((i, j, k)),
{
    let start: String = start_token.to_owned();
    let n = pairs.len();
    let mut routes: Vec<(usize, usize, usize)> = Vec::new();
    let mut i: usize = 0;
    while i < n
        invariant
            n == pairs.len(),
            start@ == start_token@,
            i <= n,
            forall|q: int|
                0 <= q < routes.len() ==> is_triangle(pairs@, start@, #[trigger] routes@[q])
                    && routes@[q].0 < i,
            forall|r: (usize, usize, usize)|
                r.0 < i && is_triangle(pairs@, start@, r) ==> routes@.contains(r),
            forall|q: int, l: int|
                0 <= q < l < routes.len() ==> triangle_before(#[trigger] routes@[q], #[trigger] routes@[l]),
        decreases n - i,
    {
        if pairs[i].0 == start {
            let mut j: usize = 0;
            while j < n
                invariant
                    n == pairs.len(),
                    start@ == start_token@,
                    i < n,
                    j <= n,
                    pairs@[i as int].0@ == start@,
                    forall|q: int|
                        0 <= q < routes.len() ==> is_triangle(pairs@, start@, #[trigger] routes@[q])
                            && triangle_before(routes@[q], (i, j, 0)),
                    forall|r: (usize, usize, usize)|
                        (r.0 < i || (r.0 == i && r.1 < j)) && is_triangle(pairs@, start@, r)
                            ==> routes@.contains(r),
                    forall|q: int, l: int|
                        0 <= q < l < routes.len() ==> triangle_before(
                            #[trigger] routes@[q],
                            #[trigger] routes@[l],
                        ),
                decreases n - j,
            {
                if pairs[j].0 == pairs[i].1 && !(pairs[j].1 == start) {
                    let third = find_first_leading(pairs, &pairs[j].1, &start);
                    match third {
                        Some(k) => {
                            let ghost old_routes = routes@;
                            routes.push((i, j, k));
                            proof {
                                assert forall|r: (usize, usize, usize)|
                                    (r.0 < i || (r.0 == i && r.1 < j + 1)) && is_triangle(
                                        pairs@,
                                        start@,
                                        r,
                                    ) implies routes@.contains(r) by {
                                    if r.0 == i && r.1 == j {
                                        if r.2 < k {
                                            assert(!leads(pairs@, r.2 as int, pairs@[j as int].1@, start@));
                                        } else if r.2 > k {
                                            assert(!leads(pairs@, k as int, pairs@[j as int].1@, start@));
                                        }
                                        assert(routes@[old_routes.len() as int] == r);
                                    } else {
                                        assert(old_routes.contains(r));
                                        let q = choose|q: int| 0 <= q < old_routes.len() && old_routes[q] == r;
                                        assert(routes@[q] == old_routes[q]);
                                    }
                                }
                            }
                        },
                        None => {
                            proof {
                                assert forall|r: (usize, usize, usize)|
                                    !(r.0 == i && r.1 == j && is_triangle(pairs@, start@, r)) by {
                                    if r.0 == i && r.1 == j && is_triangle(pairs@, start@, r) {
                                        assert(leads(pairs@, r.2 as int, pairs@[j as int].1@, start@));
                                    }
                                }
                            }
                        },
                    }
                }
                j = j + 1;
            }
        }
        i = i + 1;
    }
    proof {
        assert forall|i: usize, j: usize, k: usize|
            i < pairs.len() && j < pairs.len() && k < pairs.len() && pairs@[i as int].0@ == start_token@
                && pairs@[j as int].0@ == pairs@[i as int].1@ && pairs@[j as int].1@ != start_token@
                && pairs@[k as int].0@ == pairs@[j as int].1@ && pairs@[k as int].1@ == start_token@
                && (forall|m: int|
                0 <= m < k ==> !((#[trigger] pairs@[m]).0@ == pairs@[j as int].1@ && pairs@[m].1@
                    == start_token@)) implies #[trigger] routes@.contains((i, j, k)) by {
            law_triangular_routes_complete(pairs@, start_token@, routes@, i, j, k);
        }
    }
    routes
}

/// The text of a route: the start token, then ` -> ` and each token reached in turn.
pub open spec fn route_text(start: Seq<char>, reached: Seq<Seq<char>>) -> Seq<char>
    decreases reached.len(),
{
    if reached.len() == 0 {
        start
    } else {
        route_text(start, reached.drop_last()) + seq![' ', '-', '>', ' '] + reached.last()
    }
}

/// Writes a route as text, such as `ETH -> USDC -> DAI -> ETH`, from its start token and
/// the token each hop reaches.
pub fn path_string(start_token: &str, reached: &Vec<String>) -> (s: String)
    ensures
        s@ == route_text(start_token@, reached@.map_values(|t: String| t@)),
{
    let ghost names = reached@.map_values(|t: String| t@);
    let mut path: String = start_token.to_owned();
    let mut i: usize = 0;
    while i < reached.len()
        invariant
            i <= reached.len(),
            names == reached@.map_values(|t: String| t@),
            path@ == route_text(start_token@, names.take(i as int)),
        decreases reached.len() - i,
    {
        assert(names.take(i + 1).drop_last() =~= names.take(i as int));
        path.append(" -> ");
        path.append(reached[i].as_str());
        proof {
            reveal_strlit(" -> ");
            assert(" -> "@ =~= seq![' ', '-', '>', ' ']);
        }
        i = i + 1;
    }
    assert(names.take(reached.len() as int) =~= names);
    path
}

/// Every triangle is found, whatever the positions of its pairs in the list: if pair `i`
/// sells the start token, pair `j` sells what pair `i` buys for a token other than the
/// start, and pair `k` is the first pair selling that token for the start token, then
/// `(i, j, k)` is among the routes.
pub proof fn law_triangular_routes_complete(
    pairs: Seq<(String, String)>,
    start: Seq<char>,
    routes: Seq<(usize, usize, usize)>,
    i: usize,
    j: usize,
    k: usize,
)
    requires
        forall|r: (usize, usize, usize)| is_triangle(pairs, start, r) ==> routes.contains(r),
        i < pairs.len(),
        j < pairs.len(),
        k < pairs.len(),
        pairs[i as int].0@ == start,
        pairs[j as int].0@ == pairs[i as int].1@,
        pairs[j as int].1@ != start,
        pairs[k as int].0@ == pairs[j as int].1@,
        pairs[k as int].1@ == start,
        forall|m: int|
            0 <= m < k ==> !((#[trigger] pairs[m]).0@ == pairs[j as int].1@ && pairs[m].1@ == start),
    ensures
        routes.contains((i, j, k)),
{
    assert forall|m: int| 0 <= m < k implies !#[trigger] leads(pairs, m, pairs[j as int].1@, start) by {
        assert(!(pairs[m].0@ == pairs[j as int].1@ && pairs[m].1@ == start));
    }
    assert(is_triangle(pairs, start, (i, j, k)));
}

/// Every route found leaves the start token, goes on from what its first pair bought to
/// a token other than the start, and comes back to the start through the first pair that
/// sells that token for it.
pub proof fn law_triangular_routes_sound(
    pairs: Seq<(String, String)>,
    start: Seq<char>,
    routes: Seq<(usize, usize, usize)>,
    q: int,
    m: int,
)
    requires
        forall|q: int| 0 <= q < routes.len() ==> is_triangle(pairs, start, #[trigger] routes[q]),
        0 <= q < routes.len(),
    ensures
        ({
            let (i, j, k) = routes[q];
            &&& i < pairs.len() && j < pairs.len() && k < pairs.len()
            &&& pairs[i as int].0@ == start
            &&& pairs[j as int].0@ == pairs[i as int].1@
            &&& pairs[j as int].1@ != start
            &&& pairs[k as int].0@ == pairs[j as int].1@
            &&& pairs[k as int].1@ == start
            &&& (0 <= m < k ==> !(pairs[m].0@ == pairs[j as int].1@ && pairs[m].1@ == start))
        }),
{
    let (i, j, k) = routes[q];
    assert(is_triangle(pairs, start, routes[q]));
    if 0 <= m < k {
        assert(!leads(pairs, m, pairs[j as int].1@, start));
    }
}

} // verus!
