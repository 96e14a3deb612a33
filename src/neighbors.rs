use vstd::prelude::*;

verus! {

/// The candidates that remain once every agent with the same identity as
/// agent `me` is removed, in the order the spatial query gave them.
pub open spec fn others(candidates: Seq<usize>, ids: Seq<u128>, me: int) -> Seq<usize> {
    candidates.filter(|c: usize| ids[c as int] != ids[me])
}

/// Filters the result of a range query around agent `me` down to its
/// neighbors: every candidate index whose agent has a different identity.
pub fn neighbor_indices(candidates: &Vec<usize>, ids: &Vec<u128>, me: usize) -> (r: Vec<usize>)
    requires
        me < ids.len(),
        forall|k: int| 0 <= k < candidates.len() ==> #[trigger] candidates[k] < ids.len(),
    ensures
        r@ == others(candidates@, ids@, me as int),
{
    let mut r: Vec<usize> = Vec::new();
    let mut k: usize = 0;
    while k < candidates.len()
        invariant
            k <= candidates.len(),
            me < ids.len(),
            forall|j: int| 0 <= j < candidates.len() ==> #[trigger] candidates[j] < ids.len(),
            r@ == others(candidates@.subrange(0, k as int), ids@, me as int),
        decreases candidates.len() - k,
    {
        let c = candidates[k];
        proof {
            let s = candidates@.subrange(0, k as int + 1);
            assert(s.drop_last() == candidates@.subrange(0, k as int));
            reveal(Seq::filter);
        }
        if ids[c] != ids[me] {
            r.push(c);
        }
        k = k + 1;
    }
    assert(candidates@.subrange(0, candidates.len() as int) == candidates@);
    r
}

/// The neighbors of agent `me` given the outcome of its range query: a
/// failed query, or one that names an index outside the population, leaves
/// the agent without neighbors; otherwise every candidate with a different
/// identity is a neighbor.
pub open spec fn neighbors_from(found: Option<Vec<usize>>, ids: Seq<u128>, me: int) -> Seq<usize> {
    match found {
        Some(c) => if forall|k: int| 0 <= k < c.len() ==> #[trigger] c[k] < ids.len() {
            others(c@, ids, me)
        } else {
            Seq::empty()
        },
        None => Seq::empty(),
    }
}

/// Turns the outcome of the range query around agent `me` into its
/// neighbors, treating a failed or malformed query as finding none.
pub fn neighbors_from_query(found: Option<Vec<usize>>, ids: &Vec<u128>, me: usize) -> (r: Vec<usize>)
    requires
        me < ids.len(),
    ensures
        r@ == neighbors_from(found, ids@, me as int),
{
    match found {
        Some(candidates) => {
            let mut k: usize = 0;
            while k < candidates.len()
                invariant
                    found == Some(candidates),
                    k <= candidates.len(),
                    forall|j: int| 0 <= j < k ==> #[trigger] candidates[j] < ids.len(),
                decreases candidates.len() - k,
            {
                if candidates[k] >= ids.len() {
                    return Vec::new();
                }
                k = k + 1;
            }
            neighbor_indices(&candidates, ids, me)
        },
        None => Vec::new(),
    }
}

/// An index is among the neighbors of `me` exactly when the query found it
/// and its agent's identity differs from that of `me`.
pub proof fn lemma_others_contains(candidates: Seq<usize>, ids: Seq<u128>, me: int, c: usize)
    ensures
        others(candidates, ids, me).contains(c) <==> (candidates.contains(c) && ids[c as int]
            != ids[me]),
{
    broadcast use vstd::seq_lib::group_filter_ensures;

    let pred = |x: usize| ids[x as int] != ids[me];
    if others(candidates, ids, me).contains(c) {
        candidates.lemma_filter_contains_rev(pred, c);
        let i = choose|i: int|
            0 <= i < others(candidates, ids, me).len() && others(candidates, ids, me)[i] == c;
        candidates.lemma_filter_pred(pred, i);
    }
    if candidates.contains(c) && ids[c as int] != ids[me] {
        let i = choose|i: int| 0 <= i < candidates.len() && candidates[i] == c;
        candidates.lemma_filter_contains(pred, i);
    }
}

/// Neighborhood is symmetric: when each of two agents with different
/// identities is found by the range query around the other exactly when the
/// other is found by its own (as a query by Euclidean distance guarantees),
/// then `b` is a neighbor of `a` exactly when `a` is a neighbor of `b`.
pub proof fn lemma_neighbors_symmetric(
    around_a: Seq<usize>,
    around_b: Seq<usize>,
    ids: Seq<u128>,
    a: usize,
    b: usize,
)
    requires
        a < ids.len(),
        b < ids.len(),
        ids[a as int] != ids[b as int],
        around_a.contains(b) <==> around_b.contains(a),
    ensures
        others(around_a, ids, a as int).contains(b) <==> others(around_b, ids, b as int).contains(
            a,
        ),
{
    lemma_others_contains(around_a, ids, a as int, b);
    lemma_others_contains(around_b, ids, b as int, a);
}

} // verus!
