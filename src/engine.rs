use rayon::iter::{IndexedParallelIterator, IntoParallelIterator, IntoParallelRefIterator, ParallelIterator};
use vstd::prelude::*;

verus! {

/// The population may be stepped with `delta` and `apply`: the steering rule
/// accepts every agent of the snapshot, and the update accepts every agent
/// together with any velocity change the rule can produce for it.
pub open spec fn can_step<A, D, F: Fn(&Vec<A>, usize) -> D, G: Fn(&A, &D) -> A>(
    agents: Vec<A>,
    delta: F,
    apply: G,
) -> bool {
    &&& forall|i: usize| i < agents.len() ==> #[trigger] delta.requires((&agents, i))
    &&& forall|i: usize, d: D|
        i < agents.len() && #[trigger] delta.ensures((&agents, i), d) ==> apply.requires(
            (&agents[i as int], &d),
        )
}

/// `after` is one step of `before`: the population keeps its size and order,
/// and each agent is the update of its pre-step record by a velocity change
/// that the steering rule computed from the whole pre-step snapshot.
pub open spec fn stepped<A, D, F: Fn(&Vec<A>, usize) -> D, G: Fn(&A, &D) -> A>(
    before: Vec<A>,
    after: Seq<A>,
    delta: F,
    apply: G,
) -> bool {
    &&& after.len() == before.len()
    &&& forall|i: int| 0 <= i < before.len() ==> updated_from(before, i, #[trigger] after[i], delta, apply)
}

/// `agent` is the update of agent `i` of the snapshot `before` by a velocity
/// change that the steering rule computed for it from that snapshot.
pub open spec fn updated_from<A, D, F: Fn(&Vec<A>, usize) -> D, G: Fn(&A, &D) -> A>(
    before: Vec<A>,
    i: int,
    agent: A,
    delta: F,
    apply: G,
) -> bool {
    exists|d: D| #[trigger] delta.ensures((&before, i as usize), d) && apply.ensures((&before[i], &d), agent)
}

/// The steering rule and the update are functions of their arguments.
pub open spec fn deterministic<A, D, F: Fn(&Vec<A>, usize) -> D, G: Fn(&A, &D) -> A>(
    delta: F,
    apply: G,
) -> bool {
    &&& forall|s: &Vec<A>, i: usize, d1: D, d2: D|
        #[trigger] delta.ensures((s, i), d1) && #[trigger] delta.ensures((s, i), d2) ==> d1 == d2
    &&& forall|a: &A, d: &D, b1: A, b2: A|
        #[trigger] apply.ensures((a, d), b1) && #[trigger] apply.ensures((a, d), b2) ==> b1 == b2
}

/// Advances every agent by one time step, sequentially.
///
/// Read phase: the velocity change of every agent is computed from the
/// unchanged pre-step population and kept in a buffer. Write phase: only
/// then is each agent replaced by its update. An empty population is left
/// as it is.
pub fn step<A, D, F: Fn(&Vec<A>, usize) -> D, G: Fn(&A, &D) -> A>(
    agents: &mut Vec<A>,
    delta: F,
    apply: G,
)
    requires
        can_step(*old(agents), delta, apply),
    ensures
        stepped(*old(agents), final(agents)@, delta, apply),
        old(agents)@.len() == 0 ==> final(agents)@ == old(agents)@,
{
    if agents.len() == 0 {
        return ;
    }
    let snapshot: &Vec<A> = agents;
    let n = snapshot.len();
    let mut deltas: Vec<D> = Vec::new();
    let mut i: usize = 0;
    while i < n
        invariant
            n == snapshot.len(),
            i <= n,
            deltas.len() == i,
            can_step(*snapshot, delta, apply),
            forall|j: int| 0 <= j < i ==> delta.ensures((snapshot, j as usize), #[trigger] deltas[j]),
        decreases n - i,
    {
        assert(delta.requires((snapshot, i)));
        let d = delta(snapshot, i);
        deltas.push(d);
        i = i + 1;
    }
    let mut next: Vec<A> = Vec::new();
    let mut k: usize = 0;
    while k < n
        invariant
            n == snapshot.len(),
            k <= n,
            deltas.len() == n,
            next.len() == k,
            can_step(*snapshot, delta, apply),
            forall|j: int| 0 <= j < n ==> delta.ensures((snapshot, j as usize), #[trigger] deltas[j]),
            forall|j: int|
                0 <= j < k ==> apply.ensures((&snapshot[j], &deltas[j]), #[trigger] next[j]),
        decreases n - k,
    {
        assert(delta.ensures((snapshot, k), deltas[k as int]));
        let b = apply(&snapshot[k], &deltas[k]);
        next.push(b);
        k = k + 1;
    }
    assert forall|j: int| 0 <= j < n implies updated_from(*snapshot, j, #[trigger] next[j], delta, apply) by {
        assert(delta.ensures((snapshot, j as usize), deltas[j]));
    }
    *agents = next;
}

/// Relies on rayon's `into_par_iter` over `0..n`, `map` and `collect` into a
/// `Vec`: the closure runs once for each index, possibly on several threads,
/// and the collected results stand in index order.
#[verifier::external_body]
fn par_map_indices<D: Send, H: Fn(usize) -> D + Sync + Send>(n: usize, f: H) -> (r: Vec<D>)
    requires
        forall|i: usize| i < n ==> #[trigger] f.requires((i,)),
    ensures
        r.len() == n,
        forall|i: int| 0 <= i < n ==> f.ensures((i as usize,), #[trigger] r[i]),
{
    (0..n).into_par_iter().map(f).collect()
}

/// Relies on rayon's `par_iter`, `zip`, `map` and `collect` into a `Vec`: the
/// closure runs once for each pair of same-index elements, possibly on
/// several threads, and the collected results stand in index order.
#[verifier::external_body]
fn par_zip_map<A: Sync, D: Sync, B: Send, H: Fn(&A, &D) -> B + Sync + Send>(
    xs: &Vec<A>,
    ds: &Vec<D>,
    f: H,
) -> (r: Vec<B>)
    requires
        xs.len() == ds.len(),
        forall|i: int| 0 <= i < xs.len() ==> #[trigger] f.requires((&xs[i], &ds[i])),
    ensures
        r.len() == xs.len(),
        forall|i: int| 0 <= i < xs.len() ==> f.ensures((&xs[i], &ds[i]), #[trigger] r[i]),
{
    xs.par_iter().zip(ds.par_iter()).map(|(x, d)| f(x, d)).collect()
}

/// Advances every agent by one time step, spreading the work of each phase
/// over threads.
///
/// The read phase computes every velocity change from the unchanged
/// pre-step population into a buffer, and completes before the write phase
/// replaces any agent by its update; within a phase agents are independent.
/// The outcome is described exactly as for [`step`].
pub fn step_parallel<
    A: Sync + Send,
    D: Sync + Send,
    F: Fn(&Vec<A>, usize) -> D + Sync,
    G: Fn(&A, &D) -> A + Sync,
>(agents: &mut Vec<A>, delta: F, apply: G)
    requires
        can_step(*old(agents), delta, apply),
    ensures
        stepped(*old(agents), final(agents)@, delta, apply),
        old(agents)@.len() == 0 ==> final(agents)@ == old(agents)@,
{
    if agents.len() == 0 {
        return ;
    }
    let snapshot: &Vec<A> = agents;
    let n = snapshot.len();
    let rule = &delta;
    let read = |i: usize| -> (d: D)
        requires
            rule.requires((snapshot, i)),
        ensures
            rule.ensures((snapshot, i), d),
        { rule(snapshot, i) };
    assert forall|i: usize| i < n implies #[trigger] read.requires((i,)) by {
        assert(delta.requires((snapshot, i)));
    }
    let deltas = par_map_indices(n, read);
    assert forall|j: int| 0 <= j < n implies delta.ensures((snapshot, j as usize), #[trigger] deltas[j]) by {
        assert(read.ensures((j as usize,), deltas[j]));
    }
    let update = &apply;
    let write = |a: &A, d: &D| -> (b: A)
        requires
            update.requires((a, d)),
        ensures
            update.ensures((a, d), b),
        { update(a, d) };
    assert forall|j: int| 0 <= j < n implies #[trigger] write.requires((&snapshot[j], &deltas[j])) by {
        assert(delta.ensures((snapshot, j as usize), deltas[j]));
    }
    let next = par_zip_map(snapshot, &deltas, write);
    assert forall|j: int| 0 <= j < n implies updated_from(*snapshot, j, #[trigger] next[j], delta, apply) by {
        assert(delta.ensures((snapshot, j as usize), deltas[j]));
        assert(write.ensures((&snapshot[j], &deltas[j]), next[j]));
    }
    *agents = next;
}

/// The outcome of a step is a function of the pre-step population: when the
/// steering rule and the update are functions of their arguments, any two
/// results that [`step`] or [`step_parallel`] can produce from the same
/// population are equal.
pub proof fn lemma_step_outcome_unique<A, D, F: Fn(&Vec<A>, usize) -> D, G: Fn(&A, &D) -> A>(
    before: Vec<A>,
    after1: Seq<A>,
    after2: Seq<A>,
    delta: F,
    apply: G,
)
    requires
        deterministic(delta, apply),
        stepped(before, after1, delta, apply),
        stepped(before, after2, delta, apply),
    ensures
        after1 == after2,
{
    assert forall|i: int| 0 <= i < after1.len() implies after1[i] == after2[i] by {
        assert(updated_from(before, i, after1[i], delta, apply));
        assert(updated_from(before, i, after2[i], delta, apply));
        let d1 = choose|d: D|
            #[trigger] delta.ensures((&before, i as usize), d) && apply.ensures((&before[i], &d), after1[i]);
        let d2 = choose|d: D|
            #[trigger] delta.ensures((&before, i as usize), d) && apply.ensures((&before[i], &d), after2[i]);
        assert(d1 == d2);
    }
    assert(after1 =~= after2);
}

} // verus!
