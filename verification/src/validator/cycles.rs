use vstd::prelude::*;

verus! {

/// A dependency edge between two IDs: from the first to the second.
pub type Edge = (Seq<char>, Seq<char>);

/// Whether some edge goes from `a` to `b`.
pub open spec fn is_edge(es: Seq<Edge>, a: Seq<char>, b: Seq<char>) -> bool {
    exists|k: int| 0 <= k < es.len() && es[k] == (a, b)
}

/// A chain of IDs, each depending on the next.
pub open spec fn is_chain(es: Seq<Edge>, p: Seq<Seq<char>>) -> bool {
    &&& p.len() >= 1
    &&& forall|t: int| 0 <= t < p.len() - 1 ==> is_edge(es, #[trigger] p[t], p[t + 1])
}

/// Some chain starts at one of `roots` and comes back to an ID it already
/// passed through: a dependency cycle that the roots reach.
pub open spec fn cycle_from(es: Seq<Edge>, roots: Seq<Seq<char>>) -> bool {
    exists|p: Seq<Seq<char>>, i: int, j: int|
        is_chain(es, p) && roots.contains(p[0]) && 0 <= i < j < p.len() && #[trigger] p[i] == #[trigger] p[j]
}

/// Whether a chain of `k` edges starts at `v`.
pub open spec fn walks(es: Seq<Edge>, v: Seq<char>, k: nat) -> bool
    decreases k,
{
    if k == 0 {
        true
    } else {
        exists|m: int| 0 <= m < es.len() && (#[trigger] es[m]).0 == v && walks(es, es[m].1, (k - 1) as nat)
    }
}

/// From a node of the loop `p[i..j]` (where `p[i] == p[j]`) chains of every length start.
proof fn lemma_loop_walks(es: Seq<Edge>, p: Seq<Seq<char>>, i: int, j: int, s: int, k: nat)
    requires
        is_chain(es, p),
        0 <= i < j < p.len(),
        p[i] == p[j],
        i <= s < j,
    ensures
        walks(es, p[s], k),
    decreases k,
{
    if k > 0 {
        let next = if s + 1 == j { i } else { s + 1 };
        lemma_loop_walks(es, p, i, j, next, (k - 1) as nat);
        assert(is_edge(es, p[s], p[s + 1]));
        let m = choose|m: int| 0 <= m < es.len() && es[m] == (p[s], p[s + 1]);
        assert(es[m].1 == p[next]);
    }
}

/// From the start of a chain that reaches the loop `p[i..j]`, chains of every length start.
proof fn lemma_prefix_walks(es: Seq<Edge>, p: Seq<Seq<char>>, i: int, j: int, s: int, k: nat)
    requires
        is_chain(es, p),
        0 <= i < j < p.len(),
        p[i] == p[j],
        0 <= s <= i,
    ensures
        walks(es, p[s], k),
    decreases k,
{
    if s == i {
        lemma_loop_walks(es, p, i, j, s, k);
    } else if k > 0 {
        lemma_prefix_walks(es, p, i, j, s + 1, (k - 1) as nat);
        assert(is_edge(es, p[s], p[s + 1]));
        let m = choose|m: int| 0 <= m < es.len() && es[m] == (p[s], p[s + 1]);
        assert(es[m].1 == p[s + 1]);
    }
}

/// Whether `x` is the target of some edge.
pub open spec fn is_target(es: Seq<Edge>, x: Seq<char>) -> bool {
    exists|m: int| 0 <= m < es.len() && (#[trigger] es[m]).1 == x
}

/// A chain of `k` edges from `v`, when there is one.
proof fn lemma_walk_chain(es: Seq<Edge>, v: Seq<char>, k: nat) -> (w: Seq<Seq<char>>)
    requires
        walks(es, v, k),
    ensures
        is_chain(es, w),
        w.len() == k + 1,
        w[0] == v,
        forall|t: int| 1 <= t < w.len() ==> is_target(es, #[trigger] w[t]),
    decreases k,
{
    if k == 0 {
        seq![v]
    } else {
        let m = choose|m: int| 0 <= m < es.len() && (#[trigger] es[m]).0 == v && walks(es, es[m].1, (k - 1) as nat);
        let rest = lemma_walk_chain(es, es[m].1, (k - 1) as nat);
        let w = seq![v] + rest;
        assert forall|t: int| 0 <= t < w.len() - 1 implies is_edge(es, #[trigger] w[t], w[t + 1]) by {
            if t == 0 {
                assert(es[m] == (v, rest[0]));
            } else {
                assert(w[t] == rest[t - 1]);
                assert(w[t + 1] == rest[t]);
                assert(is_edge(es, rest[t - 1], rest[t]));
            }
        }
        assert forall|t: int| 1 <= t < w.len() implies is_target(es, #[trigger] w[t]) by {
            if t == 1 {
                assert(es[m].1 == w[1]);
            } else {
                assert(w[t] == rest[t - 1]);
            }
        }
        w
    }
}

/// Chains of every length start at a root exactly when a cycle is reachable
/// from it; one edge more than there are edges is enough to tell.
pub proof fn lemma_cycle_iff_long_walk(es: Seq<Edge>, roots: Seq<Seq<char>>)
    ensures
        cycle_from(es, roots) <==> exists|r: int| 0 <= r < roots.len() && walks(es, #[trigger] roots[r], (es.len() + 1) as nat),
{
    let k = (es.len() + 1) as nat;
    if cycle_from(es, roots) {
        let (p, i, j) = choose|p: Seq<Seq<char>>, i: int, j: int|
            is_chain(es, p) && roots.contains(p[0]) && 0 <= i < j < p.len() && #[trigger] p[i] == #[trigger] p[j];
        lemma_prefix_walks(es, p, i, j, 0, k);
        let r = choose|r: int| 0 <= r < roots.len() && roots[r] == p[0];
        assert(walks(es, roots[r], k));
    }
    if exists|r: int| 0 <= r < roots.len() && walks(es, #[trigger] roots[r], k) {
        let r = choose|r: int| 0 <= r < roots.len() && walks(es, #[trigger] roots[r], k);
        let w = lemma_walk_chain(es, roots[r], k);
        let u = w.subrange(1, w.len() as int);
        let targets = es.map_values(|e: Edge| e.1);
        assert(u.to_set().subset_of(targets.to_set())) by {
            assert forall|x: Seq<char>| u.to_set().contains(x) implies targets.to_set().contains(x) by {
                let t = choose|t: int| 0 <= t < u.len() && u[t] == x;
                assert(w[t + 1] == x);
                assert(is_target(es, w[t + 1]));
                let m = choose|m: int| 0 <= m < es.len() && (#[trigger] es[m]).1 == x;
                assert(targets[m] == x);
            }
        }
        broadcast use vstd::seq_lib::seq_to_set_is_finite;
        targets.lemma_cardinality_of_set();
        vstd::set_lib::lemma_len_subset(u.to_set(), targets.to_set());
        if u.no_duplicates() {
            u.unique_seq_to_set();
            assert(false);
        }
        let (a, b) = choose|a: int, b: int| 0 <= a < u.len() && 0 <= b < u.len() && a != b && u[a] == u[b];
        let (i, j) = if a < b { (a + 1, b + 1) } else { (b + 1, a + 1) };
        assert(w[i] == w[j]);
        assert(roots.contains(w[0]));
        assert(cycle_from(es, roots));
    }
}

} // verus!
