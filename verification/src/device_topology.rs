//! Device topology and connectivity constraints
//!
//! Connectivity graphs of devices, shortest paths between qubits, validation
//! of circuits against a topology, and routing by SWAP insertion.

use vstd::prelude::*;
use vstd::string::StringExecFns;
use crate::circuit::{
    all_distinct, all_valid, append_tracked, first_out_of_range, lemma_fault_stops, lemma_in_range, lemma_run_valid,
    lemma_valid_one, lemma_valid_two, op_fault, Fault, op1, op2, reports, run, views, CircuitView,
    InstrView, Instruction, QuantumCircuit,
};
use crate::error::Result;
use crate::gates::{gate_debug_spec, StandardGate};
use crate::text::{decimal, decimal_spec};

verus! {

/// There is a connection from `a` to `b` in the adjacency matrix `adj`.
pub open spec fn has_edge(adj: Seq<Vec<bool>>, a: int, b: int) -> bool {
    &&& 0 <= a < adj.len()
    &&& 0 <= b < adj.len()
    &&& b < adj[a]@.len()
    &&& adj[a]@[b]
}

/// `p` is a walk from `s` to `t`: consecutive entries are connected.
pub open spec fn walk(adj: Seq<Vec<bool>>, p: Seq<usize>, s: usize, t: usize) -> bool {
    &&& p.len() >= 1
    &&& p[0] == s
    &&& p.last() == t
    &&& forall|i: int| 0 <= i < p.len() - 1 ==> #[trigger] has_edge(adj, p[i] as int, p[i + 1] as int)
}

/// `t` can be reached from `s` in at most `k` steps.
pub open spec fn within(adj: Seq<Vec<bool>>, s: usize, t: usize, k: nat) -> bool {
    exists|p: Seq<usize>| #[trigger] walk(adj, p, s, t) && p.len() <= k + 1
}

/// `t` is exactly `k` steps away from `s`.
pub open spec fn at_distance(adj: Seq<Vec<bool>>, s: usize, t: usize, k: nat) -> bool {
    within(adj, s, t, k) && (k == 0 || !within(adj, s, t, (k - 1) as nat))
}

/// `t` can be reached from `s` at all.
pub open spec fn reachable(adj: Seq<Vec<bool>>, s: usize, t: usize) -> bool {
    exists|p: Seq<usize>| #[trigger] walk(adj, p, s, t)
}

/// A walk, extended by one connected step, is a walk.
proof fn lemma_extend(adj: Seq<Vec<bool>>, s: usize, u: usize, v: usize, k: nat)
    requires
        within(adj, s, u, k),
        has_edge(adj, u as int, v as int),
    ensures
        within(adj, s, v, k + 1),
{
    let p = choose|p: Seq<usize>| #[trigger] walk(adj, p, s, u) && p.len() <= k + 1;
    let q = p.push(v);
    assert forall|i: int| 0 <= i < q.len() - 1 implies #[trigger] has_edge(adj, q[i] as int, q[i + 1] as int) by {
        if i < p.len() - 1 {
            assert(has_edge(adj, p[i] as int, p[i + 1] as int));
        }
    }
    assert(walk(adj, q, s, v));
}

/// Reaching within `k` steps is reaching within `k + 1` steps.
proof fn lemma_within_mono(adj: Seq<Vec<bool>>, s: usize, t: usize, k: nat, m: nat)
    requires
        within(adj, s, t, k),
        k <= m,
    ensures
        within(adj, s, t, m),
{
    let p = choose|p: Seq<usize>| #[trigger] walk(adj, p, s, t) && p.len() <= k + 1;
    assert(walk(adj, p, s, t) && p.len() <= m + 1);
}

/// A vertex first reached in `k + 1` steps has a predecessor exactly `k` steps away.
proof fn lemma_predecessor(adj: Seq<Vec<bool>>, s: usize, v: usize, k: nat) -> (w: usize)
    requires
        within(adj, s, v, k + 1),
        !within(adj, s, v, k),
    ensures
        at_distance(adj, s, w, k),
        has_edge(adj, w as int, v as int),
{
    let p = choose|p: Seq<usize>| #[trigger] walk(adj, p, s, v) && p.len() <= k + 2;
    if p.len() == 1 {
        assert(walk(adj, p, s, v) && p.len() <= k + 1);
        assert(false);
    }
    let q = p.drop_last();
    let w = q.last();
    assert(has_edge(adj, p[p.len() - 2] as int, p[p.len() - 1] as int));
    assert forall|i: int| 0 <= i < q.len() - 1 implies #[trigger] has_edge(adj, q[i] as int, q[i + 1] as int) by {
        assert(has_edge(adj, p[i] as int, p[i + 1] as int));
    }
    assert(walk(adj, q, s, w));
    if p.len() <= k + 1 {
        assert(walk(adj, p, s, v) && p.len() <= k + 1);
        assert(false);
    }
    if k > 0 && within(adj, s, w, (k - 1) as nat) {
        lemma_extend(adj, s, w, v, (k - 1) as nat);
        assert(false);
    }
    w
}

/// Once a step reaches nothing new, nothing new is ever reached.
proof fn lemma_closed(adj: Seq<Vec<bool>>, s: usize, k: nat, t: usize, m: nat)
    requires
        forall|v: usize| #[trigger] within(adj, s, v, k + 1) ==> within(adj, s, v, k),
        within(adj, s, t, m),
    ensures
        within(adj, s, t, k),
    decreases m,
{
    if m > k {
        if !within(adj, s, t, (m - 1) as nat) {
            let w = lemma_predecessor(adj, s, t, (m - 1) as nat);
            lemma_closed(adj, s, k, w, (m - 1) as nat);
            lemma_extend(adj, s, w, t, k);
        } else {
            lemma_closed(adj, s, k, t, (m - 1) as nat);
        }
    }
}

/// A vertex reachable from `s` at all is reachable within some number of steps.
proof fn lemma_reachable_within(adj: Seq<Vec<bool>>, s: usize, t: usize)
    requires
        reachable(adj, s, t),
    ensures
        within(adj, s, t, (choose|p: Seq<usize>| #[trigger] walk(adj, p, s, t)).len() as nat),
{
    let p = choose|p: Seq<usize>| #[trigger] walk(adj, p, s, t);
    assert(walk(adj, p, s, t) && p.len() <= p.len() + 1);
}



/// Reaching `v` in exactly `a` and in exactly `b` steps means `a == b`.
proof fn lemma_distance_unique(adj: Seq<Vec<bool>>, s: usize, v: usize, a: nat, b: nat)
    requires
        at_distance(adj, s, v, a),
        at_distance(adj, s, v, b),
    ensures
        a == b,
{
    if a < b {
        lemma_within_mono(adj, s, v, a, (b - 1) as nat);
    }
    if b < a {
        lemma_within_mono(adj, s, v, b, (a - 1) as nat);
    }
}

/// Number of `true` entries of `s`.
pub open spec fn count_true(s: Seq<bool>) -> nat
    decreases s.len(),
{
    if s.len() == 0 {
        0
    } else {
        count_true(s.drop_last()) + if s.last() { 1nat } else { 0nat }
    }
}

proof fn lemma_count_bound(s: Seq<bool>)
    ensures
        count_true(s) <= s.len(),
    decreases s.len(),
{
    if s.len() > 0 {
        lemma_count_bound(s.drop_last());
    }
}

proof fn lemma_count_zero(s: Seq<bool>)
    requires
        forall|i: int| 0 <= i < s.len() ==> !s[i],
    ensures
        count_true(s) == 0,
    decreases s.len(),
{
    if s.len() > 0 {
        lemma_count_zero(s.drop_last());
    }
}

proof fn lemma_count_set(s: Seq<bool>, i: int)
    requires
        0 <= i < s.len(),
        !s[i],
    ensures
        count_true(s.update(i, true)) == count_true(s) + 1,
    decreases s.len(),
{
    let t = s.update(i, true);
    if i == s.len() - 1 {
        assert(t.drop_last() =~= s.drop_last());
    } else {
        assert(t.drop_last() =~= s.drop_last().update(i, true));
        lemma_count_set(s.drop_last(), i);
    }
}

/// `u` is the lowest-numbered vertex exactly `k` steps from `s` with a
/// connection to `v`.
pub open spec fn first_parent(adj: Seq<Vec<bool>>, s: usize, v: usize, u: usize, k: nat) -> bool {
    &&& at_distance(adj, s, u, k)
    &&& has_edge(adj, u as int, v as int)
    &&& forall|x: usize| x < u && #[trigger] has_edge(adj, x as int, v as int) ==> !at_distance(adj, s, x, k)
}

/// The lowest-numbered vertex `k` steps from `s` that connects to `v`.
pub open spec fn parent_of(adj: Seq<Vec<bool>>, s: usize, v: usize, k: nat) -> usize {
    choose|u: usize| first_parent(adj, s, v, u, k)
}

proof fn lemma_parent_unique(adj: Seq<Vec<bool>>, s: usize, v: usize, u: usize, k: nat)
    requires
        first_parent(adj, s, v, u, k),
    ensures
        parent_of(adj, s, v, k) == u,
{
    let w = parent_of(adj, s, v, k);
    assert(first_parent(adj, s, v, w, k));
    if w < u {
        assert(has_edge(adj, w as int, v as int));
    }
    if u < w {
        assert(has_edge(adj, u as int, v as int));
    }
}

/// The walk of `k` steps from `s` to `v` that steps, at every vertex, back to
/// its lowest-numbered predecessor one step closer to `s`.
pub open spec fn canonical_walk(adj: Seq<Vec<bool>>, s: usize, v: usize, k: nat) -> Seq<usize>
    decreases k,
{
    if k == 0 {
        seq![s]
    } else {
        canonical_walk(adj, s, parent_of(adj, s, v, (k - 1) as nat), (k - 1) as nat).push(v)
    }
}

/// The number of steps from `s` to `t` along a shortest walk.
pub open spec fn distance_of(adj: Seq<Vec<bool>>, s: usize, t: usize) -> nat {
    choose|k: nat| at_distance(adj, s, t, k)
}

/// The shortest walk from `s` to `t` that breadth-first search with
/// lowest-numbered neighbours first finds.
pub open spec fn shortest_route(adj: Seq<Vec<bool>>, s: usize, t: usize) -> Seq<usize> {
    canonical_walk(adj, s, t, distance_of(adj, s, t))
}

proof fn lemma_distance_of(adj: Seq<Vec<bool>>, s: usize, t: usize, k: nat)
    requires
        at_distance(adj, s, t, k),
    ensures
        distance_of(adj, s, t) == k,
{
    let d = distance_of(adj, s, t);
    assert(at_distance(adj, s, t, d));
    lemma_distance_unique(adj, s, t, d, k);
}

/// What the search records for every vertex it has visited.
pub open spec fn search_state(
    adj: Seq<Vec<bool>>,
    s: usize,
    visited: Seq<bool>,
    parent: Seq<usize>,
    dist: Seq<usize>,
) -> bool {
    &&& visited.len() == adj.len()
    &&& parent.len() == adj.len()
    &&& dist.len() == adj.len()
    &&& (s as int) < adj.len()
    &&& visited[s as int]
    &&& dist[s as int] == 0
    &&& forall|v: int| 0 <= v < adj.len() && #[trigger] visited[v] ==> {
        &&& at_distance(adj, s, v as usize, dist[v] as nat)
        &&& v != s ==> {
            &&& dist[v] > 0
            &&& (parent[v] as int) < adj.len()
            &&& visited[parent[v] as int]
            &&& dist[parent[v] as int] + 1 == dist[v]
            &&& first_parent(adj, s, v as usize, parent[v], (dist[v] - 1) as nat)
        }
    }
}

proof fn lemma_state_add(
    adj: Seq<Vec<bool>>,
    s: usize,
    visited: Seq<bool>,
    parent: Seq<usize>,
    dist: Seq<usize>,
    w: usize,
    u: usize,
    k: usize,
)
    requires
        search_state(adj, s, visited, parent, dist),
        (w as int) < adj.len(),
        !visited[w as int],
        (u as int) < adj.len(),
        visited[u as int],
        dist[u as int] == k,
        k + 1 <= usize::MAX,
        at_distance(adj, s, w, (k + 1) as nat),
        first_parent(adj, s, w, u, k as nat),
    ensures
        search_state(adj, s, visited.update(w as int, true), parent.update(w as int, u), dist.update(w as int, (k + 1) as usize)),
{
    let vi = visited.update(w as int, true);
    let pa = parent.update(w as int, u);
    let di = dist.update(w as int, (k + 1) as usize);
    assert forall|v: int| 0 <= v < adj.len() && #[trigger] vi[v] implies {
        &&& at_distance(adj, s, v as usize, di[v] as nat)
        &&& v != s ==> {
            &&& di[v] > 0
            &&& (pa[v] as int) < adj.len()
            &&& vi[pa[v] as int]
            &&& di[pa[v] as int] + 1 == di[v]
            &&& first_parent(adj, s, v as usize, pa[v], (di[v] - 1) as nat)
        }
    } by {
        if v != w {
            assert(visited[v]);
            if v != s {
                assert(visited[parent[v] as int]);
            }
        }
    }
}

/// A vector of `n` copies of `false`.
fn all_false(n: usize) -> (r: Vec<bool>)
    ensures
        r@ == Seq::new(n as nat, |i: int| false),
{
    let mut r: Vec<bool> = Vec::new();
    while r.len() < n
        invariant
            r.len() <= n,
            forall|i: int| 0 <= i < r.len() ==> !r@[i],
        decreases n - r.len(),
    {
        r.push(false);
    }
    assert(r@ =~= Seq::new(n as nat, |i: int| false));
    r
}

/// A vector of `n` zeros.
fn all_zero(n: usize) -> (r: Vec<usize>)
    ensures
        r@ == Seq::new(n as nat, |i: int| 0usize),
{
    let mut r: Vec<usize> = Vec::new();
    while r.len() < n
        invariant
            r.len() <= n,
            forall|i: int| 0 <= i < r.len() ==> r@[i] == 0,
        decreases n - r.len(),
    {
        r.push(0);
    }
    assert(r@ =~= Seq::new(n as nat, |i: int| 0usize));
    r
}

/// The walk the search recorded, from `s` to the visited vertex `v`.
fn trace_back(
    adj: &Vec<Vec<bool>>,
    s: usize,
    v: usize,
    visited: &Vec<bool>,
    parent: &Vec<usize>,
    dist: &Vec<usize>,
) -> (r: Vec<usize>)
    requires
        search_state(adj@, s, visited@, parent@, dist@),
        (v as int) < adj@.len(),
        visited@[v as int],
    ensures
        r@ == canonical_walk(adj@, s, v, dist@[v as int] as nat),
        walk(adj@, r@, s, v),
        r@.len() == dist@[v as int] + 1,
    decreases dist@[v as int],
{
    if v == s {
        let r = vec![s];
        assert(r@ =~= seq![s]);
        r
    } else {
        let u = parent[v];
        let ghost k = (dist@[v as int] - 1) as nat;
        assert(visited@[v as int]);
        let mut r = trace_back(adj, s, u, visited, parent, dist);
        proof {
            lemma_parent_unique(adj@, s, v, u, k);
        }
        let ghost before = r@;
        r.push(v);
        proof {
            assert(has_edge(adj@, u as int, v as int));
            assert forall|i: int| 0 <= i < r@.len() - 1 implies #[trigger] has_edge(adj@, r@[i] as int, r@[i + 1] as int) by {
                if i < before.len() - 1 {
                    assert(has_edge(adj@, before[i] as int, before[i + 1] as int));
                }
            }
        }
        r
    }
}


/// A walk that leaves `s` and ends elsewhere only visits vertices of the graph.
proof fn lemma_walk_ends_inside(adj: Seq<Vec<bool>>, p: Seq<usize>, s: usize, t: usize)
    requires
        walk(adj, p, s, t),
        s != t,
    ensures
        (s as int) < adj.len(),
        (t as int) < adj.len(),
        p.len() >= 2,
{
    assert(p.len() != 1 || p[0] == p.last());
    assert(p.len() >= 2);
    let first: int = 0;
    let last: int = p.len() - 2;
    assert(has_edge(adj, p[first] as int, p[first + 1] as int));
    assert(has_edge(adj, p[last] as int, p[last + 1] as int));
}

/// A shortest walk from `start` to `end`: the one breadth-first search
/// finds when it visits lower-numbered neighbours first.
pub fn shortest_walk(adj: &Vec<Vec<bool>>, start: usize, end: usize) -> (r: Option<Vec<usize>>)
    ensures
        match r {
            Some(p) => {
                &&& reachable(adj@, start, end)
                &&& p@ == shortest_route(adj@, start, end)
                &&& walk(adj@, p@, start, end)
                &&& forall|q: Seq<usize>| #[trigger] walk(adj@, q, start, end) ==> p@.len() <= q.len()
            },
            None => !reachable(adj@, start, end),
        },
{
    if start == end {
        let p = vec![start];
        proof {
            assert(p@ =~= seq![start]);
            assert(walk(adj@, p@, start, end));
            assert(at_distance(adj@, start, end, 0));
            lemma_distance_of(adj@, start, end, 0);
        }
        return Some(p);
    }
    let n = adj.len();
    if start >= n || end >= n {
        proof {
            if reachable(adj@, start, end) {
                let p = choose|p: Seq<usize>| #[trigger] walk(adj@, p, start, end);
                lemma_walk_ends_inside(adj@, p, start, end);
            }
        }
        return None;
    }
    let mut visited = all_false(n);
    let mut parent = all_zero(n);
    let mut dist = all_zero(n);
    proof {
        lemma_count_set(visited@, start as int);
        assert(count_true(visited@) == 0) by {
            lemma_count_zero(visited@);
        }
        assert(walk(adj@, seq![start], start, start));
        assert(at_distance(adj@, start, start, 0));
    }
    visited.set(start, true);
    let mut k: usize = 0;
    let mut seen: usize = 1;
    proof {
        assert forall|v: int| 0 <= v < n implies (#[trigger] visited@[v] <==> within(adj@, start, v as usize, 0)) by {
            if within(adj@, start, v as usize, 0) {
                let p = choose|p: Seq<usize>| #[trigger] walk(adj@, p, start, v as usize) && p.len() <= 1;
                assert(p[0] == p.last());
            }
        }
    }
    loop
        invariant
            n == adj@.len(),
            start < n,
            end < n,
            start != end,
            search_state(adj@, start, visited@, parent@, dist@),
            forall|v: int| 0 <= v < n ==> (#[trigger] visited@[v] <==> within(adj@, start, v as usize, k as nat)),
            forall|v: int| 0 <= v < n && visited@[v] ==> #[trigger] dist@[v] <= k,
            seen == count_true(visited@),
            k + 1 <= seen <= n,
        decreases n - seen,
    {
        if visited[end] {
            let p = trace_back(adj, start, end, &visited, &parent, &dist);
            proof {
                let d = dist@[end as int] as nat;
                assert(at_distance(adj@, start, end, d));
                lemma_distance_of(adj@, start, end, d);
                assert forall|q: Seq<usize>| #[trigger] walk(adj@, q, start, end) implies p@.len() <= q.len() by {
                    if q.len() < d + 1 {
                        let m = (q.len() - 1) as nat;
                        assert(walk(adj@, q, start, end) && q.len() <= m + 1);
                        assert(within(adj@, start, end, m));
                        lemma_within_mono(adj@, start, end, m, (d - 1) as nat);
                    }
                }
            }
            return Some(p);
        }
        let ghost old_visited = visited@;
        let ghost old_seen = seen;
        let mut added = false;
        let mut u: usize = 0;
        while u < n
            invariant
                n == adj@.len(),
                start < n,
                end < n,
                start != end,
                u <= n,
                k + 1 <= old_seen,
                old_seen <= seen,
                seen <= n,
                seen == count_true(visited@),
                old_visited.len() == n,
                search_state(adj@, start, visited@, parent@, dist@),
                forall|v: int| 0 <= v < n ==> (#[trigger] old_visited[v] <==> within(adj@, start, v as usize, k as nat)),
                forall|v: int| 0 <= v < n && old_visited[v] ==> #[trigger] visited@[v],
                forall|v: int| 0 <= v < n && #[trigger] visited@[v] ==>
                    (old_visited[v] && dist@[v] <= k) || (!old_visited[v] && dist@[v] == k + 1),
                forall|x: int, w: int| 0 <= x < u && #[trigger] has_edge(adj@, x, w)
                    && at_distance(adj@, start, x as usize, k as nat) ==> visited@[w],
                added ==> seen > old_seen,
                !added ==> visited@ == old_visited,
            decreases n - u,
        {
            if visited[u] && dist[u] == k {
                let mut w: usize = 0;
                while w < n
                    invariant
                        n == adj@.len(),
                        start < n,
                        end < n,
                        start != end,
                        u < n,
                        w <= n,
                        k + 1 <= old_seen,
                        old_seen <= seen,
                        seen <= n,
                        seen == count_true(visited@),
                        old_visited.len() == n,
                        visited@[u as int],
                        dist@[u as int] == k,
                        search_state(adj@, start, visited@, parent@, dist@),
                        forall|v: int| 0 <= v < n ==> (#[trigger] old_visited[v] <==> within(adj@, start, v as usize, k as nat)),
                        forall|v: int| 0 <= v < n && old_visited[v] ==> #[trigger] visited@[v],
                        forall|v: int| 0 <= v < n && #[trigger] visited@[v] ==>
                            (old_visited[v] && dist@[v] <= k) || (!old_visited[v] && dist@[v] == k + 1),
                        forall|x: int, y: int| 0 <= x < u && #[trigger] has_edge(adj@, x, y)
                            && at_distance(adj@, start, x as usize, k as nat) ==> visited@[y],
                        forall|y: int| 0 <= y < w && #[trigger] has_edge(adj@, u as int, y) ==> visited@[y],
                        added ==> seen > old_seen,
                        !added ==> visited@ == old_visited,
                    decreases n - w,
                {
                    if w < adj[u].len() && adj[u][w] && !visited[w] {
                        proof {
                            assert(has_edge(adj@, u as int, w as int));
                            assert(at_distance(adj@, start, u, k as nat));
                            lemma_extend(adj@, start, u, w, k as nat);
                            assert(!old_visited[w as int]);
                            assert(at_distance(adj@, start, w, (k + 1) as nat));
                            assert forall|x: usize| x < u && #[trigger] has_edge(adj@, x as int, w as int)
                                implies !at_distance(adj@, start, x, k as nat) by {
                                assert(has_edge(adj@, x as int, w as int));
                            }
                            assert(first_parent(adj@, start, w, u, k as nat));
                            lemma_state_add(adj@, start, visited@, parent@, dist@, w, u, k);
                            lemma_count_set(visited@, w as int);
                            lemma_count_bound(visited@.update(w as int, true));
                        }
                        visited.set(w, true);
                        dist.set(w, k + 1);
                        parent.set(w, u);
                        seen = seen + 1;
                        added = true;
                    }
                    w = w + 1;
                }
            } else {
                proof {
                    if at_distance(adj@, start, u, k as nat) {
                        assert(old_visited[u as int]);
                        assert(visited@[u as int]);
                        assert(at_distance(adj@, start, u, dist@[u as int] as nat));
                        lemma_distance_unique(adj@, start, u, k as nat, dist@[u as int] as nat);
                    }
                }
            }
            u = u + 1;
        }
        proof {
            assert forall|v: int| 0 <= v < n implies (#[trigger] visited@[v] <==> within(adj@, start, v as usize, (k + 1) as nat)) by {
                if visited@[v] {
                    assert(at_distance(adj@, start, v as usize, dist@[v] as nat));
                    lemma_within_mono(adj@, start, v as usize, dist@[v] as nat, (k + 1) as nat);
                }
                if within(adj@, start, v as usize, (k + 1) as nat) && !visited@[v] {
                    if within(adj@, start, v as usize, k as nat) {
                        assert(old_visited[v]);
                    } else {
                        let x = lemma_predecessor(adj@, start, v as usize, k as nat);
                        assert(has_edge(adj@, x as int, v));
                    }
                }
            }
        }
        if !added {
            proof {
                assert forall|v: usize| #[trigger] within(adj@, start, v, (k + 1) as nat)
                    implies within(adj@, start, v, k as nat) by {
                    if v != start {
                        let p = choose|p: Seq<usize>| #[trigger] walk(adj@, p, start, v) && p.len() <= k + 2;
                        lemma_walk_ends_inside(adj@, p, start, v);
                        assert(visited@[v as int]);
                        assert(old_visited[v as int]);
                    } else {
                        assert(walk(adj@, seq![start], start, start));
                    }
                }
                if reachable(adj@, start, end) {
                    lemma_reachable_within(adj@, start, end);
                    let p = choose|p: Seq<usize>| #[trigger] walk(adj@, p, start, end);
                    lemma_closed(adj@, start, k as nat, end, p.len() as nat);
                    assert(old_visited[end as int]);
                }
            }
            return None;
        }
        k = k + 1;
    }
}


/// The walk `canonical_walk(.., k)` has `k + 1` vertices.
proof fn lemma_canonical_len(adj: Seq<Vec<bool>>, s: usize, v: usize, k: nat)
    ensures
        canonical_walk(adj, s, v, k).len() == k + 1,
    decreases k,
{
    if k > 0 {
        lemma_canonical_len(adj, s, parent_of(adj, s, v, (k - 1) as nat), (k - 1) as nat);
    }
}

/// Connectivity patterns of the standard device layouts.
#[derive(Clone, Copy)]
pub enum Layout {
    /// No connections
    Isolated,
    /// Each qubit connected to the next one
    Line,
    /// Qubits numbered row by row in a lattice with `cols` columns, each
    /// connected to the qubits beside, above and below it
    Grid { cols: usize },
    /// Each qubit connected to every other qubit at most two places away
    HeavyHex,
    /// Every qubit connected to every other qubit
    Complete,
}

/// Qubits `a` and `b` are connected in the layout `l`.
pub open spec fn layout_link(l: Layout, a: int, b: int) -> bool {
    match l {
        Layout::Isolated => false,
        Layout::Line => a + 1 == b || b + 1 == a,
        Layout::Grid { cols } => {
            ||| a / (cols as int) == b / (cols as int) && (a % (cols as int) + 1 == b % (cols as int)
                || b % (cols as int) + 1 == a % (cols as int))
            ||| a + cols == b
            ||| b + cols == a
        },
        Layout::HeavyHex => a != b && a <= b + 2 && b <= a + 2,
        Layout::Complete => a != b,
    }
}

/// `adj` is the `n` by `n` connectivity matrix of layout `l`.
pub open spec fn layout_graph(l: Layout, n: nat, adj: Seq<Vec<bool>>) -> bool {
    &&& adj.len() == n
    &&& forall|a: int| 0 <= a < n ==> (#[trigger] adj[a])@.len() == n
    &&& forall|a: int, b: int| 0 <= a < n && 0 <= b < n ==> (#[trigger] adj[a]@[b] <==> layout_link(l, a, b))
}

fn link(l: Layout, a: usize, b: usize) -> (r: bool)
    requires
        l matches Layout::Grid { cols } ==> cols > 0,
    ensures
        r == layout_link(l, a as int, b as int),
{
    match l {
        Layout::Isolated => false,
        Layout::Line => (b >= 1 && b - 1 == a) || (a >= 1 && a - 1 == b),
        Layout::Grid { cols } => {
            (a / cols == b / cols && ((a % cols) + 1 == b % cols || (b % cols) + 1 == a % cols))
                || (b >= cols && b - cols == a) || (a >= cols && a - cols == b)
        },
        Layout::HeavyHex => a != b && (a <= b || a - b <= 2) && (b <= a || b - a <= 2),
        Layout::Complete => a != b,
    }
}

fn layout_matrix(n: usize, l: Layout) -> (r: Vec<Vec<bool>>)
    requires
        l matches Layout::Grid { cols } ==> cols > 0,
    ensures
        layout_graph(l, n as nat, r@),
{
    let mut rows: Vec<Vec<bool>> = Vec::new();
    while rows.len() < n
        invariant
            rows.len() <= n,
            l matches Layout::Grid { cols } ==> cols > 0,
            forall|a: int| 0 <= a < rows.len() ==> (#[trigger] rows@[a])@.len() == n,
            forall|a: int, b: int| 0 <= a < rows.len() && 0 <= b < n ==> (#[trigger] rows@[a]@[b] <==> layout_link(l, a, b)),
        decreases n - rows.len(),
    {
        let a = rows.len();
        let mut row: Vec<bool> = Vec::new();
        while row.len() < n
            invariant
                row.len() <= n,
                a < n,
                l matches Layout::Grid { cols } ==> cols > 0,
                forall|b: int| 0 <= b < row.len() ==> (#[trigger] row@[b] <==> layout_link(l, a as int, b)),
            decreases n - row.len(),
        {
            let b = row.len();
            row.push(link(l, a, b));
        }
        rows.push(row);
    }
    rows
}

/// Time of a gate on a device, with the encoding of its duration in nanoseconds.
pub struct GateTime {
    pub gate: String,
    pub nanoseconds: u64,
}

/// Fidelity of a two-qubit gate on a connection, as an encoded number.
pub struct EdgeFidelity {
    pub from: usize,
    pub to: usize,
    pub fidelity: u64,
}

/// Encoding of 20.0.
pub const TWENTY_BITS: u64 = 0x4034000000000000u64;
/// Encoding of 200.0.
pub const TWO_HUNDRED_BITS: u64 = 0x4069000000000000u64;
/// Encoding of 0.999.
pub const QUBIT_FIDELITY_BITS: u64 = 0x3feff7ced916872bu64;
/// Encoding of 0.98.
pub const READOUT_FIDELITY_BITS: u64 = 0x3fef5c28f5c28f5cu64;
/// Encoding of 0.99.
pub const EDGE_FIDELITY_BITS: u64 = 0x3fefae147ae147aeu64;

/// Default gate durations: names and encoded nanoseconds.
pub open spec fn default_gate_times() -> Seq<(Seq<char>, u64)> {
    seq![
        ("X"@, TWENTY_BITS),
        ("Y"@, TWENTY_BITS),
        ("Z"@, 0u64),
        ("H"@, TWENTY_BITS),
        ("S"@, 0u64),
        ("T"@, 0u64),
        ("CNOT"@, TWO_HUNDRED_BITS),
        ("CZ"@, TWO_HUNDRED_BITS),
    ]
}

/// Connections `(a, b)` with `a < b < n` and `a` below `row`, ordered by `a`, then `b`.
pub open spec fn edge_pairs(adj: Seq<Vec<bool>>, n: nat, row: nat) -> Seq<(usize, usize)>
    decreases row,
{
    if row == 0 {
        Seq::empty()
    } else {
        edge_pairs(adj, n, (row - 1) as nat) + row_pairs(adj, (row - 1) as nat, n)
    }
}

/// Connections `(a, b)` with `a < b` and `b` below `m`, ordered by `b`.
pub open spec fn row_pairs(adj: Seq<Vec<bool>>, a: nat, m: nat) -> Seq<(usize, usize)>
    decreases m,
{
    if m == 0 {
        Seq::empty()
    } else if a < m - 1 && has_edge(adj, a as int, m - 1) {
        row_pairs(adj, a, (m - 1) as nat).push((a as usize, (m - 1) as usize))
    } else {
        row_pairs(adj, a, (m - 1) as nat)
    }
}

/// Neighbours of `q` below `m`, in increasing order.
pub open spec fn neighbours_below(adj: Seq<Vec<bool>>, q: int, m: nat) -> Seq<usize>
    decreases m,
{
    if m == 0 {
        Seq::empty()
    } else if has_edge(adj, q, m - 1) {
        neighbours_below(adj, q, (m - 1) as nat).push((m - 1) as usize)
    } else {
        neighbours_below(adj, q, (m - 1) as nat)
    }
}

/// Default two-qubit fidelities: both directions of every connection.
pub open spec fn edge_fidelity_entries(edges: Seq<(usize, usize)>) -> Seq<(usize, usize, u64)>
    decreases edges.len(),
{
    if edges.len() == 0 {
        Seq::empty()
    } else {
        let e = edges.last();
        edge_fidelity_entries(edges.drop_last()) + seq![(e.0, e.1, EDGE_FIDELITY_BITS), (e.1, e.0, EDGE_FIDELITY_BITS)]
    }
}

/// Number of qubits of the heavy-hex device of the given distance.
pub open spec fn heavy_hex_width(distance: nat) -> nat {
    if distance == 1 {
        5
    } else if distance == 2 {
        16
    } else if distance == 3 {
        27
    } else {
        distance * distance
    }
}

/// Quantum device topology: qubits, their connections, and gate data.
pub struct DeviceTopology {
    num_qubits: usize,
    adjacency: Vec<Vec<bool>>,
    gate_times: Vec<GateTime>,
    edge_fidelities: Vec<EdgeFidelity>,
    qubit_fidelities: Vec<u64>,
    readout_fidelities: Vec<u64>,
    name: String,
}

impl DeviceTopology {
    /// The connectivity matrix.
    pub closed spec fn graph(&self) -> Seq<Vec<bool>> {
        self.adjacency@
    }

    /// Number of physical qubits.
    pub closed spec fn width(&self) -> usize {
        self.num_qubits
    }

    /// Device name.
    pub closed spec fn label(&self) -> Seq<char> {
        self.name@
    }

    /// Gate durations as names and encoded nanoseconds.
    pub closed spec fn timings(&self) -> Seq<(Seq<char>, u64)> {
        self.gate_times@.map_values(|t: GateTime| (t.gate@, t.nanoseconds))
    }

    /// Two-qubit fidelities as (from, to, encoded fidelity).
    pub closed spec fn link_fidelities(&self) -> Seq<(usize, usize, u64)> {
        self.edge_fidelities@.map_values(|e: EdgeFidelity| (e.from, e.to, e.fidelity))
    }

    /// Encoded single-qubit fidelities, by qubit.
    pub closed spec fn single_fidelities(&self) -> Seq<u64> {
        self.qubit_fidelities@
    }

    /// Encoded readout fidelities, by qubit.
    pub closed spec fn readouts(&self) -> Seq<u64> {
        self.readout_fidelities@
    }

    /// The connectivity matrix is square, of the device's width.
    closed spec fn square(&self) -> bool {
        &&& self.adjacency@.len() == self.num_qubits
        &&& forall|a: int| 0 <= a < self.num_qubits ==> (#[trigger] self.adjacency@[a])@.len() == self.num_qubits
    }

    /// The connectivity matrix is square, of the device's width, and symmetric.
    pub closed spec fn wf(&self) -> bool {
        &&& self.square()
        &&& forall|a: int, b: int| 0 <= a < self.num_qubits && 0 <= b < self.num_qubits
            ==> (#[trigger] self.adjacency@[a]@[b] == self.adjacency@[b]@[a])
    }

    /// The device has the connections of layout `l` on its qubits.
    pub open spec fn has_layout(&self, l: Layout) -> bool {
        forall|a: int, b: int| #[trigger] has_edge(self.graph(), a, b)
            <==> (0 <= a < self.width() && 0 <= b < self.width() && layout_link(l, a, b))
    }

    /// The device carries the default gate times and fidelities.
    pub open spec fn has_defaults(&self) -> bool {
        &&& self.timings() == default_gate_times()
        &&& self.single_fidelities() == Seq::new(self.width() as nat, |i: int| QUBIT_FIDELITY_BITS)
        &&& self.readouts() == Seq::new(self.width() as nat, |i: int| READOUT_FIDELITY_BITS)
        &&& self.link_fidelities() == edge_fidelity_entries(edge_pairs(self.graph(), self.width() as nat, self.width() as nat))
    }

    fn with_layout(name: String, num_qubits: usize, l: Layout) -> (r: Self)
        requires
            l matches Layout::Grid { cols } ==> cols > 0,
            forall|a: int, b: int| layout_link(l, a, b) ==> layout_link(l, b, a),
        ensures
            r.wf(),
            r.width() == num_qubits,
            r.label() == name@,
            r.has_layout(l),
            r.timings().len() == 0,
            r.link_fidelities().len() == 0,
            r.single_fidelities().len() == 0,
            r.readouts().len() == 0,
    {
        let adjacency = layout_matrix(num_qubits, l);
        let r = DeviceTopology {
            num_qubits,
            adjacency,
            gate_times: Vec::new(),
            edge_fidelities: Vec::new(),
            qubit_fidelities: Vec::new(),
            readout_fidelities: Vec::new(),
            name,
        };
        proof {
            assert forall|a: int, b: int| #[trigger] has_edge(r.graph(), a, b)
                <==> (0 <= a < r.width() && 0 <= b < r.width() && layout_link(l, a, b)) by {
                if 0 <= a < num_qubits && 0 <= b < num_qubits {
                    assert(r.adjacency@[a]@.len() == num_qubits);
                }
            }
            assert(r.timings() =~= Seq::<(Seq<char>, u64)>::empty());
            assert(r.link_fidelities() =~= Seq::<(usize, usize, u64)>::empty());
        }
        r
    }

    fn set_default_parameters(&mut self)
        requires
            old(self).wf(),
        ensures
            final(self).wf(),
            final(self).graph() == old(self).graph(),
            final(self).width() == old(self).width(),
            final(self).label() == old(self).label(),
            final(self).has_defaults(),
    {
        let mut times: Vec<GateTime> = Vec::new();
        times.push(GateTime { gate: String::from_str("X"), nanoseconds: TWENTY_BITS });
        times.push(GateTime { gate: String::from_str("Y"), nanoseconds: TWENTY_BITS });
        times.push(GateTime { gate: String::from_str("Z"), nanoseconds: 0 });
        times.push(GateTime { gate: String::from_str("H"), nanoseconds: TWENTY_BITS });
        times.push(GateTime { gate: String::from_str("S"), nanoseconds: 0 });
        times.push(GateTime { gate: String::from_str("T"), nanoseconds: 0 });
        times.push(GateTime { gate: String::from_str("CNOT"), nanoseconds: TWO_HUNDRED_BITS });
        times.push(GateTime { gate: String::from_str("CZ"), nanoseconds: TWO_HUNDRED_BITS });
        let n = self.num_qubits;
        let mut single: Vec<u64> = Vec::new();
        let mut readout: Vec<u64> = Vec::new();
        while single.len() < n
            invariant
                single.len() <= n,
                readout.len() == single.len(),
                forall|i: int| 0 <= i < single.len() ==> single@[i] == QUBIT_FIDELITY_BITS,
                forall|i: int| 0 <= i < readout.len() ==> readout@[i] == READOUT_FIDELITY_BITS,
            decreases n - single.len(),
        {
            single.push(QUBIT_FIDELITY_BITS);
            readout.push(READOUT_FIDELITY_BITS);
        }
        let edges = self.edges();
        let mut links: Vec<EdgeFidelity> = Vec::new();
        let mut i: usize = 0;
        while i < edges.len()
            invariant
                i <= edges.len(),
                links@.map_values(|e: EdgeFidelity| (e.from, e.to, e.fidelity)) == edge_fidelity_entries(edges@.take(i as int)),
            decreases edges.len() - i,
        {
            let (a, b) = edges[i];
            let ghost before = links@;
            links.push(EdgeFidelity { from: a, to: b, fidelity: EDGE_FIDELITY_BITS });
            links.push(EdgeFidelity { from: b, to: a, fidelity: EDGE_FIDELITY_BITS });
            proof {
                let t = edges@.take(i + 1);
                assert(t.drop_last() =~= edges@.take(i as int));
                assert(links@.map_values(|e: EdgeFidelity| (e.from, e.to, e.fidelity)) =~=
                    before.map_values(|e: EdgeFidelity| (e.from, e.to, e.fidelity))
                        + seq![(a, b, EDGE_FIDELITY_BITS), (b, a, EDGE_FIDELITY_BITS)]);
            }
            i = i + 1;
        }
        self.gate_times = times;
        self.qubit_fidelities = single;
        self.readout_fidelities = readout;
        self.edge_fidelities = links;
        proof {
            assert(edges@.take(edges@.len() as int) =~= edges@);
            assert(self.timings() =~= default_gate_times());
            assert(self.single_fidelities() =~= Seq::new(self.width() as nat, |i: int| QUBIT_FIDELITY_BITS));
            assert(self.readouts() =~= Seq::new(self.width() as nat, |i: int| READOUT_FIDELITY_BITS));
        }
    }

    /// Connections `(a, b)` with `a < b`, ordered by `a`, then `b`
    pub fn edges(&self) -> (r: Vec<(usize, usize)>)
        requires
            self.wf(),
        ensures
            r@ == edge_pairs(self.graph(), self.width() as nat, self.width() as nat),
    {
        let n = self.num_qubits;
        let mut r: Vec<(usize, usize)> = Vec::new();
        let mut a: usize = 0;
        while a < n
            invariant
                a <= n,
                n == self.num_qubits,
                self.wf(),
                r@ == edge_pairs(self.graph(), n as nat, a as nat),
            decreases n - a,
        {
            let ghost base = r@;
            let mut b: usize = 0;
            assert(row_pairs(self.graph(), a as nat, 0) =~= Seq::<(usize, usize)>::empty());
            assert(base + row_pairs(self.graph(), a as nat, 0) =~= base);
            while b < n
                invariant
                    a < n,
                    b <= n,
                    n == self.num_qubits,
                    self.wf(),
                    base == edge_pairs(self.graph(), n as nat, a as nat),
                    r@ == base + row_pairs(self.graph(), a as nat, b as nat),
                decreases n - b,
            {
                assert(self.adjacency@[a as int]@.len() == n);
                let ghost prev = row_pairs(self.graph(), a as nat, b as nat);
                if a < b && self.adjacency[a][b] {
                    r.push((a, b));
                    assert(base + prev.push((a, b)) =~= (base + prev).push((a, b)));
                }
                b = b + 1;
            }
            a = a + 1;
        }
        r
    }

    /// Create a device with the given name and number of qubits and no connections
    pub fn new(name: String, num_qubits: usize) -> (r: Self)
        ensures
            r.wf(),
            r.width() == num_qubits,
            r.label() == name@,
            r.has_layout(Layout::Isolated),
            r.timings().len() == 0,
            r.link_fidelities().len() == 0,
            r.single_fidelities().len() == 0,
            r.readouts().len() == 0,
    {
        Self::with_layout(name, num_qubits, Layout::Isolated)
    }

    /// Number of physical qubits
    pub fn num_qubits(&self) -> (r: usize)
        ensures
            r == self.width(),
    {
        self.num_qubits
    }

    /// Device name
    pub fn name(&self) -> (r: &String)
        ensures
            r@ == self.label(),
    {
        &self.name
    }

    /// Gate durations: names and encoded nanoseconds
    pub fn gate_times(&self) -> (r: &Vec<GateTime>)
        ensures
            r@.map_values(|t: GateTime| (t.gate@, t.nanoseconds)) == self.timings(),
    {
        &self.gate_times
    }

    /// Two-qubit fidelities of the connections
    pub fn edge_fidelities(&self) -> (r: &Vec<EdgeFidelity>)
        ensures
            r@.map_values(|e: EdgeFidelity| (e.from, e.to, e.fidelity)) == self.link_fidelities(),
    {
        &self.edge_fidelities
    }

    /// Encoded single-qubit fidelities, by qubit
    pub fn qubit_fidelities(&self) -> (r: &Vec<u64>)
        ensures
            r@ == self.single_fidelities(),
    {
        &self.qubit_fidelities
    }

    /// Encoded readout fidelities, by qubit
    pub fn readout_fidelities(&self) -> (r: &Vec<u64>)
        ensures
            r@ == self.readouts(),
    {
        &self.readout_fidelities
    }

    fn standard(name: String, num_qubits: usize, l: Layout) -> (r: Self)
        requires
            l matches Layout::Grid { cols } ==> cols > 0,
            forall|a: int, b: int| layout_link(l, a, b) ==> layout_link(l, b, a),
        ensures
            r.wf(),
            r.width() == num_qubits,
            r.label() == name@,
            r.has_layout(l),
            r.has_defaults(),
    {
        let mut r = Self::with_layout(name, num_qubits, l);
        r.set_default_parameters();
        r
    }

    /// Create a linear topology (qubits connected in a line)
    pub fn linear(num_qubits: usize) -> (r: Self)
        ensures
            r.wf(),
            r.width() == num_qubits,
            r.label() == "Linear"@,
            r.has_layout(Layout::Line),
            r.has_defaults(),
    {
        Self::standard(String::from_str("Linear"), num_qubits, Layout::Line)
    }

    /// Create a grid topology (2D lattice) of `rows` rows and `cols` columns
    pub fn grid(rows: usize, cols: usize) -> (r: Self)
        requires
            rows * cols <= usize::MAX,
        ensures
            r.wf(),
            r.width() == rows * cols,
            r.label() == "Grid"@,
            r.has_layout(Layout::Grid { cols }),
            r.has_defaults(),
    {
        let n = rows * cols;
        if cols == 0 {
            assert(n == 0) by (nonlinear_arith)
                requires n == rows * cols, cols == 0;
            let r = Self::standard(String::from_str("Grid"), n, Layout::Isolated);
            assert(r.has_layout(Layout::Grid { cols }));
            r
        } else {
            Self::standard(String::from_str("Grid"), n, Layout::Grid { cols })
        }
    }

    /// Create a heavy-hex style topology of the given code distance
    pub fn heavy_hex(distance: usize) -> (r: Self)
        requires
            heavy_hex_width(distance as nat) <= usize::MAX,
        ensures
            r.wf(),
            r.width() == heavy_hex_width(distance as nat),
            r.label() == "Heavy-Hex"@,
            r.has_layout(Layout::HeavyHex),
            r.has_defaults(),
    {
        let n: usize = if distance == 1 {
            5
        } else if distance == 2 {
            16
        } else if distance == 3 {
            27
        } else {
            distance * distance
        };
        Self::standard(String::from_str("Heavy-Hex"), n, Layout::HeavyHex)
    }

    /// Create a fully connected topology (all-to-all)
    pub fn fully_connected(num_qubits: usize) -> (r: Self)
        ensures
            r.wf(),
            r.width() == num_qubits,
            r.label() == "Fully-Connected"@,
            r.has_layout(Layout::Complete),
            r.has_defaults(),
    {
        Self::standard(String::from_str("Fully-Connected"), num_qubits, Layout::Complete)
    }

    fn set_link(&mut self, a: usize, b: usize, v: bool)
        requires
            old(self).square(),
            a < old(self).width(),
            b < old(self).width(),
        ensures
            final(self).width() == old(self).width(),
            final(self).label() == old(self).label(),
            final(self).timings() == old(self).timings(),
            final(self).link_fidelities() == old(self).link_fidelities(),
            final(self).single_fidelities() == old(self).single_fidelities(),
            final(self).readouts() == old(self).readouts(),
            final(self).square(),
            forall|x: int, y: int| 0 <= x < old(self).width() && 0 <= y < old(self).width() ==>
                (#[trigger] final(self).graph()[x]@[y] == if x == a && y == b { v } else { old(self).graph()[x]@[y] }),
    {
        let mut row = self.adjacency[a].clone();
        assert(row@ =~= self.adjacency@[a as int]@);
        row.set(b, v);
        self.adjacency.set(a, row);
    }

    /// Add a connection between two qubits; qubits outside the device are ignored
    pub fn add_edge(&mut self, qubit1: usize, qubit2: usize)
        requires
            old(self).wf(),
        ensures
            final(self).wf(),
            final(self).width() == old(self).width(),
            final(self).label() == old(self).label(),
            final(self).timings() == old(self).timings(),
            final(self).link_fidelities() == old(self).link_fidelities(),
            final(self).single_fidelities() == old(self).single_fidelities(),
            final(self).readouts() == old(self).readouts(),
            forall|a: int, b: int| #[trigger] has_edge(final(self).graph(), a, b) <==> {
                ||| has_edge(old(self).graph(), a, b)
                ||| qubit1 < old(self).width() && qubit2 < old(self).width()
                    && ((a == qubit1 && b == qubit2) || (a == qubit2 && b == qubit1))
            },
    {
        if qubit1 >= self.num_qubits || qubit2 >= self.num_qubits {
            return;
        }
        let ghost g0 = self.graph();
        let n = self.num_qubits;
        self.set_link(qubit1, qubit2, true);
        let ghost g1 = self.graph();
        self.set_link(qubit2, qubit1, true);
        proof {
            assert forall|x: int, y: int| 0 <= x < n && 0 <= y < n
                implies self.adjacency@[x]@[y] == self.adjacency@[y]@[x] by {
                assert(self.graph()[x]@[y] == if x == qubit2 && y == qubit1 { true } else { g1[x]@[y] });
                assert(self.graph()[y]@[x] == if y == qubit2 && x == qubit1 { true } else { g1[y]@[x] });
                assert(g1[x]@[y] == if x == qubit1 && y == qubit2 { true } else { g0[x]@[y] });
                assert(g1[y]@[x] == if y == qubit1 && x == qubit2 { true } else { g0[y]@[x] });
                assert(old(self).adjacency@[x]@[y] == old(self).adjacency@[y]@[x]);
            }
            assert forall|a: int, b: int| 0 <= a < n && 0 <= b < n implies
                #[trigger] self.graph()[a]@[b] == (if (a == qubit1 && b == qubit2) || (a == qubit2 && b == qubit1) { true } else { g0[a]@[b] }) by {
                assert(self.graph()[a]@[b] == if a == qubit2 && b == qubit1 { true } else { g1[a]@[b] });
                assert(g1[a]@[b] == if a == qubit1 && b == qubit2 { true } else { g0[a]@[b] });
            }
        }
    }

    /// Remove the connection between two qubits, if there is one
    pub fn remove_edge(&mut self, qubit1: usize, qubit2: usize)
        requires
            old(self).wf(),
        ensures
            final(self).wf(),
            final(self).width() == old(self).width(),
            final(self).label() == old(self).label(),
            final(self).timings() == old(self).timings(),
            final(self).link_fidelities() == old(self).link_fidelities(),
            final(self).single_fidelities() == old(self).single_fidelities(),
            final(self).readouts() == old(self).readouts(),
            forall|a: int, b: int| #[trigger] has_edge(final(self).graph(), a, b) <==> {
                &&& has_edge(old(self).graph(), a, b)
                &&& !((a == qubit1 && b == qubit2) || (a == qubit2 && b == qubit1))
            },
    {
        if qubit1 >= self.num_qubits || qubit2 >= self.num_qubits {
            return;
        }
        let ghost g0 = self.graph();
        let n = self.num_qubits;
        self.set_link(qubit1, qubit2, false);
        let ghost g1 = self.graph();
        self.set_link(qubit2, qubit1, false);
        proof {
            assert forall|x: int, y: int| 0 <= x < n && 0 <= y < n
                implies self.adjacency@[x]@[y] == self.adjacency@[y]@[x] by {
                assert(self.graph()[x]@[y] == if x == qubit2 && y == qubit1 { false } else { g1[x]@[y] });
                assert(self.graph()[y]@[x] == if y == qubit2 && x == qubit1 { false } else { g1[y]@[x] });
                assert(g1[x]@[y] == if x == qubit1 && y == qubit2 { false } else { g0[x]@[y] });
                assert(g1[y]@[x] == if y == qubit1 && x == qubit2 { false } else { g0[y]@[x] });
                assert(old(self).adjacency@[x]@[y] == old(self).adjacency@[y]@[x]);
            }
            assert forall|a: int, b: int| 0 <= a < n && 0 <= b < n implies
                #[trigger] self.graph()[a]@[b] == (if (a == qubit1 && b == qubit2) || (a == qubit2 && b == qubit1) { false } else { g0[a]@[b] }) by {
                assert(self.graph()[a]@[b] == if a == qubit2 && b == qubit1 { false } else { g1[a]@[b] });
                assert(g1[a]@[b] == if a == qubit1 && b == qubit2 { false } else { g0[a]@[b] });
            }
        }
    }

    /// Whether two qubits are connected
    pub fn are_connected(&self, qubit1: usize, qubit2: usize) -> (r: bool)
        requires
            self.wf(),
        ensures
            r == has_edge(self.graph(), qubit1 as int, qubit2 as int),
    {
        if qubit1 >= self.num_qubits || qubit2 >= self.num_qubits {
            return false;
        }
        assert(self.adjacency@[qubit1 as int]@.len() == self.num_qubits);
        self.adjacency[qubit1][qubit2]
    }

    /// The qubits connected to `qubit`, in increasing order
    pub fn neighbors(&self, qubit: usize) -> (r: Vec<usize>)
        requires
            self.wf(),
        ensures
            r@ == neighbours_below(self.graph(), qubit as int, self.width() as nat),
    {
        let n = self.num_qubits;
        let mut r: Vec<usize> = Vec::new();
        let mut b: usize = 0;
        while b < n
            invariant
                b <= n,
                n == self.num_qubits,
                self.wf(),
                r@ == neighbours_below(self.graph(), qubit as int, b as nat),
            decreases n - b,
        {
            if self.are_connected(qubit, b) {
                r.push(b);
            }
            b = b + 1;
        }
        r
    }

    /// A shortest path between two qubits, found by breadth-first search
    pub fn shortest_path(&self, start: usize, end: usize) -> (r: Option<Vec<usize>>)
        ensures
            match r {
                Some(p) => {
                    &&& reachable(self.graph(), start, end)
                    &&& p@ == shortest_route(self.graph(), start, end)
                    &&& walk(self.graph(), p@, start, end)
                    &&& forall|q: Seq<usize>| #[trigger] walk(self.graph(), q, start, end) ==> p@.len() <= q.len()
                },
                None => !reachable(self.graph(), start, end),
            },
    {
        shortest_walk(&self.adjacency, start, end)
    }

    /// Number of connections on a shortest path between two qubits
    pub fn distance(&self, qubit1: usize, qubit2: usize) -> (r: Option<usize>)
        ensures
            match r {
                Some(d) => reachable(self.graph(), qubit1, qubit2) && d == distance_of(self.graph(), qubit1, qubit2),
                None => !reachable(self.graph(), qubit1, qubit2),
            },
    {
        match self.shortest_path(qubit1, qubit2) {
            Some(path) => {
                proof {
                    lemma_canonical_len(self.graph(), qubit1, qubit2, distance_of(self.graph(), qubit1, qubit2));
                }
                Some(path.len() - 1)
            },
            None => None,
        }
    }
}


/// Every connection of `adj` also runs the other way.
pub open spec fn symmetric(adj: Seq<Vec<bool>>) -> bool {
    forall|a: int, b: int| #[trigger] has_edge(adj, a, b) ==> has_edge(adj, b, a)
}

proof fn lemma_reverse_walk(adj: Seq<Vec<bool>>, p: Seq<usize>, s: usize, t: usize)
    requires
        symmetric(adj),
        walk(adj, p, s, t),
    ensures
        walk(adj, Seq::new(p.len(), |i: int| p[p.len() - 1 - i]), t, s),
{
    let q = Seq::new(p.len(), |i: int| p[p.len() - 1 - i]);
    assert forall|i: int| 0 <= i < q.len() - 1 implies #[trigger] has_edge(adj, q[i] as int, q[i + 1] as int) by {
        let j = p.len() - 2 - i;
        assert(has_edge(adj, p[j] as int, p[j + 1] as int));
    }
}

proof fn lemma_within_symmetric(adj: Seq<Vec<bool>>, s: usize, t: usize, k: nat)
    requires
        symmetric(adj),
        within(adj, s, t, k),
    ensures
        within(adj, t, s, k),
{
    let p = choose|p: Seq<usize>| #[trigger] walk(adj, p, s, t) && p.len() <= k + 1;
    lemma_reverse_walk(adj, p, s, t);
    let q = Seq::new(p.len(), |i: int| p[p.len() - 1 - i]);
    assert(walk(adj, q, t, s) && q.len() <= k + 1);
}

proof fn lemma_some_distance(adj: Seq<Vec<bool>>, s: usize, t: usize, m: nat) -> (k: nat)
    requires
        within(adj, s, t, m),
    ensures
        at_distance(adj, s, t, k),
    decreases m,
{
    if m == 0 || !within(adj, s, t, (m - 1) as nat) {
        m
    } else {
        lemma_some_distance(adj, s, t, (m - 1) as nat)
    }
}

/// Distances do not depend on direction: when connections are symmetric,
/// `t` can be reached from `s` exactly when `s` can be reached from `t`,
/// and then in the same number of steps.
pub proof fn law_distance_symmetric(adj: Seq<Vec<bool>>, s: usize, t: usize)
    requires
        symmetric(adj),
    ensures
        reachable(adj, s, t) == reachable(adj, t, s),
        reachable(adj, s, t) ==> distance_of(adj, s, t) == distance_of(adj, t, s),
{
    if reachable(adj, s, t) {
        let p = choose|p: Seq<usize>| #[trigger] walk(adj, p, s, t);
        lemma_reverse_walk(adj, p, s, t);
        let q = Seq::new(p.len(), |i: int| p[p.len() - 1 - i]);
        assert(walk(adj, q, t, s));
        lemma_reachable_within(adj, s, t);
        let m = (choose|p: Seq<usize>| #[trigger] walk(adj, p, s, t)).len() as nat;
        let k = lemma_some_distance(adj, s, t, m);
        lemma_distance_of(adj, s, t, k);
        lemma_within_symmetric(adj, s, t, k);
        if k > 0 && within(adj, t, s, (k - 1) as nat) {
            lemma_within_symmetric(adj, t, s, (k - 1) as nat);
        }
        assert(at_distance(adj, t, s, k));
        lemma_distance_of(adj, t, s, k);
    }
    if reachable(adj, t, s) {
        let p = choose|p: Seq<usize>| #[trigger] walk(adj, p, t, s);
        lemma_reverse_walk(adj, p, t, s);
        let q = Seq::new(p.len(), |i: int| p[p.len() - 1 - i]);
        assert(walk(adj, q, s, t));
    }
}

impl DeviceTopology {
    /// Every device has symmetric connections: `a` is connected to `b`
    /// exactly when `b` is connected to `a`.
    pub proof fn law_connections_symmetric(&self)
        requires
            self.wf(),
        ensures
            symmetric(self.graph()),
    {
        assert forall|a: int, b: int| #[trigger] has_edge(self.graph(), a, b) implies has_edge(self.graph(), b, a) by {
            assert(self.adjacency@[b]@.len() == self.num_qubits);
            assert(self.adjacency@[a]@[b] == self.adjacency@[b]@[a]);
        }
    }
}

/// Gate kinds that validation and routing treat as acting on two qubits.
pub open spec fn routes_two_qubits(g: StandardGate) -> bool {
    match g {
        StandardGate::CX | StandardGate::CY | StandardGate::CZ | StandardGate::CH | StandardGate::CRx
        | StandardGate::CRy | StandardGate::CRz | StandardGate::Swap | StandardGate::ISwap => true,
        _ => false,
    }
}

fn is_two_qubit_kind(g: StandardGate) -> (r: bool)
    ensures
        r == routes_two_qubits(g),
{
    match g {
        StandardGate::CX | StandardGate::CY | StandardGate::CZ | StandardGate::CH | StandardGate::CRx
        | StandardGate::CRy | StandardGate::CRz | StandardGate::Swap | StandardGate::ISwap => true,
        _ => false,
    }
}

/// Types of topology violations
#[derive(Debug, Clone, Copy, PartialEq, Eq, Structural)]
pub enum TopologyViolationType {
    /// Two qubits are not connected but a two-qubit gate is applied
    ConnectivityViolation,
    /// Qubit index is out of range
    InvalidQubit,
    /// Gate is not supported on this topology
    UnsupportedGate,
}

/// A topology constraint violation
#[derive(Debug, Clone)]
pub struct TopologyViolation {
    /// Type of violation
    pub violation_type: TopologyViolationType,
    /// Qubits involved in the violation
    pub qubits: Vec<usize>,
    /// Gate that caused the violation
    pub gate: String,
    /// Human-readable message
    pub message: String,
}

/// Mathematical model of a violation.
pub struct ViolationView {
    pub kind: TopologyViolationType,
    pub qubits: Seq<usize>,
    pub gate: Seq<char>,
    pub message: Seq<char>,
}

impl View for TopologyViolation {
    type V = ViolationView;

    open spec fn view(&self) -> ViolationView {
        ViolationView {
            kind: self.violation_type,
            qubits: self.qubits@,
            gate: self.gate@,
            message: self.message@,
        }
    }
}

/// Result of topology validation
#[derive(Debug, Clone)]
pub struct TopologyValidationResult {
    /// Whether the circuit is valid for this topology
    pub is_valid: bool,
    /// List of violations found
    pub violations: Vec<TopologyViolation>,
}

/// Message for a two-qubit gate on unconnected qubits.
pub open spec fn unconnected_message(a: usize, b: usize) -> Seq<char> {
    "Qubits "@ + decimal_spec(a as nat) + " and "@ + decimal_spec(b as nat) + " are not connected in topology"@
}

/// Message for a qubit the device does not have.
pub open spec fn missing_qubit_message(q: usize) -> Seq<char> {
    "Qubit "@ + decimal_spec(q as nat) + " does not exist in topology"@
}

/// Violations for the qubits of `qs` that a device of width `n` lacks, in order.
pub open spec fn missing_qubits(qs: Seq<usize>, n: usize, g: StandardGate) -> Seq<ViolationView>
    decreases qs.len(),
{
    if qs.len() == 0 {
        Seq::empty()
    } else if qs.last() >= n {
        missing_qubits(qs.drop_last(), n, g).push(ViolationView {
            kind: TopologyViolationType::InvalidQubit,
            qubits: seq![qs.last()],
            gate: gate_debug_spec(g),
            message: missing_qubit_message(qs.last()),
        })
    } else {
        missing_qubits(qs.drop_last(), n, g)
    }
}

/// Violations of one instruction on a device with connections `adj` and width `n`.
pub open spec fn instruction_violations(adj: Seq<Vec<bool>>, n: usize, o: InstrView) -> Seq<ViolationView> {
    if routes_two_qubits(o.gate) {
        if o.qubits.len() >= 2 && !has_edge(adj, o.qubits[0] as int, o.qubits[1] as int) {
            seq![ViolationView {
                kind: TopologyViolationType::ConnectivityViolation,
                qubits: seq![o.qubits[0], o.qubits[1]],
                gate: gate_debug_spec(o.gate),
                message: unconnected_message(o.qubits[0], o.qubits[1]),
            }]
        } else {
            Seq::empty()
        }
    } else {
        missing_qubits(o.qubits, n, o.gate)
    }
}

/// Violations of a sequence of instructions, in order.
pub open spec fn circuit_violations(adj: Seq<Vec<bool>>, n: usize, ops: Seq<InstrView>) -> Seq<ViolationView>
    decreases ops.len(),
{
    if ops.len() == 0 {
        Seq::empty()
    } else {
        circuit_violations(adj, n, ops.drop_last()) + instruction_violations(adj, n, ops.last())
    }
}

/// The views of a sequence of violations.
pub open spec fn violation_views(s: Seq<TopologyViolation>) -> Seq<ViolationView> {
    s.map_values(|v: TopologyViolation| v@)
}

fn unconnected_text(a: usize, b: usize) -> (r: String)
    ensures
        r@ == unconnected_message(a, b),
{
    let mut s = String::from_str("Qubits ");
    let da = decimal(a);
    s.append(da.as_str());
    s.append(" and ");
    let db = decimal(b);
    s.append(db.as_str());
    s.append(" are not connected in topology");
    s
}

fn missing_qubit_text(q: usize) -> (r: String)
    ensures
        r@ == missing_qubit_message(q),
{
    let mut s = String::from_str("Qubit ");
    let d = decimal(q);
    s.append(d.as_str());
    s.append(" does not exist in topology");
    s
}

impl DeviceTopology {
    /// Check every instruction of a circuit against the device: two-qubit
    /// gates need connected qubits, other gates need qubits the device has
    pub fn validate_circuit(&self, circuit: &QuantumCircuit) -> (r: TopologyValidationResult)
        requires
            self.wf(),
        ensures
            violation_views(r.violations@) == circuit_violations(self.graph(), self.width(), circuit@.ops),
            r.is_valid == (r.violations@.len() == 0),
    {
        let instrs = circuit.instructions();
        let ghost ops = circuit@.ops;
        let mut violations: Vec<TopologyViolation> = Vec::new();
        let mut i: usize = 0;
        while i < instrs.len()
            invariant
                i <= instrs.len(),
                self.wf(),
                views(instrs@) == ops,
                violation_views(violations@) == circuit_violations(self.graph(), self.width(), ops.take(i as int)),
            decreases instrs.len() - i,
        {
            let ins = &instrs[i];
            let g = ins.gate.gate_type;
            let ghost before = violation_views(violations@);
            let ghost o = ops[i as int];
            assert(o == ins@);
            assert(ops.take(i + 1).drop_last() =~= ops.take(i as int));
            if is_two_qubit_kind(g) {
                if ins.qubits.len() >= 2 {
                    let q1 = ins.qubits[0];
                    let q2 = ins.qubits[1];
                    if !self.are_connected(q1, q2) {
                        violations.push(TopologyViolation {
                            violation_type: TopologyViolationType::ConnectivityViolation,
                            qubits: vec![q1, q2],
                            gate: String::from_str(g.debug_name()),
                            message: unconnected_text(q1, q2),
                        });
                        assert(violation_views(violations@) =~= before + instruction_violations(self.graph(), self.width(), o)) by {
                            assert(violations@.last()@.qubits =~= seq![q1, q2]);
                        }
                    } else {
                        assert(violation_views(violations@) =~= before + instruction_violations(self.graph(), self.width(), o));
                    }
                } else {
                    assert(violation_views(violations@) =~= before + instruction_violations(self.graph(), self.width(), o));
                }
            } else {
                let n = self.num_qubits;
                let mut j: usize = 0;
                assert(o.qubits.take(0) =~= Seq::<usize>::empty());
                while j < ins.qubits.len()
                    invariant
                        j <= ins.qubits.len(),
                        ins@ == o,
                        n == self.width(),
                        !routes_two_qubits(o.gate),
                        g == o.gate,
                        violation_views(violations@) == before + missing_qubits(o.qubits.take(j as int), n, g),
                    decreases ins.qubits.len() - j,
                {
                    let q = ins.qubits[j];
                    let ghost prev = violation_views(violations@);
                    assert(o.qubits.take(j + 1).drop_last() =~= o.qubits.take(j as int));
                    if q >= n {
                        violations.push(TopologyViolation {
                            violation_type: TopologyViolationType::InvalidQubit,
                            qubits: vec![q],
                            gate: String::from_str(g.debug_name()),
                            message: missing_qubit_text(q),
                        });
                        assert(violations@.last()@.qubits =~= seq![q]);
                        assert(violation_views(violations@) =~= prev.push(violations@.last()@));
                    } else {
                        assert(violation_views(violations@) =~= prev);
                    }
                    j = j + 1;
                }
                assert(o.qubits.take(ins.qubits.len() as int) =~= o.qubits);
            }
            i = i + 1;
        }
        assert(ops.take(instrs.len() as int) =~= ops);
        let is_valid = violations.len() == 0;
        TopologyValidationResult { is_valid, violations }
    }
}


/// The logical-to-physical map `m` after a SWAP of physical qubits `a` and
/// `b`: when both hold logical qubits, those logical qubits trade places;
/// otherwise nothing changes.
pub open spec fn swapped(m: Seq<usize>, a: usize, b: usize) -> Seq<usize> {
    if (exists|l: int| 0 <= l < m.len() && #[trigger] m[l] == a) && (exists|l: int| 0 <= l < m.len() && #[trigger] m[l] == b) {
        Seq::new(m.len(), |l: int| if m[l] == a { b } else if m[l] == b { a } else { m[l] })
    } else {
        m
    }
}

/// The map after the first `k` SWAPs along `path`.
pub open spec fn moved(m: Seq<usize>, path: Seq<usize>, k: nat) -> Seq<usize>
    decreases k,
{
    if k == 0 {
        m
    } else {
        swapped(moved(m, path, (k - 1) as nat), path[k - 1], path[k as int])
    }
}

/// The first `k` SWAPs along `path`.
pub open spec fn swap_chain(path: Seq<usize>, k: nat) -> Seq<InstrView> {
    Seq::new(k, |i: int| op2(StandardGate::Swap, path[i], path[i + 1]))
}

/// Gate kind kept when a one-qubit instruction is routed.
pub open spec fn routed_single(g: StandardGate) -> StandardGate {
    match g {
        StandardGate::X | StandardGate::Y | StandardGate::Z | StandardGate::H | StandardGate::S
        | StandardGate::T => g,
        _ => StandardGate::I,
    }
}

/// The instruction emitted for a two-qubit gate on physical qubits `a` and `b`.
pub open spec fn routed_pair(g: StandardGate, a: usize, b: usize) -> InstrView {
    match g {
        StandardGate::CX => op2(StandardGate::CX, a, b),
        StandardGate::CZ => op2(StandardGate::CZ, a, b),
        _ => op1(StandardGate::I, a),
    }
}

/// Routing one instruction under map `m`: the map afterwards and the
/// instructions emitted.
pub open spec fn route_one(adj: Seq<Vec<bool>>, m: Seq<usize>, o: InstrView) -> (Seq<usize>, Seq<InstrView>) {
    if routes_two_qubits(o.gate) {
        if o.qubits.len() >= 2 {
            let p1 = m[o.qubits[0] as int];
            let p2 = m[o.qubits[1] as int];
            if !has_edge(adj, p1 as int, p2 as int) && reachable(adj, p1, p2) {
                let path = shortest_route(adj, p1, p2);
                let k = (path.len() - 2) as nat;
                let m2 = moved(m, path, k);
                (m2, swap_chain(path, k).push(routed_pair(o.gate, m2[o.qubits[0] as int], m2[o.qubits[1] as int])))
            } else {
                (m, seq![routed_pair(o.gate, p1, p2)])
            }
        } else {
            (m, Seq::empty())
        }
    } else if o.qubits.len() > 0 {
        (m, seq![op1(routed_single(o.gate), m[o.qubits[0] as int])])
    } else {
        (m, Seq::empty())
    }
}

/// Routing a sequence of instructions, starting from map `m`.
pub open spec fn route_ops(adj: Seq<Vec<bool>>, m: Seq<usize>, ops: Seq<InstrView>) -> Seq<InstrView>
    decreases ops.len(),
{
    if ops.len() == 0 {
        Seq::empty()
    } else {
        route_one(adj, m, ops[0]).1 + route_ops(adj, route_one(adj, m, ops[0]).0, ops.drop_first())
    }
}

/// The map that sends each of `n` logical qubits to the physical qubit of the same number.
pub open spec fn identity_map(n: nat) -> Seq<usize> {
    Seq::new(n, |i: int| i as usize)
}

/// A SWAP keeps a map one-to-one.
proof fn lemma_swapped_distinct(m: Seq<usize>, a: usize, b: usize)
    requires
        all_distinct(m),
    ensures
        all_distinct(swapped(m, a, b)),
        swapped(m, a, b).len() == m.len(),
{
}

/// What routing `c` on a device with connections `adj` and width `width`
/// gives: the routed circuit, and the reason it stopped early, if it did.
pub open spec fn routing_outcome(adj: Seq<Vec<bool>>, width: usize, c: CircuitView) -> (CircuitView, Option<Fault>) {
    run(
        CircuitView { num_qubits: width, num_clbits: c.num_clbits, ops: Seq::empty() },
        route_ops(adj, identity_map(c.num_qubits as nat), c.ops),
    )
}

/// Circuit routing and mapping utilities
pub struct CircuitRouter {
    topology: DeviceTopology,
}

fn identity_vec(n: usize) -> (r: Vec<usize>)
    ensures
        r@ == identity_map(n as nat),
{
    let mut r: Vec<usize> = Vec::new();
    while r.len() < n
        invariant
            r.len() <= n,
            forall|i: int| 0 <= i < r.len() ==> r@[i] == i,
        decreases n - r.len(),
    {
        let i = r.len();
        r.push(i);
    }
    assert(r@ =~= identity_map(n as nat));
    r
}

impl CircuitRouter {
    /// The device routed for.
    pub closed spec fn device(&self) -> DeviceTopology {
        self.topology
    }

    /// Create a new circuit router
    pub fn new(topology: DeviceTopology) -> (r: Self)
        ensures
            r.device() == topology,
    {
        CircuitRouter { topology }
    }

    /// Update a one-to-one logical-to-physical map after a SWAP of two physical qubits
    fn update_mapping_after_swap(&self, mapping: &mut Vec<usize>, q1: usize, q2: usize)
        requires
            all_distinct(old(mapping)@),
        ensures
            final(mapping)@ == swapped(old(mapping)@, q1, q2),
    {
        let mut logical_q1: Option<usize> = None;
        let mut logical_q2: Option<usize> = None;
        let mut l: usize = 0;
        while l < mapping.len()
            invariant
                l <= mapping.len(),
                match logical_q1 {
                    Some(x) => x < l && mapping@[x as int] == q1,
                    None => forall|y: int| 0 <= y < l ==> mapping@[y] != q1,
                },
                match logical_q2 {
                    Some(x) => x < l && mapping@[x as int] == q2 && q1 != q2,
                    None => forall|y: int| 0 <= y < l ==> mapping@[y] != q2 || q1 == q2,
                },
            decreases mapping.len() - l,
        {
            if mapping[l] == q1 {
                logical_q1 = Some(l);
            } else if mapping[l] == q2 {
                logical_q2 = Some(l);
            }
            l = l + 1;
        }
        let ghost m = mapping@;
        match (logical_q1, logical_q2) {
            (Some(a), Some(b)) => {
                mapping.set(a, q2);
                mapping.set(b, q1);
                proof {
                    assert(m[a as int] == q1);
                    assert(m[b as int] == q2);
                    assert forall|x: int| 0 <= x < m.len() implies #[trigger] mapping@[x]
                        == (if m[x] == q1 { q2 } else if m[x] == q2 { q1 } else { m[x] }) by {
                        if m[x] == q1 {
                            assert(x == a);
                        }
                        if m[x] == q2 {
                            assert(x == b);
                        }
                    }
                    assert(mapping@ =~= swapped(m, q1, q2));
                }
            },
            _ => {
                proof {
                    if q1 == q2 {
                        assert forall|x: int| 0 <= x < m.len() implies
                            (if m[x] == q1 { q2 } else if m[x] == q2 { q1 } else { m[x] }) == m[x] by {}
                        assert(Seq::new(m.len(), |x: int| if m[x] == q1 { q2 } else if m[x] == q2 { q1 } else { m[x] }) =~= m);
                    }
                }
            },
        }
    }

    /// Route one instruction: SWAPs first where needed, then the instruction's own gate.
    fn route_instruction(
        &self,
        routed: &mut QuantumCircuit,
        mapping: &mut Vec<usize>,
        ins: &Instruction,
        Ghost(init): Ghost<CircuitView>,
        Ghost(done): Ghost<Seq<InstrView>>,
    ) -> (r: Result<()>)
        requires
            self.device().wf(),
            old(routed)@ == run(init, done).0,
            run(init, done).1 is None,
            all_distinct(old(mapping)@),
            all_distinct(ins@.qubits),
            forall|x: int| 0 <= x < ins@.qubits.len() ==> #[trigger] ins@.qubits[x] < old(mapping)@.len(),
        ensures
            final(mapping)@.len() == old(mapping)@.len(),
            all_distinct(final(mapping)@),
            r is Ok ==> final(mapping)@ == route_one(self.device().graph(), old(mapping)@, ins@).0,
            final(routed)@ == run(init, done + route_one(self.device().graph(), old(mapping)@, ins@).1).0,
            reports(r, run(init, done + route_one(self.device().graph(), old(mapping)@, ins@).1).1, init.num_qubits, init.num_clbits),
    {
        let ghost adj = self.topology.graph();
        let ghost m0 = mapping@;
        let ghost step = route_one(adj, m0, ins@);
        let g = ins.gate.gate_type;
        if is_two_qubit_kind(g) {
            if ins.qubits.len() >= 2 {
                let l1 = ins.qubits[0];
                let l2 = ins.qubits[1];
                assert(ins@.qubits[0] < m0.len() && ins@.qubits[1] < m0.len());
                let p1 = mapping[l1];
                let p2 = mapping[l2];
                assert(p1 != p2);
                if !self.topology.are_connected(p1, p2) {
                    match self.topology.shortest_path(p1, p2) {
                        Some(path) => {
                            proof {
                                if path@.len() == 1 {
                                    assert(path@[0] == path@.last());
                                }
                            }
                            let k = path.len() - 2;
                            let mut j: usize = 0;
                            assert(done + swap_chain(path@, 0) =~= done);
                            while j < k
                                invariant
                                    j <= k,
                                    k + 2 == path@.len(),
                                    path@ == shortest_route(adj, p1, p2),
                                    adj == self.device().graph(),
                                    m0 == old(mapping)@,
                                    mapping@ == moved(m0, path@, j as nat),
                                    mapping@.len() == m0.len(),
                                    all_distinct(mapping@),
                                    routed@ == run(init, done + swap_chain(path@, j as nat)).0,
                                    run(init, done + swap_chain(path@, j as nat)).1 is None,
                                    step == route_one(adj, m0, ins@),
                                    step.1 == swap_chain(path@, k as nat).push(
                                        routed_pair(ins@.gate, moved(m0, path@, k as nat)[l1 as int], moved(m0, path@, k as nat)[l2 as int])),
                                decreases k - j,
                            {
                                let a = path[j];
                                let b = path[j + 1];
                                let ghost pre = done + swap_chain(path@, j as nat);
                                let rr = append_tracked(routed, Instruction::pair(StandardGate::Swap, a, b), Ghost(init), Ghost(pre));
                                proof {
                                    assert(pre.push(op2(StandardGate::Swap, a, b)) =~= done + swap_chain(path@, (j + 1) as nat));
                                }
                                match rr {
                                    Err(e) => {
                                        proof {
                                            let head = done + swap_chain(path@, (j + 1) as nat);
                                            assert(done + step.1 =~= head + step.1.skip(j + 1));
                                            lemma_fault_stops(init, head, step.1.skip(j + 1));
                                        }
                                        return Err(e);
                                    },
                                    Ok(()) => {},
                                }
                                proof {
                                    lemma_swapped_distinct(mapping@, a, b);
                                }
                                self.update_mapping_after_swap(mapping, a, b);
                                j = j + 1;
                            }
                            assert(step.1.drop_last() =~= swap_chain(path@, k as nat));
                        },
                        None => {
                            assert(step.1.drop_last() =~= Seq::<InstrView>::empty());
                            assert(done + step.1.drop_last() =~= done);
                        },
                    }
                } else {
                    assert(step.1.drop_last() =~= Seq::<InstrView>::empty());
                    assert(done + step.1.drop_last() =~= done);
                }
                assert(mapping@ == step.0);
                assert(routed@ == run(init, done + step.1.drop_last()).0);
                assert(all_distinct(mapping@));
                let a = mapping[l1];
                let b = mapping[l2];
                let last = if g == StandardGate::CX {
                    Instruction::pair(StandardGate::CX, a, b)
                } else if g == StandardGate::CZ {
                    Instruction::pair(StandardGate::CZ, a, b)
                } else {
                    Instruction::single(StandardGate::I, a)
                };
                let ghost pre = done + step.1.drop_last();
                assert(last@ == step.1.last());
                assert(pre.push(last@) =~= done + step.1);
                return append_tracked(routed, last, Ghost(init), Ghost(pre));
            } else {
                assert(done + step.1 =~= done);
                return Ok(());
            }
        } else if ins.qubits.len() > 0 {
            let q = ins.qubits[0];
            assert(ins@.qubits[0] < m0.len());
            let p = mapping[q];
            let kind = match g {
                StandardGate::X => StandardGate::X,
                StandardGate::Y => StandardGate::Y,
                StandardGate::Z => StandardGate::Z,
                StandardGate::H => StandardGate::H,
                StandardGate::S => StandardGate::S,
                StandardGate::T => StandardGate::T,
                _ => StandardGate::I,
            };
            assert(done.push(op1(kind, p)) =~= done + step.1);
            return append_tracked(routed, Instruction::single(kind, p), Ghost(init), Ghost(done));
        } else {
            assert(done + step.1 =~= done);
            return Ok(());
        }
    }

    /// Route a circuit to fit the device: logical qubit `i` starts on
    /// physical qubit `i`; before a two-qubit gate on unconnected physical
    /// qubits, SWAPs along a shortest path between them move the first one
    /// next to the second
    pub fn route_circuit(&self, circuit: &QuantumCircuit) -> (r: Result<QuantumCircuit>)
        requires
            self.device().wf(),
        ensures
            match r {
                Ok(c) => {
                    &&& routing_outcome(self.device().graph(), self.device().width(), circuit@).1 is None
                    &&& c@ == routing_outcome(self.device().graph(), self.device().width(), circuit@).0
                },
                Err(e) => {
                    &&& routing_outcome(self.device().graph(), self.device().width(), circuit@).1 is Some
                    &&& reports(Err(e), routing_outcome(self.device().graph(), self.device().width(), circuit@).1,
                        self.device().width(), circuit@.num_clbits)
                },
            },
    {
        circuit.ops_valid();
        let n = self.topology.num_qubits();
        let mut routed = QuantumCircuit::new(n, circuit.num_clbits());
        let ghost init = routed@;
        let ghost adj = self.topology.graph();
        let ghost ops = circuit@.ops;
        let nq = circuit.num_qubits();
        let ghost total = route_ops(adj, identity_map(nq as nat), ops);
        let mut mapping = identity_vec(nq);
        let instrs = circuit.instructions();
        let ghost mut done: Seq<InstrView> = Seq::empty();
        let mut i: usize = 0;
        proof {
            assert(ops.skip(0) =~= ops);
            assert(done + total =~= total);
            assert(run(init, done) == (init, None::<Fault>));
        }
        while i < instrs.len()
            invariant
                i <= instrs.len(),
                views(instrs@) == ops,
                ops == circuit@.ops,
                self.device().wf(),
                adj == self.device().graph(),
                init == (CircuitView { num_qubits: n, num_clbits: circuit@.num_clbits, ops: Seq::empty() }),
                n == self.device().width(),
                nq == circuit@.num_qubits,
                all_valid(nq, circuit@.num_clbits, ops),
                mapping@.len() == nq,
                all_distinct(mapping@),
                routed@ == run(init, done).0,
                run(init, done).1 is None,
                total == route_ops(adj, identity_map(nq as nat), ops),
                total == done + route_ops(adj, mapping@, ops.skip(i as int)),
            decreases instrs.len() - i,
        {
            let ins = &instrs[i];
            let ghost o = ops[i as int];
            let ghost step = route_one(adj, mapping@, o);
            let ghost tail = route_ops(adj, step.0, ops.skip(i + 1));
            proof {
                assert(o == ins@);
                assert(ops.skip(i as int)[0] == o);
                assert(ops.skip(i as int).drop_first() =~= ops.skip(i + 1));
                assert(total =~= (done + step.1) + tail);
                assert(op_fault(nq, circuit@.num_clbits, o) is None);
                lemma_in_range(o.qubits, nq);
            }
            let r = self.route_instruction(&mut routed, &mut mapping, ins, Ghost(init), Ghost(done));
            match r {
                Err(e) => {
                    proof {
                        lemma_fault_stops(init, done + step.1, tail);
                    }
                    return Err(e);
                },
                Ok(()) => {},
            }
            proof {
                done = done + step.1;
            }
            i = i + 1;
        }
        proof {
            assert(ops.skip(i as int) =~= Seq::<InstrView>::empty());
            assert(done + Seq::<InstrView>::empty() =~= done);
        }
        Ok(routed)
    }
}


/// A vertex `k` steps from `s` connected to `v` means that a lowest-numbered
/// such vertex exists.
proof fn lemma_first_parent_exists(adj: Seq<Vec<bool>>, s: usize, v: usize, k: nat, w: usize)
    requires
        at_distance(adj, s, w, k),
        has_edge(adj, w as int, v as int),
    ensures
        exists|u: usize| first_parent(adj, s, v, u, k),
    decreases w,
{
    if exists|x: usize| x < w && #[trigger] has_edge(adj, x as int, v as int) && at_distance(adj, s, x, k) {
        let x = choose|x: usize| x < w && #[trigger] has_edge(adj, x as int, v as int) && at_distance(adj, s, x, k);
        lemma_first_parent_exists(adj, s, v, k, x);
    } else {
        assert(first_parent(adj, s, v, w, k));
    }
}

/// The canonical walk to a vertex `k` steps from `s` is a walk from `s`
/// whose `i`-th vertex is `i` steps from `s`.
proof fn lemma_canonical_walk(adj: Seq<Vec<bool>>, s: usize, v: usize, k: nat)
    requires
        at_distance(adj, s, v, k),
    ensures
        walk(adj, canonical_walk(adj, s, v, k), s, v),
        canonical_walk(adj, s, v, k).len() == k + 1,
        forall|i: int| 0 <= i <= k ==> at_distance(adj, s, #[trigger] canonical_walk(adj, s, v, k)[i], i as nat),
    decreases k,
{
    lemma_canonical_len(adj, s, v, k);
    if k == 0 {
        let p = choose|p: Seq<usize>| #[trigger] walk(adj, p, s, v) && p.len() <= 1;
        assert(p[0] == s && p[p.len() - 1] == v);
        assert(canonical_walk(adj, s, v, k) =~= seq![s]);
        assert(walk(adj, seq![s], s, v));
        assert(at_distance(adj, s, s, 0));
    } else {
        let w = lemma_predecessor(adj, s, v, (k - 1) as nat);
        lemma_first_parent_exists(adj, s, v, (k - 1) as nat, w);
        let u = parent_of(adj, s, v, (k - 1) as nat);
        assert(first_parent(adj, s, v, u, (k - 1) as nat));
        lemma_canonical_walk(adj, s, u, (k - 1) as nat);
        let p = canonical_walk(adj, s, u, (k - 1) as nat);
        let q = p.push(v);
        assert(canonical_walk(adj, s, v, k) == q);
        assert forall|i: int| 0 <= i < q.len() - 1 implies #[trigger] has_edge(adj, q[i] as int, q[i + 1] as int) by {
            if i < p.len() - 1 {
                assert(has_edge(adj, p[i] as int, p[i + 1] as int));
            }
        }
        assert forall|i: int| 0 <= i <= k implies at_distance(adj, s, #[trigger] q[i], i as nat) by {
            if i < k {
                assert(q[i] == p[i]);
            }
        }
    }
}

/// The shortest route between two different, unconnected qubits that
/// reach each other: a walk of at least two steps, whose vertices differ
/// from their neighbours and from its end.
proof fn lemma_route_path(adj: Seq<Vec<bool>>, s: usize, t: usize)
    requires
        reachable(adj, s, t),
        s != t,
        !has_edge(adj, s as int, t as int),
    ensures
        walk(adj, shortest_route(adj, s, t), s, t),
        shortest_route(adj, s, t).len() >= 3,
        forall|i: int|
            0 <= i < shortest_route(adj, s, t).len() - 1 ==> #[trigger] shortest_route(adj, s, t)[i] != t,
        forall|i: int|
            0 <= i < shortest_route(adj, s, t).len() - 1 ==> #[trigger] shortest_route(adj, s, t)[i]
                != shortest_route(adj, s, t)[i + 1],
{
    lemma_reachable_within(adj, s, t);
    let p0 = choose|p: Seq<usize>| #[trigger] walk(adj, p, s, t);
    let k = lemma_some_distance(adj, s, t, p0.len() as nat);
    lemma_distance_of(adj, s, t, k);
    lemma_canonical_walk(adj, s, t, k);
    let path = shortest_route(adj, s, t);
    if k < 2 {
        let p = choose|p: Seq<usize>| #[trigger] walk(adj, p, s, t) && p.len() <= k + 1;
        if p.len() == 2 {
            assert(has_edge(adj, p[0] as int, p[1] as int));
        }
        assert(false);
    }
    assert forall|i: int| 0 <= i < path.len() - 1 implies #[trigger] path[i] != t by {
        assert(at_distance(adj, s, path[i], i as nat));
        if path[i] == t {
            lemma_distance_unique(adj, s, t, i as nat, k);
        }
    }
    assert forall|i: int| 0 <= i < path.len() - 1 implies #[trigger] path[i] != path[i + 1] by {
        assert(at_distance(adj, s, path[i], i as nat));
        assert(at_distance(adj, s, path[i + 1], (i + 1) as nat));
        if path[i] == path[i + 1] {
            lemma_distance_unique(adj, s, path[i], i as nat, (i + 1) as nat);
        }
    }
}

/// Some logical qubit below `n` is mapped to physical qubit `p`.
pub open spec fn holds(m: Seq<usize>, n: nat, p: usize) -> bool {
    exists|l: int| 0 <= l < n && #[trigger] m[l] == p
}

/// `m` maps the `n` logical qubits one-to-one onto the `n` physical qubits.
pub open spec fn is_permutation(m: Seq<usize>, n: nat) -> bool {
    &&& m.len() == n
    &&& all_distinct(m)
    &&& forall|l: int| 0 <= l < n ==> #[trigger] m[l] < n
    &&& forall|p: usize| p < n ==> #[trigger] holds(m, n, p)
}

/// Every physical qubit below `n` can reach every other.
pub open spec fn connected(adj: Seq<Vec<bool>>, n: nat) -> bool {
    forall|a: usize, b: usize| a < n && b < n ==> #[trigger] reachable(adj, a, b)
}

/// The instruction kinds that routing emits on two qubits.
pub open spec fn on_two_qubits(g: StandardGate) -> bool {
    g == StandardGate::CX || g == StandardGate::CZ || g == StandardGate::Swap
}

/// Every CNOT, CZ and SWAP of `ops` acts on two connected qubits.
pub open spec fn respects(adj: Seq<Vec<bool>>, ops: Seq<InstrView>) -> bool {
    forall|i: int|
        0 <= i < ops.len() && on_two_qubits(#[trigger] ops[i].gate) ==> ops[i].qubits.len() == 2 && has_edge(
            adj,
            ops[i].qubits[0] as int,
            ops[i].qubits[1] as int,
        )
}

/// A SWAP of two physical qubits keeps a map a permutation, and trades the
/// logical qubits on them.
proof fn lemma_swapped_permutation(m: Seq<usize>, n: nat, a: usize, b: usize)
    requires
        is_permutation(m, n),
        a < n,
        b < n,
    ensures
        is_permutation(swapped(m, a, b), n),
        swapped(m, a, b) == Seq::new(m.len(), |l: int| if m[l] == a { b } else if m[l] == b { a } else { m[l] }),
{
    assert(holds(m, n, a) && holds(m, n, b));
    let la = choose|l: int| 0 <= l < n && #[trigger] m[l] == a;
    let lb = choose|l: int| 0 <= l < n && #[trigger] m[l] == b;
    assert(m[la] == a && m[lb] == b);
    let r = swapped(m, a, b);
    lemma_swapped_distinct(m, a, b);
    assert(holds(m, n, a) && holds(m, n, b));
    assert forall|p: usize| p < n implies #[trigger] holds(r, n, p) by {
        if p == a {
            assert(r[lb] == p);
        } else if p == b {
            assert(r[la] == p);
        } else {
            assert(holds(m, n, p));
            let l = choose|l: int| 0 <= l < n && #[trigger] m[l] == p;
            assert(r[l] == p);
        }
    }
}

/// Along a route from the physical qubit of logical `q1` to that of
/// logical `q2`, the first `j` SWAPs bring `q1` to the `j`-th vertex and
/// leave `q2` in place.
proof fn lemma_moved(m: Seq<usize>, n: nat, path: Seq<usize>, j: nat, q1: int, q2: int)
    requires
        is_permutation(m, n),
        0 <= q1 < n,
        0 <= q2 < n,
        q1 != q2,
        path.len() >= 2,
        m[q1] == path[0],
        m[q2] == path[path.len() - 1],
        j <= path.len() - 2,
        forall|i: int| 0 <= i < path.len() ==> #[trigger] path[i] < n,
        forall|i: int| 0 <= i < path.len() - 1 ==> #[trigger] path[i] != path[path.len() - 1],
    ensures
        is_permutation(moved(m, path, j), n),
        moved(m, path, j)[q1] == path[j as int],
        moved(m, path, j)[q2] == path[path.len() - 1],
    decreases j,
{
    if j > 0 {
        let j1 = (j - 1) as nat;
        lemma_moved(m, n, path, j1, q1, q2);
        let mm = moved(m, path, j1);
        assert(path[j1 as int] < n && path[j as int] < n);
        lemma_swapped_permutation(mm, n, path[j1 as int], path[j as int]);
        assert(path[j1 as int] != path[path.len() - 1]);
        assert(path[j as int] != path[path.len() - 1]);
    }
}

/// Routing one accepted instruction on a connected device of the
/// circuit's width keeps the map a permutation, and emits only accepted
/// instructions whose CNOTs, CZs and SWAPs act on connected qubits.
proof fn lemma_route_one(adj: Seq<Vec<bool>>, n: usize, nc: usize, m: Seq<usize>, o: InstrView)
    requires
        adj.len() == n,
        connected(adj, n as nat),
        is_permutation(m, n as nat),
        op_fault(n, nc, o) is None,
    ensures
        is_permutation(route_one(adj, m, o).0, n as nat),
        all_valid(n, nc, route_one(adj, m, o).1),
        respects(adj, route_one(adj, m, o).1),
{
    assert(first_out_of_range(o.qubits, n) is None);
    lemma_in_range(o.qubits, n);
    let out = route_one(adj, m, o).1;
    if routes_two_qubits(o.gate) {
        if o.qubits.len() >= 2 {
            let q1 = o.qubits[0] as int;
            let q2 = o.qubits[1] as int;
            assert(q1 != q2);
            let p1 = m[q1];
            let p2 = m[q2];
            assert(p1 < n && p2 < n);
            assert(p1 != p2);
            assert(reachable(adj, p1, p2));
            if !has_edge(adj, p1 as int, p2 as int) {
                lemma_route_path(adj, p1, p2);
                let path = shortest_route(adj, p1, p2);
                let k = (path.len() - 2) as nat;
                assert forall|i: int| 0 <= i < path.len() implies #[trigger] path[i] < n by {
                    if i < path.len() - 1 {
                        assert(has_edge(adj, path[i] as int, path[i + 1] as int));
                    } else {
                        assert(has_edge(adj, path[i - 1] as int, path[i] as int));
                    }
                }
                lemma_moved(m, n as nat, path, k, q1, q2);
                let m2 = moved(m, path, k);
                let last = routed_pair(o.gate, m2[q1], m2[q2]);
                assert(has_edge(adj, path[k as int] as int, path[(k + 1) as int] as int));
                assert(out == swap_chain(path, k).push(last));
                assert forall|i: int| 0 <= i < out.len() implies op_fault(n, nc, #[trigger] out[i]) is None by {
                    if i < k {
                        assert(out[i] == op2(StandardGate::Swap, path[i], path[i + 1]));
                        lemma_valid_two(n, nc, StandardGate::Swap, path[i], path[i + 1], Seq::empty());
                    } else {
                        lemma_valid_two(n, nc, o.gate, path[k as int], path[(k + 1) as int], Seq::empty());
                        lemma_valid_one(n, nc, StandardGate::I, path[k as int], Seq::empty());
                    }
                }
                assert forall|i: int| 0 <= i < out.len() && on_two_qubits(#[trigger] out[i].gate) implies out[i].qubits.len()
                    == 2 && has_edge(adj, out[i].qubits[0] as int, out[i].qubits[1] as int) by {
                    if i < k {
                        assert(out[i] == op2(StandardGate::Swap, path[i], path[i + 1]));
                        assert(has_edge(adj, path[i] as int, path[i + 1] as int));
                    }
                }
            } else {
                lemma_valid_two(n, nc, o.gate, p1, p2, Seq::empty());
                lemma_valid_one(n, nc, StandardGate::I, p1, Seq::empty());
            }
        }
    } else if o.qubits.len() > 0 {
        lemma_valid_one(n, nc, routed_single(o.gate), m[o.qubits[0] as int], Seq::empty());
    }
}

/// Routing accepted instructions on a connected device of the circuit's
/// width emits only accepted instructions whose CNOTs, CZs and SWAPs act
/// on connected qubits.
proof fn lemma_route_ops(adj: Seq<Vec<bool>>, n: usize, nc: usize, m: Seq<usize>, ops: Seq<InstrView>)
    requires
        adj.len() == n,
        connected(adj, n as nat),
        is_permutation(m, n as nat),
        all_valid(n, nc, ops),
    ensures
        all_valid(n, nc, route_ops(adj, m, ops)),
        respects(adj, route_ops(adj, m, ops)),
    decreases ops.len(),
{
    if ops.len() > 0 {
        assert(op_fault(n, nc, ops[0]) is None);
        lemma_route_one(adj, n, nc, m, ops[0]);
        let step = route_one(adj, m, ops[0]);
        assert forall|i: int| 0 <= i < ops.drop_first().len() implies op_fault(n, nc, #[trigger] ops.drop_first()[i]) is None by {
            assert(ops.drop_first()[i] == ops[i + 1]);
        }
        lemma_route_ops(adj, n, nc, step.0, ops.drop_first());
        let rest = route_ops(adj, step.0, ops.drop_first());
        let all = step.1 + rest;
        assert forall|i: int| 0 <= i < all.len() implies op_fault(n, nc, #[trigger] all[i]) is None by {
            if i < step.1.len() {
                assert(all[i] == step.1[i]);
            } else {
                assert(all[i] == rest[i - step.1.len()]);
            }
        }
        assert forall|i: int| 0 <= i < all.len() && on_two_qubits(#[trigger] all[i].gate) implies all[i].qubits.len() == 2
            && has_edge(adj, all[i].qubits[0] as int, all[i].qubits[1] as int) by {
            if i < step.1.len() {
                assert(all[i] == step.1[i]);
            } else {
                assert(all[i] == rest[i - step.1.len()]);
            }
        }
    }
}

/// Routing respects the device: on a device whose qubits all reach each
/// other and whose width is the circuit's, routing a circuit of accepted
/// instructions succeeds, and every CNOT, CZ and SWAP of the routed circuit
/// acts on two connected qubits.
pub proof fn law_routing_respects_connectivity(adj: Seq<Vec<bool>>, c: CircuitView)
    requires
        adj.len() == c.num_qubits,
        connected(adj, c.num_qubits as nat),
        all_valid(c.num_qubits, c.num_clbits, c.ops),
    ensures
        routing_outcome(adj, c.num_qubits, c).1 is None,
        respects(adj, routing_outcome(adj, c.num_qubits, c).0.ops),
{
    let n = c.num_qubits;
    let m = identity_map(n as nat);
    assert forall|p: usize| p < n implies #[trigger] holds(m, n as nat, p) by {
        assert(m[p as int] == p);
    }
    lemma_route_ops(adj, n, c.num_clbits, m, c.ops);
    let init = CircuitView { num_qubits: n, num_clbits: c.num_clbits, ops: Seq::empty() };
    lemma_run_valid(init, route_ops(adj, m, c.ops));
    assert(init.ops + route_ops(adj, m, c.ops) =~= route_ops(adj, m, c.ops));
}

/// One-qubit gate kinds that act the same on whichever qubit holds them:
/// the Paulis, Hadamard, S and T.
pub open spec fn is_plain_one_qubit_kind(g: StandardGate) -> bool {
    g == StandardGate::X || g == StandardGate::Y || g == StandardGate::Z || g == StandardGate::H
        || g == StandardGate::S || g == StandardGate::T
}

/// Routing keeps each X, Y, Z, H, S and T gate: under any placement `m` of
/// logical qubits on physical ones, such a gate on logical qubit `q` is
/// emitted as the same gate on the physical qubit `m[q]`, and the placement
/// stays as it was.
pub proof fn law_routing_keeps_single_qubit_gates(adj: Seq<Vec<bool>>, m: Seq<usize>, o: InstrView)
    requires
        is_plain_one_qubit_kind(o.gate),
        o.qubits.len() > 0,
    ensures
        route_one(adj, m, o) == (m, seq![op1(o.gate, m[o.qubits[0] as int])]),
{
}

/// Routing keeps a CNOT or CZ between neighbours: when the physical qubits
/// that hold its two logical qubits are connected, it is emitted as the same
/// gate on those physical qubits, control first, and the placement stays.
pub proof fn law_routing_keeps_adjacent_pairs(adj: Seq<Vec<bool>>, m: Seq<usize>, o: InstrView)
    requires
        o.gate == StandardGate::CX || o.gate == StandardGate::CZ,
        o.qubits.len() >= 2,
        has_edge(adj, m[o.qubits[0] as int] as int, m[o.qubits[1] as int] as int),
    ensures
        route_one(adj, m, o) == (m, seq![op2(o.gate, m[o.qubits[0] as int], m[o.qubits[1] as int])]),
{
}

/// Routing a sequence of plain one-qubit gates on qubits below `n`, with
/// each logical qubit on the physical qubit of the same number, gives the
/// same sequence.
proof fn lemma_route_plain_ops(adj: Seq<Vec<bool>>, n: nat, ops: Seq<InstrView>)
    requires
        forall|i: int| 0 <= i < ops.len() ==> is_plain_one_qubit_kind((#[trigger] ops[i]).gate)
            && ops[i] == op1(ops[i].gate, ops[i].qubits[0]) && ops[i].qubits[0] < n,
    ensures
        route_ops(adj, identity_map(n), ops) == ops,
    decreases ops.len(),
{
    if ops.len() > 0 {
        let o = ops[0];
        assert(o == op1(o.gate, o.qubits[0]) && o.qubits[0] < n);
        law_routing_keeps_single_qubit_gates(adj, identity_map(n), o);
        assert(identity_map(n)[o.qubits[0] as int] == o.qubits[0]);
        assert forall|i: int| 0 <= i < ops.drop_first().len() implies is_plain_one_qubit_kind((#[trigger] ops.drop_first()[i]).gate)
            && ops.drop_first()[i] == op1(ops.drop_first()[i].gate, ops.drop_first()[i].qubits[0])
            && ops.drop_first()[i].qubits[0] < n by {
            assert(ops.drop_first()[i] == ops[i + 1]);
        }
        lemma_route_plain_ops(adj, n, ops.drop_first());
        assert(seq![o] + ops.drop_first() =~= ops);
    }
}

/// A circuit of plain X, Y, Z, H, S and T gates is routed unchanged onto a
/// device at least as wide: routing succeeds and gives the same gates on
/// the same qubits, in the same order.
pub proof fn law_plain_circuit_routes_unchanged(adj: Seq<Vec<bool>>, width: usize, c: CircuitView)
    requires
        c.num_qubits <= width,
        forall|i: int| 0 <= i < c.ops.len() ==> is_plain_one_qubit_kind((#[trigger] c.ops[i]).gate)
            && c.ops[i] == op1(c.ops[i].gate, c.ops[i].qubits[0]) && c.ops[i].qubits[0] < c.num_qubits,
    ensures
        routing_outcome(adj, width, c) == (CircuitView { num_qubits: width, ..c }, None::<Fault>),
{
    lemma_route_plain_ops(adj, c.num_qubits as nat, c.ops);
    let init = CircuitView { num_qubits: width, num_clbits: c.num_clbits, ops: Seq::empty() };
    assert forall|i: int| 0 <= i < c.ops.len() implies op_fault(width, c.num_clbits, #[trigger] c.ops[i]) is None by {
        let o = c.ops[i];
        assert(o.qubits =~= seq![o.qubits[0]]);
        assert(o.qubits.drop_first() =~= Seq::<usize>::empty());
        assert(o.qubits[0] < width);
        assert(first_out_of_range(o.qubits.drop_first(), width) is None);
        assert(first_out_of_range(o.qubits, width) is None);
        assert(o.clbits =~= Seq::<usize>::empty());
        assert(first_out_of_range(o.clbits, c.num_clbits) is None);
        assert(all_distinct(o.qubits));
    }
    lemma_run_valid(init, c.ops);
    assert(init.ops + c.ops =~= c.ops);
}

} // verus!
