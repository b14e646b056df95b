//! Dependency graphs: node `i` depends on the nodes listed in `g[i]`.
//!
//! A *closed order* lists distinct nodes, each after all of its dependencies. A node is
//! *settled* when some closed order contains it: exactly the nodes from which no cycle
//! can be reached. A *topological order* is a closed order of all nodes.
use vstd::prelude::*;
use vstd::set_lib::{lemma_int_range, lemma_len_subset, lemma_subset_equality, set_int_range};

verus! {

pub open spec fn valid_graph(g: Seq<Seq<int>>) -> bool {
    forall|i: int, j: int| 0 <= i < g.len() && 0 <= j < g[i].len() ==> 0 <= #[trigger] g[i][j] < g.len()
}

/// All dependencies of node `x` occur in `prefix`.
pub open spec fn deps_within(g: Seq<Seq<int>>, x: int, prefix: Seq<int>) -> bool {
    forall|j: int| 0 <= j < g[x].len() ==> prefix.contains(#[trigger] g[x][j])
}

pub open spec fn closed_order(g: Seq<Seq<int>>, o: Seq<int>) -> bool {
    &&& o.no_duplicates()
    &&& forall|p: int| 0 <= p < o.len() ==> 0 <= #[trigger] o[p] < g.len()
    &&& forall|p: int| 0 <= p < o.len() ==> deps_within(g, #[trigger] o[p], o.take(p))
}

pub open spec fn settled(g: Seq<Seq<int>>, k: int) -> bool {
    exists|o: Seq<int>| closed_order(g, o) && #[trigger] o.contains(k)
}

pub open spec fn is_topo_order(g: Seq<Seq<int>>, o: Seq<int>) -> bool {
    closed_order(g, o) && o.len() == g.len()
}

pub open spec fn has_topo_order(g: Seq<Seq<int>>) -> bool {
    exists|o: Seq<int>| #[trigger] is_topo_order(g, o)
}

/// The graph an adjacency list of positions describes.
pub open spec fn graph_view(deps: Seq<Vec<usize>>) -> Seq<Seq<int>> {
    Seq::new(deps.len(), |i: int| Seq::new(deps[i]@.len(), |j: int| deps[i]@[j] as int))
}

pub open spec fn ints(s: Seq<usize>) -> Seq<int> {
    Seq::new(s.len(), |i: int| s[i] as int)
}

/// How many times `x` occurs in `s`.
pub open spec fn count_eq(s: Seq<int>, x: int) -> nat
    decreases s.len(),
{
    if s.len() == 0 {
        0
    } else {
        count_eq(s.drop_last(), x) + (if s.last() == x {
            1nat
        } else {
            0nat
        })
    }
}

/// How many entries of `s` do not occur in `p`.
pub open spec fn count_out(s: Seq<int>, p: Seq<int>) -> nat
    decreases s.len(),
{
    if s.len() == 0 {
        0
    } else {
        count_out(s.drop_last(), p) + (if p.contains(s.last()) {
            0nat
        } else {
            1nat
        })
    }
}

proof fn lemma_count_out_push(s: Seq<int>, p: Seq<int>, x: int)
    requires
        !p.contains(x),
    ensures
        count_out(s, p.push(x)) + count_eq(s, x) == count_out(s, p),
    decreases s.len(),
{
    if s.len() > 0 {
        lemma_count_out_push(s.drop_last(), p, x);
        let y = s.last();
        if p.push(x).contains(y) && !p.contains(y) {
            let i = choose|i: int| 0 <= i < p.push(x).len() && p.push(x)[i] == y;
            if i < p.len() {
                assert(p[i] == y);
            }
        }
        if p.contains(y) {
            let i = choose|i: int| 0 <= i < p.len() && p[i] == y;
            assert(p.push(x)[i] == y);
        }
        if y == x {
            assert(p.push(x)[p.len() as int] == x);
        }
    }
}

proof fn lemma_count_out_empty(s: Seq<int>)
    ensures
        count_out(s, Seq::empty()) == s.len(),
    decreases s.len(),
{
    if s.len() > 0 {
        lemma_count_out_empty(s.drop_last());
    }
}

proof fn lemma_count_out_zero(s: Seq<int>, p: Seq<int>)
    ensures
        count_out(s, p) == 0 <==> (forall|j: int| 0 <= j < s.len() ==> p.contains(#[trigger] s[j])),
    decreases s.len(),
{
    if s.len() > 0 {
        lemma_count_out_zero(s.drop_last(), p);
        assert forall|j: int| 0 <= j < s.len() - 1 implies #[trigger] s[j] == s.drop_last()[j] by {}
        if count_out(s, p) == 0 {
            assert forall|j: int| 0 <= j < s.len() implies p.contains(#[trigger] s[j]) by {
                if j < s.len() - 1 {
                    assert(p.contains(s.drop_last()[j]));
                }
            }
        }
        if forall|j: int| 0 <= j < s.len() ==> p.contains(#[trigger] s[j]) {
            assert forall|j: int| 0 <= j < s.drop_last().len() implies p.contains(
                #[trigger] s.drop_last()[j],
            ) by {
                assert(p.contains(s[j]));
            }
            assert(p.contains(s[s.len() - 1]));
        }
    }
}

proof fn lemma_count_eq_take(s: Seq<int>, x: int, m: int)
    requires
        0 <= m < s.len(),
    ensures
        count_eq(s.take(m + 1), x) == count_eq(s.take(m), x) + (if s[m] == x {
            1nat
        } else {
            0nat
        }),
        count_eq(s.take(m + 1), x) <= count_eq(s, x),
    decreases s.len() - m,
{
    assert(s.take(m + 1).drop_last() =~= s.take(m));
    if m + 1 < s.len() {
        lemma_count_eq_take(s, x, m + 1);
    } else {
        assert(s.take(m + 1) =~= s);
    }
}

proof fn lemma_count_eq_push(s: Seq<int>, y: int, x: int)
    ensures
        count_eq(s.push(y), x) == count_eq(s, x) + (if y == x {
            1nat
        } else {
            0nat
        }),
{
    assert(s.push(y).drop_last() =~= s);
}

proof fn lemma_count_eq_le_count_out(s: Seq<int>, p: Seq<int>, x: int)
    requires
        !p.contains(x),
    ensures
        count_eq(s, x) <= count_out(s, p),
{
    lemma_count_out_push(s, p, x);
}

/// A list of distinct nodes below `n` has at most `n` entries, and has `n` exactly when it
/// lists every node.
proof fn lemma_distinct_nodes(o: Seq<int>, n: int)
    requires
        0 <= n,
        o.no_duplicates(),
        forall|p: int| 0 <= p < o.len() ==> 0 <= #[trigger] o[p] < n,
    ensures
        o.len() <= n,
        o.len() == n <==> (forall|k: int| 0 <= k < n ==> o.contains(k)),
{
    o.unique_seq_to_set();
    lemma_int_range(0, n);
    assert(o.to_set().subset_of(set_int_range(0, n)));
    lemma_len_subset(o.to_set(), set_int_range(0, n));
    if o.len() == n {
        lemma_subset_equality(o.to_set(), set_int_range(0, n));
        assert forall|k: int| 0 <= k < n implies o.contains(k) by {
            assert(set_int_range(0, n).contains(k));
            assert(o.to_set().contains(k));
        }
    }
    if forall|k: int| 0 <= k < n ==> o.contains(k) {
        assert(set_int_range(0, n).subset_of(o.to_set()));
        lemma_len_subset(set_int_range(0, n), o.to_set());
    }
}

/// When every node outside `q` has a dependency outside `q`, every closed order stays
/// within `q`.
proof fn lemma_closed_within(g: Seq<Seq<int>>, q: Seq<int>, o: Seq<int>, k: int)
    requires
        closed_order(g, o),
        o.contains(k),
        forall|i: int|
            0 <= i < g.len() && !q.contains(i) ==> exists|j: int|
                0 <= j < g[i].len() && !q.contains(#[trigger] g[i][j]),
    ensures
        q.contains(k),
{
    let p0 = choose|p: int| 0 <= p < o.len() && o[p] == k;
    lemma_first_outside(g, q, o, p0);
}

#[verifier::spinoff_prover]
#[verifier::rlimit(60)]
proof fn lemma_first_outside(g: Seq<Seq<int>>, q: Seq<int>, o: Seq<int>, p0: int)
    requires
        closed_order(g, o),
        0 <= p0 < o.len(),
        forall|i: int|
            0 <= i < g.len() && !q.contains(i) ==> exists|j: int|
                0 <= j < g[i].len() && !q.contains(#[trigger] g[i][j]),
    ensures
        q.contains(o[p0]),
    decreases p0,
{
    if !q.contains(o[p0]) {
        let x = o[p0];
        assert(0 <= x < g.len());
        let j = choose|j: int| 0 <= j < g[x].len() && !q.contains(#[trigger] g[x][j]);
        let d = g[x][j];
        assert(deps_within(g, o[p0], o.take(p0)));
        assert(o.take(p0).contains(d));
        let p1 = choose|p: int| 0 <= p < o.take(p0).len() && o.take(p0)[p] == d;
        assert(o[p1] == d);
        lemma_first_outside(g, q, o, p1);
    }
}

/// Appending to a closed order a node whose dependencies it already lists keeps it closed.
proof fn lemma_closed_push(g: Seq<Seq<int>>, a: Seq<int>, x: int)
    requires
        closed_order(g, a),
        0 <= x < g.len(),
        !a.contains(x),
        deps_within(g, x, a),
    ensures
        closed_order(g, a.push(x)),
{
    let b = a.push(x);
    assert forall|p: int| 0 <= p < b.len() implies deps_within(g, #[trigger] b[p], b.take(p)) by {
        if p < a.len() {
            assert(b.take(p) =~= a.take(p));
            assert(b[p] == a[p]);
        } else {
            assert(b.take(p) =~= a);
        }
    }
    assert forall|i: int, j: int| 0 <= i < j < b.len() implies b[i] != b[j] by {
        if j == a.len() {
            assert(a.contains(b[i]) ==> b[i] != x);
            assert(a[i] == b[i]);
        }
    }
}

/// The nodes of two closed orders can be listed in one closed order: the first, then those
/// of the second that it lacks, in the second's order.
pub proof fn lemma_merge_closed(g: Seq<Seq<int>>, a: Seq<int>, b: Seq<int>) -> (c: Seq<int>)
    requires
        closed_order(g, a),
        closed_order(g, b),
    ensures
        closed_order(g, c),
        forall|x: int| a.contains(x) ==> c.contains(x),
        forall|x: int| b.contains(x) ==> c.contains(x),
    decreases b.len(),
{
    if b.len() == 0 {
        a
    } else {
        let b0 = b.drop_last();
        assert forall|p: int| 0 <= p < b0.len() implies deps_within(g, #[trigger] b0[p], b0.take(p)) by {
            assert(b0.take(p) =~= b.take(p));
            assert(b0[p] == b[p]);
        }
        assert(b0.no_duplicates()) by {
            assert forall|i: int, j: int| 0 <= i < j < b0.len() implies b0[i] != b0[j] by {
                assert(b0[i] == b[i] && b0[j] == b[j]);
            }
        }
        let c0 = lemma_merge_closed(g, a, b0);
        let x = b.last();
        assert(deps_within(g, x, b.take(b.len() - 1)));
        assert(b.take(b.len() - 1) =~= b0);
        assert forall|x2: int| b.contains(x2) implies #[trigger] c0.contains(x2) || x2 == x by {
            let i = choose|i: int| 0 <= i < b.len() && b[i] == x2;
            if i < b.len() - 1 {
                assert(b0[i] == x2);
            }
        }
        if c0.contains(x) {
            c0
        } else {
            assert(deps_within(g, x, c0)) by {
                assert forall|j: int| 0 <= j < g[x].len() implies c0.contains(#[trigger] g[x][j]) by {
                    assert(b0.contains(g[x][j]));
                }
            }
            lemma_closed_push(g, c0, x);
            let c = c0.push(x);
            assert forall|y: int| c0.contains(y) implies c.contains(y) by {
                let i = choose|i: int| 0 <= i < c0.len() && c0[i] == y;
                assert(c[i] == y);
            }
            assert(c[c0.len() as int] == x);
            c
        }
    }
}

/// When every node is settled, the graph has a topological order.
pub proof fn lemma_all_settled_topo(g: Seq<Seq<int>>)
    requires
        forall|k: int| 0 <= k < g.len() ==> #[trigger] settled(g, k),
    ensures
        has_topo_order(g),
{
    let o = lemma_settled_prefix(g, g.len() as int);
    lemma_distinct_nodes(o, g.len() as int);
    assert(is_topo_order(g, o));
}

proof fn lemma_settled_prefix(g: Seq<Seq<int>>, n: int) -> (o: Seq<int>)
    requires
        0 <= n <= g.len(),
        forall|k: int| 0 <= k < g.len() ==> #[trigger] settled(g, k),
    ensures
        closed_order(g, o),
        forall|k: int| 0 <= k < n ==> o.contains(k),
    decreases n,
{
    if n == 0 {
        let e = Seq::<int>::empty();
        assert(closed_order(g, e));
        e
    } else {
        let a = lemma_settled_prefix(g, n - 1);
        assert(settled(g, n - 1));
        let b = choose|b: Seq<int>| closed_order(g, b) && #[trigger] b.contains(n - 1);
        let c = lemma_merge_closed(g, a, b);
        assert forall|k: int| 0 <= k < n implies c.contains(k) by {
            if k < n - 1 {
                assert(a.contains(k));
            }
        }
        c
    }
}

proof fn lemma_take_contains(s: Seq<int>, a: int, b: int, x: int)
    requires
        0 <= a <= b <= s.len(),
        s.take(a).contains(x),
    ensures
        s.take(b).contains(x),
{
    let i = choose|i: int| 0 <= i < s.take(a).len() && s.take(a)[i] == x;
    assert(s.take(b)[i] == x);
}

/// The settled nodes, in the order Kahn's algorithm finds them: first the nodes without
/// dependencies in index order, then, as each node is taken from the front of the queue,
/// those of its dependents (in index order of dependents) whose last pending dependency it
/// was. Also returns, per node, whether it was found.
pub fn settle_order(deps: &Vec<Vec<usize>>) -> (r: (Vec<usize>, Vec<bool>))
    requires
        valid_graph(graph_view(deps@)),
    ensures
        closed_order(graph_view(deps@), ints(r.0@)),
        r.1.len() == deps.len(),
        forall|k: int| 0 <= k < deps.len() ==> (#[trigger] r.1[k] <==> ints(r.0@).contains(k)),
        forall|k: int| 0 <= k < deps.len() ==> (r.1[k] <==> #[trigger] settled(graph_view(deps@), k)),
        (r.0.len() == deps.len()) <==> has_topo_order(graph_view(deps@)),
        kahn_sorted(graph_view(deps@), ints(r.0@)),
{
    let ghost g = graph_view(deps@);
    let n = deps.len();
    // in-degrees and reverse adjacency
    let mut indegree: Vec<usize> = Vec::new();
    let mut dependents: Vec<Vec<usize>> = Vec::new();
    let mut i: usize = 0;
    while i < n
        invariant
            n == deps.len(),
            g == graph_view(deps@),
            i <= n,
            indegree.len() == i,
            dependents.len() == i,
            forall|k: int| 0 <= k < i ==> indegree[k] == g[k].len(),
            forall|k: int| 0 <= k < i ==> (#[trigger] dependents[k])@.len() == 0,
            forall|d: int| 0 <= d < i ==> nondecreasing(#[trigger] dependents[d]@),
        decreases n - i,
    {
        indegree.push(deps[i].len());
        dependents.push(Vec::new());
        i = i + 1;
    }
    let mut idx: usize = 0;
    while idx < n
        invariant
            n == deps.len(),
            g == graph_view(deps@),
            valid_graph(g),
            idx <= n,
            dependents.len() == n,
            indegree.len() == n,
            forall|k: int| 0 <= k < n ==> indegree[k] == g[k].len(),
            forall|d: int, j: int|
                0 <= d < n && 0 <= j < dependents[d].len() ==> #[trigger] dependents[d]@[j] < idx,
            forall|d: int| 0 <= d < n ==> nondecreasing(#[trigger] dependents[d]@),
            forall|d: int, c: int|
                0 <= d < n && 0 <= c < n ==> #[trigger] count_eq(ints(dependents[d]@), c) == (if c
                    < idx {
                    count_eq(g[c], d)
                } else {
                    0
                }),
        decreases n - idx,
    {
        let mut j: usize = 0;
        let row = &deps[idx];
        while j < row.len()
            invariant
                n == deps.len(),
                g == graph_view(deps@),
                valid_graph(g),
                idx < n,
                *row == deps@[idx as int],
                j <= row.len(),
                dependents.len() == n,
                indegree.len() == n,
                forall|k: int| 0 <= k < n ==> indegree[k] == g[k].len(),
                forall|d: int, jj: int|
                    0 <= d < n && 0 <= jj < dependents[d].len() ==> #[trigger] dependents[d]@[jj]
                        <= idx,
                forall|d: int| 0 <= d < n ==> nondecreasing(#[trigger] dependents[d]@),
                forall|d: int, c: int|
                    0 <= d < n && 0 <= c < n ==> #[trigger] count_eq(ints(dependents[d]@), c) == (
                    if c < idx {
                        count_eq(g[c], d)
                    } else if c == idx {
                        count_eq(g[c].take(j as int), d)
                    } else {
                        0
                    }),
            decreases row.len() - j,
        {
            let d = row[j];
            proof {
                assert(g[idx as int][j as int] == d as int);
                assert(0 <= g[idx as int][j as int] < g.len());
            }
            let ghost before = dependents@;
            dependents[d].push(idx);
            proof {
                assert forall|dd: int| 0 <= dd < n implies nondecreasing(#[trigger] dependents[dd]@) by {
                    if dd == d {
                        assert(dependents[dd]@ =~= before[dd]@.push(idx));
                    } else {
                        assert(dependents[dd] == before[dd]);
                    }
                }
                assert forall|dd: int, c: int| 0 <= dd < n && 0 <= c < n implies #[trigger] count_eq(
                    ints(dependents[dd]@),
                    c,
                ) == (if c < idx {
                    count_eq(g[c], dd)
                } else if c == idx {
                    count_eq(g[c].take(j + 1), dd)
                } else {
                    0
                }) by {
                    lemma_count_eq_take(g[idx as int], dd, j as int);
                    if dd == d {
                        assert(ints(dependents[dd]@) =~= ints(before[dd]@).push(idx as int));
                        lemma_count_eq_push(ints(before[dd]@), idx as int, c);
                    } else {
                        assert(dependents[dd] == before[dd]);
                    }
                }
            }
            j = j + 1;
        }
        proof {
            assert(g[idx as int].take(row.len() as int) =~= g[idx as int]);
        }
        idx = idx + 1;
    }
    // the queue starts with the nodes without dependencies
    let mut queue: Vec<usize> = Vec::new();
    let mut placed: Vec<bool> = Vec::new();
    let mut i: usize = 0;
    while i < n
        invariant
            n == deps.len(),
            g == graph_view(deps@),
            i <= n,
            indegree.len() == n,
            placed.len() == i,
            forall|k: int| 0 <= k < n ==> indegree[k] == g[k].len(),
            ints(queue@).no_duplicates(),
            forall|p: int| 0 <= p < queue.len() ==> #[trigger] queue@[p] < i,
            forall|k: int| 0 <= k < i ==> (#[trigger] placed[k] <==> ints(queue@).contains(k)),
            forall|k: int| 0 <= k < i ==> (indegree[k] == 0 <==> ints(queue@).contains(k)),
            forall|p: int| 0 <= p < queue.len() ==> g[#[trigger] queue@[p] as int].len() == 0,
            forall|a: int, b: int| #![trigger queue@[a], queue@[b]] 0 <= a < b < queue.len() ==> queue@[a] < queue@[b],
        decreases n - i,
    {
        let ghost q0 = ints(queue@);
        if indegree[i] == 0 {
            queue.push(i);
            placed.push(true);
            proof {
                assert(ints(queue@) =~= q0.push(i as int));
                assert(ints(queue@)[q0.len() as int] == i);
            }
        } else {
            placed.push(false);
        }
        proof {
            let q = ints(queue@);
            assert forall|k: int| 0 <= k < i implies (#[trigger] q.contains(k) <==> q0.contains(k)) by {
                if q0.contains(k) {
                    let p = choose|p: int| 0 <= p < q0.len() && q0[p] == k;
                    assert(q[p] == k);
                }
                if q.contains(k) {
                    let p = choose|p: int| 0 <= p < q.len() && q[p] == k;
                    assert(q0[p] == k);
                }
            }
            assert(q.contains(i as int) <==> indegree[i as int] == 0) by {
                if q.contains(i as int) && indegree[i as int] != 0 {
                    let p = choose|p: int| 0 <= p < q.len() && q[p] == i;
                    assert(queue@[p] < i);
                }
            }
        }
        i = i + 1;
    }
    let mut head: usize = 0;
    proof {
        assert forall|k: int| 0 <= k < n implies indegree[k] == count_out(
            g[k],
            ints(queue@).take(0),
        ) by {
            lemma_count_out_empty(g[k]);
            assert(ints(queue@).take(0) =~= Seq::empty());
        }
        assert forall|p: int| 0 <= p < queue.len() implies deps_within(
            g,
            #[trigger] ints(queue@)[p],
            ints(queue@).take(p),
        ) by {}
        lemma_distinct_nodes(ints(queue@), n as int);
        let q = ints(queue@);
        assert forall|p: int| 0 <= p < q.len() implies g[#[trigger] q[p]].len() == 0 by {
            assert(g[queue@[p] as int].len() == 0);
        }
        assert forall|a: int, b: int| #![trigger q[a], q[b]] 0 <= a < b < q.len() implies q[a] < q[b] by {
            assert(queue@[a] < queue@[b]);
        }
        lemma_roots_kahn(g, q);
    }
    while head < queue.len()
        invariant
            n == deps.len(),
            g == graph_view(deps@),
            valid_graph(g),
            head <= queue.len() <= n,
            indegree.len() == n,
            placed.len() == n,
            dependents.len() == n,
            ints(queue@).no_duplicates(),
            forall|p: int| 0 <= p < queue.len() ==> #[trigger] queue@[p] < n,
            forall|k: int| 0 <= k < n ==> (#[trigger] placed[k] <==> ints(queue@).contains(k)),
            forall|k: int| 0 <= k < n ==> (indegree[k] == 0 <==> ints(queue@).contains(k)),
            forall|k: int| 0 <= k < n ==> indegree[k] == count_out(g[k], ints(queue@).take(head as int)),
            forall|p: int|
                0 <= p < queue.len() ==> deps_within(g, #[trigger] ints(queue@)[p], ints(queue@).take(p)),
            forall|d: int, j: int|
                0 <= d < n && 0 <= j < dependents[d].len() ==> #[trigger] dependents[d]@[j] < n,
            forall|d: int, c: int|
                0 <= d < n && 0 <= c < n ==> #[trigger] count_eq(ints(dependents[d]@), c) == count_eq(
                    g[c],
                    d,
                ),
            forall|d: int| 0 <= d < n ==> nondecreasing(#[trigger] dependents[d]@),
            kahn_sorted(g, ints(queue@)),
            forall|p: int| 0 <= p < queue.len() ==> last_dep_pos(ints(queue@), g[#[trigger] ints(queue@)[p]]) < head,
        decreases n - head,
    {
        let node = queue[head];
        let ghost p_old = ints(queue@).take(head as int);
        head = head + 1;
        let ghost p_new = ints(queue@).take(head as int);
        proof {
            assert(p_new =~= p_old.push(node as int));
            assert(!p_old.contains(node as int)) by {
                if p_old.contains(node as int) {
                    let p = choose|p: int| 0 <= p < p_old.len() && p_old[p] == node as int;
                    assert(ints(queue@)[p] == ints(queue@)[head - 1]);
                }
            }
        }
        let kids = &dependents[node];
        let mut m: usize = 0;
        let ghost mut bound: int = -1;
        proof {
            assert(nondecreasing(dependents[node as int]@));
            assert(ints(queue@)[head - 1] == node);
            let q = ints(queue@);
            assert forall|p: int| 0 <= p < q.len() implies queued_by_at_most(g, q, #[trigger] q[p], head - 1, bound) by {
                assert(last_dep_pos(q, g[q[p]]) < head - 1);
            }
        }
        while m < kids.len()
            invariant
                n == deps.len(),
                g == graph_view(deps@),
                valid_graph(g),
                node < n,
                0 < head <= queue.len(),
                dependents.len() == n,
                *kids == dependents@[node as int],
                m <= kids.len(),
                queue.len() <= n,
                indegree.len() == n,
                placed.len() == n,
                p_new == ints(queue@).take(head as int),
                p_new == p_old.push(node as int),
                !p_old.contains(node as int),
                ints(queue@).no_duplicates(),
                forall|p: int| 0 <= p < queue.len() ==> #[trigger] queue@[p] < n,
                forall|k: int| 0 <= k < n ==> (#[trigger] placed[k] <==> ints(queue@).contains(k)),
                forall|k: int| 0 <= k < n ==> (indegree[k] == 0 <==> ints(queue@).contains(k)),
                forall|k: int|
                    0 <= k < n ==> indegree[k] + count_eq(ints(kids@).take(m as int), k) == count_out(
                        g[k],
                        p_old,
                    ),
                forall|p: int|
                    0 <= p < queue.len() ==> deps_within(
                        g,
                        #[trigger] ints(queue@)[p],
                        ints(queue@).take(p),
                    ),
                forall|j: int| 0 <= j < kids.len() ==> #[trigger] kids@[j] < n,
                forall|c: int| 0 <= c < n ==> #[trigger] count_eq(ints(kids@), c) == count_eq(g[c], node as int),
                nondecreasing(kids@),
                ints(queue@)[head - 1] == node,
                kahn_sorted(g, ints(queue@)),
                forall|p: int|
                    0 <= p < queue.len() ==> queued_by_at_most(
                        g,
                        ints(queue@),
                        #[trigger] ints(queue@)[p],
                        head - 1,
                        bound,
                    ),
                m == 0 ==> bound == -1,
                m > 0 ==> bound == kids@[m - 1],
            decreases kids.len() - m,
        {
            let c = kids[m];
            proof {
                lemma_count_eq_take(ints(kids@), c as int, m as int);
                lemma_count_eq_le_count_out(g[c as int], p_old, node as int);
                assert(ints(kids@)[m as int] == c as int);
            }
            let ghost q0 = ints(queue@);
            indegree[c] = indegree[c] - 1;
            if indegree[c] == 0 {
                proof {
                    lemma_count_out_push(g[c as int], p_old, node as int);
                    lemma_count_out_zero(g[c as int], p_new);
                    assert(!q0.contains(c as int));
                }
                queue.push(c);
                placed.set(c, true);
                proof {
                    let q = ints(queue@);
                    assert(q =~= q0.push(c as int));
                    lemma_count_eq_contains(g[c as int], node as int);
                    assert(q0[head - 1] == node);
                    if m > 0 {
                        assert(kids@[m - 1] <= kids@[m as int]);
                    }
                    assert(q.no_duplicates()) by {
                        assert forall|a: int, b: int| 0 <= a < q.len() && 0 <= b < q.len() && a != b implies q[a] != q[b] by {
                            if b == q0.len() {
                                assert(q0.contains(q[a]) || a == q0.len());
                            }
                            if a == q0.len() {
                                assert(q0.contains(q[b]) || b == q0.len());
                            }
                        }
                    }
                    assert(q0.take(head as int) == p_new);
                    lemma_kahn_push(g, q0, head - 1, c as int, bound);
                    assert(q.take(head as int) =~= q0.take(head as int));
                    assert forall|p: int| 0 <= p < q.len() implies deps_within(
                        g,
                        #[trigger] q[p],
                        q.take(p),
                    ) by {
                        if p < q0.len() {
                            assert(q.take(p) =~= q0.take(p));
                        } else {
                            assert forall|j: int| 0 <= j < g[c as int].len() implies q.take(p).contains(
                                #[trigger] g[c as int][j],
                            ) by {
                                assert(p_new.contains(g[c as int][j]));
                                lemma_take_contains(q, head as int, p, g[c as int][j]);
                            }
                        }
                    }
                    assert forall|k: int| 0 <= k < n implies (#[trigger] placed[k] <==> q.contains(k)) by {
                        if q0.contains(k) {
                            let p = choose|p: int| 0 <= p < q0.len() && q0[p] == k;
                            assert(q[p] == k);
                        }
                        if q.contains(k) && k != c {
                            let p = choose|p: int| 0 <= p < q.len() && q[p] == k;
                            assert(q0[p] == k);
                        }
                        if k == c {
                            assert(q[q0.len() as int] == k);
                        }
                    }
                    assert forall|k: int| 0 <= k < n implies (indegree[k] == 0 <==> q.contains(k)) by {
                        if q0.contains(k) {
                            let p = choose|p: int| 0 <= p < q0.len() && q0[p] == k;
                            assert(q[p] == k);
                        }
                        if q.contains(k) && k != c {
                            let p = choose|p: int| 0 <= p < q.len() && q[p] == k;
                            assert(q0[p] == k);
                        }
                        if k == c {
                            assert(q[q0.len() as int] == k);
                        }
                    }
                    lemma_distinct_nodes(q, n as int);
                }
            }
            proof {
                assert forall|k: int| 0 <= k < n implies indegree[k] + count_eq(
                    ints(kids@).take(m + 1),
                    k,
                ) == count_out(g[k], p_old) by {
                    lemma_count_eq_take(ints(kids@), k, m as int);
                }
                if m > 0 {
                    assert(kids@[m - 1] <= kids@[m as int]);
                }
                let q = ints(queue@);
                assert forall|p: int| 0 <= p < q.len() implies queued_by_at_most(
                    g,
                    q,
                    #[trigger] q[p],
                    head - 1,
                    c as int,
                ) by {
                    if q.len() == q0.len() {
                        assert(q =~= q0);
                        assert(queued_by_at_most(g, q0, q0[p], head - 1, bound));
                    }
                }
                bound = c as int;
            }
            m = m + 1;
        }
        proof {
            assert(ints(kids@).take(kids.len() as int) =~= ints(kids@));
            assert forall|k: int| 0 <= k < n implies indegree[k] == count_out(g[k], p_new) by {
                lemma_count_out_push(g[k], p_old, node as int);
            }
            let q = ints(queue@);
            assert forall|p: int| 0 <= p < q.len() implies last_dep_pos(q, g[#[trigger] q[p]]) < head by {
                assert(queued_by_at_most(g, q, q[p], head - 1, bound));
            }
        }
    }
    proof {
        let q = ints(queue@);
        assert(q.take(head as int) =~= q);
        assert forall|i: int|
            0 <= i < g.len() && !q.contains(i) implies exists|j: int|
                0 <= j < g[i].len() && !q.contains(#[trigger] g[i][j]) by {
            assert(indegree[i] == count_out(g[i], q));
            assert(indegree[i] != 0);
            lemma_count_out_zero(g[i], q);
            let j = choose|j: int| 0 <= j < g[i].len() && !q.contains(#[trigger] g[i][j]);
        }
        assert forall|k: int| 0 <= k < n implies (placed[k] <==> #[trigger] settled(g, k)) by {
            if placed[k] {
                assert(closed_order(g, q));
            }
            if settled(g, k) {
                let o = choose|o: Seq<int>| closed_order(g, o) && #[trigger] o.contains(k);
                lemma_closed_within(g, q, o, k);
            }
        }
        lemma_distinct_nodes(q, n as int);
        if has_topo_order(g) {
            let o = choose|o: Seq<int>| #[trigger] is_topo_order(g, o);
            lemma_distinct_nodes(o, n as int);
            assert forall|k: int| 0 <= k < n implies q.contains(k) by {
                lemma_closed_within(g, q, o, k);
            }
        }
        if queue.len() == n {
            assert(is_topo_order(g, q));
        }
    }
    (queue, placed)
}

/// The position in `o` of the last of `deps` to appear there; -1 when there are none.
#[verifier::opaque]
pub open spec fn last_dep_pos(o: Seq<int>, deps: Seq<int>) -> int
    decreases deps.len(),
{
    if deps.len() == 0 {
        -1
    } else {
        let r = last_dep_pos(o, deps.drop_last());
        let p = o.index_of(deps.last());
        if p > r {
            p
        } else {
            r
        }
    }
}

/// The entries never decrease.
pub open spec fn nondecreasing(s: Seq<usize>) -> bool {
    forall|a: int, b: int| 0 <= a < b < s.len() ==> s[a] <= s[b]
}

/// In the order Kahn's algorithm takes nodes from a first-in first-out queue, `a` comes
/// before `b`: nodes without dependencies come first, by index; any other node is queued
/// when the last of its dependencies is taken, and nodes queued by the same node are
/// queued by index.
pub open spec fn kahn_before(g: Seq<Seq<int>>, o: Seq<int>, a: int, b: int) -> bool {
    let ra = last_dep_pos(o, g[a]);
    let rb = last_dep_pos(o, g[b]);
    ra < rb || (ra == rb && a < b)
}

/// `o` lists its nodes in the order of Kahn's algorithm with a first-in first-out queue.
pub open spec fn kahn_sorted(g: Seq<Seq<int>>, o: Seq<int>) -> bool {
    forall|p: int, q: int| #![trigger o[p], o[q]] 0 <= p < q < o.len() ==> kahn_before(g, o, o[p], o[q])
}

proof fn lemma_index_of_unique(s: Seq<int>, i: int)
    requires
        s.no_duplicates(),
        0 <= i < s.len(),
    ensures
        s.index_of(s[i]) == i,
{
    let j = s.index_of(s[i]);
    assert(0 <= j < s.len() && s[j] == s[i]);
}

/// Appending a node leaves the position of the last dependency of listed nodes as it was.
proof fn lemma_last_dep_pos_push(o: Seq<int>, x: int, deps: Seq<int>)
    requires
        o.push(x).no_duplicates(),
        forall|j: int| 0 <= j < deps.len() ==> o.contains(#[trigger] deps[j]),
    ensures
        last_dep_pos(o.push(x), deps) == last_dep_pos(o, deps),
    decreases deps.len(),
{
    reveal(last_dep_pos);
    if deps.len() > 0 {
        assert forall|j: int| 0 <= j < deps.drop_last().len() implies o.contains(#[trigger] deps.drop_last()[j]) by {
            assert(deps.drop_last()[j] == deps[j]);
        }
        lemma_last_dep_pos_push(o, x, deps.drop_last());
        let d = deps.last();
        assert(o.contains(deps[deps.len() - 1]));
        let i = choose|i: int| 0 <= i < o.len() && o[i] == d;
        assert(o.push(x)[i] == d);
        assert(o.no_duplicates()) by {
            assert forall|a: int, b: int| 0 <= a < o.len() && 0 <= b < o.len() && a != b implies o[a] != o[b] by {
                assert(o.push(x)[a] == o[a] && o.push(x)[b] == o[b]);
            }
        }
        lemma_index_of_unique(o, i);
        lemma_index_of_unique(o.push(x), i);
    }
}

/// The last of the dependencies lies at or before `h` when they all lie in `o.take(h + 1)`,
/// and at or after the position of each of them.
proof fn lemma_last_dep_pos_bounds(o: Seq<int>, deps: Seq<int>, h: int)
    requires
        o.no_duplicates(),
        0 <= h < o.len(),
        forall|j: int| 0 <= j < deps.len() ==> o.take(h + 1).contains(#[trigger] deps[j]),
    ensures
        last_dep_pos(o, deps) <= h,
        forall|j: int| 0 <= j < deps.len() ==> o.index_of(#[trigger] deps[j]) <= last_dep_pos(o, deps),
    decreases deps.len(),
{
    reveal(last_dep_pos);
    if deps.len() > 0 {
        assert forall|j: int| 0 <= j < deps.drop_last().len() implies o.take(h + 1).contains(
            #[trigger] deps.drop_last()[j],
        ) by {
            assert(deps.drop_last()[j] == deps[j]);
        }
        lemma_last_dep_pos_bounds(o, deps.drop_last(), h);
        let d = deps.last();
        assert(o.take(h + 1).contains(deps[deps.len() - 1]));
        let t = o.take(h + 1);
        let i = choose|i: int| 0 <= i < t.len() && #[trigger] t[i] == d;
        assert(o[i] == d);
        lemma_index_of_unique(o, i);
        assert forall|j: int| 0 <= j < deps.len() implies o.index_of(#[trigger] deps[j]) <= last_dep_pos(o, deps) by {
            if j < deps.len() - 1 {
                assert(deps.drop_last()[j] == deps[j]);
            }
        }
    }
}

/// A node of `s` occurs in it.
proof fn lemma_count_eq_contains(s: Seq<int>, x: int)
    requires
        count_eq(s, x) > 0,
    ensures
        s.contains(x),
    decreases s.len(),
{
    if s.last() == x {
        assert(s[s.len() - 1] == x);
    } else {
        lemma_count_eq_contains(s.drop_last(), x);
        let i = choose|i: int| 0 <= i < s.drop_last().len() && s.drop_last()[i] == x;
        assert(s[i] == x);
    }
}

/// Node `x` of `q` was queued before the node at position `h` was taken, or by that node
/// at an index no greater than `bound`.
pub open spec fn queued_by_at_most(g: Seq<Seq<int>>, q: Seq<int>, x: int, h: int, bound: int) -> bool {
    last_dep_pos(q, g[x]) < h || (last_dep_pos(q, g[x]) == h && x <= bound)
}

proof fn lemma_prefix_contains(q: Seq<int>, p: int, d: int)
    requires
        0 <= p <= q.len(),
        q.take(p).contains(d),
    ensures
        q.contains(d),
{
    let t = q.take(p);
    let i = choose|i: int| 0 <= i < t.len() && #[trigger] t[i] == d;
    assert(q[i] == d);
}

/// A list of nodes without dependencies, in increasing order, is in Kahn order, each node
/// having no last dependency.
proof fn lemma_roots_kahn(g: Seq<Seq<int>>, q: Seq<int>)
    requires
        forall|p: int| 0 <= p < q.len() ==> g[#[trigger] q[p]].len() == 0,
        forall|a: int, b: int| #![trigger q[a], q[b]] 0 <= a < b < q.len() ==> q[a] < q[b],
    ensures
        kahn_sorted(g, q),
        forall|p: int| 0 <= p < q.len() ==> last_dep_pos(q, g[#[trigger] q[p]]) == -1,
{
    reveal(last_dep_pos);
    assert forall|p: int| 0 <= p < q.len() implies last_dep_pos(q, g[#[trigger] q[p]]) == -1 by {
        assert(g[q[p]].len() == 0);
    }
    assert forall|a: int, b: int| #![trigger q[a], q[b]] 0 <= a < b < q.len() implies kahn_before(g, q, q[a], q[b]) by {
        assert(last_dep_pos(q, g[q[a]]) == -1);
        assert(last_dep_pos(q, g[q[b]]) == -1);
    }
}

/// Appending a node leaves the last-dependency positions of the listed nodes as they were.
proof fn lemma_kahn_ranks_stable(g: Seq<Seq<int>>, q: Seq<int>, c: int)
    requires
        q.push(c).no_duplicates(),
        forall|p: int| 0 <= p < q.len() ==> deps_within(g, #[trigger] q[p], q.take(p)),
    ensures
        forall|p: int| 0 <= p < q.len() ==> last_dep_pos(q.push(c), g[#[trigger] q[p]]) == last_dep_pos(q, g[q[p]]),
{
    assert forall|p: int| 0 <= p < q.len() implies last_dep_pos(q.push(c), g[#[trigger] q[p]]) == last_dep_pos(
        q,
        g[q[p]],
    ) by {
        let x = q[p];
        assert(deps_within(g, q[p], q.take(p)));
        assert forall|j: int| 0 <= j < g[x].len() implies q.contains(#[trigger] g[x][j]) by {
            lemma_prefix_contains(q, p, g[x][j]);
        }
        lemma_last_dep_pos_push(q, c, g[x]);
    }
}

/// The last dependency of a node queued when the node at position `h` was taken is that
/// node.
proof fn lemma_rank_of_pushed(g: Seq<Seq<int>>, q: Seq<int>, h: int, c: int)
    requires
        q.push(c).no_duplicates(),
        0 <= h < q.len(),
        deps_within(g, c, q.take(h + 1)),
        g[c].contains(q[h]),
    ensures
        last_dep_pos(q.push(c), g[c]) == h,
{
    let q2 = q.push(c);
    assert(q2.take(h + 1) =~= q.take(h + 1));
    assert forall|j: int| 0 <= j < g[c].len() implies q2.take(h + 1).contains(#[trigger] g[c][j]) by {
        assert(q.take(h + 1).contains(g[c][j]));
    }
    lemma_last_dep_pos_bounds(q2, g[c], h);
    let j = choose|j: int| 0 <= j < g[c].len() && g[c][j] == q[h];
    assert(q2[h] == q[h]);
    lemma_index_of_unique(q2, h);
    assert(q2.index_of(g[c][j]) == h);
}

/// Appending node `c`, queued when the node at position `h` (one of its dependencies, and
/// the last of them) was taken, keeps a list in Kahn order when every node listed so far
/// was queued before that, or then at an index no greater than `bound <= c`.
proof fn lemma_kahn_push(g: Seq<Seq<int>>, q: Seq<int>, h: int, c: int, bound: int)
    requires
        q.push(c).no_duplicates(),
        0 <= h < q.len(),
        forall|p: int| 0 <= p < q.len() ==> deps_within(g, #[trigger] q[p], q.take(p)),
        deps_within(g, c, q.take(h + 1)),
        g[c].contains(q[h]),
        kahn_sorted(g, q),
        forall|p: int| 0 <= p < q.len() ==> queued_by_at_most(g, q, #[trigger] q[p], h, bound),
        bound <= c,
    ensures
        kahn_sorted(g, q.push(c)),
        forall|p: int| 0 <= p < q.push(c).len() ==> queued_by_at_most(g, q.push(c), #[trigger] q.push(c)[p], h, c),
{
    let q2 = q.push(c);
    lemma_kahn_ranks_stable(g, q, c);
    lemma_rank_of_pushed(g, q, h, c);
    assert(q2[q.len() as int] == c);
    assert forall|p: int, r: int| #![trigger q2[p], q2[r]] 0 <= p < r < q2.len() implies kahn_before(g, q2, q2[p], q2[r]) by {
        assert(q2[p] == q[p]);
        assert(queued_by_at_most(g, q, q[p], h, bound));
        if r < q.len() {
            assert(q2[r] == q[r]);
            assert(kahn_before(g, q, q[p], q[r]));
        } else {
            assert(q2[p] != q2[r]);
        }
    }
    assert forall|p: int| 0 <= p < q2.len() implies queued_by_at_most(g, q2, #[trigger] q2[p], h, c) by {
        if p < q.len() {
            assert(q2[p] == q[p]);
            assert(queued_by_at_most(g, q, q[p], h, bound));
        }
    }
}

/// Dependencies that all lie in a prefix two lists share have their last one at the same
/// position in both.
proof fn lemma_last_dep_pos_common_prefix(o1: Seq<int>, o2: Seq<int>, k: int, deps: Seq<int>)
    requires
        o1.no_duplicates(),
        o2.no_duplicates(),
        0 <= k <= o1.len(),
        k <= o2.len(),
        o1.take(k) == o2.take(k),
        forall|j: int| 0 <= j < deps.len() ==> o1.take(k).contains(#[trigger] deps[j]),
    ensures
        last_dep_pos(o1, deps) == last_dep_pos(o2, deps),
    decreases deps.len(),
{
    reveal(last_dep_pos);
    if deps.len() > 0 {
        assert forall|j: int| 0 <= j < deps.drop_last().len() implies o1.take(k).contains(
            #[trigger] deps.drop_last()[j],
        ) by {
            assert(deps.drop_last()[j] == deps[j]);
        }
        lemma_last_dep_pos_common_prefix(o1, o2, k, deps.drop_last());
        let d = deps.last();
        assert(o1.take(k).contains(deps[deps.len() - 1]));
        let t = o1.take(k);
        let i = choose|i: int| 0 <= i < t.len() && #[trigger] t[i] == d;
        assert(o1[i] == d);
        assert(o2.take(k)[i] == d);
        assert(o2[i] == d);
        lemma_index_of_unique(o1, i);
        lemma_index_of_unique(o2, i);
    }
}

proof fn lemma_kahn_prefix(g: Seq<Seq<int>>, o1: Seq<int>, o2: Seq<int>, k: int)
    requires
        is_topo_order(g, o1),
        kahn_sorted(g, o1),
        is_topo_order(g, o2),
        kahn_sorted(g, o2),
        0 <= k <= o1.len(),
        o1.take(k) == o2.take(k),
    ensures
        o1 == o2,
    decreases o1.len() - k,
{
    let n = g.len() as int;
    if k == o1.len() {
        assert(o1 =~= o1.take(k));
        assert(o2 =~= o2.take(k));
    } else {
        let x = o1[k];
        let y = o2[k];
        if x != y {
            lemma_distinct_nodes(o1, n);
            lemma_distinct_nodes(o2, n);
            assert(0 <= y < n);
            assert(0 <= x < n);
            assert(o1.contains(y));
            assert(o2.contains(x));
            let i = choose|i: int| 0 <= i < o1.len() && o1[i] == y;
            let j = choose|j: int| 0 <= j < o2.len() && o2[j] == x;
            if i < k {
                assert(o1.take(k)[i] == y);
                assert(o2.take(k)[i] == y);
                assert(o2[i] == o2[k]);
            }
            if j < k {
                assert(o2.take(k)[j] == x);
                assert(o1.take(k)[j] == x);
                assert(o1[j] == o1[k]);
            }
            assert(deps_within(g, o1[k], o1.take(k)));
            assert(deps_within(g, o2[k], o2.take(k)));
            lemma_last_dep_pos_common_prefix(o1, o2, k, g[x]);
            assert forall|jj: int| 0 <= jj < g[y].len() implies o1.take(k).contains(#[trigger] g[y][jj]) by {
                assert(o2.take(k).contains(g[y][jj]));
            }
            lemma_last_dep_pos_common_prefix(o1, o2, k, g[y]);
            assert(kahn_before(g, o1, o1[k], o1[i]));
            assert(kahn_before(g, o2, o2[k], o2[j]));
        }
        assert(o1.take(k + 1) =~= o1.take(k).push(x));
        assert(o2.take(k + 1) =~= o2.take(k).push(y));
        lemma_kahn_prefix(g, o1, o2, k + 1);
    }
}

/// The order of Kahn's algorithm is a single order: two topological orders of a graph that
/// are both in Kahn order are the same.
pub proof fn law_kahn_order_unique(g: Seq<Seq<int>>, o1: Seq<int>, o2: Seq<int>)
    requires
        is_topo_order(g, o1),
        kahn_sorted(g, o1),
        is_topo_order(g, o2),
        kahn_sorted(g, o2),
    ensures
        o1 == o2,
{
    assert(o1.take(0) =~= o2.take(0));
    lemma_kahn_prefix(g, o1, o2, 0);
}

} // verus!
