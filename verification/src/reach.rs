//! Reachability along the directed edge set, and the depth-first search
//! the connection policy uses to keep the graph acyclic.

use crate::graph::Edge;
use vstd::prelude::*;

verus! {

/// Some edge leads from node `a` to node `b`.
pub open spec fn has_edge(edges: Seq<Edge>, a: usize, b: usize) -> bool {
    exists|k: int|
        0 <= k < edges.len() && (#[trigger] edges[k]).from.node.0 == a && edges[k].to.node.0 == b
}

/// `p` walks along edges: every adjacent pair of nodes in `p` is joined
/// by an edge. A path visits at least two (not necessarily distinct)
/// nodes.
pub open spec fn is_path(edges: Seq<Edge>, p: Seq<usize>) -> bool {
    &&& p.len() >= 2
    &&& forall|i: int| 0 <= i < p.len() - 1 ==> has_edge(edges, #[trigger] p[i], p[i + 1])
}

/// Node `b` can be reached from node `a` by following at least one edge.
pub open spec fn reaches(edges: Seq<Edge>, a: usize, b: usize) -> bool {
    exists|p: Seq<usize>| #[trigger] is_path(edges, p) && p.first() == a && p.last() == b
}

/// No node can reach itself: the edge set is a directed acyclic graph.
pub open spec fn acyclic(edges: Seq<Edge>) -> bool {
    forall|n: usize| !reaches(edges, n, n)
}

/// Either equal, or reachable: the reflexive closure of `reaches`.
pub open spec fn reaches_or_eq(edges: Seq<Edge>, a: usize, b: usize) -> bool {
    a == b || reaches(edges, a, b)
}

/// A single edge is a path.
pub proof fn lemma_edge_reaches(edges: Seq<Edge>, a: usize, b: usize)
    requires
        has_edge(edges, a, b),
    ensures
        reaches(edges, a, b),
{
    let p = seq![a, b];
    assert(p[0] == a && p[1] == b);
    assert(is_path(edges, p));
    assert(p.first() == a && p.last() == b);
}

/// A path extends by one edge at its end.
pub proof fn lemma_reaches_step(edges: Seq<Edge>, a: usize, b: usize, c: usize)
    requires
        reaches(edges, a, b),
        has_edge(edges, b, c),
    ensures
        reaches(edges, a, c),
{
    let p = choose|p: Seq<usize>| #[trigger] is_path(edges, p) && p.first() == a && p.last() == b;
    let q = p.push(c);
    assert forall|i: int| 0 <= i < q.len() - 1 implies has_edge(edges, #[trigger] q[i], q[i + 1]) by {
        if i < p.len() - 1 {
            assert(q[i] == p[i] && q[i + 1] == p[i + 1]);
        } else {
            assert(q[i] == p.last() && q[i + 1] == c);
        }
    }
    assert(is_path(edges, q));
    assert(q.first() == a && q.last() == c);
}

/// Reachability is transitive.
pub proof fn lemma_reaches_trans(edges: Seq<Edge>, a: usize, b: usize, c: usize)
    requires
        reaches(edges, a, b),
        reaches(edges, b, c),
    ensures
        reaches(edges, a, c),
{
    let p = choose|p: Seq<usize>| #[trigger] is_path(edges, p) && p.first() == a && p.last() == b;
    let q = choose|q: Seq<usize>| #[trigger] is_path(edges, q) && q.first() == b && q.last() == c;
    let r = p + q.skip(1);
    assert(r.len() == p.len() + q.len() - 1);
    assert forall|i: int| 0 <= i < r.len() - 1 implies has_edge(edges, #[trigger] r[i], r[i + 1]) by {
        if i < p.len() - 1 {
            assert(r[i] == p[i] && r[i + 1] == p[i + 1]);
        } else if i == p.len() - 1 {
            assert(r[i] == p.last());
            assert(r[i + 1] == q[1]);
            assert(has_edge(edges, q[0], q[1]));
        } else {
            let j = i - p.len() + 1;
            assert(r[i] == q[j] && r[i + 1] == q[j + 1]);
            assert(has_edge(edges, q[j], q[j + 1]));
        }
    }
    assert(is_path(edges, r));
    assert(r.first() == a);
    assert(r.last() == q.last());
}

/// Any path through a smaller edge set is a path through a larger one:
/// reachability only grows with the edge set.
pub proof fn lemma_reaches_subset(e1: Seq<Edge>, e2: Seq<Edge>, a: usize, b: usize)
    requires
        forall|x: usize, y: usize| #[trigger] has_edge(e1, x, y) ==> has_edge(e2, x, y),
        reaches(e1, a, b),
    ensures
        reaches(e2, a, b),
{
    let p = choose|p: Seq<usize>| #[trigger] is_path(e1, p) && p.first() == a && p.last() == b;
    assert(is_path(e2, p));
}

/// Every edge of a sequence is still an edge after a push.
pub proof fn lemma_has_edge_push(edges: Seq<Edge>, e: Edge)
    ensures
        forall|x: usize, y: usize| #[trigger] has_edge(edges, x, y) ==> has_edge(
            edges.push(e),
            x,
            y,
        ),
{
    assert forall|x: usize, y: usize| #[trigger] has_edge(edges, x, y) implies has_edge(
        edges.push(e),
        x,
        y,
    ) by {
        let k = choose|k: int|
            0 <= k < edges.len() && (#[trigger] edges[k]).from.node.0 == x && edges[k].to.node.0
                == y;
        assert(edges.push(e)[k] == edges[k]);
    }
}

/// A set of nodes that contains the head of a path and is closed under
/// following edges contains the path's tail. The set is given as a mark
/// per node identifier.
pub proof fn lemma_closed_set_blocks(edges: Seq<Edge>, vis: Seq<bool>, p: Seq<usize>)
    requires
        is_path(edges, p),
        p.first() < vis.len() && vis[p.first() as int],
        forall|x: usize, y: usize|
            x < vis.len() && vis[x as int] && #[trigger] has_edge(edges, x, y) ==> y < vis.len()
                && vis[y as int],
    ensures
        p.last() < vis.len() && vis[p.last() as int],
    decreases p.len(),
{
    if p.len() == 2 {
        assert(has_edge(edges, p[0], p[1]));
    } else {
        let q = p.drop_last();
        assert forall|i: int| 0 <= i < q.len() - 1 implies has_edge(edges, #[trigger] q[i], q[i + 1]) by {
            assert(q[i] == p[i] && q[i + 1] == p[i + 1]);
        }
        assert(is_path(edges, q));
        assert(q.first() == p.first());
        lemma_closed_set_blocks(edges, vis, q);
        assert(q.last() == p[p.len() - 2]);
        assert(has_edge(edges, p[p.len() - 2], p[p.len() - 1]));
    }
}

/// Any path after adding edge `e` decomposes: either it already ran
/// through the old edges, or it passes through `e`, entering at `e`'s
/// source and leaving from `e`'s destination.
proof fn lemma_path_after_push(edges: Seq<Edge>, e: Edge, p: Seq<usize>)
    requires
        is_path(edges.push(e), p),
    ensures
        reaches(edges, p.first(), p.last()) || (reaches_or_eq(edges, p.first(), e.from.node.0)
            && reaches_or_eq(edges, e.to.node.0, p.last())),
    decreases p.len(),
{
    let f = e.from.node.0;
    let t = e.to.node.0;
    let e2 = edges.push(e);
    if p.len() == 2 {
        assert(has_edge(e2, p[0], p[1]));
        let k = choose|k: int|
            0 <= k < e2.len() && (#[trigger] e2[k]).from.node.0 == p[0] && e2[k].to.node.0 == p[1];
        if k < edges.len() {
            assert(edges[k] == e2[k]);
            assert(has_edge(edges, p[0], p[1]));
            lemma_edge_reaches(edges, p[0], p[1]);
        } else {
            assert(e2[k] == e);
        }
    } else {
        let q = p.drop_last();
        assert forall|i: int| 0 <= i < q.len() - 1 implies has_edge(e2, #[trigger] q[i], q[i + 1]) by {
            assert(q[i] == p[i] && q[i + 1] == p[i + 1]);
        }
        assert(is_path(e2, q));
        lemma_path_after_push(edges, e, q);
        let c = p[p.len() - 2];
        let b = p[p.len() - 1];
        assert(q.last() == c && q.first() == p.first());
        assert(has_edge(e2, c, b));
        let k = choose|k: int|
            0 <= k < e2.len() && (#[trigger] e2[k]).from.node.0 == c && e2[k].to.node.0 == b;
        if k < edges.len() {
            assert(edges[k] == e2[k]);
            assert(has_edge(edges, c, b));
            if reaches(edges, p.first(), c) {
                lemma_reaches_step(edges, p.first(), c, b);
            } else {
                // The prefix passes through the new edge; extend its tail.
                if t == c {
                    lemma_edge_reaches(edges, c, b);
                } else {
                    lemma_reaches_step(edges, t, c, b);
                }
            }
        } else {
            assert(e2[k] == e);
            assert(c == f && b == t);
            if reaches(edges, p.first(), c) {
                assert(reaches_or_eq(edges, p.first(), f));
                assert(reaches_or_eq(edges, t, b));
            } else {
                assert(reaches_or_eq(edges, p.first(), f));
                assert(reaches_or_eq(edges, t, b));
            }
        }
    }
}

/// The heart of the connection policy: adding an edge whose destination
/// does not already reach its source keeps the graph acyclic.
pub proof fn lemma_acyclic_push(edges: Seq<Edge>, e: Edge)
    requires
        acyclic(edges),
        e.from.node.0 != e.to.node.0,
        !reaches(edges, e.to.node.0, e.from.node.0),
    ensures
        acyclic(edges.push(e)),
{
    let f = e.from.node.0;
    let t = e.to.node.0;
    let e2 = edges.push(e);
    assert forall|n: usize| !reaches(e2, n, n) by {
        if reaches(e2, n, n) {
            let p = choose|p: Seq<usize>| #[trigger] is_path(e2, p) && p.first() == n && p.last()
                == n;
            lemma_path_after_push(edges, e, p);
            if reaches(edges, n, n) {
                assert(false);
            } else {
                // The cycle passes through the new edge, so its
                // destination would reach its source through old edges.
                if t == n {
                    if n == f {
                        assert(false);
                    } else {
                        assert(reaches(edges, n, f));
                        assert(false);
                    }
                } else {
                    assert(reaches(edges, t, n));
                    if n == f {
                        assert(false);
                    } else {
                        lemma_reaches_trans(edges, t, n, f);
                        assert(false);
                    }
                }
            }
        }
    }
}

/// How many entries of a mark sequence are still clear.
pub closed spec fn count_false(s: Seq<bool>) -> nat
    decreases s.len(),
{
    if s.len() == 0 {
        0
    } else {
        count_false(s.drop_last()) + if s.last() {
            0nat
        } else {
            1nat
        }
    }
}

/// No more marks are clear than there are marks.
pub proof fn lemma_count_false_le_len(s: Seq<bool>)
    ensures
        count_false(s) <= s.len(),
    decreases s.len(),
{
    if s.len() > 0 {
        lemma_count_false_le_len(s.drop_last());
    }
}

/// A clear mark somewhere means at least one clear mark is counted.
pub proof fn lemma_count_false_pos(s: Seq<bool>, i: int)
    requires
        0 <= i < s.len(),
        !s[i],
    ensures
        count_false(s) >= 1,
    decreases s.len(),
{
    if i == s.len() - 1 {
    } else {
        lemma_count_false_pos(s.drop_last(), i);
    }
}

/// Setting a clear mark lowers the count of clear marks by one.
pub proof fn lemma_count_false_update(s: Seq<bool>, i: int)
    requires
        0 <= i < s.len(),
        !s[i],
    ensures
        count_false(s.update(i, true)) + 1 == count_false(s),
    decreases s.len(),
{
    let u = s.update(i, true);
    if i == s.len() - 1 {
        assert(u.drop_last() =~= s.drop_last());
        assert(u.last());
        assert(!s.last());
    } else {
        assert(u.drop_last() =~= s.drop_last().update(i, true));
        assert(u.last() == s.last());
        lemma_count_false_update(s.drop_last(), i);
    }
}

/// Whether `target` can be reached from `start` by following edges: a
/// depth-first search over node identifiers, marking each node the first
/// time it is discovered.
pub fn reaches_exec(edges: &Vec<Edge>, n_nodes: usize, start: usize, target: usize) -> (r: bool)
    requires
        start < n_nodes,
        start != target,
        forall|k: int|
            0 <= k < edges@.len() ==> (#[trigger] edges@[k]).from.node.0 < n_nodes
                && edges@[k].to.node.0 < n_nodes,
    ensures
        r == reaches(edges@, start, target),
{
    let mut visited: Vec<bool> = vec![false; n_nodes];
    let mut stack: Vec<usize> = Vec::new();
    assert(visited@ =~= Seq::new(n_nodes as nat, |i: int| false));
    visited[start] = true;
    stack.push(start);
    proof {
        assert(stack@[0] == start);
        assert(stack@.contains(start));
    }
    while stack.len() > 0
        invariant
            visited@.len() == n_nodes,
            forall|k: int| 0 <= k < stack@.len() ==> (#[trigger] stack@[k]) < n_nodes
                && visited@[stack@[k] as int],
            visited@[start as int],
            !(target < n_nodes && visited@[target as int]),
            forall|v: usize|
                v < n_nodes && #[trigger] visited@[v as int] ==> v == start || reaches(
                    edges@,
                    start,
                    v,
                ),
            forall|v: usize, w: usize|
                v < n_nodes && visited@[v as int] && !stack@.contains(v) && #[trigger] has_edge(
                    edges@,
                    v,
                    w,
                ) ==> w < n_nodes && visited@[w as int],
        decreases count_false(visited@), stack@.len(),
    {
        let ghost prev_vis = visited@;
        let ghost prev_stack = stack@;
        let cur = stack.pop().unwrap();
        proof {
            assert(cur == prev_stack.last());
            assert forall|v: usize| v != cur && !stack@.contains(v) implies !prev_stack.contains(
                v,
            ) by {
                if prev_stack.contains(v) {
                    let k = choose|k: int| 0 <= k < prev_stack.len() && prev_stack[k] == v;
                    assert(k < prev_stack.len() - 1);
                    assert(stack@[k] == v);
                }
            }
        }
        let mut j: usize = 0;
        while j < edges.len()
            invariant
                j <= edges@.len(),
                visited@.len() == n_nodes,
                forall|k: int| 0 <= k < stack@.len() ==> (#[trigger] stack@[k]) < n_nodes
                    && visited@[stack@[k] as int],
                visited@[start as int],
                visited@[cur as int],
                !(target < n_nodes && visited@[target as int]),
                forall|v: usize|
                    v < n_nodes && #[trigger] visited@[v as int] ==> v == start || reaches(
                        edges@,
                        start,
                        v,
                    ),
                forall|v: usize, w: usize|
                    v != cur && v < n_nodes && visited@[v as int] && !stack@.contains(v)
                        && #[trigger] has_edge(edges@, v, w) ==> w < n_nodes
                        && visited@[w as int],
                forall|k: int|
                    0 <= k < j && (#[trigger] edges@[k]).from.node.0 == cur ==> visited@[edges@[
                        k
                    ].to.node.0 as int],
                count_false(visited@) <= count_false(prev_vis),
                stack@.len() + 1 >= prev_stack.len(),
                stack@.len() + 1 > prev_stack.len() ==> count_false(visited@) < count_false(
                    prev_vis,
                ),
            decreases edges@.len() - j,
        {
            let next = edges[j].to.node.0;
            if edges[j].from.node.0 == cur {
                if next == target {
                    proof {
                        assert(has_edge(edges@, cur, next));
                        if cur == start {
                            lemma_edge_reaches(edges@, start, next);
                        } else {
                            lemma_reaches_step(edges@, start, cur, next);
                        }
                    }
                    return true;
                }
                if !visited[next] {
                    proof {
                        lemma_count_false_update(visited@, next as int);
                        assert(has_edge(edges@, cur, next));
                        if cur == start {
                            lemma_edge_reaches(edges@, start, next);
                        } else {
                            lemma_reaches_step(edges@, start, cur, next);
                        }
                    }
                    let ghost s1 = stack@;
                    visited[next] = true;
                    stack.push(next);
                    proof {
                        assert(stack@.last() == next);
                        assert(stack@.contains(next));
                        assert forall|v: usize| !stack@.contains(v) implies !s1.contains(v) by {
                            if s1.contains(v) {
                                let k = choose|k: int| 0 <= k < s1.len() && s1[k] == v;
                                assert(stack@[k] == v);
                            }
                        }
                    }
                }
            }
            j += 1;
        }
        proof {
            // The popped node's successors are now all marked, so the
            // closure invariant holds again for every marked node.
            assert forall|v: usize, w: usize|
                v < n_nodes && visited@[v as int] && !stack@.contains(v) && #[trigger] has_edge(
                    edges@,
                    v,
                    w,
                ) implies w < n_nodes && visited@[w as int] by {
                if v == cur {
                    let k = choose|k: int|
                        0 <= k < edges@.len() && (#[trigger] edges@[k]).from.node.0 == v && edges@[
                            k
                        ].to.node.0 == w;
                    assert(visited@[edges@[k].to.node.0 as int]);
                }
            }
        }
    }
    proof {
        if reaches(edges@, start, target) {
            let p = choose|p: Seq<usize>| #[trigger] is_path(edges@, p) && p.first() == start
                && p.last() == target;
            lemma_closed_set_blocks(edges@, visited@, p);
            assert(false);
        }
    }
    false
}

} // verus!
