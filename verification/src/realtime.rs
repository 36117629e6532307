//! The compute cache, the readiness evaluator, and the fixed-point
//! scheduler that evaluates ready nodes and memoizes their outputs.

use crate::graph::{Edge, Graph, NodeId};
use crate::node_trait::{views_of, EFNode, EvalError, NodeDataTypeWithValue, ValueV};
use std::collections::HashMap;
use vstd::prelude::*;

verus! {

broadcast use vstd::std_specs::hash::group_hash_axioms;

/// The keyed store of each node's most recent outputs. An entry holds the
/// ordered list of values the node produced, and is absent until the node
/// first evaluates successfully.
pub struct ComputeCache {
    map: HashMap<usize, Vec<NodeDataTypeWithValue>>,
}

impl View for ComputeCache {
    type V = Map<usize, Seq<ValueV>>;

    closed spec fn view(&self) -> Map<usize, Seq<ValueV>> {
        Map::new(
            |k: usize| self.map@.contains_key(k),
            |k: usize| views_of(self.map@[k]@),
        )
    }
}

impl ComputeCache {
    /// An empty cache.
    pub fn new() -> (r: ComputeCache)
        ensures
            r@ == Map::<usize, Seq<ValueV>>::empty(),
    {
        let r = ComputeCache { map: HashMap::new() };
        proof {
            assert(r@ =~= Map::<usize, Seq<ValueV>>::empty());
        }
        r
    }

    /// Whether the node has a cache entry.
    pub fn contains(&self, id: usize) -> (r: bool)
        ensures
            r == self@.contains_key(id),
    {
        self.map.contains_key(&id)
    }

    /// The node's cached outputs, if any.
    pub fn get(&self, id: usize) -> (r: Option<&Vec<NodeDataTypeWithValue>>)
        ensures
            match r {
                Some(v) => self@.contains_key(id) && views_of(v@) == self@[id],
                None => !self@.contains_key(id),
            },
    {
        self.map.get(&id)
    }

    /// Stores the node's outputs, replacing any earlier entry.
    pub fn insert(&mut self, id: usize, vals: Vec<NodeDataTypeWithValue>)
        ensures
            final(self)@ == old(self)@.insert(id, views_of(vals@)),
    {
        let ghost vs = views_of(vals@);
        self.map.insert(id, vals);
        proof {
            assert(final(self)@ =~= old(self)@.insert(id, vs));
        }
    }

    /// Drops the node's entry, if any.
    pub fn remove(&mut self, id: usize)
        ensures
            final(self)@ == old(self)@.remove(id),
    {
        self.map.remove(&id);
        proof {
            assert(final(self)@ =~= old(self)@.remove(id));
        }
    }

    /// Drops every entry.
    pub fn clear(&mut self)
        ensures
            final(self)@ == Map::<usize, Seq<ValueV>>::empty(),
    {
        self.map.clear();
        proof {
            assert(final(self)@ =~= Map::<usize, Seq<ValueV>>::empty());
        }
    }
}

impl Default for ComputeCache {
    fn default() -> (r: ComputeCache)
        ensures
            r@ == Map::<usize, Seq<ValueV>>::empty(),
    {
        ComputeCache::new()
    }
}

/// Some edge ends at input slot `i` of node `id`.
pub open spec fn spec_has_in_edge(edges: Seq<Edge>, id: usize, i: int) -> bool {
    exists|k: int|
        0 <= k < edges.len() && (#[trigger] edges[k]).to.node.0 == id && edges[k].to.input == i
}

/// The edge ending at input slot `i` of node `id`. Under the
/// single-producer invariant there is at most one.
pub open spec fn spec_in_edge(edges: Seq<Edge>, id: usize, i: int) -> Edge {
    edges[choose|k: int|
        0 <= k < edges.len() && (#[trigger] edges[k]).to.node.0 == id && edges[k].to.input == i]
}

/// Input slot `i` of node `id` is backed: an edge comes in, its source
/// node has a cache entry, and the entry covers the referenced output.
pub open spec fn spec_slot_ready(
    g: Graph,
    c: Map<usize, Seq<ValueV>>,
    id: usize,
    i: int,
) -> bool {
    &&& spec_has_in_edge(g.edges@, id, i)
    &&& c.contains_key(spec_in_edge(g.edges@, id, i).from.node.0)
    &&& spec_in_edge(g.edges@, id, i).from.output < c[spec_in_edge(
        g.edges@,
        id,
        i,
    ).from.node.0].len()
}

/// A node is ready when every declared input slot is backed. A node with
/// no inputs is always ready. Readiness is derived, never stored: it
/// depends on the live edge set and the live cache.
pub open spec fn spec_is_ready(g: Graph, c: Map<usize, Seq<ValueV>>, id: usize) -> bool {
    &&& g.node_exists(id)
    &&& forall|i: int| 0 <= i < g.in_arity(id) ==> spec_slot_ready(g, c, id, i)
}

/// The node's input values, one per slot, each read from the producing
/// node's cache entry at the recorded output position.
pub open spec fn spec_gather(g: Graph, c: Map<usize, Seq<ValueV>>, id: usize) -> Seq<ValueV> {
    Seq::new(
        g.in_arity(id),
        |i: int|
            {
                let e = spec_in_edge(g.edges@, id, i);
                c[e.from.node.0][e.from.output as int]
            },
    )
}

/// Finds the unique edge into input slot `i` of node `id`, scanning the
/// edge list.
fn find_in_edge(edges: &Vec<Edge>, id: usize, i: usize) -> (r: Option<Edge>)
    requires
        crate::graph::single_producer(edges@),
    ensures
        match r {
            Some(e) => spec_has_in_edge(edges@, id, i as int) && e == spec_in_edge(
                edges@,
                id,
                i as int,
            ),
            None => !spec_has_in_edge(edges@, id, i as int),
        },
{
    let mut k: usize = 0;
    while k < edges.len()
        invariant
            k <= edges@.len(),
            forall|m: int|
                0 <= m < k ==> !((#[trigger] edges@[m]).to.node.0 == id && edges@[m].to.input
                    == i),
        decreases edges@.len() - k,
    {
        let e = edges[k];
        if e.to.node.0 == id && e.to.input == i {
            proof {
                assert(spec_has_in_edge(edges@, id, i as int));
                let m = choose|m: int|
                    0 <= m < edges@.len() && (#[trigger] edges@[m]).to.node.0 == id && edges@[
                        m
                    ].to.input == i;
                assert(edges@[m].to == edges@[k as int].to);
                assert(m == k as int);
            }
            return Some(e);
        }
        k += 1;
    }
    None
}

/// Whether the node could evaluate right now: every input slot connected
/// and backed by a cached upstream output. Total and side-effect-free.
pub fn is_node_realtime_executable(graph: &Graph, cache: &ComputeCache, id: NodeId) -> (r: bool)
    requires
        graph.wf(),
    ensures
        r == spec_is_ready(*graph, cache@, id.0),
{
    let node = match graph.get_node(id) {
        Some(node) => node,
        None => {
            return false;
        },
    };
    let inputs = node.get_inputs();
    let n_inputs = inputs.len();
    let mut i: usize = 0;
    while i < n_inputs
        invariant
            i <= n_inputs,
            n_inputs == graph.in_arity(id.0),
            forall|m: int| 0 <= m < i ==> spec_slot_ready(*graph, cache@, id.0, m),
        decreases n_inputs - i,
    {
        let e = match find_in_edge(&graph.edges, id.0, i) {
            Some(e) => e,
            None => {
                assert(!spec_slot_ready(*graph, cache@, id.0, i as int));
                return false;
            },
        };
        match cache.get(e.from.node.0) {
            Some(entry) => {
                if e.from.output >= entry.len() {
                    assert(!spec_slot_ready(*graph, cache@, id.0, i as int));
                    return false;
                }
            },
            None => {
                assert(!spec_slot_ready(*graph, cache@, id.0, i as int));
                return false;
            },
        }
        i += 1;
    }
    true
}

/// Removes from the list every node that already has a cache entry: the
/// "already executed" filter that makes repeated scheduler runs
/// idempotent once the graph is stable.
pub fn filter_already_executed(nodes: &mut Vec<NodeId>, cache: &ComputeCache)
    ensures
        final(nodes)@ == old(nodes)@.filter(|n: NodeId| !cache@.contains_key(n.0)),
{
    let ghost orig = nodes@;
    let mut kept: Vec<NodeId> = Vec::new();
    let mut k: usize = 0;
    while k < nodes.len()
        invariant
            k <= orig.len(),
            nodes@ == orig,
            kept@ == orig.take(k as int).filter(|n: NodeId| !cache@.contains_key(n.0)),
        decreases orig.len() - k,
    {
        let ghost pre = orig.take(k as int);
        let id = nodes[k];
        if !cache.contains(id.0) {
            kept.push(id);
        }
        proof {
            assert(orig.take(k + 1) =~= pre.push(orig[k as int]));
            reveal_with_fuel(Seq::filter, 2);
            assert(pre.push(orig[k as int]).drop_last() =~= pre);
            assert(kept@ == orig.take(k + 1).filter(|n: NodeId| !cache@.contains_key(n.0)));
        }
        k += 1;
    }
    proof {
        assert(orig.take(orig.len() as int) =~= orig);
    }
    *nodes = kept;
}

/// Every entry of the older cache is still present, unchanged, in the
/// newer one: a scheduler run only adds entries.
pub open spec fn cache_preserved(c0: Map<usize, Seq<ValueV>>, c1: Map<usize, Seq<ValueV>>) -> bool {
    forall|k: usize| #[trigger] c0.contains_key(k) ==> c1.contains_key(k) && c1[k] == c0[k]
}

/// Every entry the run added belongs to a node that is ready under the
/// final cache, and holds exactly what evaluating that node on its
/// gathered inputs yields.
pub open spec fn new_entries_justified(
    g: Graph,
    c0: Map<usize, Seq<ValueV>>,
    c1: Map<usize, Seq<ValueV>>,
) -> bool {
    forall|k: usize| #![trigger c1.contains_key(k)]
        c1.contains_key(k) && !c0.contains_key(k) ==> g.node_exists(k) && spec_is_ready(g, c1, k)
            && g.node_at(k).spec_process(spec_gather(g, c1, k)) == Ok::<Seq<ValueV>, EvalError>(
            c1[k],
        )
}

/// Any node still ready but uncached after a run is one whose evaluation
/// fails on the inputs the cache offers: it stays uncached until an edit
/// retriggers the scheduler.
pub open spec fn blocked_nodes_fail(g: Graph, c1: Map<usize, Seq<ValueV>>) -> bool {
    forall|k: usize| #![trigger spec_is_ready(g, c1, k)]
        spec_is_ready(g, c1, k) && !c1.contains_key(k) ==> g.node_at(k).spec_process(
            spec_gather(g, c1, k),
        ) is Err
}

/// What one scheduler run guarantees about the cache it leaves behind.
pub open spec fn scheduler_post(
    g: Graph,
    c0: Map<usize, Seq<ValueV>>,
    c1: Map<usize, Seq<ValueV>>,
) -> bool {
    &&& cache_preserved(c0, c1)
    &&& new_entries_justified(g, c0, c1)
    &&& blocked_nodes_fail(g, c1)
}

/// The scheduler's termination condition: no ready node is uncached.
pub open spec fn ready_fixed_point(g: Graph, c: Map<usize, Seq<ValueV>>) -> bool {
    forall|k: usize| #[trigger] spec_is_ready(g, c, k) ==> c.contains_key(k)
}

/// Every node marked failed was ready, is uncached, and fails on the
/// inputs the cache offers.
pub open spec fn failed_justified(g: Graph, c: Map<usize, Seq<ValueV>>, failed: Seq<bool>) -> bool {
    forall|k: usize| #![trigger failed[k as int]]
        k < failed.len() && failed[k as int] ==> g.node_exists(k) && spec_is_ready(g, c, k)
            && !c.contains_key(k) && g.node_at(k).spec_process(spec_gather(g, c, k)) is Err
}

/// A node ready under a cache is still ready after entries are added.
pub proof fn lemma_ready_monotone(
    g: Graph,
    c1: Map<usize, Seq<ValueV>>,
    c2: Map<usize, Seq<ValueV>>,
    id: usize,
)
    requires
        cache_preserved(c1, c2),
        spec_is_ready(g, c1, id),
    ensures
        spec_is_ready(g, c2, id),
{
    assert forall|i: int| 0 <= i < g.in_arity(id) implies spec_slot_ready(g, c2, id, i) by {
        assert(spec_slot_ready(g, c1, id, i));
        let e = spec_in_edge(g.edges@, id, i);
        assert(c1.contains_key(e.from.node.0));
    }
}

/// A ready node's gathered inputs do not change when entries are added:
/// they are read from entries that already existed.
pub proof fn lemma_gather_stable(
    g: Graph,
    c1: Map<usize, Seq<ValueV>>,
    c2: Map<usize, Seq<ValueV>>,
    id: usize,
)
    requires
        cache_preserved(c1, c2),
        spec_is_ready(g, c1, id),
    ensures
        spec_gather(g, c2, id) == spec_gather(g, c1, id),
{
    assert forall|i: int| 0 <= i < g.in_arity(id) implies spec_gather(g, c2, id)[i] == spec_gather(
        g,
        c1,
        id,
    )[i] by {
        assert(spec_slot_ready(g, c1, id, i));
        let e = spec_in_edge(g.edges@, id, i);
        assert(c1.contains_key(e.from.node.0));
    }
    assert(spec_gather(g, c2, id) =~= spec_gather(g, c1, id));
}

/// Filtering a list without duplicates leaves a list without duplicates.
proof fn lemma_filter_no_dup<A>(s: Seq<A>, p: spec_fn(A) -> bool)
    requires
        s.no_duplicates(),
    ensures
        s.filter(p).no_duplicates(),
    decreases s.len(),
{
    broadcast use vstd::seq_lib::group_filter_ensures;

    reveal(Seq::filter);
    if s.len() > 0 {
        let rest = s.drop_last();
        lemma_filter_no_dup(rest, p);
        if p(s.last()) {
            if rest.filter(p).contains(s.last()) {
                rest.lemma_filter_contains_rev(p, s.last());
                let k = choose|k: int| 0 <= k < rest.len() && rest[k] == s.last();
                assert(s[k] == s[s.len() - 1]);
                assert(false);
            }
            assert(s.filter(p) == rest.filter(p).push(s.last()));
        }
    }
}

/// Reads the node's input values, one per declared slot, from the cache
/// entries of its upstream nodes.
pub fn gather_inputs(graph: &Graph, cache: &ComputeCache, id: NodeId) -> (r: Vec<
    NodeDataTypeWithValue,
>)
    requires
        graph.wf(),
        spec_is_ready(*graph, cache@, id.0),
    ensures
        views_of(r@) == spec_gather(*graph, cache@, id.0),
{
    let node = match graph.get_node(id) {
        Some(n) => n,
        None => vstd::pervasive::unreached(),
    };
    let inputs = node.get_inputs();
    let n_inputs = inputs.len();
    let mut r: Vec<NodeDataTypeWithValue> = Vec::new();
    let mut i: usize = 0;
    while i < n_inputs
        invariant
            i <= n_inputs,
            n_inputs == graph.in_arity(id.0),
            r@.len() == i,
            forall|k: int|
                0 <= k < i ==> (#[trigger] r@[k])@ == spec_gather(*graph, cache@, id.0)[k],
        decreases n_inputs - i,
    {
        proof {
            assert(spec_slot_ready(*graph, cache@, id.0, i as int));
        }
        let e = match find_in_edge(&graph.edges, id.0, i) {
            Some(e) => e,
            None => vstd::pervasive::unreached(),
        };
        let entry = match cache.get(e.from.node.0) {
            Some(v) => v,
            None => vstd::pervasive::unreached(),
        };
        let val = entry[e.from.output].clone();
        r.push(val);
        i += 1;
    }
    proof {
        assert(views_of(r@) =~= spec_gather(*graph, cache@, id.0));
    }
    r
}

/// The node's cached outputs, as a copy the caller may keep: a read-only
/// snapshot of the compute cache. Absent means "not yet computed", a
/// normal transient state, not an error.
pub fn get_outputs(cache: &ComputeCache, id: NodeId) -> (r: Option<Vec<NodeDataTypeWithValue>>)
    ensures
        match r {
            Some(v) => cache@.contains_key(id.0) && views_of(v@) == cache@[id.0],
            None => !cache@.contains_key(id.0),
        },
{
    match cache.get(id.0) {
        Some(entry) => {
            let v = entry.clone();
            proof {
                assert forall|k: int| 0 <= k < v@.len() implies (#[trigger] v@[k])@ == entry@[k]@
                by {}
                assert(views_of(v@) =~= views_of(entry@));
            }
            Some(v)
        },
        None => None,
    }
}

/// The nodes that are ready right now, in ascending identity order.
fn get_executable_nodes(graph: &Graph, cache: &ComputeCache) -> (r: Vec<NodeId>)
    requires
        graph.wf(),
    ensures
        forall|k: int|
            0 <= k < r@.len() ==> spec_is_ready(*graph, cache@, (#[trigger] r@[k]).0),
        forall|id: usize|
            #![trigger spec_is_ready(*graph, cache@, id)]
            spec_is_ready(*graph, cache@, id) ==> r@.contains(NodeId(id)),
        forall|i: int, j: int| 0 <= i < j < r@.len() ==> (#[trigger] r@[i]).0 < (#[trigger] r@[j]).0,
{
    let mut r: Vec<NodeId> = Vec::new();
    let n = graph.node_count();
    let mut id: usize = 0;
    while id < n
        invariant
            id <= n,
            n == graph.nodes@.len(),
            forall|k: int|
                0 <= k < r@.len() ==> spec_is_ready(*graph, cache@, (#[trigger] r@[k]).0),
            forall|m: usize|
                #![trigger spec_is_ready(*graph, cache@, m)]
                m < id && spec_is_ready(*graph, cache@, m) ==> r@.contains(NodeId(m)),
            forall|k: int| 0 <= k < r@.len() ==> (#[trigger] r@[k]).0 < id,
            forall|i: int, j: int|
                0 <= i < j < r@.len() ==> (#[trigger] r@[i]).0 < (#[trigger] r@[j]).0,
        decreases n - id,
    {
        if is_node_realtime_executable(graph, cache, NodeId(id)) {
            let ghost prev = r@;
            r.push(NodeId(id));
            proof {
                assert(r@.last() == NodeId(id));
                assert forall|m: usize|
                    m < id + 1 && spec_is_ready(*graph, cache@, m) implies r@.contains(
                    NodeId(m),
                ) by {
                    if m < id {
                        let k = choose|k: int| 0 <= k < prev.len() && prev[k] == NodeId(m);
                        assert(r@[k] == NodeId(m));
                    } else {
                        assert(r@[r@.len() - 1] == NodeId(m));
                    }
                }
            }
        }
        id += 1;
    }
    proof {
        assert forall|m: usize| spec_is_ready(*graph, cache@, m) implies r@.contains(
            NodeId(m),
        ) by {
            assert(m < n);
        }
    }
    r
}

/// Removes from the list every node already marked failed in this run.
fn filter_not_failed(nodes: &mut Vec<NodeId>, failed: &Vec<bool>)
    requires
        forall|k: int| 0 <= k < old(nodes)@.len() ==> (#[trigger] old(nodes)@[k]).0 < failed@.len(),
    ensures
        final(nodes)@ == old(nodes)@.filter(|n: NodeId| !failed@[n.0 as int]),
{
    let ghost orig = nodes@;
    let mut kept: Vec<NodeId> = Vec::new();
    let mut k: usize = 0;
    while k < nodes.len()
        invariant
            k <= orig.len(),
            nodes@ == orig,
            kept@ == orig.take(k as int).filter(|n: NodeId| !failed@[n.0 as int]),
        decreases orig.len() - k,
    {
        let ghost pre = orig.take(k as int);
        let id = nodes[k];
        if !failed[id.0] {
            kept.push(id);
        }
        proof {
            assert(orig.take(k + 1) =~= pre.push(orig[k as int]));
            reveal_with_fuel(Seq::filter, 2);
            assert(pre.push(orig[k as int]).drop_last() =~= pre);
            assert(kept@ == orig.take(k + 1).filter(|n: NodeId| !failed@[n.0 as int]));
        }
        k += 1;
    }
    proof {
        assert(orig.take(orig.len() as int) =~= orig);
    }
    *nodes = kept;
}

/// The nodes a pass must evaluate: ready, not yet cached, and not marked
/// failed in this run. Sound, complete, and free of duplicates.
fn executable_uncached_unfailed(graph: &Graph, cache: &ComputeCache, failed: &Vec<bool>) -> (r: Vec<
    NodeId,
>)
    requires
        graph.wf(),
        failed@.len() == graph.nodes@.len(),
    ensures
        forall|k: int|
            0 <= k < r@.len() ==> {
                let id = (#[trigger] r@[k]).0;
                &&& graph.node_exists(id)
                &&& spec_is_ready(*graph, cache@, id)
                &&& !cache@.contains_key(id)
                &&& id < failed@.len() && !failed@[id as int]
            },
        forall|id: usize|
            #![trigger spec_is_ready(*graph, cache@, id)]
            spec_is_ready(*graph, cache@, id) && !cache@.contains_key(id) && !failed@[id as int]
                ==> r@.contains(NodeId(id)),
        r@.no_duplicates(),
{
    broadcast use vstd::seq_lib::group_filter_ensures;

    let mut r = get_executable_nodes(graph, cache);
    let ghost ready_list = r@;
    proof {
        assert(ready_list.no_duplicates());
    }
    filter_already_executed(&mut r, cache);
    let ghost uncached_list = r@;
    let ghost p1 = |n: NodeId| !cache@.contains_key(n.0);
    proof {
        lemma_filter_no_dup(ready_list, p1);
        assert forall|k: int| 0 <= k < r@.len() implies (#[trigger] r@[k]).0
            < failed@.len() by {
            ready_list.lemma_filter_contains_rev(p1, r@[k]);
            let m = choose|m: int| 0 <= m < ready_list.len() && ready_list[m] == r@[k];
            assert(spec_is_ready(*graph, cache@, ready_list[m].0));
        }
    }
    filter_not_failed(&mut r, failed);
    let ghost p2 = |n: NodeId| !failed@[n.0 as int];
    proof {
        lemma_filter_no_dup(uncached_list, p2);
        assert forall|k: int| 0 <= k < r@.len() implies {
            let id = (#[trigger] r@[k]).0;
            &&& graph.node_exists(id)
            &&& spec_is_ready(*graph, cache@, id)
            &&& !cache@.contains_key(id)
            &&& id < failed@.len() && !failed@[id as int]
        } by {
            uncached_list.lemma_filter_contains_rev(p2, r@[k]);
            let m = choose|m: int| 0 <= m < uncached_list.len() && uncached_list[m] == r@[k];
            ready_list.lemma_filter_contains_rev(p1, uncached_list[m]);
            let m2 = choose|m2: int| 0 <= m2 < ready_list.len() && ready_list[m2] == r@[k];
            assert(spec_is_ready(*graph, cache@, ready_list[m2].0));
        }
        assert forall|id: usize|
            spec_is_ready(*graph, cache@, id) && !cache@.contains_key(id) && !failed@[id as int]
            implies r@.contains(NodeId(id)) by {
            assert(ready_list.contains(NodeId(id)));
            let m = choose|m: int| 0 <= m < ready_list.len() && ready_list[m] == NodeId(id);
            ready_list.lemma_filter_contains(p1, m);
            assert(uncached_list.contains(NodeId(id)));
            let m2 = choose|m2: int|
                0 <= m2 < uncached_list.len() && uncached_list[m2] == NodeId(id);
            uncached_list.lemma_filter_contains(p2, m2);
        }
    }
    r
}

/// The fixed-point scheduler. Repeatedly computes the ready-but-uncached
/// node set, evaluates each of its nodes on inputs gathered from the
/// cache, writes successful results into the cache, and stops when no
/// newly ready node remains. A node whose evaluation fails is left
/// uncached and not retried within this run. Returns how many
/// evaluations the run performed: zero exactly when the graph was
/// already at its fixed point.
pub fn run_nodes(graph: &Graph, cache: &mut ComputeCache) -> (evals: usize)
    requires
        graph.wf(),
    ensures
        scheduler_post(*graph, old(cache)@, final(cache)@),
        evals == 0 <==> ready_fixed_point(*graph, old(cache)@),
        evals == 0 ==> final(cache)@ == old(cache)@,
{
    let ghost c_entry = cache@;
    let ghost g = *graph;
    let n = graph.node_count();
    let mut failed: Vec<bool> = vec![false; n];
    let mut settled: Vec<bool> = Vec::new();
    let mut i: usize = 0;
    while i < n
        invariant
            i <= n,
            settled@.len() == i,
            forall|k: usize|
                k < i ==> #[trigger] settled@[k as int] == cache@.contains_key(k),
        decreases n - i,
    {
        settled.push(cache.contains(i));
        i += 1;
    }
    let ghost settled0 = settled@;
    let mut evals: usize = 0;
    let mut todo = executable_uncached_unfailed(graph, cache, &failed);
    while todo.len() > 0
        invariant
            graph.wf(),
            g == *graph,
            n == graph.nodes@.len(),
            failed@.len() == n,
            settled@.len() == n,
            forall|k: usize|
                k < n ==> #[trigger] settled@[k as int] == (cache@.contains_key(k) || failed@[
                    k as int
                ]),
            cache_preserved(c_entry, cache@),
            new_entries_justified(g, c_entry, cache@),
            failed_justified(g, cache@, failed@),
            evals + crate::reach::count_false(settled@) == crate::reach::count_false(settled0),
            evals == 0 ==> cache@ == c_entry && (forall|k: int| 0 <= k < n ==> !failed@[k]),
            evals > 0 ==> !ready_fixed_point(g, c_entry),
            forall|k: int|
                0 <= k < todo@.len() ==> {
                    let id = (#[trigger] todo@[k]).0;
                    &&& graph.node_exists(id)
                    &&& spec_is_ready(g, cache@, id)
                    &&& !cache@.contains_key(id)
                    &&& id < n && !failed@[id as int]
                },
            forall|id: usize|
                #![trigger spec_is_ready(g, cache@, id)]
                spec_is_ready(g, cache@, id) && !cache@.contains_key(id) && !failed@[id as int]
                    ==> todo@.contains(NodeId(id)),
            todo@.no_duplicates(),
        decreases crate::reach::count_false(settled@),
    {
        let ghost pass_false = crate::reach::count_false(settled@);
        let mut idx: usize = 0;
        while idx < todo.len()
            invariant
                idx <= todo@.len(),
                graph.wf(),
                g == *graph,
                n == graph.nodes@.len(),
                failed@.len() == n,
                settled@.len() == n,
                forall|k: usize|
                    k < n ==> #[trigger] settled@[k as int] == (cache@.contains_key(k)
                        || failed@[k as int]),
                cache_preserved(c_entry, cache@),
                new_entries_justified(g, c_entry, cache@),
                failed_justified(g, cache@, failed@),
                evals + crate::reach::count_false(settled@) == crate::reach::count_false(
                    settled0,
                ),
                evals == 0 ==> cache@ == c_entry && (forall|k: int| 0 <= k < n ==> !failed@[k]),
                evals > 0 ==> !ready_fixed_point(g, c_entry),
                forall|k: int|
                    idx <= k < todo@.len() ==> {
                        let id = (#[trigger] todo@[k]).0;
                        &&& graph.node_exists(id)
                        &&& spec_is_ready(g, cache@, id)
                        &&& !cache@.contains_key(id)
                        &&& id < n && !failed@[id as int]
                    },
                todo@.no_duplicates(),
                crate::reach::count_false(settled@) <= pass_false,
                idx > 0 ==> crate::reach::count_false(settled@) < pass_false,
            decreases todo@.len() - idx,
        {
            let id = todo[idx];
            let ghost c_before = cache@;
            let ghost failed_before = failed@;
            let ghost settled_before = settled@;
            let inputs = gather_inputs(graph, cache, id);
            let node = match graph.get_node(id) {
                Some(node) => node,
                None => vstd::pervasive::unreached(),
            };
            let res = node.process_data(&inputs);
            proof {
                crate::reach::lemma_count_false_le_len(settled0);
                crate::reach::lemma_count_false_pos(settled@, id.0 as int);
                crate::reach::lemma_count_false_update(settled@, id.0 as int);
                if evals == 0 {
                    // The node about to be evaluated witnesses that the
                    // graph was not at its fixed point on entry.
                    assert(spec_is_ready(g, c_entry, id.0) && !c_entry.contains_key(id.0));
                    if ready_fixed_point(g, c_entry) {
                        assert(c_entry.contains_key(id.0));
                    }
                }
            }
            evals = evals + 1;
            match res {
                Ok(outs) => {
                    let ghost out_views = views_of(outs@);
                    cache.insert(id.0, outs);
                    settled[id.0] = true;
                    proof {
                        let c_new = cache@;
                        assert(c_new == c_before.insert(id.0, out_views));
                        assert(cache_preserved(c_before, c_new));
                        assert(cache_preserved(c_entry, c_new));
                        // The entry written for this node is justified by
                        // the evaluation that just happened; its inputs
                        // read the same entries before and after.
                        lemma_ready_monotone(g, c_before, c_new, id.0);
                        lemma_gather_stable(g, c_before, c_new, id.0);
                        assert(g.node_at(id.0).spec_process(spec_gather(g, c_new, id.0))
                            == Ok::<Seq<ValueV>, EvalError>(c_new[id.0]));
                        assert forall|k: usize| #![trigger c_new.contains_key(k)]
                            c_new.contains_key(k) && !c_entry.contains_key(k) implies
                            g.node_exists(k) && spec_is_ready(g, c_new, k) && g.node_at(
                            k,
                        ).spec_process(spec_gather(g, c_new, k)) == Ok::<Seq<ValueV>, EvalError>(
                            c_new[k],
                        ) by {
                            if k != id.0 {
                                assert(c_before.contains_key(k));
                                lemma_ready_monotone(g, c_before, c_new, k);
                                lemma_gather_stable(g, c_before, c_new, k);
                            }
                        }
                        assert forall|k: usize| #![trigger failed@[k as int]]
                            k < failed@.len() && failed@[k as int] implies g.node_exists(k)
                            && spec_is_ready(g, c_new, k) && !c_new.contains_key(k) && g.node_at(
                            k,
                        ).spec_process(spec_gather(g, c_new, k)) is Err by {
                            assert(k != id.0);
                            lemma_ready_monotone(g, c_before, c_new, k);
                            lemma_gather_stable(g, c_before, c_new, k);
                        }
                        assert forall|k: int|
                            idx + 1 <= k < todo@.len() implies {
                                let m = (#[trigger] todo@[k]).0;
                                &&& graph.node_exists(m)
                                &&& spec_is_ready(g, c_new, m)
                                &&& !c_new.contains_key(m)
                                &&& m < n && !failed@[m as int]
                            } by {
                            let m = todo@[k].0;
                            assert(todo@[k] != todo@[idx as int]);
                            assert(m != id.0);
                            lemma_ready_monotone(g, c_before, c_new, m);
                        }
                    }
                },
                Err(_) => {
                    failed[id.0] = true;
                    settled[id.0] = true;
                    proof {
                        // The node stays uncached; record why: it was
                        // ready and its evaluation failed on the inputs
                        // the cache offers.
                        assert(g.node_at(id.0).spec_process(spec_gather(g, cache@, id.0)) is Err);
                        assert forall|k: usize| #![trigger failed@[k as int]]
                            k < failed@.len() && failed@[k as int] implies g.node_exists(k)
                            && spec_is_ready(g, cache@, k) && !cache@.contains_key(k)
                            && g.node_at(k).spec_process(spec_gather(g, cache@, k)) is Err by {
                            if k != id.0 {
                                assert(failed_before[k as int]);
                            }
                        }
                        assert forall|k: int|
                            idx + 1 <= k < todo@.len() implies {
                                let m = (#[trigger] todo@[k]).0;
                                &&& graph.node_exists(m)
                                &&& spec_is_ready(g, cache@, m)
                                &&& !cache@.contains_key(m)
                                &&& m < n && !failed@[m as int]
                            } by {
                            assert(todo@[k] != todo@[idx as int]);
                        }
                    }
                },
            }
            idx += 1;
        }
        todo = executable_uncached_unfailed(graph, cache, &failed);
    }
    proof {
        assert forall|k: usize|
            spec_is_ready(g, cache@, k) && !cache@.contains_key(k) implies g.node_at(
            k,
        ).spec_process(spec_gather(g, cache@, k)) is Err by {
            if !failed@[k as int] {
                assert(todo@.contains(NodeId(k)));
            }
        }
        if evals == 0 {
            assert forall|k: usize| spec_is_ready(g, c_entry, k) implies c_entry.contains_key(
                k,
            ) by {
                if !c_entry.contains_key(k) {
                    assert(todo@.contains(NodeId(k)));
                }
            }
        }
    }
    evals
}

/// The invalidation controller for a node configuration change: the
/// whole cache is cleared (coarse invalidation) and the scheduler
/// re-runs, so everything recomputes from the sources down. Which node
/// changed does not matter under the coarse policy.
pub fn clear_cache_from_node_onward(graph: &Graph, cache: &mut ComputeCache, _id: &NodeId)
    requires
        graph.wf(),
    ensures
        scheduler_post(*graph, Map::empty(), final(cache)@),
{
    cache.clear();
    run_nodes(graph, cache);
}

/// Every cache entry of a present node covers exactly that node's
/// declared output slots.
pub open spec fn cache_len_coherent(g: Graph, c: Map<usize, Seq<ValueV>>) -> bool {
    forall|k: usize| #![trigger c.contains_key(k)]
        c.contains_key(k) && g.node_exists(k) ==> c[k].len() == g.out_arity(k)
}

/// A scheduler run keeps the cache coherent: every entry it adds holds
/// one value per declared output slot.
pub proof fn lemma_scheduler_preserves_coherence(
    g: Graph,
    c0: Map<usize, Seq<ValueV>>,
    c1: Map<usize, Seq<ValueV>>,
)
    requires
        scheduler_post(g, c0, c1),
        cache_len_coherent(g, c0),
    ensures
        cache_len_coherent(g, c1),
{
    assert forall|k: usize| #![trigger c1.contains_key(k)]
        c1.contains_key(k) && g.node_exists(k) implies c1[k].len() == g.out_arity(k) by {
        if c0.contains_key(k) {
        } else {
            crate::node_trait::lemma_process_output_len(g.node_at(k), spec_gather(g, c1, k));
        }
    }
}

/// Nodes of one scheduler pass are independent: a ready node reads no
/// input from any uncached node, so in particular none from another
/// ready-but-uncached node of the same pass. This is what lets a pass
/// evaluate its whole set in any order — or in parallel — without one
/// evaluation observing another's result.
pub proof fn lemma_pass_independent(g: Graph, c: Map<usize, Seq<ValueV>>, a: usize, b: usize)
    requires
        spec_is_ready(g, c, a),
        !c.contains_key(b),
    ensures
        forall|i: int|
            0 <= i < g.in_arity(a) ==> spec_in_edge(g.edges@, a, i).from.node.0 != b,
{
    assert forall|i: int|
        0 <= i < g.in_arity(a) implies spec_in_edge(g.edges@, a, i).from.node.0 != b by {
        assert(spec_slot_ready(g, c, a, i));
    }
}

/// After a run in which no ready node's evaluation failed, the cache is
/// at the fixed point: the failing evaluations a run leaves behind are
/// the only nodes a run can leave ready but uncached.
pub proof fn lemma_all_succeed_fixed_point(g: Graph, c: Map<usize, Seq<ValueV>>)
    requires
        blocked_nodes_fail(g, c),
        forall|k: usize|
            #![trigger spec_is_ready(g, c, k)]
            spec_is_ready(g, c, k) && !c.contains_key(k) ==> !(g.node_at(k).spec_process(
                spec_gather(g, c, k),
            ) is Err),
    ensures
        ready_fixed_point(g, c),
{
}

/// A node is supported at depth `k` when all its input slots are
/// connected and, unless it is a source, every producer feeding them is
/// supported at a smaller depth. On an acyclic graph every node whose
/// whole upstream cone is fully connected is supported at some depth.
pub open spec fn spec_supported(g: Graph, id: usize, k: nat) -> bool
    decreases k,
{
    &&& g.node_exists(id)
    &&& forall|i: int| 0 <= i < g.in_arity(id) ==> spec_has_in_edge(g.edges@, id, i)
    &&& if k == 0 {
        g.in_arity(id) == 0
    } else {
        forall|i: int|
            0 <= i < g.in_arity(id) ==> spec_supported(
                g,
                spec_in_edge(g.edges@, id, i).from.node.0,
                (k - 1) as nat,
            )
    }
}

/// Fixed-point convergence: once no ready node is left uncached, every
/// supported node has a populated cache entry — sources first, then
/// layer by layer everything their consumers could reach.
pub proof fn lemma_fixed_point_convergence(
    g: Graph,
    c: Map<usize, Seq<ValueV>>,
    id: usize,
    k: nat,
)
    requires
        g.wf(),
        cache_len_coherent(g, c),
        ready_fixed_point(g, c),
        spec_supported(g, id, k),
    ensures
        c.contains_key(id),
    decreases k,
{
    if k == 0 {
        assert(spec_is_ready(g, c, id));
    } else {
        assert forall|i: int| 0 <= i < g.in_arity(id) implies spec_slot_ready(g, c, id, i) by {
            assert(spec_has_in_edge(g.edges@, id, i));
            let e = spec_in_edge(g.edges@, id, i);
            let m = choose|m: int|
                0 <= m < g.edges@.len() && (#[trigger] g.edges@[m]).to.node.0 == id && g.edges@[
                    m
                ].to.input == i;
            assert(g.edges@[m] == e);
            assert(g.edge_wf(g.edges@[m]));
            lemma_fixed_point_convergence(g, c, e.from.node.0, (k - 1) as nat);
        }
        assert(spec_is_ready(g, c, id));
    }
}

/// The steps of a signal, up to step `n`, that point in the given
/// direction, in step order.
pub open spec fn spec_dir_steps(s: Seq<i8>, dir: i8, n: int) -> Seq<usize>
    decreases n,
{
    if n <= 0 {
        Seq::empty()
    } else {
        spec_dir_steps(s, dir, n - 1) + if s[n - 1] == dir {
            seq![(n - 1) as usize]
        } else {
            Seq::empty()
        }
    }
}

/// What one position-executing node contributes to the display: the
/// sell steps and the buy steps of the signal cached for the output
/// feeding it, if its input is connected, backed, and indeed a signal.
pub open spec fn spec_marker_contrib(g: Graph, c: Map<usize, Seq<ValueV>>, id: usize) -> Option<
    (Seq<usize>, Seq<usize>),
> {
    if g.node_exists(id) && g.node_at(id) is ExecutePosition && spec_slot_ready(g, c, id, 0) {
        let e = spec_in_edge(g.edges@, id, 0);
        match c[e.from.node.0][e.from.output as int] {
            ValueV::Signal(s) => Some(
                (
                    spec_dir_steps(s, -1i8, s.len() as int),
                    spec_dir_steps(s, 1i8, s.len() as int),
                ),
            ),
            _ => None,
        }
    } else {
        None
    }
}

/// The marker contributions of the first `n` node identities, in
/// identity order.
pub open spec fn spec_signal_markers(g: Graph, c: Map<usize, Seq<ValueV>>, n: int) -> Seq<
    (Seq<usize>, Seq<usize>),
>
    decreases n,
{
    if n <= 0 {
        Seq::empty()
    } else {
        spec_signal_markers(g, c, n - 1) + match spec_marker_contrib(g, c, (n - 1) as usize) {
            Some(sb) => seq![sb],
            None => Seq::empty(),
        }
    }
}

/// The spec-level image of a list of marker contributions.
pub open spec fn marker_views(s: Seq<(Vec<usize>, Vec<usize>)>) -> Seq<(Seq<usize>, Seq<usize>)> {
    s.map_values(|p: (Vec<usize>, Vec<usize>)| (p.0@, p.1@))
}

/// For each position-executing node whose input signal is cached, the
/// steps at which it sells and the steps at which it buys, in node
/// identity order: what the plot layer turns into sell and buy markers.
pub fn signals_as_markers(graph: &Graph, cache: &ComputeCache) -> (r: Vec<
    (Vec<usize>, Vec<usize>),
>)
    requires
        graph.wf(),
    ensures
        marker_views(r@) == spec_signal_markers(*graph, cache@, graph.nodes@.len() as int),
{
    let n = graph.node_count();
    let mut r: Vec<(Vec<usize>, Vec<usize>)> = Vec::new();
    let mut id: usize = 0;
    while id < n
        invariant
            id <= n,
            n == graph.nodes@.len(),
            marker_views(r@) == spec_signal_markers(*graph, cache@, id as int),
        decreases n - id,
    {
        let ghost prev = r@;
        match &graph.nodes[id] {
            Some(EFNode::ExecutePosition(_)) => {
                match find_in_edge(&graph.edges, id, 0) {
                    Some(e) => {
                        match cache.get(e.from.node.0) {
                            Some(entry) => {
                                if e.from.output < entry.len() {
                                    match &entry[e.from.output] {
                                        NodeDataTypeWithValue::Signal(sig) => {
                                            let mut sells: Vec<usize> = Vec::new();
                                            let mut buys: Vec<usize> = Vec::new();
                                            let mut i: usize = 0;
                                            while i < sig.len()
                                                invariant
                                                    i <= sig@.len(),
                                                    sells@ == spec_dir_steps(
                                                        sig@,
                                                        -1i8,
                                                        i as int,
                                                    ),
                                                    buys@ == spec_dir_steps(sig@, 1i8, i as int),
                                                decreases sig@.len() - i,
                                            {
                                                if sig[i] == -1 {
                                                    sells.push(i);
                                                } else if sig[i] == 1 {
                                                    buys.push(i);
                                                }
                                                proof {
                                                    assert(sells@ =~= spec_dir_steps(
                                                        sig@,
                                                        -1i8,
                                                        i + 1,
                                                    ));
                                                    assert(buys@ =~= spec_dir_steps(
                                                        sig@,
                                                        1i8,
                                                        i + 1,
                                                    ));
                                                }
                                                i += 1;
                                            }
                                            r.push((sells, buys));
                                        },
                                        _ => {},
                                    }
                                } else {
                                    proof {
                                        assert(!spec_slot_ready(*graph, cache@, id, 0));
                                    }
                                }
                            },
                            None => {
                                proof {
                                    assert(!spec_slot_ready(*graph, cache@, id, 0));
                                }
                            },
                        }
                    },
                    None => {
                        proof {
                            assert(!spec_slot_ready(*graph, cache@, id, 0));
                        }
                    },
                }
            },
            _ => {},
        }
        proof {
            match spec_marker_contrib(*graph, cache@, id) {
                Some(sb) => {
                    assert(marker_views(r@) =~= spec_signal_markers(*graph, cache@, id as int)
                        + seq![sb]);
                },
                None => {
                    assert(r@ == prev);
                },
            }
            assert(marker_views(r@) =~= spec_signal_markers(*graph, cache@, id + 1));
        }
        id += 1;
    }
    r
}

/// What one preview node contributes to the display: its configured
/// colour and the value cached for the output feeding it, if its input
/// is connected and backed.
pub open spec fn spec_preview_contrib(g: Graph, c: Map<usize, Seq<ValueV>>, id: usize) -> Option<
    (Seq<u8>, ValueV),
> {
    if g.node_exists(id) && g.node_at(id) is Preview && spec_slot_ready(g, c, id, 0) {
        let e = spec_in_edge(g.edges@, id, 0);
        Some(
            (
                g.node_at(id)->Preview_0.output_color@,
                c[e.from.node.0][e.from.output as int],
            ),
        )
    } else {
        None
    }
}

/// The contributions of the first `n` node identities, in identity
/// order.
pub open spec fn spec_preview_outputs(g: Graph, c: Map<usize, Seq<ValueV>>, n: int) -> Seq<
    (Seq<u8>, ValueV),
>
    decreases n,
{
    if n <= 0 {
        Seq::empty()
    } else {
        spec_preview_outputs(g, c, n - 1) + match spec_preview_contrib(g, c, (n - 1) as usize) {
            Some(pv) => seq![pv],
            None => Seq::empty(),
        }
    }
}

/// The spec-level image of a list of preview contributions.
pub open spec fn preview_views(s: Seq<([u8; 3], NodeDataTypeWithValue)>) -> Seq<
    (Seq<u8>, ValueV),
> {
    s.map_values(|p: ([u8; 3], NodeDataTypeWithValue)| (p.0@, p.1@))
}

/// For each preview node whose input is connected and backed, the
/// preview's display colour and the cached value it watches, in node
/// identity order: what the plot layer draws.
pub fn get_preview_outputs(graph: &Graph, cache: &ComputeCache) -> (r: Vec<
    ([u8; 3], NodeDataTypeWithValue),
>)
    requires
        graph.wf(),
    ensures
        preview_views(r@) == spec_preview_outputs(*graph, cache@, graph.nodes@.len() as int),
{
    let n = graph.node_count();
    let mut r: Vec<([u8; 3], NodeDataTypeWithValue)> = Vec::new();
    let mut id: usize = 0;
    while id < n
        invariant
            id <= n,
            n == graph.nodes@.len(),
            preview_views(r@) == spec_preview_outputs(*graph, cache@, id as int),
        decreases n - id,
    {
        let ghost prev = r@;
        match &graph.nodes[id] {
            Some(EFNode::Preview(p)) => {
                match find_in_edge(&graph.edges, id, 0) {
                    Some(e) => {
                        match cache.get(e.from.node.0) {
                            Some(entry) => {
                                if e.from.output < entry.len() {
                                    let val = entry[e.from.output].clone();
                                    r.push((p.output_color, val));
                                } else {
                                    proof {
                                        assert(!spec_slot_ready(*graph, cache@, id, 0));
                                    }
                                }
                            },
                            None => {
                                proof {
                                    assert(!spec_slot_ready(*graph, cache@, id, 0));
                                }
                            },
                        }
                    },
                    None => {
                        proof {
                            assert(!spec_slot_ready(*graph, cache@, id, 0));
                        }
                    },
                }
            },
            _ => {},
        }
        proof {
            match spec_preview_contrib(*graph, cache@, id) {
                Some(pv) => {
                    assert(preview_views(r@) =~= spec_preview_outputs(*graph, cache@, id as int)
                        + seq![pv]);
                },
                None => {
                    assert(r@ == prev);
                },
            }
            assert(preview_views(r@) =~= spec_preview_outputs(*graph, cache@, id + 1));
        }
        id += 1;
    }
    r
}

} // verus!
