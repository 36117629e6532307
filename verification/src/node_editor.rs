//! The edit interface: the type-checked connection policy, edge and node
//! removal, and reconfiguration. Every accepting edit triggers the
//! scheduler, so the cache converges again before the edit returns.

use crate::graph::{single_producer, Edge, Graph, InPinId, NodeId, OutPinId};
use crate::node_trait::EFNode;
use crate::reach::{acyclic, has_edge, reaches, reaches_exec};
use crate::realtime::{run_nodes, scheduler_post, ComputeCache};
use vstd::prelude::*;

verus! {

/// How two sequences are compared, as picked in a comparison node's
/// header.
#[derive(Clone, Copy, PartialEq, Eq, Structural, Debug)]
pub enum Comparison {
    BiggerThan,
    LessThan,
    Equal,
    NotEqual,
}

/// Which side of the book an order goes to.
#[derive(Clone, Copy, PartialEq, Eq, Structural, Debug)]
pub enum OrderDirection {
    Buy,
    Sell,
}

/// How an order is placed.
#[derive(Clone, Copy, PartialEq, Eq, Structural, Debug)]
pub enum OrderType {
    LimitMaker,
    Limit,
    Market,
}

/// Removes every edge that ends at the given input slot.
fn remove_edges_into(edges: &mut Vec<Edge>, to: InPinId)
    ensures
        final(edges)@ == old(edges)@.filter(|e: Edge| e.to != to),
{
    let ghost orig = edges@;
    let mut kept: Vec<Edge> = Vec::new();
    let mut k: usize = 0;
    while k < edges.len()
        invariant
            k <= orig.len(),
            edges@ == orig,
            kept@ == orig.take(k as int).filter(|e: Edge| e.to != to),
        decreases orig.len() - k,
    {
        let ghost pre = orig.take(k as int);
        let e = edges[k];
        if !(e.to.node.0 == to.node.0 && e.to.input == to.input) {
            kept.push(e);
        }
        proof {
            assert(orig.take(k + 1) =~= pre.push(orig[k as int]));
            reveal_with_fuel(Seq::filter, 2);
            assert(pre.push(orig[k as int]).drop_last() =~= pre);
            assert(kept@ == orig.take(k + 1).filter(|e: Edge| e.to != to));
        }
        k += 1;
    }
    proof {
        assert(orig.take(orig.len() as int) =~= orig);
    }
    *edges = kept;
}

/// Edges that survive a filter were edges before.
proof fn lemma_filter_has_edge_subset(s: Seq<Edge>, p: spec_fn(Edge) -> bool)
    ensures
        forall|x: usize, y: usize| #[trigger] has_edge(s.filter(p), x, y) ==> has_edge(s, x, y),
{
    broadcast use vstd::seq_lib::group_filter_ensures;

    assert forall|x: usize, y: usize| #[trigger] has_edge(s.filter(p), x, y) implies has_edge(
        s,
        x,
        y,
    ) by {
        let k = choose|k: int|
            0 <= k < s.filter(p).len() && (#[trigger] s.filter(p)[k]).from.node.0 == x && s.filter(
                p,
            )[k].to.node.0 == y;
        s.lemma_filter_contains_rev(p, s.filter(p)[k]);
        let m = choose|m: int| 0 <= m < s.len() && s[m] == s.filter(p)[k];
        assert(has_edge(s, x, y));
    }
}

/// A graph whose edges were filtered is still well-formed.
proof fn lemma_filter_wf(g0: Graph, g1: Graph, p: spec_fn(Edge) -> bool)
    requires
        g0.wf(),
        g1.nodes@ == g0.nodes@,
        g1.edges@ == g0.edges@.filter(p),
    ensures
        g1.wf(),
{
    broadcast use vstd::seq_lib::group_filter_ensures;

    assert forall|k: int| 0 <= k < g1.edges@.len() implies g1.edge_wf(
        #[trigger] g1.edges@[k],
    ) by {
        g0.edges@.lemma_filter_contains_rev(p, g1.edges@[k]);
        let m = choose|m: int| 0 <= m < g0.edges@.len() && g0.edges@[m] == g1.edges@[k];
        assert(g0.edge_wf(g0.edges@[m]));
    }
    crate::graph::lemma_filter_single_producer(g0.edges@, p);
    lemma_filter_has_edge_subset(g0.edges@, p);
    assert forall|n: usize| !reaches(g1.edges@, n, n) by {
        if reaches(g1.edges@, n, n) {
            crate::reach::lemma_reaches_subset(g1.edges@, g0.edges@, n, n);
        }
    }
}

/// The node editor's view of the graph: the policy hooks the editor
/// calls when the user draws a wire or edits a node.
pub struct EFViewer;

impl EFViewer {
    /// How many input pins to draw for the node.
    pub fn inputs(&mut self, node: &EFNode) -> (r: usize)
        ensures
            r == node.spec_input_kinds().len(),
    {
        node.get_inputs().len()
    }

    /// How many output pins to draw for the node.
    pub fn outputs(&mut self, node: &EFNode) -> (r: usize)
        ensures
            r == node.spec_output_kinds().len(),
    {
        node.get_outputs().len()
    }

    /// The type-checked connection policy. Rejects (returning false,
    /// changing nothing) a wire to the same node, a wire that would
    /// close a cycle, and a wire between slots of different kinds. On
    /// acceptance it removes any edge already feeding the destination
    /// slot (each input has one producer), inserts the new edge, and
    /// triggers a scheduler pass.
    pub fn connect(
        &mut self,
        from: OutPinId,
        to: InPinId,
        graph: &mut Graph,
        cache: &mut ComputeCache,
    ) -> (ok: bool)
        requires
            old(graph).wf(),
            old(graph).node_exists(from.node.0),
            old(graph).node_exists(to.node.0),
            from.output < old(graph).out_arity(from.node.0),
            to.input < old(graph).in_arity(to.node.0),
        ensures
            final(graph).wf(),
            final(graph).nodes@ == old(graph).nodes@,
            acyclic(final(graph).edges@),
            !ok ==> final(graph).edges@ == old(graph).edges@ && final(cache)@ == old(cache)@,
            ok <==> from.node.0 != to.node.0 && !reaches(
                old(graph).edges@,
                to.node.0,
                from.node.0,
            ) && old(graph).out_kind(from) == old(graph).in_kind(to),
            ok ==> final(graph).edges@ == old(graph).edges@.filter(|e: Edge| e.to != to).push(
                Edge { from, to },
            ),
            ok ==> forall|k: int|
                0 <= k < final(graph).edges@.len() && (#[trigger] final(graph).edges@[k]).to == to
                    ==> final(graph).edges@[k] == (Edge { from, to }),
            ok ==> scheduler_post(*final(graph), old(cache)@, final(cache)@),
    {
        let ghost g0 = *graph;
        // A wire back to the same node is refused outright.
        if from.node.0 == to.node.0 {
            return false;
        }
        // Refuse a wire that would close a cycle: search from the wire's
        // destination and make sure its source is never re-reached.
        let n = graph.node_count();
        proof {
            assert forall|k: int|
                0 <= k < graph.edges@.len() implies (#[trigger] graph.edges@[k]).from.node.0 < n
                && graph.edges@[k].to.node.0 < n by {
                assert(graph.edge_wf(graph.edges@[k]));
            }
        }
        if reaches_exec(&graph.edges, n, to.node.0, from.node.0) {
            return false;
        }
        // The two slots must carry the same data kind.
        let from_node = match graph.get_node(from.node) {
            Some(node) => node,
            None => vstd::pervasive::unreached(),
        };
        let to_node = match graph.get_node(to.node) {
            Some(node) => node,
            None => vstd::pervasive::unreached(),
        };
        let from_kind = from_node.get_outputs()[from.output].1;
        let to_kind = to_node.get_inputs()[to.input].1;
        if from_kind != to_kind {
            return false;
        }
        // Accepted: this wire replaces any previous producer of the
        // destination slot.
        remove_edges_into(&mut graph.edges, to);
        let e = Edge { from, to };
        proof {
            let g1 = *graph;
            let p = |e: Edge| e.to != to;
            lemma_filter_wf(g0, g1, p);
            lemma_filter_has_edge_subset(g0.edges@, p);
            if reaches(g1.edges@, to.node.0, from.node.0) {
                crate::reach::lemma_reaches_subset(g1.edges@, g0.edges@, to.node.0, from.node.0);
            }
            crate::reach::lemma_acyclic_push(g1.edges@, e);
        }
        graph.edges.push(e);
        proof {
            let g2 = *graph;
            let g1_edges = g0.edges@.filter(|e: Edge| e.to != to);
            broadcast use vstd::seq_lib::group_filter_ensures;

            assert forall|k: int| 0 <= k < g2.edges@.len() implies g2.edge_wf(
                #[trigger] g2.edges@[k],
            ) by {
                if k < g1_edges.len() {
                    assert(g2.edges@[k] == g1_edges[k]);
                    g0.edges@.lemma_filter_contains_rev(|e: Edge| e.to != to, g1_edges[k]);
                    let m = choose|m: int|
                        0 <= m < g0.edges@.len() && g0.edges@[m] == g1_edges[k];
                    assert(g0.edge_wf(g0.edges@[m]));
                } else {
                    assert(g2.edges@[k] == e);
                }
            }
            assert(single_producer(g2.edges@)) by {
                crate::graph::lemma_filter_single_producer(g0.edges@, |e: Edge| e.to != to);
                assert forall|i: int, j: int|
                    0 <= i < g2.edges@.len() && 0 <= j < g2.edges@.len() && (
                    #[trigger] g2.edges@[i]).to == (#[trigger] g2.edges@[j]).to implies i
                    == j by {
                    if i < g1_edges.len() && j < g1_edges.len() {
                        assert(g2.edges@[i] == g1_edges[i] && g2.edges@[j] == g1_edges[j]);
                    } else if i < g1_edges.len() {
                        assert(g1_edges[i].to != to && g2.edges@[j].to == to);
                    } else if j < g1_edges.len() {
                        assert(g1_edges[j].to != to && g2.edges@[i].to == to);
                    }
                }
            }
        }
        run_nodes(graph, cache);
        true
    }
}

/// Removes one edge, if it is present, and drops the cache entry of the
/// node that was fed by it: that node's input slot is no longer backed,
/// so it and everything downstream of it stop being ready on the next
/// readiness check. Entries of unaffected nodes stay untouched.
pub fn disconnect(
    graph: &mut Graph,
    cache: &mut ComputeCache,
    from: OutPinId,
    to: InPinId,
) -> (ok: bool)
    requires
        old(graph).wf(),
    ensures
        final(graph).wf(),
        final(graph).nodes@ == old(graph).nodes@,
        final(graph).edges@ == old(graph).edges@.filter(
            |e: Edge| !(e.from == from && e.to == to),
        ),
        ok <==> old(graph).edges@.contains(Edge { from, to }),
        ok ==> final(cache)@ == old(cache)@.remove(to.node.0),
        !ok ==> final(cache)@ == old(cache)@,
{
    let ghost g0 = *graph;
    let ghost p = |e: Edge| !(e.from == from && e.to == to);
    let mut kept: Vec<Edge> = Vec::new();
    let mut found = false;
    let mut k: usize = 0;
    while k < graph.edges.len()
        invariant
            k <= g0.edges@.len(),
            *graph == g0,
            kept@ == g0.edges@.take(k as int).filter(p),
            found <==> exists|m: int|
                0 <= m < k && (#[trigger] g0.edges@[m]) == (Edge { from, to }),
        decreases g0.edges@.len() - k,
    {
        let ghost pre = g0.edges@.take(k as int);
        let e = graph.edges[k];
        if e.from.node.0 == from.node.0 && e.from.output == from.output && e.to.node.0
            == to.node.0 && e.to.input == to.input {
            found = true;
        } else {
            kept.push(e);
        }
        proof {
            assert(g0.edges@.take(k + 1) =~= pre.push(g0.edges@[k as int]));
            reveal_with_fuel(Seq::filter, 2);
            assert(pre.push(g0.edges@[k as int]).drop_last() =~= pre);
            assert(kept@ == g0.edges@.take(k + 1).filter(p));
        }
        k += 1;
    }
    proof {
        assert(g0.edges@.take(g0.edges@.len() as int) =~= g0.edges@);
    }
    graph.edges = kept;
    proof {
        lemma_filter_wf(g0, *graph, p);
        if found {
            let m = choose|m: int|
                0 <= m < g0.edges@.len() && (#[trigger] g0.edges@[m]) == (Edge { from, to });
            assert(g0.edges@.contains(Edge { from, to }));
        } else {
            if g0.edges@.contains(Edge { from, to }) {
                let m = choose|m: int|
                    0 <= m < g0.edges@.len() && g0.edges@[m] == (Edge { from, to });
                assert(false);
            }
        }
    }
    if found {
        cache.remove(to.node.0);
    }
    found
}

/// Removes a node: its slot is vacated (identities of other nodes are
/// untouched), every edge touching it goes, and its cache entry is
/// dropped, as a structural edit must at least do.
pub fn remove_node(graph: &mut Graph, cache: &mut ComputeCache, id: NodeId) -> (ok: bool)
    requires
        old(graph).wf(),
    ensures
        final(graph).wf(),
        ok <==> old(graph).node_exists(id.0),
        !ok ==> *final(graph) == *old(graph) && final(cache)@ == old(cache)@,
        ok ==> final(graph).nodes@ == old(graph).nodes@.update(id.0 as int, None),
        ok ==> final(graph).edges@ == old(graph).edges@.filter(
            |e: Edge| e.from.node.0 != id.0 && e.to.node.0 != id.0,
        ),
        ok ==> final(cache)@ == old(cache)@.remove(id.0),
{
    let ghost g0 = *graph;
    if id.0 >= graph.nodes.len() {
        return false;
    }
    let present = match &graph.nodes[id.0] {
        Some(_) => true,
        None => false,
    };
    if !present {
        return false;
    }
    let ghost p = |e: Edge| e.from.node.0 != id.0 && e.to.node.0 != id.0;
    let mut kept: Vec<Edge> = Vec::new();
    let mut k: usize = 0;
    while k < graph.edges.len()
        invariant
            k <= g0.edges@.len(),
            *graph == g0,
            kept@ == g0.edges@.take(k as int).filter(p),
        decreases g0.edges@.len() - k,
    {
        let ghost pre = g0.edges@.take(k as int);
        let e = graph.edges[k];
        if e.from.node.0 != id.0 && e.to.node.0 != id.0 {
            kept.push(e);
        }
        proof {
            assert(g0.edges@.take(k + 1) =~= pre.push(g0.edges@[k as int]));
            reveal_with_fuel(Seq::filter, 2);
            assert(pre.push(g0.edges@[k as int]).drop_last() =~= pre);
            assert(kept@ == g0.edges@.take(k + 1).filter(p));
        }
        k += 1;
    }
    proof {
        assert(g0.edges@.take(g0.edges@.len() as int) =~= g0.edges@);
    }
    graph.edges = kept;
    graph.nodes[id.0] = None;
    cache.remove(id.0);
    proof {
        let g2 = *graph;
        broadcast use vstd::seq_lib::group_filter_ensures;

        assert forall|k: int| 0 <= k < g2.edges@.len() implies g2.edge_wf(
            #[trigger] g2.edges@[k],
        ) by {
            g0.edges@.lemma_filter_contains_rev(p, g2.edges@[k]);
            let m = choose|m: int| 0 <= m < g0.edges@.len() && g0.edges@[m] == g2.edges@[k];
            assert(g0.edge_wf(g0.edges@[m]));
            assert(p(g2.edges@[k]));
        }
        crate::graph::lemma_filter_single_producer(g0.edges@, p);
        lemma_filter_has_edge_subset(g0.edges@, p);
        assert forall|n: usize| !reaches(g2.edges@, n, n) by {
            if reaches(g2.edges@, n, n) {
                crate::reach::lemma_reaches_subset(g2.edges@, g0.edges@, n, n);
            }
        }
    }
    true
}

/// Replaces a node's configuration. The replacement must declare the
/// same input and output slots, kind for kind: configuration may alter
/// behaviour but never arity or types. On acceptance the whole cache is
/// cleared (coarse invalidation) and the scheduler re-runs.
pub fn reconfigure(graph: &mut Graph, cache: &mut ComputeCache, id: NodeId, node: EFNode) -> (ok:
    bool)
    requires
        old(graph).wf(),
    ensures
        final(graph).wf(),
        ok <==> old(graph).node_exists(id.0) && node.spec_input_kinds() == old(graph).node_at(
            id.0,
        ).spec_input_kinds() && node.spec_output_kinds() == old(graph).node_at(
            id.0,
        ).spec_output_kinds(),
        !ok ==> *final(graph) == *old(graph) && final(cache)@ == old(cache)@,
        ok ==> final(graph).nodes@ == old(graph).nodes@.update(id.0 as int, Some(node)),
        ok ==> final(graph).edges@ == old(graph).edges@,
        ok ==> scheduler_post(*final(graph), Map::empty(), final(cache)@),
{
    let ghost g0 = *graph;
    let accept: bool;
    match graph.get_node(id) {
        Some(old_node) => {
            let old_ins = old_node.get_inputs();
            let new_ins = node.get_inputs();
            let old_outs = old_node.get_outputs();
            let new_outs = node.get_outputs();
            let ins_eq = same_kinds(&old_ins, &new_ins);
            let outs_eq = same_kinds(&old_outs, &new_outs);
            proof {
                assert(slot_kinds(old_ins@) =~= g0.node_at(id.0).spec_input_kinds());
                assert(slot_kinds(new_ins@) =~= node.spec_input_kinds());
                assert(slot_kinds(old_outs@) =~= g0.node_at(id.0).spec_output_kinds());
                assert(slot_kinds(new_outs@) =~= node.spec_output_kinds());
            }
            accept = ins_eq && outs_eq;
        },
        None => {
            accept = false;
        },
    }
    if !accept {
        return false;
    }
    graph.nodes[id.0] = Some(node);
    proof {
        let g2 = *graph;
        assert forall|k: int| 0 <= k < g2.edges@.len() implies g2.edge_wf(
            #[trigger] g2.edges@[k],
        ) by {
            assert(g0.edge_wf(g0.edges@[k]));
        }
    }
    cache.clear();
    run_nodes(graph, cache);
    true
}

/// The kinds a slot list declares, in slot order.
pub open spec fn slot_kinds(
    s: Seq<(&'static str, crate::node_trait::NodeDataType)>,
) -> Seq<crate::node_trait::NodeDataType> {
    s.map_values(|p: (&'static str, crate::node_trait::NodeDataType)| p.1)
}

/// Whether two slot lists declare the same kinds, position by position.
fn same_kinds(
    a: &Vec<(&'static str, crate::node_trait::NodeDataType)>,
    b: &Vec<(&'static str, crate::node_trait::NodeDataType)>,
) -> (r: bool)
    ensures
        r <==> slot_kinds(a@) == slot_kinds(b@),
{
    if a.len() != b.len() {
        proof {
            assert(slot_kinds(a@).len() != slot_kinds(b@).len());
        }
        return false;
    }
    let mut i: usize = 0;
    while i < a.len()
        invariant
            i <= a@.len(),
            a@.len() == b@.len(),
            forall|k: int| 0 <= k < i ==> (#[trigger] a@[k]).1 == b@[k].1,
        decreases a@.len() - i,
    {
        if a[i].1 != b[i].1 {
            proof {
                assert(slot_kinds(a@)[i as int] != slot_kinds(b@)[i as int]);
            }
            return false;
        }
        i += 1;
    }
    proof {
        assert(slot_kinds(a@) =~= slot_kinds(b@));
    }
    true
}

} // verus!
