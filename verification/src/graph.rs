//! The graph store: nodes with stable identities, and the directed,
//! type-checked, acyclic edge set.

use crate::node_trait::{EFNode, NodeDataType};
use crate::reach::{acyclic, has_edge};
use vstd::prelude::*;

verus! {

/// A node's identity: stable for the node's lifetime within a graph.
#[derive(Clone, Copy, PartialEq, Eq, Structural, Debug, Hash)]
pub struct NodeId(pub usize);

/// One output slot of one node.
#[derive(Clone, Copy, PartialEq, Eq, Structural, Debug, Hash)]
pub struct OutPinId {
    pub node: NodeId,
    /// The slot's position among the node's outputs.
    pub output: usize,
}

/// One input slot of one node.
#[derive(Clone, Copy, PartialEq, Eq, Structural, Debug, Hash)]
pub struct InPinId {
    pub node: NodeId,
    /// The slot's position among the node's inputs.
    pub input: usize,
}

/// A directed connection from an output slot to an input slot.
#[derive(Clone, Copy, PartialEq, Eq, Structural, Debug)]
pub struct Edge {
    pub from: OutPinId,
    pub to: InPinId,
}

/// Each input slot has at most one incoming edge.
pub open spec fn single_producer(edges: Seq<Edge>) -> bool {
    forall|i: int, j: int|
        0 <= i < edges.len() && 0 <= j < edges.len() && (#[trigger] edges[i]).to == (
        #[trigger] edges[j]).to ==> i == j
}

/// Dropping edges cannot give an input slot a second producer.
pub proof fn lemma_filter_single_producer(s: Seq<Edge>, p: spec_fn(Edge) -> bool)
    requires
        single_producer(s),
    ensures
        single_producer(s.filter(p)),
    decreases s.len(),
{
    broadcast use vstd::seq_lib::group_filter_ensures;

    reveal(Seq::filter);
    if s.len() > 0 {
        let rest = s.drop_last();
        assert(single_producer(rest)) by {
            assert forall|i: int, j: int|
                0 <= i < rest.len() && 0 <= j < rest.len() && (#[trigger] rest[i]).to == (
                #[trigger] rest[j]).to implies i == j by {
                assert(s[i] == rest[i] && s[j] == rest[j]);
            }
        }
        lemma_filter_single_producer(rest, p);
        let rf = rest.filter(p);
        if p(s.last()) {
            assert forall|i: int, j: int|
                0 <= i < s.filter(p).len() && 0 <= j < s.filter(p).len() && (#[trigger] s.filter(
                    p,
                )[i]).to == (#[trigger] s.filter(p)[j]).to implies i == j by {
                if i != j {
                    let lo = if i < j {
                        i
                    } else {
                        j
                    };
                    let hi = if i < j {
                        j
                    } else {
                        i
                    };
                    if hi == rf.len() {
                        // The element at `lo` sits in the filtered prefix,
                        // so it came from the prefix and shares its input
                        // slot with the last edge: two producers in `s`.
                        assert(s.filter(p)[hi] == s.last());
                        assert(rf.contains(rf[lo]));
                        rest.lemma_filter_contains_rev(p, rf[lo]);
                        let m = choose|m: int| 0 <= m < rest.len() && rest[m] == rf[lo];
                        assert(s[m] == rest[m]);
                        assert(s[m].to == s[s.len() - 1].to);
                        assert(false);
                    }
                }
            }
        }
    }
}

/// The graph store. A node keeps its identity (its slot in `nodes`) for
/// its whole lifetime; a removed node leaves a `None` behind so other
/// identities stay stable.
pub struct Graph {
    pub nodes: Vec<Option<EFNode>>,
    pub edges: Vec<Edge>,
}

impl Graph {
    /// A node with this identity is present.
    pub open spec fn node_exists(self, id: usize) -> bool {
        id < self.nodes@.len() && self.nodes@[id as int] is Some
    }

    /// The node with this identity.
    pub open spec fn node_at(self, id: usize) -> EFNode {
        self.nodes@[id as int]->Some_0
    }

    /// How many input slots the node with this identity declares.
    pub open spec fn in_arity(self, id: usize) -> nat {
        self.node_at(id).spec_input_kinds().len()
    }

    /// How many output slots the node with this identity declares.
    pub open spec fn out_arity(self, id: usize) -> nat {
        self.node_at(id).spec_output_kinds().len()
    }

    /// The kind of an output slot.
    pub open spec fn out_kind(self, pin: OutPinId) -> NodeDataType {
        self.node_at(pin.node.0).spec_output_kinds()[pin.output as int]
    }

    /// The kind of an input slot.
    pub open spec fn in_kind(self, pin: InPinId) -> NodeDataType {
        self.node_at(pin.node.0).spec_input_kinds()[pin.input as int]
    }

    /// An edge joins two present, distinct nodes at slots that exist and
    /// carry the same kind.
    pub open spec fn edge_wf(self, e: Edge) -> bool {
        &&& self.node_exists(e.from.node.0)
        &&& self.node_exists(e.to.node.0)
        &&& e.from.output < self.out_arity(e.from.node.0)
        &&& e.to.input < self.in_arity(e.to.node.0)
        &&& self.out_kind(e.from) == self.in_kind(e.to)
        &&& e.from.node.0 != e.to.node.0
    }

    /// The graph invariant: every edge is well-formed, every input slot
    /// has at most one producer, and the edge set is acyclic.
    pub open spec fn wf(self) -> bool {
        &&& forall|k: int| 0 <= k < self.edges@.len() ==> self.edge_wf(#[trigger] self.edges@[k])
        &&& single_producer(self.edges@)
        &&& acyclic(self.edges@)
    }

    /// An empty graph.
    pub fn new() -> (r: Graph)
        ensures
            r.nodes@.len() == 0,
            r.edges@.len() == 0,
            r.wf(),
    {
        let r = Graph { nodes: Vec::new(), edges: Vec::new() };
        proof {
            assert forall|n: usize| !crate::reach::reaches(r.edges@, n, n) by {
                if crate::reach::reaches(r.edges@, n, n) {
                    let p = choose|p: Seq<usize>| #[trigger] crate::reach::is_path(r.edges@, p)
                        && p.first() == n && p.last() == n;
                    assert(has_edge(r.edges@, p[0], p[1]));
                }
            }
        }
        r
    }

    /// Adds a node and hands back its identity. The new node has no
    /// edges yet, so the graph invariant is untouched.
    pub fn insert_node(&mut self, node: EFNode) -> (id: NodeId)
        ensures
            final(self).nodes@ == old(self).nodes@.push(Some(node)),
            final(self).edges@ == old(self).edges@,
            id.0 == old(self).nodes@.len(),
            old(self).wf() ==> final(self).wf(),
    {
        let id = NodeId(self.nodes.len());
        self.nodes.push(Some(node));
        proof {
            if old(self).wf() {
                assert forall|k: int| 0 <= k < self.edges@.len() implies self.edge_wf(
                    #[trigger] self.edges@[k],
                ) by {
                    assert(old(self).edge_wf(old(self).edges@[k]));
                }
            }
        }
        id
    }

    /// The node with this identity, if it is present.
    pub fn get_node(&self, id: NodeId) -> (r: Option<&EFNode>)
        ensures
            match r {
                Some(n) => self.node_exists(id.0) && *n == self.node_at(id.0),
                None => !self.node_exists(id.0),
            },
    {
        if id.0 < self.nodes.len() {
            match &self.nodes[id.0] {
                Some(n) => Some(n),
                None => None,
            }
        } else {
            None
        }
    }

    /// How many identities have been handed out (present nodes or not).
    pub fn node_count(&self) -> (r: usize)
        ensures
            r == self.nodes@.len(),
    {
        self.nodes.len()
    }
}

} // verus!
