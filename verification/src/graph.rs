//! The relationship graph: an arena of nodes and an undirected edge list.
//!
//! Nodes are addressed by their position in the arena; an edge stores the
//! two endpoint positions. Edges carry no data and are undirected: an edge
//! between `a` and `b` may be stored in either orientation, and at most one
//! of the two orientations is ever present.

use vstd::prelude::*;

verus! {

/// The three kinds of participants in the federation topology.
#[derive(Clone, Copy, Debug, PartialEq, Eq, Structural)]
pub enum NodeType {
    Room,
    User,
    Server,
}

/// One graph node: its kind together with the pseudonymous id that
/// stands in for the real-world identifier.
#[derive(Clone, Copy, Debug, PartialEq, Eq, Structural)]
pub struct Node {
    pub kind: NodeType,
    pub id: u64,
}

/// An undirected edge between the nodes at arena positions `a` and `b`.
#[derive(Clone, Copy, Debug, PartialEq, Eq, Structural)]
pub struct Edge {
    pub a: usize,
    pub b: usize,
}

/// The relationship graph itself.
#[derive(Debug)]
pub struct Graph {
    pub nodes: Vec<Node>,
    pub edges: Vec<Edge>,
}

/// Whether `e` connects positions `a` and `b`, in either orientation.
pub open spec fn edge_connects(e: Edge, a: int, b: int) -> bool {
    (e.a == a && e.b == b) || (e.a == b && e.b == a)
}

/// Whether some edge of `edges` connects positions `a` and `b`.
pub open spec fn spec_has_edge(edges: Seq<Edge>, a: int, b: int) -> bool {
    exists|i: int| 0 <= i < edges.len() && edge_connects(edges[i], a, b)
}

/// Every edge endpoint points into the node arena.
pub open spec fn edges_in_bounds(edges: Seq<Edge>, n: nat) -> bool {
    forall|i: int| 0 <= i < edges.len() ==> (#[trigger] edges[i]).a < n && edges[i].b < n
}

impl Graph {
    /// The empty graph, the state at the start of a crawl.
    pub fn new() -> (g: Graph)
        ensures
            g.nodes@ =~= Seq::<Node>::empty(),
            g.edges@ =~= Seq::<Edge>::empty(),
    {
        Graph { nodes: Vec::new(), edges: Vec::new() }
    }

    /// Appends a node to the arena and returns its position.
    pub fn add_node(&mut self, node: Node) -> (idx: usize)
        ensures
            idx == old(self).nodes@.len(),
            final(self).nodes@ =~= old(self).nodes@.push(node),
            final(self).edges@ =~= old(self).edges@,
            final(self).nodes@.len() <= usize::MAX,
    {
        let idx = self.nodes.len();
        self.nodes.push(node);
        proof {
            vstd::std_specs::vec::axiom_spec_len(&self.nodes);
        }
        idx
    }

    /// Whether an edge between positions `a` and `b` is already present.
    pub fn has_edge(&self, a: usize, b: usize) -> (r: bool)
        ensures
            r == spec_has_edge(self.edges@, a as int, b as int),
    {
        let n = self.edges.len();
        let mut i: usize = 0;
        while i < n
            invariant
                n == self.edges@.len(),
                0 <= i <= n,
                forall|j: int| 0 <= j < i ==> !edge_connects(self.edges@[j], a as int, b as int),
            decreases n - i,
        {
            let e = self.edges[i];
            if (e.a == a && e.b == b) || (e.a == b && e.b == a) {
                assert(edge_connects(self.edges@[i as int], a as int, b as int));
                return true;
            }
            i = i + 1;
        }
        false
    }

    /// Adds an edge between `a` and `b` unconditionally.
    pub fn add_edge(&mut self, a: usize, b: usize)
        ensures
            final(self).nodes@ =~= old(self).nodes@,
            final(self).edges@ =~= old(self).edges@.push(Edge { a, b }),
    {
        self.edges.push(Edge { a, b });
    }

    /// Idempotent edge upsert: adds an edge between `a` and `b` only if no
    /// edge (in either orientation) connects them yet.
    pub fn update_edge(&mut self, a: usize, b: usize)
        ensures
            final(self).nodes@ =~= old(self).nodes@,
            final(self).edges@ =~= spec_update_edge(old(self).edges@, a as int, b as int, Edge { a, b }),
    {
        if !self.has_edge(a, b) {
            self.edges.push(Edge { a, b });
        }
    }
}

/// The edge list after an idempotent upsert of an edge between `a` and `b`.
pub open spec fn spec_update_edge(edges: Seq<Edge>, a: int, b: int, e: Edge) -> Seq<Edge> {
    if spec_has_edge(edges, a, b) {
        edges
    } else {
        edges.push(e)
    }
}

} // verus!
