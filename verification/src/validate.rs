//! Structural well-formedness of a finished crawl graph.
//!
//! The invariants: every Room node has at least one User and one Server
//! neighbor; every User node has exactly one Server neighbor and at least
//! one Room neighbor; every Server node has at least one User and one Room
//! neighbor. The check gates anonymization and export: a graph that fails
//! it is never exported.

use vstd::prelude::*;

use crate::graph::Graph;
use crate::graph::Node;
use crate::graph::NodeType;
use crate::graph::Edge;
use crate::graph::spec_has_edge;

verus! {

/// How many of the first `upto` arena positions hold a node of kind `k`
/// adjacent to position `i`.
pub open spec fn spec_neighbor_count(
    nodes: Seq<Node>,
    edges: Seq<Edge>,
    i: int,
    k: NodeType,
    upto: int,
) -> nat
    decreases upto,
{
    if upto <= 0 {
        0
    } else {
        spec_neighbor_count(nodes, edges, i, k, upto - 1) + (if nodes[upto - 1].kind == k
            && spec_has_edge(edges, i, upto - 1) {
            1nat
        } else {
            0nat
        })
    }
}

/// The number of neighbors of `i` whose kind is `k`.
pub open spec fn spec_neighbors_of_kind(nodes: Seq<Node>, edges: Seq<Edge>, i: int, k: NodeType) -> nat {
    spec_neighbor_count(nodes, edges, i, k, nodes.len() as int)
}

/// The per-node structural invariant.
pub open spec fn spec_wellformed_node(nodes: Seq<Node>, edges: Seq<Edge>, i: int) -> bool {
    match nodes[i].kind {
        NodeType::Room => spec_neighbors_of_kind(nodes, edges, i, NodeType::User) >= 1
            && spec_neighbors_of_kind(nodes, edges, i, NodeType::Server) >= 1,
        NodeType::User => spec_neighbors_of_kind(nodes, edges, i, NodeType::Server) == 1
            && spec_neighbors_of_kind(nodes, edges, i, NodeType::Room) >= 1,
        NodeType::Server => spec_neighbors_of_kind(nodes, edges, i, NodeType::User) >= 1
            && spec_neighbors_of_kind(nodes, edges, i, NodeType::Room) >= 1,
    }
}

/// The whole-graph structural invariant: every node is well-formed.
pub open spec fn spec_wellformed_graph(nodes: Seq<Node>, edges: Seq<Edge>) -> bool {
    forall|i: int| 0 <= i < nodes.len() ==> #[trigger] spec_wellformed_node(nodes, edges, i)
}

/// Counts the neighbors of position `i` that have kind `k`.
pub fn neighbors_of_kind(g: &Graph, i: usize, k: NodeType) -> (count: usize)
    requires
        i < g.nodes@.len(),
    ensures
        count == spec_neighbors_of_kind(g.nodes@, g.edges@, i as int, k),
{
    let n = g.nodes.len();
    let mut count: usize = 0;
    let mut j: usize = 0;
    while j < n
        invariant
            n == g.nodes@.len(),
            0 <= j <= n,
            count == spec_neighbor_count(g.nodes@, g.edges@, i as int, k, j as int),
            count <= j,
        decreases n - j,
    {
        if g.nodes[j].kind == k && g.has_edge(i, j) {
            count = count + 1;
        }
        j = j + 1;
    }
    count
}

/// The diagnostic neighbor-kind profile of one node: how many User, Room
/// and Server neighbors it has, in that order.
pub fn neighbor_counts(g: &Graph, i: usize) -> (counts: (usize, usize, usize))
    requires
        i < g.nodes@.len(),
    ensures
        counts.0 == spec_neighbors_of_kind(g.nodes@, g.edges@, i as int, NodeType::User),
        counts.1 == spec_neighbors_of_kind(g.nodes@, g.edges@, i as int, NodeType::Room),
        counts.2 == spec_neighbors_of_kind(g.nodes@, g.edges@, i as int, NodeType::Server),
{
    (
        neighbors_of_kind(g, i, NodeType::User),
        neighbors_of_kind(g, i, NodeType::Room),
        neighbors_of_kind(g, i, NodeType::Server),
    )
}

/// Checks the structural invariant of the node at position `i`.
pub fn is_wellformed_node(g: &Graph, i: usize) -> (r: bool)
    requires
        i < g.nodes@.len(),
    ensures
        r == spec_wellformed_node(g.nodes@, g.edges@, i as int),
{
    match g.nodes[i].kind {
        NodeType::Room => {
            neighbors_of_kind(g, i, NodeType::User) >= 1 && neighbors_of_kind(
                g,
                i,
                NodeType::Server,
            ) >= 1
        },
        NodeType::User => {
            neighbors_of_kind(g, i, NodeType::Server) == 1 && neighbors_of_kind(
                g,
                i,
                NodeType::Room,
            ) >= 1
        },
        NodeType::Server => {
            neighbors_of_kind(g, i, NodeType::User) >= 1 && neighbors_of_kind(
                g,
                i,
                NodeType::Room,
            ) >= 1
        },
    }
}

/// Checks the whole-graph structural invariant; true exactly when every
/// node satisfies its per-kind neighbor requirements.
pub fn is_wellformed_graph(g: &Graph) -> (r: bool)
    ensures
        r == spec_wellformed_graph(g.nodes@, g.edges@),
{
    let n = g.nodes.len();
    let mut i: usize = 0;
    while i < n
        invariant
            n == g.nodes@.len(),
            0 <= i <= n,
            forall|j: int| 0 <= j < i ==> #[trigger] spec_wellformed_node(g.nodes@, g.edges@, j),
        decreases n - i,
    {
        if !is_wellformed_node(g, i) {
            return false;
        }
        i = i + 1;
    }
    true
}

/// A Room node without a Server neighbor makes the whole graph malformed:
/// the validator rejects any graph containing one.
pub proof fn lemma_room_without_server_rejected(nodes: Seq<Node>, edges: Seq<Edge>, i: int)
    requires
        0 <= i < nodes.len(),
        nodes[i].kind == NodeType::Room,
        spec_neighbors_of_kind(nodes, edges, i, NodeType::Server) == 0,
    ensures
        !spec_wellformed_graph(nodes, edges),
{
    assert(!spec_wellformed_node(nodes, edges, i));
}

} // verus!
