use dsn_traveller::{
    anonymize_graph, anonymize_graph_with, is_wellformed_graph, is_wellformed_node,
    neighbor_counts, Edge, Graph, HashKey, Node, NodeType,
};

fn node(kind: NodeType, id: u64) -> Node {
    Node { kind, id }
}

fn baseline() -> Graph {
    // R1 with users @a (on hs1) and @b (on hs2)
    Graph {
        nodes: vec![
            node(NodeType::Room, 10),
            node(NodeType::Server, 11),
            node(NodeType::User, 12),
            node(NodeType::Server, 13),
            node(NodeType::User, 14),
        ],
        edges: vec![
            Edge { a: 2, b: 1 },
            Edge { a: 2, b: 0 },
            Edge { a: 1, b: 0 },
            Edge { a: 4, b: 3 },
            Edge { a: 4, b: 0 },
            Edge { a: 3, b: 0 },
        ],
    }
}

// A graph satisfying all three invariants is accepted.
#[test]
fn wellformed_graph_is_accepted() {
    let g = baseline();
    assert!(is_wellformed_graph(&g));
}

// A Room node with zero Server neighbors is rejected.
#[test]
fn room_without_server_neighbor_is_rejected() {
    let g = Graph {
        nodes: vec![node(NodeType::Room, 1), node(NodeType::User, 2)],
        edges: vec![Edge { a: 1, b: 0 }],
    };
    assert!(!is_wellformed_node(&g, 0));
    assert!(!is_wellformed_graph(&g));
}

#[test]
fn user_with_two_servers_is_rejected() {
    let g = Graph {
        nodes: vec![
            node(NodeType::Room, 1),
            node(NodeType::User, 2),
            node(NodeType::Server, 3),
            node(NodeType::Server, 4),
        ],
        edges: vec![
            Edge { a: 1, b: 0 },
            Edge { a: 1, b: 2 },
            Edge { a: 1, b: 3 },
            Edge { a: 2, b: 0 },
            Edge { a: 3, b: 0 },
        ],
    };
    assert!(!is_wellformed_node(&g, 1));
    assert!(!is_wellformed_graph(&g));
}

#[test]
fn empty_graph_is_accepted() {
    let g = Graph { nodes: Vec::new(), edges: Vec::new() };
    assert!(is_wellformed_graph(&g));
}

#[test]
fn neighbor_counts_are_exact() {
    let g = baseline();
    // the room: two users, zero rooms, two servers
    assert_eq!(neighbor_counts(&g, 0), (2, 0, 2));
    // the first user: zero users, one room, one server
    assert_eq!(neighbor_counts(&g, 2), (0, 1, 1));
    // the first server: one user, one room, zero servers
    assert_eq!(neighbor_counts(&g, 1), (1, 1, 0));
}

// Anonymization preserves node count, per-node kind and the edge list;
// only ids change.
#[test]
fn anonymize_preserves_topology() {
    let g = baseline();
    let a = anonymize_graph(baseline());
    assert_eq!(a.nodes.len(), g.nodes.len());
    assert_eq!(a.edges, g.edges);
    for i in 0..g.nodes.len() {
        assert_eq!(a.nodes[i].kind, g.nodes[i].kind);
    }
}

// Two anonymizations under independent keys give disjoint id sets here.
#[test]
fn anonymize_twice_with_independent_keys_differs() {
    let g1 = anonymize_graph_with(baseline(), HashKey { k0: 1, k1: 2 }, 3);
    let g2 = anonymize_graph_with(baseline(), HashKey { k0: 4, k1: 5 }, 6);
    assert_eq!(g1.nodes.len(), g2.nodes.len());
    for n1 in &g1.nodes {
        for n2 in &g2.nodes {
            assert_ne!(n1.id, n2.id);
        }
    }
}

#[test]
fn anonymize_with_is_deterministic_per_key() {
    let key = HashKey { k0: 7, k1: 8 };
    let g1 = anonymize_graph_with(baseline(), key, 9);
    let g2 = anonymize_graph_with(baseline(), key, 9);
    for i in 0..g1.nodes.len() {
        assert_eq!(g1.nodes[i].id, g2.nodes[i].id);
    }
}
