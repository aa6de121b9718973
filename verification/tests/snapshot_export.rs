use dsn_traveller::{decode_graph, encode_graph, export_graph_to_dot, export_graph_to_graphml, Edge, Graph, Node, NodeType};

fn small_graph() -> Graph {
    Graph {
        nodes: vec![
            Node { kind: NodeType::Room, id: 7 },
            Node { kind: NodeType::User, id: 0 },
            Node { kind: NodeType::Server, id: 18446744073709551615 },
        ],
        edges: vec![Edge { a: 1, b: 0 }, Edge { a: 2, b: 0 }, Edge { a: 1, b: 2 }],
    }
}

#[test]
fn snapshot_bytes_are_exact() {
    let g = Graph {
        nodes: vec![Node { kind: NodeType::Room, id: 12 }, Node { kind: NodeType::User, id: 345 }],
        edges: vec![Edge { a: 1, b: 0 }],
    };
    let out = encode_graph(&g);
    assert_eq!(
        String::from_utf8(out).unwrap(),
        "{\"nodes\":[{\"kind\":\"room\",\"id\":12},{\"kind\":\"user\",\"id\":345}],\"edges\":[[1,0]]}"
    );
}

#[test]
fn snapshot_of_empty_graph() {
    let g = Graph { nodes: Vec::new(), edges: Vec::new() };
    let out = encode_graph(&g);
    assert_eq!(String::from_utf8(out.clone()).unwrap(), "{\"nodes\":[],\"edges\":[]}");
    let back = decode_graph(&out).expect("decodes");
    assert_eq!(back.nodes.len(), 0);
    assert_eq!(back.edges.len(), 0);
}

// Deserializing the snapshot reproduces the exported graph.
#[test]
fn snapshot_round_trips() {
    let g = small_graph();
    let out = encode_graph(&g);
    let back = decode_graph(&out).expect("decodes");
    assert_eq!(back.nodes, g.nodes);
    assert_eq!(back.edges, g.edges);
}

#[test]
fn snapshot_is_valid_json() {
    let out = encode_graph(&small_graph());
    let v: serde_json::Value = serde_json::from_slice(&out).expect("well-formed JSON");
    assert_eq!(v["nodes"][0]["kind"], serde_json::Value::String(String::from("room")));
    assert_eq!(v["nodes"][2]["id"].as_u64(), Some(18446744073709551615));
    assert_eq!(v["edges"][0][0].as_u64(), Some(1));
}

#[test]
fn malformed_snapshots_are_rejected() {
    assert!(decode_graph(&b"".to_vec()).is_none());
    assert!(decode_graph(&b"{}".to_vec()).is_none());
    assert!(decode_graph(&b"{\"nodes\":[],\"edges\":[]".to_vec()).is_none());
    assert!(decode_graph(&b"{\"nodes\":[{\"kind\":\"tree\",\"id\":1}],\"edges\":[]}".to_vec()).is_none());
    // trailing bytes after the closing brace
    assert!(decode_graph(&b"{\"nodes\":[],\"edges\":[]} ".to_vec()).is_none());
    // an id that does not fit in 64 bits
    assert!(
        decode_graph(&b"{\"nodes\":[{\"kind\":\"room\",\"id\":18446744073709551616}],\"edges\":[]}".to_vec())
            .is_none()
    );
}

#[test]
fn dot_export_is_exact() {
    let g = Graph {
        nodes: vec![Node { kind: NodeType::Room, id: 5 }, Node { kind: NodeType::Server, id: 6 }],
        edges: vec![Edge { a: 1, b: 0 }],
    };
    let out = export_graph_to_dot(&g);
    let expected = "graph {\n    0 [ label = \"room_5\" ]\n    1 [ label = \"server_6\" ]\n    1 -- 0 [ ]\n}\n";
    assert_eq!(String::from_utf8(out).unwrap(), expected);
}

#[test]
fn graphml_export_is_exact() {
    let g = Graph {
        nodes: vec![Node { kind: NodeType::User, id: 42 }],
        edges: Vec::new(),
    };
    let out = export_graph_to_graphml(&g);
    let expected = "<?xml version=\"1.0\" encoding=\"UTF-8\"?>\n<graphml xmlns=\"http://graphml.graphdrawing.org/xmlns\">\n  <key id=\"weight\" for=\"node\" attr.name=\"weight\" attr.type=\"string\" />\n  <graph edgedefault=\"undirected\">\n    <node id=\"n0\">\n      <data key=\"weight\">user_42</data>\n    </node>\n  </graph>\n</graphml>\n";
    assert_eq!(String::from_utf8(out).unwrap(), expected);
}

#[test]
fn graphml_export_lists_edges() {
    let out = export_graph_to_graphml(&small_graph());
    let text = String::from_utf8(out).unwrap();
    assert!(text.contains("<edge source=\"n1\" target=\"n0\" />"));
    assert!(text.contains("<edge source=\"n2\" target=\"n0\" />"));
    assert!(text.contains("server_18446744073709551615"));
}
