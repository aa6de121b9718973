use dsn_traveller::{GraphBuilder, HashKey, NodeType, PatternFilter};

fn key() -> HashKey {
    HashKey { k0: 11, k1: 97 }
}

fn no_filter() -> PatternFilter {
    let patterns: Vec<String> = Vec::new();
    PatternFilter::new(&patterns).expect("empty pattern set compiles")
}

#[test]
fn ensure_room_is_get_or_insert() {
    let mut b = GraphBuilder::new(key());
    let r1 = b.ensure_room(&b"!r1:hs1".to_vec());
    let r1_again = b.ensure_room(&b"!r1:hs1".to_vec());
    let r2 = b.ensure_room(&b"!r2:hs1".to_vec());
    assert_eq!(r1, r1_again);
    assert_ne!(r1, r2);
    let g = b.into_graph();
    assert_eq!(g.nodes.len(), 2);
    assert_eq!(g.edges.len(), 0);
}

#[test]
fn ensure_user_links_server_once() {
    let mut b = GraphBuilder::new(key());
    let s = b.ensure_server(&b"hs1".to_vec());
    let u = b.ensure_user(&b"@a:hs1".to_vec(), s);
    let u_again = b.ensure_user(&b"@a:hs1".to_vec(), s);
    assert_eq!(u, u_again);
    let g = b.into_graph();
    assert_eq!(g.nodes.len(), 2);
    assert_eq!(g.edges.len(), 1);
    assert!(g.has_edge(u, s));
}

#[test]
fn link_and_touch_are_idempotent() {
    let mut b = GraphBuilder::new(key());
    let r = b.ensure_room(&b"!r1:hs1".to_vec());
    let s = b.ensure_server(&b"hs1".to_vec());
    let u = b.ensure_user(&b"@a:hs1".to_vec(), s);
    b.link(u, r);
    b.link(u, r);
    b.touch(s, r);
    b.touch(s, r);
    let g = b.into_graph();
    // the user-server edge plus one membership edge and one presence edge
    assert_eq!(g.edges.len(), 3);
}

// Ingesting the same user in two different rooms creates exactly one User
// node and one User-Server edge, but two distinct User-Room edges.
#[test]
fn same_user_in_two_rooms_is_deduplicated() {
    let mut b = GraphBuilder::new(key());
    b.ingest_member(&b"!r1:hs1".to_vec(), &b"@a:hs1".to_vec());
    b.ingest_member(&b"!r2:hs1".to_vec(), &b"@a:hs1".to_vec());
    let (rooms, users, servers) = b.counts();
    assert_eq!((rooms, users, servers), (2, 1, 1));
    let g = b.into_graph();
    // node order: room1, server hs1, user @a:hs1, room2
    assert_eq!(g.nodes.len(), 4);
    let user_nodes = g.nodes.iter().filter(|n| n.kind == NodeType::User).count();
    assert_eq!(user_nodes, 1);
    // user-server once, user-room twice, server-room twice
    assert_eq!(g.edges.len(), 5);
    let user_server = g
        .edges
        .iter()
        .filter(|e| {
            (g.nodes[e.a].kind == NodeType::User && g.nodes[e.b].kind == NodeType::Server)
                || (g.nodes[e.a].kind == NodeType::Server && g.nodes[e.b].kind == NodeType::User)
        })
        .count();
    assert_eq!(user_server, 1);
    assert!(g.has_edge(2, 0));
    assert!(g.has_edge(2, 3));
}

// A member matching the ignore pattern contributes zero nodes and zero
// edges; a room whose only members all match never gets a Room node.
#[test]
fn ignored_members_contribute_nothing() {
    let patterns = vec![String::from("^@voyager:t2bot[.]io$")];
    let filter = PatternFilter::new(&patterns).expect("pattern compiles");
    let mut b = GraphBuilder::new(key());
    let members = vec![b"@voyager:t2bot.io".to_vec()];
    b.ingest_room(&b"!onlybots:hs1".to_vec(), &members, &filter)
        .expect("ingest succeeds");
    let (rooms, users, servers) = b.counts();
    assert_eq!((rooms, users, servers), (0, 0, 0));
    let g = b.into_graph();
    assert_eq!(g.nodes.len(), 0);
    assert_eq!(g.edges.len(), 0);
}

#[test]
fn ignored_member_is_skipped_among_others() {
    let patterns = vec![String::from("^@.*:ignored[.]example$")];
    let filter = PatternFilter::new(&patterns).expect("pattern compiles");
    let mut b = GraphBuilder::new(key());
    let members = vec![b"@x:ignored.example".to_vec(), b"@a:hs1".to_vec()];
    b.ingest_room(&b"!mixed:hs1".to_vec(), &members, &filter)
        .expect("ingest succeeds");
    let (rooms, users, servers) = b.counts();
    assert_eq!((rooms, users, servers), (1, 1, 1));
}

// Baseline fixture: room R1 with members @a:hs1 and @b:hs2 yields five
// nodes and six edges.
#[test]
fn baseline_room_with_two_members() {
    let mut b = GraphBuilder::new(key());
    let members = vec![b"@a:hs1".to_vec(), b"@b:hs2".to_vec()];
    b.ingest_room(&b"!R1:hs1".to_vec(), &members, &no_filter())
        .expect("ingest succeeds");
    let g = b.into_graph();
    assert_eq!(g.nodes.len(), 5);
    assert_eq!(g.edges.len(), 6);
    // creation order: R1, hs1, @a, hs2, @b
    assert_eq!(g.nodes[0].kind, NodeType::Room);
    assert_eq!(g.nodes[1].kind, NodeType::Server);
    assert_eq!(g.nodes[2].kind, NodeType::User);
    assert_eq!(g.nodes[3].kind, NodeType::Server);
    assert_eq!(g.nodes[4].kind, NodeType::User);
    assert!(g.has_edge(2, 0)); // a - R1
    assert!(g.has_edge(2, 1)); // a - hs1
    assert!(g.has_edge(4, 0)); // b - R1
    assert!(g.has_edge(4, 3)); // b - hs2
    assert!(g.has_edge(1, 0)); // hs1 - R1
    assert!(g.has_edge(3, 0)); // hs2 - R1
    assert!(!g.has_edge(2, 4));
    assert!(!g.has_edge(1, 3));
}

// Observing the same room twice must not duplicate the Room node or any
// edge.
#[test]
fn room_observed_twice_changes_nothing() {
    let members = vec![b"@a:hs1".to_vec(), b"@b:hs2".to_vec()];
    let mut b = GraphBuilder::new(key());
    b.ingest_room(&b"!R1:hs1".to_vec(), &members, &no_filter())
        .expect("ingest succeeds");
    b.ingest_room(&b"!R1:hs1".to_vec(), &members, &no_filter())
        .expect("ingest succeeds");
    let (rooms, users, servers) = b.counts();
    assert_eq!((rooms, users, servers), (1, 2, 2));
    let g = b.into_graph();
    assert_eq!(g.nodes.len(), 5);
    assert_eq!(g.edges.len(), 6);
}

#[test]
fn invalid_member_id_reports_its_position() {
    let mut b = GraphBuilder::new(key());
    let members = vec![b"@a:hs1".to_vec(), b"not-a-user-id".to_vec()];
    let r = b.ingest_room(&b"!r1:hs1".to_vec(), &members, &no_filter());
    assert_eq!(r, Err(1));
    // the first member was already ingested
    let (rooms, users, servers) = b.counts();
    assert_eq!((rooms, users, servers), (1, 1, 1));
}

#[test]
fn member_order_does_not_change_the_outcome() {
    let forward = vec![b"@a:hs1".to_vec(), b"@b:hs2".to_vec(), b"@c:hs1".to_vec()];
    let backward = vec![b"@c:hs1".to_vec(), b"@b:hs2".to_vec(), b"@a:hs1".to_vec()];
    let mut b1 = GraphBuilder::new(key());
    b1.ingest_room(&b"!r:hs1".to_vec(), &forward, &no_filter())
        .expect("ingest succeeds");
    let mut b2 = GraphBuilder::new(key());
    b2.ingest_room(&b"!r:hs1".to_vec(), &backward, &no_filter())
        .expect("ingest succeeds");
    assert_eq!(b1.counts(), b2.counts());
    let g1 = b1.into_graph();
    let g2 = b2.into_graph();
    assert_eq!(g1.nodes.len(), g2.nodes.len());
    assert_eq!(g1.edges.len(), g2.edges.len());
}
