use dsn_traveller::{
    decode_graph, first_canonical_alias, invite_action, joined_member_ids, neighbor_counts,
    rooms_to_leave, should_join, CrawlAction, CrawlEvent, CrawlState, GraphBuilder, HashKey,
    InviteAction, InviteStateEvent, MemberEvent, Membership, NodeType, PatternFilter, TxnCounter,
    ROOM_CRAWL_DELAY_MS, ROOM_JOIN_DELAY_MS,
};

fn no_filter() -> PatternFilter {
    let patterns: Vec<String> = Vec::new();
    PatternFilter::new(&patterns).expect("empty pattern set compiles")
}

fn joined(user: &[u8]) -> MemberEvent {
    MemberEvent { membership: Membership::Join, state_key: user.to_vec() }
}

#[test]
fn filter_rejects_invalid_patterns() {
    let patterns = vec![String::from("(")];
    assert!(PatternFilter::new(&patterns).is_none());
}

#[test]
fn filter_matches_through_the_regex_crate() {
    let patterns = vec![
        String::from("^@.*:weho[.]st$"),
        String::from("^@voyager:t2bot[.]io$"),
    ];
    let filter = PatternFilter::new(&patterns).expect("patterns compile");
    assert!(filter.matches(&b"@someone:weho.st".to_vec()));
    assert!(filter.matches(&b"@voyager:t2bot.io".to_vec()));
    assert!(!filter.matches(&b"@someone:example.org".to_vec()));
    // the anchoring is part of the pattern: no substring match
    assert!(!filter.matches(&b"hello @voyager:t2bot.io!".to_vec()));
    assert_eq!(filter.len(), 2);
}

#[test]
fn joined_member_ids_keeps_only_joined_members() {
    let events = vec![
        joined(b"@a:hs1"),
        MemberEvent { membership: Membership::Leave, state_key: b"@gone:hs1".to_vec() },
        MemberEvent { membership: Membership::Invite, state_key: b"@soon:hs2".to_vec() },
        joined(b"@b:hs2"),
        MemberEvent { membership: Membership::Ban, state_key: b"@bad:hs3".to_vec() },
        MemberEvent { membership: Membership::Knock, state_key: b"@knock:hs3".to_vec() },
    ];
    let ids = joined_member_ids(&events);
    assert_eq!(ids, vec![b"@a:hs1".to_vec(), b"@b:hs2".to_vec()]);
}

#[test]
fn crawl_walks_rooms_in_order_and_exports() {
    let rooms = vec![b"!r1:hs1".to_vec(), b"!r2:hs1".to_vec()];
    let (mut st, action) = CrawlState::begin(rooms, no_filter());
    match action {
        CrawlAction::Fetch { room, delay_ms } => {
            assert_eq!(room, b"!r1:hs1".to_vec());
            assert_eq!(delay_ms, ROOM_CRAWL_DELAY_MS);
        },
        _ => panic!("expected a fetch of the first room"),
    }
    let action = st.step(CrawlEvent::Members {
        events: vec![joined(b"@a:hs1"), joined(b"@b:hs2")],
    });
    match action {
        CrawlAction::Fetch { room, delay_ms } => {
            assert_eq!(room, b"!r2:hs1".to_vec());
            assert_eq!(delay_ms, ROOM_CRAWL_DELAY_MS);
        },
        _ => panic!("expected a fetch of the second room"),
    }
    let action = st.step(CrawlEvent::Members { events: vec![joined(b"@a:hs1")] });
    assert!(matches!(action, CrawlAction::RoomsDone));
    let out = st.finish().expect("the graph is well-formed");
    assert_eq!((out.rooms, out.users, out.servers), (2, 2, 2));
    let g = decode_graph(&out.snapshot).expect("the snapshot decodes");
    // r1, hs1, @a, hs2, @b, r2
    assert_eq!(g.nodes.len(), 6);
    // per room: one membership edge per member, one presence edge per
    // server, plus one user-server edge per new user
    assert_eq!(g.edges.len(), 8);
    assert!(String::from_utf8(out.dot).unwrap().starts_with("graph {"));
    assert!(String::from_utf8(out.graphml).unwrap().contains("graphml"));
}

#[test]
fn crawl_skips_rooms_of_ignored_members_entirely() {
    let rooms = vec![b"!bots:hs1".to_vec(), b"!people:hs1".to_vec()];
    let patterns = vec![String::from("^@voyager:t2bot[.]io$")];
    let filter = PatternFilter::new(&patterns).expect("pattern compiles");
    let (mut st, _) = CrawlState::begin(rooms, filter);
    let action = st.step(CrawlEvent::Members { events: vec![joined(b"@voyager:t2bot.io")] });
    assert!(matches!(action, CrawlAction::Fetch { .. }));
    let action = st.step(CrawlEvent::Members {
        events: vec![joined(b"@voyager:t2bot.io"), joined(b"@a:hs1")],
    });
    assert!(matches!(action, CrawlAction::RoomsDone));
    let out = st.finish().expect("the graph is well-formed");
    // the all-ignored room never got a Room node
    assert_eq!((out.rooms, out.users, out.servers), (1, 1, 1));
    let g = decode_graph(&out.snapshot).expect("decodes");
    assert_eq!(g.nodes.len(), 3);
    assert_eq!(g.edges.len(), 3);
}

#[test]
fn crawl_retries_once_then_aborts() {
    let rooms = vec![b"!r1:hs1".to_vec()];
    let (mut st, _) = CrawlState::begin(rooms, no_filter());
    let action = st.step(CrawlEvent::FetchFailed);
    match action {
        CrawlAction::Fetch { room, delay_ms } => {
            // the retry is immediate and refetches the same room
            assert_eq!(room, b"!r1:hs1".to_vec());
            assert_eq!(delay_ms, 0);
        },
        _ => panic!("expected an immediate retry"),
    }
    let action = st.step(CrawlEvent::FetchFailed);
    assert!(matches!(action, CrawlAction::AbortFetch));
}

#[test]
fn crawl_recovers_after_a_single_failure() {
    let rooms = vec![b"!r1:hs1".to_vec(), b"!r2:hs1".to_vec()];
    let (mut st, _) = CrawlState::begin(rooms, no_filter());
    let action = st.step(CrawlEvent::FetchFailed);
    assert!(matches!(action, CrawlAction::Fetch { .. }));
    let action = st.step(CrawlEvent::Members { events: vec![joined(b"@a:hs1")] });
    assert!(matches!(action, CrawlAction::Fetch { .. }));
    // the retry budget is per room: the next room gets its own retry
    let action = st.step(CrawlEvent::FetchFailed);
    assert!(matches!(action, CrawlAction::Fetch { delay_ms: 0, .. }));
}

#[test]
fn crawl_aborts_on_invalid_member_id() {
    let rooms = vec![b"!r1:hs1".to_vec()];
    let (mut st, _) = CrawlState::begin(rooms, no_filter());
    let action = st.step(CrawlEvent::Members {
        events: vec![joined(b"@a:hs1"), joined(b"broken")],
    });
    assert!(matches!(action, CrawlAction::AbortMember { position: 1 }));
}

#[test]
fn crawl_of_no_rooms_finishes_immediately() {
    let (st, action) = CrawlState::begin(Vec::new(), no_filter());
    assert!(matches!(action, CrawlAction::RoomsDone));
    let out = st.finish().expect("the empty graph is well-formed");
    assert_eq!((out.rooms, out.users, out.servers), (0, 0, 0));
    assert_eq!(String::from_utf8(out.snapshot).unwrap(), "{\"nodes\":[],\"edges\":[]}");
}

#[test]
fn malformed_graph_is_not_exported() {
    // a room node without any member ends up with no neighbors at all,
    // and the finish step refuses to anonymize or export it
    let mut b = GraphBuilder::new(HashKey { k0: 1, k1: 2 });
    b.ensure_room(&b"!lonely:hs1".to_vec());
    let st = CrawlState {
        rooms: Vec::new(),
        next: 0,
        retried: false,
        filter: no_filter(),
        builder: b,
    };
    let g = match st.finish() {
        Err(g) => g,
        Ok(_) => panic!("a lonely room node must be rejected"),
    };
    assert_eq!(g.nodes.len(), 1);
    assert_eq!(g.nodes[0].kind, NodeType::Room);
    // the diagnostic profile the operator gets to see: no neighbors
    assert_eq!(neighbor_counts(&g, 0), (0, 0, 0));
}

#[test]
fn first_canonical_alias_takes_the_first_announced() {
    let events = vec![
        InviteStateEvent::Other,
        InviteStateEvent::CanonicalAlias { alias: None },
        InviteStateEvent::CanonicalAlias { alias: Some(b"#general:hs1".to_vec()) },
        InviteStateEvent::CanonicalAlias { alias: Some(b"#other:hs1".to_vec()) },
    ];
    assert_eq!(first_canonical_alias(&events), Some(b"#general:hs1".to_vec()));
    assert_eq!(first_canonical_alias(&Vec::new()), None);
    assert_eq!(
        first_canonical_alias(&vec![InviteStateEvent::CanonicalAlias { alias: None }]),
        None
    );
}

#[test]
fn invites_are_skipped_joined_or_followed_by_id() {
    let patterns = vec![String::from("^#twitter_#")];
    let filter = PatternFilter::new(&patterns).expect("pattern compiles");
    let room_id = b"!abc:hs1".to_vec();

    let bridged = vec![InviteStateEvent::CanonicalAlias {
        alias: Some(b"#twitter_#someone:hs1".to_vec()),
    }];
    match invite_action(&room_id, &bridged, &filter) {
        InviteAction::Skip { alias } => assert_eq!(alias, b"#twitter_#someone:hs1".to_vec()),
        _ => panic!("bridged rooms are skipped"),
    }

    let normal = vec![InviteStateEvent::CanonicalAlias { alias: Some(b"#general:hs1".to_vec()) }];
    match invite_action(&room_id, &normal, &filter) {
        InviteAction::JoinByAlias { alias } => assert_eq!(alias, b"#general:hs1".to_vec()),
        _ => panic!("normal rooms are joined by alias"),
    }

    let anonymous = vec![InviteStateEvent::Other];
    match invite_action(&room_id, &anonymous, &filter) {
        InviteAction::JoinById { room_id: rid } => assert_eq!(rid, room_id),
        _ => panic!("rooms without an alias are joined by id"),
    }
}

#[test]
fn should_join_checks_all_three_sets() {
    let joined_rooms = vec![b"!j:hs1".to_vec()];
    let invited = vec![b"!i:hs1".to_vec()];
    let left = vec![b"!l:hs1".to_vec()];
    assert!(should_join(&b"!new:hs1".to_vec(), &joined_rooms, &invited, &left));
    assert!(!should_join(&b"!j:hs1".to_vec(), &joined_rooms, &invited, &left));
    assert!(!should_join(&b"!i:hs1".to_vec(), &joined_rooms, &invited, &left));
    assert!(!should_join(&b"!l:hs1".to_vec(), &joined_rooms, &invited, &left));
}

#[test]
fn rooms_to_leave_excludes_the_control_room() {
    let joined_rooms = vec![b"!a:hs1".to_vec(), b"!control:hs1".to_vec(), b"!b:hs1".to_vec()];
    let r = rooms_to_leave(&joined_rooms, &b"!control:hs1".to_vec());
    assert_eq!(r, vec![b"!a:hs1".to_vec(), b"!b:hs1".to_vec()]);
    // a control room that is not joined leaves the list unchanged
    let r = rooms_to_leave(&joined_rooms, &b"!elsewhere:hs1".to_vec());
    assert_eq!(r.len(), 3);
}

#[test]
fn txn_ids_count_up_in_decimal() {
    let mut c = TxnCounter::new(41);
    assert_eq!(c.take(), b"41".to_vec());
    assert_eq!(c.take(), b"42".to_vec());
    assert_eq!(c.next, 43);
    let mut c = TxnCounter::new(u64::MAX);
    assert_eq!(c.take(), b"18446744073709551615".to_vec());
    assert_eq!(c.next, 0);
}

#[test]
fn delays_keep_their_order_of_magnitude() {
    // federation-crossing joins wait far longer than same-server crawls
    assert_eq!(ROOM_CRAWL_DELAY_MS, 500);
    assert_eq!(ROOM_JOIN_DELAY_MS, 64000);
    assert!(ROOM_JOIN_DELAY_MS >= 10 * ROOM_CRAWL_DELAY_MS);
}
