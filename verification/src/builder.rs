//! Incremental, deduplicating construction of the relationship graph.
//!
//! The builder owns the graph under construction and three dictionaries
//! mapping real-world identifiers (room id, user id, server name) to arena
//! positions. `ensure_*` is a get-or-insert: an identifier seen across many
//! rooms yields one node. The User-Server edge is added exactly once, when
//! the user node is created; the User-Room and Server-Room edges are
//! idempotent upserts, so observing a room twice changes nothing.

use vstd::prelude::*;

use crate::graph::Edge;
use crate::graph::Graph;
use crate::graph::Node;
use crate::graph::NodeType;
use crate::graph::edge_connects;
use crate::graph::edges_in_bounds;
use crate::graph::spec_has_edge;
use crate::graph::spec_update_edge;
use crate::filter::PatternFilter;
use crate::filter::spec_filter_matches;
use crate::ids::bytes_eq;
use crate::ids::clone_bytes;
use crate::ids::is_valid_user_id;
use crate::ids::server_part;
use crate::ids::spec_server_part;
use crate::ids::valid_user_id;
use crate::keyer::HashKey;
use crate::keyer::spec_hash_id;
use crate::keyer::hash_id;

verus! {

// ------------------------------------------------------------------
// Identifier dictionary
// ------------------------------------------------------------------

/// The dictionary described by an entry list, later entries shadowing
/// earlier ones (the builder keeps keys distinct, so order never matters).
pub open spec fn assoc_map(s: Seq<(Vec<u8>, usize)>) -> Map<Seq<u8>, usize>
    decreases s.len(),
{
    if s.len() == 0 {
        Map::empty()
    } else {
        assoc_map(s.drop_last()).insert(s.last().0@, s.last().1)
    }
}

/// No two entries share a key.
pub open spec fn distinct_keys(s: Seq<(Vec<u8>, usize)>) -> bool {
    forall|i: int, j: int| 0 <= i < j < s.len() ==> (#[trigger] s[i]).0@ != (#[trigger] s[j]).0@
}

proof fn lemma_assoc_contains(s: Seq<(Vec<u8>, usize)>, k: Seq<u8>)
    ensures
        assoc_map(s).contains_key(k) <==> exists|i: int| 0 <= i < s.len() && (#[trigger] s[i]).0@
            == k,
    decreases s.len(),
{
    if s.len() > 0 {
        lemma_assoc_contains(s.drop_last(), k);
        if s.last().0@ != k {
            if exists|i: int| 0 <= i < s.len() && (#[trigger] s[i]).0@ == k {
                let i = choose|i: int| 0 <= i < s.len() && (#[trigger] s[i]).0@ == k;
                assert(s.drop_last()[i] == s[i]);
            }
        }
    }
}

proof fn lemma_assoc_at(s: Seq<(Vec<u8>, usize)>, i: int)
    requires
        distinct_keys(s),
        0 <= i < s.len(),
    ensures
        assoc_map(s).contains_key(s[i].0@),
        assoc_map(s)[s[i].0@] == s[i].1,
    decreases s.len(),
{
    if i == s.len() - 1 {
    } else {
        lemma_assoc_at(s.drop_last(), i);
        assert(s.drop_last()[i] == s[i]);
    }
}

proof fn lemma_assoc_len(s: Seq<(Vec<u8>, usize)>)
    requires
        distinct_keys(s),
    ensures
        assoc_map(s).dom().finite(),
        assoc_map(s).dom().len() == s.len(),
    decreases s.len(),
{
    if s.len() > 0 {
        lemma_assoc_len(s.drop_last());
        lemma_assoc_contains(s.drop_last(), s.last().0@);
    }
}

/// A dictionary from identifiers to arena positions.
struct IdIndex {
    entries: Vec<(Vec<u8>, usize)>,
}

impl View for IdIndex {
    type V = Map<Seq<u8>, usize>;

    closed spec fn view(&self) -> Map<Seq<u8>, usize> {
        assoc_map(self.entries@)
    }
}

impl IdIndex {
    spec fn wf(&self) -> bool {
        distinct_keys(self.entries@)
    }

    fn new() -> (r: IdIndex)
        ensures
            r@ =~= Map::<Seq<u8>, usize>::empty(),
            r.wf(),
    {
        IdIndex { entries: Vec::new() }
    }

    fn len(&self) -> (n: usize)
        requires
            self.wf(),
        ensures
            self@.dom().finite(),
            n == self@.dom().len(),
    {
        proof {
            lemma_assoc_len(self.entries@);
        }
        self.entries.len()
    }

    fn lookup(&self, k: &Vec<u8>) -> (r: Option<usize>)
        requires
            self.wf(),
        ensures
            match r {
                Some(v) => self@.contains_key(k@) && self@[k@] == v,
                None => !self@.contains_key(k@),
            },
    {
        let n = self.entries.len();
        let mut i: usize = 0;
        while i < n
            invariant
                self.wf(),
                n == self.entries@.len(),
                0 <= i <= n,
                forall|j: int| 0 <= j < i ==> (#[trigger] self.entries@[j]).0@ != k@,
            decreases n - i,
        {
            if bytes_eq(&self.entries[i].0, k) {
                proof {
                    lemma_assoc_at(self.entries@, i as int);
                }
                return Some(self.entries[i].1);
            }
            i = i + 1;
        }
        proof {
            lemma_assoc_contains(self.entries@, k@);
        }
        None
    }

    fn insert(&mut self, k: Vec<u8>, v: usize)
        requires
            old(self).wf(),
            !old(self)@.contains_key(k@),
        ensures
            final(self).wf(),
            final(self)@ =~= old(self)@.insert(k@, v),
    {
        proof {
            lemma_assoc_contains(self.entries@, k@);
        }
        self.entries.push((k, v));
        proof {
            assert(self.entries@.drop_last() =~= old(self).entries@);
        }
    }
}

// ------------------------------------------------------------------
// The builder and its mathematical model
// ------------------------------------------------------------------

/// The mathematical state of a builder: the graph under construction and
/// the three dedup dictionaries.
#[verifier::ext_equal]
pub ghost struct BuilderView {
    pub key: HashKey,
    pub nodes: Seq<Node>,
    pub edges: Seq<Edge>,
    pub rooms: Map<Seq<u8>, usize>,
    pub users: Map<Seq<u8>, usize>,
    pub servers: Map<Seq<u8>, usize>,
}

/// The builder state at the start of a crawl: an empty graph and empty
/// dictionaries under the run's dedup key.
pub open spec fn spec_empty_builder(key: HashKey) -> BuilderView {
    BuilderView {
        key,
        nodes: Seq::empty(),
        edges: Seq::empty(),
        rooms: Map::empty(),
        users: Map::empty(),
        servers: Map::empty(),
    }
}

/// Consistency of a builder state: every dictionary entry points at a node
/// of its kind whose id is the dedup hash of the identifier, and every edge
/// stays inside the arena.
pub open spec fn view_wf(v: BuilderView) -> bool {
    &&& v.nodes.len() <= usize::MAX
    &&& edges_in_bounds(v.edges, v.nodes.len())
    &&& forall|k: Seq<u8>| #[trigger] v.rooms.contains_key(k) ==> v.rooms[k] < v.nodes.len()
        && v.nodes[v.rooms[k] as int] == (Node { kind: NodeType::Room, id: spec_hash_id(v.key, k) })
    &&& forall|k: Seq<u8>| #[trigger] v.users.contains_key(k) ==> v.users[k] < v.nodes.len()
        && v.nodes[v.users[k] as int] == (Node { kind: NodeType::User, id: spec_hash_id(v.key, k) })
    &&& forall|k: Seq<u8>| #[trigger] v.servers.contains_key(k) ==> v.servers[k] < v.nodes.len()
        && v.nodes[v.servers[k] as int] == (Node {
            kind: NodeType::Server,
            id: spec_hash_id(v.key, k),
        })
    &&& forall|k1: Seq<u8>, k2: Seq<u8>|
        v.rooms.contains_key(k1) && v.rooms.contains_key(k2) && #[trigger] v.rooms[k1]
            == #[trigger] v.rooms[k2] ==> k1 == k2
    &&& forall|k1: Seq<u8>, k2: Seq<u8>|
        v.users.contains_key(k1) && v.users.contains_key(k2) && #[trigger] v.users[k1]
            == #[trigger] v.users[k2] ==> k1 == k2
    &&& forall|k1: Seq<u8>, k2: Seq<u8>|
        v.servers.contains_key(k1) && v.servers.contains_key(k2) && #[trigger] v.servers[k1]
            == #[trigger] v.servers[k2] ==> k1 == k2
}

/// The arena position `ensure_room` returns for `rid`.
pub open spec fn spec_room_idx(v: BuilderView, rid: Seq<u8>) -> usize {
    if v.rooms.contains_key(rid) {
        v.rooms[rid]
    } else {
        v.nodes.len() as usize
    }
}

/// The builder state after `ensure_room(rid)`.
pub open spec fn spec_ensure_room(v: BuilderView, rid: Seq<u8>) -> BuilderView {
    if v.rooms.contains_key(rid) {
        v
    } else {
        BuilderView {
            nodes: v.nodes.push(Node { kind: NodeType::Room, id: spec_hash_id(v.key, rid) }),
            rooms: v.rooms.insert(rid, v.nodes.len() as usize),
            ..v
        }
    }
}

/// The arena position `ensure_server` returns for `sid`.
pub open spec fn spec_server_idx(v: BuilderView, sid: Seq<u8>) -> usize {
    if v.servers.contains_key(sid) {
        v.servers[sid]
    } else {
        v.nodes.len() as usize
    }
}

/// The builder state after `ensure_server(sid)`.
pub open spec fn spec_ensure_server(v: BuilderView, sid: Seq<u8>) -> BuilderView {
    if v.servers.contains_key(sid) {
        v
    } else {
        BuilderView {
            nodes: v.nodes.push(Node { kind: NodeType::Server, id: spec_hash_id(v.key, sid) }),
            servers: v.servers.insert(sid, v.nodes.len() as usize),
            ..v
        }
    }
}

/// The arena position `ensure_user` returns for `uid`.
pub open spec fn spec_user_idx(v: BuilderView, uid: Seq<u8>) -> usize {
    if v.users.contains_key(uid) {
        v.users[uid]
    } else {
        v.nodes.len() as usize
    }
}

/// The builder state after `ensure_user(uid, sidx)`: a new user node also
/// gets its unique User-Server edge, eagerly, exactly once.
pub open spec fn spec_ensure_user(v: BuilderView, uid: Seq<u8>, sidx: usize) -> BuilderView {
    if v.users.contains_key(uid) {
        v
    } else {
        BuilderView {
            nodes: v.nodes.push(Node { kind: NodeType::User, id: spec_hash_id(v.key, uid) }),
            users: v.users.insert(uid, v.nodes.len() as usize),
            edges: v.edges.push(Edge { a: v.nodes.len() as usize, b: sidx }),
            ..v
        }
    }
}

/// The builder state after an idempotent edge upsert between `a` and `b`.
pub open spec fn spec_upsert_edge(v: BuilderView, a: usize, b: usize) -> BuilderView {
    BuilderView { edges: spec_update_edge(v.edges, a as int, b as int, Edge { a, b }), ..v }
}

/// The deduplicating graph builder.
pub struct GraphBuilder {
    key: HashKey,
    graph: Graph,
    room_index: IdIndex,
    user_index: IdIndex,
    server_index: IdIndex,
}

impl View for GraphBuilder {
    type V = BuilderView;

    closed spec fn view(&self) -> BuilderView {
        BuilderView {
            key: self.key,
            nodes: self.graph.nodes@,
            edges: self.graph.edges@,
            rooms: self.room_index@,
            users: self.user_index@,
            servers: self.server_index@,
        }
    }
}

impl GraphBuilder {
    /// Representation consistency together with model consistency.
    pub closed spec fn wf(&self) -> bool {
        &&& self.room_index.wf()
        &&& self.user_index.wf()
        &&& self.server_index.wf()
        &&& view_wf(self@)
    }

    /// The model state is consistent whenever the builder is.
    pub proof fn lemma_wf_view(&self)
        requires
            self.wf(),
        ensures
            view_wf(self@),
    {
    }

    /// A fresh builder over an empty graph, using `key` as the run's dedup
    /// and display hash key.
    pub fn new(key: HashKey) -> (b: GraphBuilder)
        ensures
            b@ =~= spec_empty_builder(key),
            b.wf(),
    {
        GraphBuilder {
            key,
            graph: Graph::new(),
            room_index: IdIndex::new(),
            user_index: IdIndex::new(),
            server_index: IdIndex::new(),
        }
    }

    /// Get-or-insert the Room node for a room identifier.
    pub fn ensure_room(&mut self, room_id: &Vec<u8>) -> (idx: usize)
        requires
            old(self).wf(),
        ensures
            final(self).wf(),
            final(self)@ =~= spec_ensure_room(old(self)@, room_id@),
            idx == spec_room_idx(old(self)@, room_id@),
    {
        match self.room_index.lookup(room_id) {
            Some(idx) => idx,
            None => {
                let id = hash_id(self.key, room_id);
                let idx = self.graph.add_node(Node { kind: NodeType::Room, id });
                self.room_index.insert(clone_bytes(room_id), idx);
                idx
            },
        }
    }

    /// Get-or-insert the Server node for a home-server identifier.
    pub fn ensure_server(&mut self, server_id: &Vec<u8>) -> (idx: usize)
        requires
            old(self).wf(),
        ensures
            final(self).wf(),
            final(self)@ =~= spec_ensure_server(old(self)@, server_id@),
            idx == spec_server_idx(old(self)@, server_id@),
    {
        match self.server_index.lookup(server_id) {
            Some(idx) => idx,
            None => {
                let id = hash_id(self.key, server_id);
                let idx = self.graph.add_node(Node { kind: NodeType::Server, id });
                self.server_index.insert(clone_bytes(server_id), idx);
                idx
            },
        }
    }

    /// Get-or-insert the User node for a user identifier. A new user is
    /// linked to its home server's node right away, exactly once.
    pub fn ensure_user(&mut self, user_id: &Vec<u8>, server_idx: usize) -> (idx: usize)
        requires
            old(self).wf(),
            server_idx < old(self)@.nodes.len(),
        ensures
            final(self).wf(),
            final(self)@ =~= spec_ensure_user(old(self)@, user_id@, server_idx),
            idx == spec_user_idx(old(self)@, user_id@),
    {
        match self.user_index.lookup(user_id) {
            Some(idx) => idx,
            None => {
                let id = hash_id(self.key, user_id);
                let idx = self.graph.add_node(Node { kind: NodeType::User, id });
                self.user_index.insert(clone_bytes(user_id), idx);
                self.graph.add_edge(idx, server_idx);
                idx
            },
        }
    }

    /// Records that the user at `user_idx` is joined to the room at
    /// `room_idx` (idempotent).
    pub fn link(&mut self, user_idx: usize, room_idx: usize)
        requires
            old(self).wf(),
            user_idx < old(self)@.nodes.len(),
            room_idx < old(self)@.nodes.len(),
        ensures
            final(self).wf(),
            final(self)@ =~= spec_upsert_edge(old(self)@, user_idx, room_idx),
    {
        self.graph.update_edge(user_idx, room_idx);
    }

    /// Records that the server at `server_idx` has a user in the room at
    /// `room_idx` (idempotent).
    pub fn touch(&mut self, server_idx: usize, room_idx: usize)
        requires
            old(self).wf(),
            server_idx < old(self)@.nodes.len(),
            room_idx < old(self)@.nodes.len(),
        ensures
            final(self).wf(),
            final(self)@ =~= spec_upsert_edge(old(self)@, server_idx, room_idx),
    {
        self.graph.update_edge(server_idx, room_idx);
    }

    /// How many distinct rooms, users and servers the builder has seen, in
    /// that order.
    pub fn counts(&self) -> (r: (usize, usize, usize))
        requires
            self.wf(),
        ensures
            self@.rooms.dom().finite() && r.0 == self@.rooms.dom().len(),
            self@.users.dom().finite() && r.1 == self@.users.dom().len(),
            self@.servers.dom().finite() && r.2 == self@.servers.dom().len(),
    {
        (self.room_index.len(), self.user_index.len(), self.server_index.len())
    }

    /// Hands out the finished graph.
    pub fn into_graph(self) -> (g: Graph)
        ensures
            g.nodes@ == self@.nodes,
            g.edges@ == self@.edges,
    {
        self.graph
    }

    /// Ingests one non-ignored room member: get-or-insert the room, the
    /// member's home server and the member, then record membership and the
    /// server's presence in the room.
    pub fn ingest_member(&mut self, room_id: &Vec<u8>, member: &Vec<u8>)
        requires
            old(self).wf(),
            valid_user_id(member@),
        ensures
            final(self).wf(),
            final(self)@ =~= spec_ingest_member(old(self)@, room_id@, member@),
    {
        let room_idx = self.ensure_room(room_id);
        let server_id = server_part(member);
        let server_idx = self.ensure_server(&server_id);
        let user_idx = self.ensure_user(member, server_idx);
        self.link(user_idx, room_idx);
        self.touch(server_idx, room_idx);
    }

    /// Ingests one room's member list. Members matching the ignore filter
    /// are skipped entirely; in particular the Room node itself is only
    /// created once a first non-ignored member is found. A non-ignored
    /// member that is not a well-formed user id stops the ingest: `Err`
    /// carries its position, the members before it have been ingested.
    pub fn ingest_room(
        &mut self,
        room_id: &Vec<u8>,
        members: &Vec<Vec<u8>>,
        filter: &PatternFilter,
    ) -> (r: Result<(), usize>)
        requires
            old(self).wf(),
        ensures
            final(self).wf(),
            match r {
                Ok(()) => final(self)@ =~= spec_ingest_room(
                    old(self)@,
                    room_id@,
                    members@.map_values(|m: Vec<u8>| m@),
                    filter@,
                ) && members_ingestible(members@.map_values(|m: Vec<u8>| m@), filter@),
                Err(i) => {
                    let ms = members@.map_values(|m: Vec<u8>| m@);
                    &&& 0 <= i < ms.len()
                    &&& !spec_filter_matches(filter@, ms[i as int])
                    &&& !valid_user_id(ms[i as int])
                    &&& final(self)@ =~= spec_ingest_room_upto(
                        old(self)@,
                        room_id@,
                        ms,
                        filter@,
                        i as int,
                    )
                },
            },
    {
        let ghost ms = members@.map_values(|m: Vec<u8>| m@);
        let n = members.len();
        let mut i: usize = 0;
        while i < n
            invariant
                n == members@.len(),
                ms == members@.map_values(|m: Vec<u8>| m@),
                0 <= i <= n,
                self.wf(),
                self@ =~= spec_ingest_room_upto(old(self)@, room_id@, ms, filter@, i as int),
                forall|j: int| 0 <= j < i ==> spec_filter_matches(filter@, #[trigger] ms[j])
                    || valid_user_id(ms[j]),
            decreases n - i,
        {
            assert(ms[i as int] == members@[i as int]@);
            if !filter.matches(&members[i]) {
                if !is_valid_user_id(&members[i]) {
                    return Err(i);
                }
                self.ingest_member(room_id, &members[i]);
            }
            i = i + 1;
        }
        Ok(())
    }
}

/// The builder state after ingesting one member of one room.
pub open spec fn spec_ingest_member(v: BuilderView, rid: Seq<u8>, uid: Seq<u8>) -> BuilderView {
    let ri = spec_room_idx(v, rid);
    let v1 = spec_ensure_room(v, rid);
    let sp = spec_server_part(uid);
    let si = spec_server_idx(v1, sp);
    let v2 = spec_ensure_server(v1, sp);
    let ui = spec_user_idx(v2, uid);
    let v3 = spec_ensure_user(v2, uid, si);
    let v4 = spec_upsert_edge(v3, ui, ri);
    spec_upsert_edge(v4, si, ri)
}

/// The builder state after ingesting the first `n` members of a room's
/// member list, skipping those the filter ignores.
pub open spec fn spec_ingest_room_upto(
    v: BuilderView,
    rid: Seq<u8>,
    members: Seq<Seq<u8>>,
    patterns: Seq<Seq<char>>,
    n: int,
) -> BuilderView
    decreases n,
{
    if n <= 0 {
        v
    } else {
        let prev = spec_ingest_room_upto(v, rid, members, patterns, n - 1);
        if spec_filter_matches(patterns, members[n - 1]) {
            prev
        } else {
            spec_ingest_member(prev, rid, members[n - 1])
        }
    }
}

/// The builder state after ingesting a whole member list of a room.
pub open spec fn spec_ingest_room(
    v: BuilderView,
    rid: Seq<u8>,
    members: Seq<Seq<u8>>,
    patterns: Seq<Seq<char>>,
) -> BuilderView {
    spec_ingest_room_upto(v, rid, members, patterns, members.len() as int)
}

/// Every member of the list is either ignored by the filter or a
/// well-formed user id.
pub open spec fn members_ingestible(members: Seq<Seq<u8>>, patterns: Seq<Seq<char>>) -> bool {
    forall|j: int| 0 <= j < members.len() ==> spec_filter_matches(patterns, #[trigger] members[j])
        || valid_user_id(members[j])
}

// ------------------------------------------------------------------
// Laws of the builder model
// ------------------------------------------------------------------

/// How many nodes of kind `k` the arena holds.
pub open spec fn count_nodes_of_kind(nodes: Seq<Node>, k: NodeType) -> nat
    decreases nodes.len(),
{
    if nodes.len() == 0 {
        0
    } else {
        count_nodes_of_kind(nodes.drop_last(), k) + (if nodes.last().kind == k {
            1nat
        } else {
            0nat
        })
    }
}

/// How many edges connect positions `a` and `b`, in either orientation.
pub open spec fn count_edges_between(edges: Seq<Edge>, a: int, b: int) -> nat
    decreases edges.len(),
{
    if edges.len() == 0 {
        0
    } else {
        count_edges_between(edges.drop_last(), a, b) + (if edge_connects(edges.last(), a, b) {
            1nat
        } else {
            0nat
        })
    }
}

proof fn lemma_count_nodes_push(nodes: Seq<Node>, node: Node, k: NodeType)
    ensures
        count_nodes_of_kind(nodes.push(node), k) == count_nodes_of_kind(nodes, k) + (
        if node.kind == k {
            1nat
        } else {
            0nat
        }),
{
    assert(nodes.push(node).drop_last() =~= nodes);
}

proof fn lemma_count_edges_push(edges: Seq<Edge>, e: Edge, a: int, b: int)
    ensures
        count_edges_between(edges.push(e), a, b) == count_edges_between(edges, a, b) + (
        if edge_connects(e, a, b) {
            1nat
        } else {
            0nat
        }),
{
    assert(edges.push(e).drop_last() =~= edges);
}

proof fn lemma_has_edge_push(edges: Seq<Edge>, e: Edge, a: int, b: int)
    ensures
        spec_has_edge(edges.push(e), a, b) <==> (spec_has_edge(edges, a, b) || edge_connects(
            e,
            a,
            b,
        )),
{
    let p = edges.push(e);
    if spec_has_edge(edges, a, b) {
        let i = choose|i: int| 0 <= i < edges.len() && edge_connects(edges[i], a, b);
        assert(edge_connects(p[i], a, b));
    }
    if edge_connects(e, a, b) {
        assert(edge_connects(p[edges.len() as int], a, b));
    }
    if spec_has_edge(p, a, b) {
        let i = choose|i: int| 0 <= i < p.len() && edge_connects(p[i], a, b);
        if i < edges.len() {
            assert(edge_connects(edges[i], a, b));
        } else {
            assert(p[i] == e);
        }
    }
}

proof fn lemma_count_edges_out_of_bounds(edges: Seq<Edge>, n: nat, a: int, b: int)
    requires
        edges_in_bounds(edges, n),
        a >= n,
    ensures
        count_edges_between(edges, a, b) == 0,
        !spec_has_edge(edges, a, b),
    decreases edges.len(),
{
    if edges.len() > 0 {
        assert(forall|i: int| 0 <= i < edges.len() - 1 ==> edges.drop_last()[i] == edges[i]);
        lemma_count_edges_out_of_bounds(edges.drop_last(), n, a, b);
    }
}

/// Dedup idempotence: a user seen in two different rooms yields exactly
/// one new User node and exactly one User-Server edge, but membership
/// edges into both rooms, which are two distinct edges.
pub proof fn lemma_user_dedup(v: BuilderView, r1: Seq<u8>, r2: Seq<u8>, m: Seq<u8>)
    requires
        view_wf(v),
        v.nodes.len() + 4 <= usize::MAX,
        !v.users.contains_key(m),
        r1 != r2,
    ensures
        ({
            let v2 = spec_ingest_member(spec_ingest_member(v, r1, m), r2, m);
            let sp = spec_server_part(m);
            &&& count_nodes_of_kind(v2.nodes, NodeType::User) == count_nodes_of_kind(
                v.nodes,
                NodeType::User,
            ) + 1
            &&& v2.users =~= v.users.insert(m, v2.users[m])
            &&& count_edges_between(v2.edges, v2.users[m] as int, v2.servers[sp] as int) == 1
            &&& spec_has_edge(v2.edges, v2.users[m] as int, v2.rooms[r1] as int)
            &&& spec_has_edge(v2.edges, v2.users[m] as int, v2.rooms[r2] as int)
            &&& v2.rooms[r1] != v2.rooms[r2]
        }),
{
    let sp = spec_server_part(m);
    let w1 = spec_ensure_room(v, r1);
    let ri1 = spec_room_idx(v, r1);
    let w2 = spec_ensure_server(w1, sp);
    let si = spec_server_idx(w1, sp);
    let ui = spec_user_idx(w2, m);
    let w3 = spec_ensure_user(w2, m, si);
    let w4 = spec_upsert_edge(w3, ui, ri1);
    let w5 = spec_upsert_edge(w4, si, ri1);
    assert(w5 == spec_ingest_member(v, r1, m));

    // the user node is fresh: no earlier edge can touch its position
    assert(ui == w2.nodes.len());
    assert(edges_in_bounds(w2.edges, w2.nodes.len()));
    lemma_count_edges_out_of_bounds(w2.edges, w2.nodes.len(), ui as int, si as int);
    lemma_count_edges_push(w2.edges, Edge { a: ui, b: si }, ui as int, si as int);
    assert(count_edges_between(w3.edges, ui as int, si as int) == 1);

    // the two upserts of the first ingest do not connect ui and si
    assert(ri1 < ui && si < ui);
    assert(w3.nodes[ri1 as int].kind == NodeType::Room);
    assert(w3.nodes[si as int].kind == NodeType::Server);
    assert(ri1 != si);
    if !spec_has_edge(w3.edges, ui as int, ri1 as int) {
        lemma_count_edges_push(w3.edges, Edge { a: ui, b: ri1 }, ui as int, si as int);
    }
    if !spec_has_edge(w4.edges, si as int, ri1 as int) {
        lemma_count_edges_push(w4.edges, Edge { a: si, b: ri1 }, ui as int, si as int);
    }
    assert(count_edges_between(w5.edges, ui as int, si as int) == 1);

    // second ingest: everything but the second room is already present
    let x1 = spec_ensure_room(w5, r2);
    let ri2 = spec_room_idx(w5, r2);
    assert(w5.servers.contains_key(sp) && w5.servers[sp] == si);
    assert(x1.servers.contains_key(sp) && x1.servers[sp] == si);
    let x3 = spec_ensure_user(x1, m, si);
    assert(x3 == x1);
    let x4 = spec_upsert_edge(x3, ui, ri2);
    let x5 = spec_upsert_edge(x4, si, ri2);
    assert(x5 == spec_ingest_member(w5, r2, m));

    // the second room's position differs from the first room's
    assert(w5.nodes.len() >= v.nodes.len() + 1);
    assert(ri1 <= v.nodes.len());
    if v.rooms.contains_key(r2) {
        assert(w5.rooms.contains_key(r2) && w5.rooms[r2] == v.rooms[r2]);
        assert(ri2 == v.rooms[r2] && ri2 < v.nodes.len());
        if v.rooms.contains_key(r1) {
            assert(ri2 != ri1);
        } else {
            assert(ri1 == v.nodes.len());
        }
    } else {
        assert(!w5.rooms.contains_key(r2));
        assert(ri2 == w5.nodes.len());
        assert(ri2 > ri1);
    }

    // the later upserts still do not connect ui and si
    assert(x1.nodes[ri2 as int].kind == NodeType::Room);
    assert(ri2 != si && ri2 != ui);
    if !spec_has_edge(x3.edges, ui as int, ri2 as int) {
        lemma_count_edges_push(x3.edges, Edge { a: ui, b: ri2 }, ui as int, si as int);
    }
    if !spec_has_edge(x4.edges, si as int, ri2 as int) {
        lemma_count_edges_push(x4.edges, Edge { a: si, b: ri2 }, ui as int, si as int);
    }
    assert(count_edges_between(x5.edges, ui as int, si as int) == 1);

    // exactly one User node was created, at the first ingest
    lemma_count_nodes_push(w2.nodes, Node { kind: NodeType::User, id: spec_hash_id(v.key, m) },
        NodeType::User);
    if !v.rooms.contains_key(r1) {
        lemma_count_nodes_push(v.nodes, Node { kind: NodeType::Room, id: spec_hash_id(v.key, r1) },
            NodeType::User);
    }
    if !w1.servers.contains_key(sp) {
        lemma_count_nodes_push(w1.nodes, Node {
            kind: NodeType::Server,
            id: spec_hash_id(v.key, sp),
        }, NodeType::User);
    }
    if !w5.rooms.contains_key(r2) {
        lemma_count_nodes_push(w5.nodes, Node { kind: NodeType::Room, id: spec_hash_id(v.key, r2) },
            NodeType::User);
    }

    // membership edges into both rooms are present at the end
    if !spec_has_edge(w3.edges, ui as int, ri1 as int) {
        lemma_has_edge_push(w3.edges, Edge { a: ui, b: ri1 }, ui as int, ri1 as int);
    }
    assert(spec_has_edge(w4.edges, ui as int, ri1 as int));
    if !spec_has_edge(w4.edges, si as int, ri1 as int) {
        lemma_has_edge_push(w4.edges, Edge { a: si, b: ri1 }, ui as int, ri1 as int);
    }
    assert(spec_has_edge(w5.edges, ui as int, ri1 as int));
    if !spec_has_edge(x3.edges, ui as int, ri2 as int) {
        lemma_has_edge_push(x3.edges, Edge { a: ui, b: ri2 }, ui as int, ri2 as int);
        lemma_has_edge_push(x3.edges, Edge { a: ui, b: ri2 }, ui as int, ri1 as int);
    }
    assert(spec_has_edge(x4.edges, ui as int, ri2 as int));
    assert(spec_has_edge(x4.edges, ui as int, ri1 as int));
    if !spec_has_edge(x4.edges, si as int, ri2 as int) {
        lemma_has_edge_push(x4.edges, Edge { a: si, b: ri2 }, ui as int, ri2 as int);
        lemma_has_edge_push(x4.edges, Edge { a: si, b: ri2 }, ui as int, ri1 as int);
    }
    assert(spec_has_edge(x5.edges, ui as int, ri2 as int));
    assert(spec_has_edge(x5.edges, ui as int, ri1 as int));
}

proof fn lemma_all_ignored_upto(
    v: BuilderView,
    rid: Seq<u8>,
    members: Seq<Seq<u8>>,
    patterns: Seq<Seq<char>>,
    n: int,
)
    requires
        0 <= n <= members.len(),
        forall|j: int| 0 <= j < n ==> spec_filter_matches(patterns, #[trigger] members[j]),
    ensures
        spec_ingest_room_upto(v, rid, members, patterns, n) == v,
    decreases n,
{
    if n > 0 {
        lemma_all_ignored_upto(v, rid, members, patterns, n - 1);
    }
}

/// Filter exclusivity: a room whose members all match the ignore filter
/// leaves the builder exactly as it was. In particular no Room node is
/// created for it, and no member contributes a node or an edge.
pub proof fn lemma_ignored_room_contributes_nothing(
    v: BuilderView,
    rid: Seq<u8>,
    members: Seq<Seq<u8>>,
    patterns: Seq<Seq<char>>,
)
    requires
        forall|j: int| 0 <= j < members.len() ==> spec_filter_matches(
            patterns,
            #[trigger] members[j],
        ),
    ensures
        spec_ingest_room(v, rid, members, patterns) == v,
        !v.rooms.contains_key(rid) ==> !spec_ingest_room(
            v,
            rid,
            members,
            patterns,
        ).rooms.contains_key(rid),
{
    lemma_all_ignored_upto(v, rid, members, patterns, members.len() as int);
}

/// Everything the ingest of one member guarantees to find or create:
/// the room, the member's server, the member, the membership edge and
/// the server-presence edge.
pub open spec fn member_absorbed(v: BuilderView, rid: Seq<u8>, uid: Seq<u8>) -> bool {
    let sp = spec_server_part(uid);
    &&& v.rooms.contains_key(rid)
    &&& v.servers.contains_key(sp)
    &&& v.users.contains_key(uid)
    &&& spec_has_edge(v.edges, v.users[uid] as int, v.rooms[rid] as int)
    &&& spec_has_edge(v.edges, v.servers[sp] as int, v.rooms[rid] as int)
}

proof fn lemma_ingest_absorbed_identity(v: BuilderView, rid: Seq<u8>, uid: Seq<u8>)
    requires
        member_absorbed(v, rid, uid),
    ensures
        spec_ingest_member(v, rid, uid) == v,
{
    assert(spec_ingest_member(v, rid, uid) =~= v);
}

proof fn lemma_ingest_absorbs(v: BuilderView, rid: Seq<u8>, uid: Seq<u8>)
    ensures
        member_absorbed(spec_ingest_member(v, rid, uid), rid, uid),
{
    let sp = spec_server_part(uid);
    let ri = spec_room_idx(v, rid);
    let v1 = spec_ensure_room(v, rid);
    let si = spec_server_idx(v1, sp);
    let v2 = spec_ensure_server(v1, sp);
    let ui = spec_user_idx(v2, uid);
    let v3 = spec_ensure_user(v2, uid, si);
    let v4 = spec_upsert_edge(v3, ui, ri);
    let v5 = spec_upsert_edge(v4, si, ri);
    assert(v5 == spec_ingest_member(v, rid, uid));
    assert(v5.rooms[rid] == ri && v5.servers[sp] == si && v5.users[uid] == ui);
    if !spec_has_edge(v3.edges, ui as int, ri as int) {
        lemma_has_edge_push(v3.edges, Edge { a: ui, b: ri }, ui as int, ri as int);
    }
    assert(spec_has_edge(v4.edges, ui as int, ri as int));
    if !spec_has_edge(v4.edges, si as int, ri as int) {
        lemma_has_edge_push(v4.edges, Edge { a: si, b: ri }, ui as int, ri as int);
        lemma_has_edge_push(v4.edges, Edge { a: si, b: ri }, si as int, ri as int);
    }
    assert(spec_has_edge(v5.edges, ui as int, ri as int));
    assert(spec_has_edge(v5.edges, si as int, ri as int));
}

proof fn lemma_ingest_edges_monotone(v: BuilderView, rid: Seq<u8>, uid: Seq<u8>, a: int, b: int)
    requires
        spec_has_edge(v.edges, a, b),
    ensures
        spec_has_edge(spec_ingest_member(v, rid, uid).edges, a, b),
{
    let sp = spec_server_part(uid);
    let ri = spec_room_idx(v, rid);
    let v1 = spec_ensure_room(v, rid);
    let si = spec_server_idx(v1, sp);
    let v2 = spec_ensure_server(v1, sp);
    let ui = spec_user_idx(v2, uid);
    let v3 = spec_ensure_user(v2, uid, si);
    let v4 = spec_upsert_edge(v3, ui, ri);
    if !v2.users.contains_key(uid) {
        lemma_has_edge_push(v2.edges, Edge { a: ui, b: si }, a, b);
    }
    assert(spec_has_edge(v3.edges, a, b));
    if !spec_has_edge(v3.edges, ui as int, ri as int) {
        lemma_has_edge_push(v3.edges, Edge { a: ui, b: ri }, a, b);
    }
    assert(spec_has_edge(v4.edges, a, b));
    if !spec_has_edge(v4.edges, si as int, ri as int) {
        lemma_has_edge_push(v4.edges, Edge { a: si, b: ri }, a, b);
    }
}

proof fn lemma_ingest_preserves_absorbed(
    v: BuilderView,
    rid0: Seq<u8>,
    uid0: Seq<u8>,
    rid: Seq<u8>,
    uid: Seq<u8>,
)
    requires
        member_absorbed(v, rid0, uid0),
    ensures
        member_absorbed(spec_ingest_member(v, rid, uid), rid0, uid0),
{
    let sp0 = spec_server_part(uid0);
    let w = spec_ingest_member(v, rid, uid);
    assert(w.rooms.contains_key(rid0) && w.rooms[rid0] == v.rooms[rid0]);
    assert(w.servers.contains_key(sp0) && w.servers[sp0] == v.servers[sp0]);
    assert(w.users.contains_key(uid0) && w.users[uid0] == v.users[uid0]);
    lemma_ingest_edges_monotone(v, rid, uid, v.users[uid0] as int, v.rooms[rid0] as int);
    lemma_ingest_edges_monotone(v, rid, uid, v.servers[sp0] as int, v.rooms[rid0] as int);
}

proof fn lemma_upto_absorbs(
    v: BuilderView,
    rid: Seq<u8>,
    members: Seq<Seq<u8>>,
    patterns: Seq<Seq<char>>,
    n: int,
    j: int,
)
    requires
        0 <= j < n <= members.len(),
        !spec_filter_matches(patterns, members[j]),
    ensures
        member_absorbed(spec_ingest_room_upto(v, rid, members, patterns, n), rid, members[j]),
    decreases n,
{
    let prev = spec_ingest_room_upto(v, rid, members, patterns, n - 1);
    if j == n - 1 {
        lemma_ingest_absorbs(prev, rid, members[j]);
    } else {
        lemma_upto_absorbs(v, rid, members, patterns, n - 1, j);
        if !spec_filter_matches(patterns, members[n - 1]) {
            lemma_ingest_preserves_absorbed(prev, rid, members[j], rid, members[n - 1]);
        }
    }
}

proof fn lemma_upto_identity_when_absorbed(
    v: BuilderView,
    rid: Seq<u8>,
    members: Seq<Seq<u8>>,
    patterns: Seq<Seq<char>>,
    n: int,
)
    requires
        0 <= n <= members.len(),
        forall|j: int| 0 <= j < members.len() && !spec_filter_matches(
            patterns,
            #[trigger] members[j],
        ) ==> member_absorbed(v, rid, members[j]),
    ensures
        spec_ingest_room_upto(v, rid, members, patterns, n) == v,
    decreases n,
{
    if n > 0 {
        lemma_upto_identity_when_absorbed(v, rid, members, patterns, n - 1);
        if !spec_filter_matches(patterns, members[n - 1]) {
            lemma_ingest_absorbed_identity(v, rid, members[n - 1]);
        }
    }
}

/// Observing the same room twice with the same member list leaves the
/// builder exactly where the first observation left it: neither the Room
/// node nor any edge is duplicated.
pub proof fn lemma_ingest_room_idempotent(
    v: BuilderView,
    rid: Seq<u8>,
    members: Seq<Seq<u8>>,
    patterns: Seq<Seq<char>>,
)
    ensures
        spec_ingest_room(spec_ingest_room(v, rid, members, patterns), rid, members, patterns)
            == spec_ingest_room(v, rid, members, patterns),
{
    let w = spec_ingest_room(v, rid, members, patterns);
    assert forall|j: int|
        0 <= j < members.len() && !spec_filter_matches(
            patterns,
            #[trigger] members[j],
        ) implies member_absorbed(w, rid, members[j]) by {
        lemma_upto_absorbs(v, rid, members, patterns, members.len() as int, j);
    }
    lemma_upto_identity_when_absorbed(w, rid, members, patterns, members.len() as int);
}

} // verus!
