//! The decision cores of the three network flows.
//!
//! The flows themselves wait, fetch and join over the network; none of
//! that lives here. This module holds the state machines that decide, from
//! plain values handed in by the transport, what to do next: the crawl
//! over the joined rooms with its single immediate retry and its fatal
//! aborts, the invite-following and alias-joining decisions, the
//! leave-everything-but-the-control-room selection, and the transaction-id
//! counter for outgoing messages.

use vstd::prelude::*;

use crate::builder::GraphBuilder;
use crate::builder::spec_empty_builder;
use crate::builder::spec_ingest_room;
use crate::builder::spec_ingest_room_upto;
use crate::builder::members_ingestible;
use crate::filter::PatternFilter;
use crate::filter::spec_filter_matches;
use crate::graph::Graph;
use crate::ids::bytes_eq;
use crate::ids::clone_bytes;
use crate::ids::valid_user_id;
use crate::keyer::HashKey;
use crate::keyer::spec_anonymize_nodes;
use crate::keyer::anonymize_graph;
use crate::keyer::random_u64;
use crate::snapshot::spec_dec;
use crate::snapshot::push_u64;
use crate::snapshot::sp_encode_graph;
use crate::snapshot::encode_graph;
use crate::export::sp_export_dot;
use crate::export::sp_export_graphml;
use crate::export::export_graph_to_dot;
use crate::export::export_graph_to_graphml;
use crate::validate::spec_wellformed_graph;
use crate::validate::is_wellformed_graph;

verus! {

/// Inter-request delay for crawl requests, in milliseconds. These stay on
/// the operator's own home server, so a small delay is enough.
pub const ROOM_CRAWL_DELAY_MS: u64 = 500;

/// Inter-request delay for join and invite-follow requests, in
/// milliseconds. These cross federation boundaries, so the delay is an
/// order of magnitude larger to respect remote rate limits.
pub const ROOM_JOIN_DELAY_MS: u64 = 64000;

// ------------------------------------------------------------------
// Member lists
// ------------------------------------------------------------------

/// A room membership state, as reported by the member-list endpoint.
#[derive(Clone, Copy, Debug, PartialEq, Eq, Structural)]
pub enum Membership {
    Join,
    Invite,
    Leave,
    Ban,
    Knock,
}

/// One membership state event: the state key names the user the event is
/// about, the membership is that user's current state in the room.
pub struct MemberEvent {
    pub membership: Membership,
    pub state_key: Vec<u8>,
}

/// The user ids of the events among the first `k` whose membership is
/// Join, in order.
pub open spec fn sp_joined_ids(events: Seq<MemberEvent>, k: int) -> Seq<Seq<u8>>
    decreases k,
{
    if k <= 0 {
        Seq::empty()
    } else {
        sp_joined_ids(events, k - 1) + (if events[k - 1].membership == Membership::Join {
            seq![events[k - 1].state_key@]
        } else {
            Seq::empty()
        })
    }
}

/// Extracts the ids of the currently joined users from a member-list
/// response, keeping their order.
pub fn joined_member_ids(events: &Vec<MemberEvent>) -> (r: Vec<Vec<u8>>)
    ensures
        r@.map_values(|m: Vec<u8>| m@) =~= sp_joined_ids(events@, events@.len() as int),
{
    let n = events.len();
    let mut r: Vec<Vec<u8>> = Vec::new();
    let mut i: usize = 0;
    while i < n
        invariant
            n == events@.len(),
            0 <= i <= n,
            r@.map_values(|m: Vec<u8>| m@) =~= sp_joined_ids(events@, i as int),
        decreases n - i,
    {
        if events[i].membership == Membership::Join {
            r.push(clone_bytes(&events[i].state_key));
        }
        i = i + 1;
    }
    r
}

// ------------------------------------------------------------------
// The crawl flow
// ------------------------------------------------------------------

/// What the crawl asks its transport to do next.
pub enum CrawlAction {
    /// Wait `delay_ms`, then fetch the member list of `room` and hand the
    /// outcome back to `step`.
    Fetch { room: Vec<u8>, delay_ms: u64 },
    /// A member fetch failed twice in a row: the whole crawl is aborted,
    /// no partial graph is kept.
    AbortFetch,
    /// A member id that no filter ignores is not a well-formed user id:
    /// the whole crawl is aborted. `position` is its index in the
    /// joined-member list just handed in.
    AbortMember { position: usize },
    /// Every room has been crawled: call `finish`.
    RoomsDone,
}

/// What the transport reports back for one member fetch.
pub enum CrawlEvent {
    Members { events: Vec<MemberEvent> },
    FetchFailed,
}

/// The finished products of a crawl: the three exports of the anonymized
/// graph and the distinct-entity counts for the summary report.
pub struct CrawlOutput {
    pub snapshot: Vec<u8>,
    pub graphml: Vec<u8>,
    pub dot: Vec<u8>,
    pub rooms: usize,
    pub users: usize,
    pub servers: usize,
}

/// The crawl in progress: the rooms to visit in enumeration order, the
/// position of the outstanding fetch, whether that fetch already failed
/// once, the member-ignore filter, and the graph under construction.
pub struct CrawlState {
    pub rooms: Vec<Vec<u8>>,
    pub next: usize,
    pub retried: bool,
    pub filter: PatternFilter,
    pub builder: GraphBuilder,
}

impl CrawlState {
    /// A usable crawl state: the builder is consistent and the cursor is
    /// inside the room list (or just past it, when all rooms are done).
    pub open spec fn wf(&self) -> bool {
        &&& self.builder.wf()
        &&& self.next <= self.rooms@.len()
    }

    /// Starts a crawl over `rooms` with a fresh dedup key: the first
    /// action is the delayed fetch of the first room, or `RoomsDone` when
    /// there is none.
    pub fn begin(rooms: Vec<Vec<u8>>, filter: PatternFilter) -> (r: (CrawlState, CrawlAction))
        ensures
            ({
                let (st, a) = r;
                &&& st.wf()
                &&& st.rooms@ == rooms@
                &&& st.next == 0
                &&& st.retried == false
                &&& st.filter@ == filter@
                &&& st.builder@ =~= spec_empty_builder(st.builder@.key)
                &&& match a {
                    CrawlAction::Fetch { room, delay_ms } => rooms@.len() > 0 && room@
                        == rooms@[0]@ && delay_ms == ROOM_CRAWL_DELAY_MS,
                    CrawlAction::RoomsDone => rooms@.len() == 0,
                    _ => false,
                }
            }),
    {
        let builder = GraphBuilder::new(HashKey::fresh());
        let action = if rooms.len() > 0 {
            CrawlAction::Fetch { room: clone_bytes(&rooms[0]), delay_ms: ROOM_CRAWL_DELAY_MS }
        } else {
            CrawlAction::RoomsDone
        };
        (CrawlState { rooms, next: 0, retried: false, filter, builder }, action)
    }

    /// Feeds the outcome of the outstanding fetch into the crawl and
    /// decides what happens next: ingest and move on, retry exactly once
    /// immediately, or abort.
    pub fn step(&mut self, event: CrawlEvent) -> (a: CrawlAction)
        requires
            old(self).wf(),
            old(self).next < old(self).rooms@.len(),
        ensures
            final(self).wf(),
            final(self).rooms@ == old(self).rooms@,
            final(self).filter@ == old(self).filter@,
            match event {
                CrawlEvent::FetchFailed => {
                    &&& final(self).builder@ == old(self).builder@
                    &&& final(self).next == old(self).next
                    &&& if old(self).retried {
                        final(self).retried == old(self).retried && a is AbortFetch
                    } else {
                        final(self).retried && match a {
                            CrawlAction::Fetch { room, delay_ms } => room@ == old(
                                self,
                            ).rooms@[old(self).next as int]@ && delay_ms == 0,
                            _ => false,
                        }
                    }
                },
                CrawlEvent::Members { events } => {
                    let rid = old(self).rooms@[old(self).next as int]@;
                    let ms = sp_joined_ids(events@, events@.len() as int);
                    let pats = old(self).filter@;
                    match a {
                        CrawlAction::AbortMember { position } => {
                            &&& 0 <= position < ms.len()
                            &&& !spec_filter_matches(pats, ms[position as int])
                            &&& !valid_user_id(ms[position as int])
                            &&& final(self).builder@ =~= spec_ingest_room_upto(
                                old(self).builder@,
                                rid,
                                ms,
                                pats,
                                position as int,
                            )
                        },
                        CrawlAction::Fetch { room, delay_ms } => {
                            &&& final(self).builder@ =~= spec_ingest_room(
                                old(self).builder@,
                                rid,
                                ms,
                                pats,
                            )
                            &&& members_ingestible(ms, pats)
                            &&& final(self).next == old(self).next + 1
                            &&& final(self).next < old(self).rooms@.len()
                            &&& final(self).retried == false
                            &&& room@ == old(self).rooms@[final(self).next as int]@
                            &&& delay_ms == ROOM_CRAWL_DELAY_MS
                        },
                        CrawlAction::RoomsDone => {
                            &&& final(self).builder@ =~= spec_ingest_room(
                                old(self).builder@,
                                rid,
                                ms,
                                pats,
                            )
                            &&& members_ingestible(ms, pats)
                            &&& final(self).next == old(self).next + 1
                            &&& final(self).next == old(self).rooms@.len()
                        },
                        CrawlAction::AbortFetch => false,
                    }
                },
            },
    {
        match event {
            CrawlEvent::FetchFailed => {
                if self.retried {
                    CrawlAction::AbortFetch
                } else {
                    self.retried = true;
                    CrawlAction::Fetch { room: clone_bytes(&self.rooms[self.next]), delay_ms: 0 }
                }
            },
            CrawlEvent::Members { events } => {
                let nrooms = self.rooms.len();
                let members = joined_member_ids(&events);
                let room_id = clone_bytes(&self.rooms[self.next]);
                match self.builder.ingest_room(&room_id, &members, &self.filter) {
                    Err(position) => CrawlAction::AbortMember { position },
                    Ok(()) => {
                        self.next = self.next + 1;
                        self.retried = false;
                        if self.next < self.rooms.len() {
                            CrawlAction::Fetch {
                                room: clone_bytes(&self.rooms[self.next]),
                                delay_ms: ROOM_CRAWL_DELAY_MS,
                            }
                        } else {
                            CrawlAction::RoomsDone
                        }
                    },
                }
            },
        }
    }

    /// Validates, anonymizes and renders the finished graph. A malformed
    /// graph is fatal: it is handed back unexported, for diagnostics.
    pub fn finish(self) -> (r: Result<CrawlOutput, Graph>)
        requires
            self.wf(),
        ensures
            match r {
                Ok(out) => {
                    let nodes = self.builder@.nodes;
                    let edges = self.builder@.edges;
                    &&& spec_wellformed_graph(nodes, edges)
                    &&& exists|key: HashKey, salt: u64|
                        {
                            let an = #[trigger] spec_anonymize_nodes(nodes, key, salt);
                            out.snapshot@ == sp_encode_graph(an, edges) && out.graphml@
                                == sp_export_graphml(an, edges) && out.dot@ == sp_export_dot(
                                an,
                                edges,
                            )
                        }
                    &&& out.rooms == self.builder@.rooms.dom().len()
                    &&& out.users == self.builder@.users.dom().len()
                    &&& out.servers == self.builder@.servers.dom().len()
                },
                Err(g) => {
                    &&& !spec_wellformed_graph(self.builder@.nodes, self.builder@.edges)
                    &&& g.nodes@ == self.builder@.nodes
                    &&& g.edges@ == self.builder@.edges
                },
            },
    {
        let (rooms, users, servers) = self.builder.counts();
        let g = self.builder.into_graph();
        if !is_wellformed_graph(&g) {
            return Err(g);
        }
        let ghost nodes0 = g.nodes@;
        let ag = anonymize_graph(g);
        let snapshot = encode_graph(&ag);
        let graphml = export_graph_to_graphml(&ag);
        let dot = export_graph_to_dot(&ag);
        proof {
            let (key, salt) = choose|key: HashKey, salt: u64|
                ag.nodes@ == spec_anonymize_nodes(nodes0, key, salt);
            assert(snapshot@ == sp_encode_graph(spec_anonymize_nodes(nodes0, key, salt), ag.edges@));
        }
        Ok(CrawlOutput { snapshot, graphml, dot, rooms, users, servers })
    }
}

// ------------------------------------------------------------------
// The join flow
// ------------------------------------------------------------------

/// One stripped state event of a pending invite, reduced to what the
/// decision reads: whether it announces the room's canonical alias, and
/// that alias if the event carries one.
pub enum InviteStateEvent {
    CanonicalAlias { alias: Option<Vec<u8>> },
    Other,
}

/// The canonical alias announced by the first alias event among the first
/// `k` that carries one.
pub open spec fn sp_first_alias(events: Seq<InviteStateEvent>, k: int) -> Option<Seq<u8>>
    decreases k,
{
    if k <= 0 {
        None
    } else {
        match sp_first_alias(events, k - 1) {
            Some(a) => Some(a),
            None => match events[k - 1] {
                InviteStateEvent::CanonicalAlias { alias: Some(a) } => Some(a@),
                _ => None,
            },
        }
    }
}

/// The canonical alias of an invited room, if its invite state announces
/// one.
pub fn first_canonical_alias(events: &Vec<InviteStateEvent>) -> (r: Option<Vec<u8>>)
    ensures
        match r {
            Some(a) => sp_first_alias(events@, events@.len() as int) == Some(a@),
            None => sp_first_alias(events@, events@.len() as int) is None,
        },
{
    let n = events.len();
    let mut i: usize = 0;
    while i < n
        invariant
            n == events@.len(),
            0 <= i <= n,
            sp_first_alias(events@, i as int) is None,
        decreases n - i,
    {
        match &events[i] {
            InviteStateEvent::CanonicalAlias { alias: Some(a) } => {
                let found = clone_bytes(a);
                proof {
                    assert(sp_first_alias(events@, i + 1) == Some(found@));
                    assert forall|k: int| i + 1 <= k <= n implies sp_first_alias(events@, k)
                        == Some(found@) by {
                        lemma_first_alias_stable(events@, i + 1, k, found@);
                    }
                }
                return Some(found);
            },
            _ => {},
        }
        i = i + 1;
    }
    None
}

proof fn lemma_first_alias_stable(events: Seq<InviteStateEvent>, k0: int, k: int, a: Seq<u8>)
    requires
        k0 <= k,
        sp_first_alias(events, k0) == Some(a),
    ensures
        sp_first_alias(events, k) == Some(a),
    decreases k - k0,
{
    if k > k0 {
        lemma_first_alias_stable(events, k0, k - 1, a);
    }
}

/// What to do with one pending invite.
pub enum InviteAction {
    /// The room's canonical alias matches the room-ignore filter: skip it.
    Skip { alias: Vec<u8> },
    /// Join by the canonical alias.
    JoinByAlias { alias: Vec<u8> },
    /// No canonical alias announced: join by the raw room id.
    JoinById { room_id: Vec<u8> },
}

/// Decides how to handle one pending invite: resolve its canonical alias
/// from the invite state if present, skip rooms the alias filter ignores,
/// fall back to the raw room id otherwise.
pub fn invite_action(
    room_id: &Vec<u8>,
    events: &Vec<InviteStateEvent>,
    room_filter: &PatternFilter,
) -> (a: InviteAction)
    ensures
        ({
            let found = sp_first_alias(events@, events@.len() as int);
            match a {
                InviteAction::Skip { alias } => found == Some(alias@) && spec_filter_matches(
                    room_filter@,
                    alias@,
                ),
                InviteAction::JoinByAlias { alias } => found == Some(alias@)
                    && !spec_filter_matches(room_filter@, alias@),
                InviteAction::JoinById { room_id: rid } => found is None && rid@ == room_id@,
            }
        }),
{
    match first_canonical_alias(events) {
        Some(alias) => {
            if room_filter.matches(&alias) {
                InviteAction::Skip { alias }
            } else {
                InviteAction::JoinByAlias { alias }
            }
        },
        None => InviteAction::JoinById { room_id: clone_bytes(room_id) },
    }
}

/// Whether `x` occurs in `list`.
pub open spec fn sp_contains_bytes(list: Seq<Vec<u8>>, x: Seq<u8>) -> bool {
    exists|i: int| 0 <= i < list.len() && list[i]@ == x
}

fn contains_bytes(list: &Vec<Vec<u8>>, x: &Vec<u8>) -> (r: bool)
    ensures
        r == sp_contains_bytes(list@, x@),
{
    let n = list.len();
    let mut i: usize = 0;
    while i < n
        invariant
            n == list@.len(),
            0 <= i <= n,
            forall|j: int| 0 <= j < i ==> list@[j]@ != x@,
        decreases n - i,
    {
        if bytes_eq(&list[i], x) {
            assert(list@[i as int]@ == x@);
            return true;
        }
        i = i + 1;
    }
    false
}

/// Whether a freshly resolved room should be joined: only if the account
/// is not already joined to it, was not invited to it (invites are
/// followed separately), and has not left or been removed from it.
pub fn should_join(
    room_id: &Vec<u8>,
    joined: &Vec<Vec<u8>>,
    invited: &Vec<Vec<u8>>,
    left: &Vec<Vec<u8>>,
) -> (r: bool)
    ensures
        r == (!sp_contains_bytes(joined@, room_id@) && !sp_contains_bytes(invited@, room_id@)
            && !sp_contains_bytes(left@, room_id@)),
{
    !contains_bytes(joined, room_id) && !contains_bytes(invited, room_id) && !contains_bytes(
        left,
        room_id,
    )
}

// ------------------------------------------------------------------
// The leave flow
// ------------------------------------------------------------------

/// The first `k` rooms of `list`, without every occurrence of `x`.
pub open spec fn sp_without(list: Seq<Seq<u8>>, x: Seq<u8>, k: int) -> Seq<Seq<u8>>
    decreases k,
{
    if k <= 0 {
        Seq::empty()
    } else {
        sp_without(list, x, k - 1) + (if list[k - 1] == x {
            Seq::<Seq<u8>>::empty()
        } else {
            seq![list[k - 1]]
        })
    }
}

/// The rooms to depart from: every joined room except the control room,
/// selected explicitly by id, in enumeration order.
pub fn rooms_to_leave(joined: &Vec<Vec<u8>>, control_room: &Vec<u8>) -> (r: Vec<Vec<u8>>)
    ensures
        r@.map_values(|m: Vec<u8>| m@) =~= sp_without(
            joined@.map_values(|m: Vec<u8>| m@),
            control_room@,
            joined@.len() as int,
        ),
{
    let n = joined.len();
    let mut r: Vec<Vec<u8>> = Vec::new();
    let mut i: usize = 0;
    while i < n
        invariant
            n == joined@.len(),
            0 <= i <= n,
            r@.map_values(|m: Vec<u8>| m@) =~= sp_without(
                joined@.map_values(|m: Vec<u8>| m@),
                control_room@,
                i as int,
            ),
        decreases n - i,
    {
        if !bytes_eq(&joined[i], control_room) {
            r.push(clone_bytes(&joined[i]));
        }
        i = i + 1;
    }
    r
}

// ------------------------------------------------------------------
// Transaction ids
// ------------------------------------------------------------------

/// The counter behind outgoing-message transaction ids. It is seeded once
/// per run and each message takes the next value, so ids stay unique while
/// the same session token is reused.
pub struct TxnCounter {
    pub next: u64,
}

impl TxnCounter {
    /// A counter starting at `seed`.
    pub fn new(seed: u64) -> (c: TxnCounter)
        ensures
            c.next == seed,
    {
        TxnCounter { next: seed }
    }

    /// A counter seeded randomly, as a fresh run starts.
    pub fn fresh() -> TxnCounter {
        TxnCounter { next: random_u64() }
    }

    /// Takes the next transaction id, as decimal text, and advances the
    /// counter (wrapping at the 64-bit boundary).
    pub fn take(&mut self) -> (id: Vec<u8>)
        ensures
            id@ =~= spec_dec(old(self).next as nat),
            final(self).next == old(self).next.wrapping_add(1),
    {
        let mut id: Vec<u8> = Vec::new();
        push_u64(&mut id, self.next);
        self.next = self.next.wrapping_add(1);
        id
    }
}

} // verus!
