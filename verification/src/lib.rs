//! Crawl-to-graph pipeline for a federated chat network.
//!
//! The library builds a deduplicated three-kind relationship graph
//! (rooms, users, home servers) from crawled room membership lists,
//! validates its structural invariants, pseudonymizes every node id
//! with a run-scoped key, and renders the result in three textual
//! export formats. The network transport around it is unverified and
//! lives outside this crate; it hands the library plain values.

pub mod builder;
pub mod export;
pub mod filter;
pub mod snapshot;
pub mod graph;
pub mod ids;
pub mod keyer;
pub mod orchestrate;
pub mod validate;

pub use builder::GraphBuilder;
pub use export::export_graph_to_dot;
pub use export::export_graph_to_graphml;
pub use filter::PatternFilter;
pub use graph::Edge;
pub use graph::Graph;
pub use graph::Node;
pub use graph::NodeType;
pub use ids::bytes_eq;
pub use ids::is_valid_user_id;
pub use ids::server_part;
pub use keyer::HashKey;
pub use keyer::anonymize_graph;
pub use keyer::anonymize_graph_with;
pub use keyer::hash_id;
pub use keyer::hash_salted;
pub use orchestrate::CrawlAction;
pub use orchestrate::CrawlEvent;
pub use orchestrate::CrawlOutput;
pub use orchestrate::CrawlState;
pub use orchestrate::InviteAction;
pub use orchestrate::InviteStateEvent;
pub use orchestrate::MemberEvent;
pub use orchestrate::Membership;
pub use orchestrate::ROOM_CRAWL_DELAY_MS;
pub use orchestrate::ROOM_JOIN_DELAY_MS;
pub use orchestrate::TxnCounter;
pub use orchestrate::first_canonical_alias;
pub use orchestrate::invite_action;
pub use orchestrate::joined_member_ids;
pub use orchestrate::rooms_to_leave;
pub use orchestrate::should_join;
pub use snapshot::decode_graph;
pub use snapshot::encode_graph;
pub use validate::is_wellformed_graph;
pub use validate::is_wellformed_node;
pub use validate::neighbor_counts;
pub use validate::neighbors_of_kind;
