//! Pseudonymization: a per-run random key and a keyed 64-bit hash.
//!
//! The crawl uses the unsalted form purely as a space-efficient dedup and
//! display id for nodes; the anonymization pass draws one run-scoped random
//! salt and rewrites every node id with the salted form, leaving the graph
//! topology untouched. Keys and salts are drawn fresh for every run, so ids
//! are not comparable across runs.

use vstd::prelude::*;

use crate::graph::Graph;
use crate::graph::Node;

verus! {

/// Multiplier of the mixing round (the 64-bit FNV prime).
pub const MIX_PRIME: u64 = 0x100000001b3;

/// A run-scoped pseudonymization key.
#[derive(Clone, Copy, Debug, PartialEq, Eq, Structural)]
pub struct HashKey {
    pub k0: u64,
    pub k1: u64,
}

/// One mixing round: fold `v` into the running state `h`.
pub open spec fn spec_mix(h: u64, v: u64) -> u64 {
    (h ^ v).wrapping_mul(MIX_PRIME)
}

/// The running hash state after folding the first `n` bytes of `s` into `h0`.
pub open spec fn spec_hash_state(h0: u64, s: Seq<u8>, n: int) -> u64
    decreases n,
{
    if n <= 0 {
        h0
    } else {
        spec_mix(spec_hash_state(h0, s, n - 1), s[n - 1] as u64)
    }
}

/// The dedup/display id of an identifier under `key` (unsalted form).
pub open spec fn spec_hash_id(key: HashKey, s: Seq<u8>) -> u64 {
    spec_mix(spec_hash_state(key.k0, s, s.len() as int), key.k1)
}

/// The anonymized id of `value` under `key` and the run-scoped `salt`.
pub open spec fn spec_hash_salted(key: HashKey, value: u64, salt: u64) -> u64 {
    spec_mix(spec_mix(spec_mix(key.k0, value), salt), key.k1)
}

/// Relies on `rand::random`: a fresh 64-bit value from the thread-local,
/// cryptographically seeded generator. Nothing is promised of the value.
#[verifier::external_body]
pub(crate) fn random_u64() -> u64 {
    rand::random()
}

impl HashKey {
    /// Draws a fresh pseudonymization key, valid for one run.
    pub fn fresh() -> HashKey {
        HashKey { k0: random_u64(), k1: random_u64() }
    }
}

/// Hashes an identifier with `key` (the unsalted, dedup/display form).
pub fn hash_id(key: HashKey, id: &Vec<u8>) -> (r: u64)
    ensures
        r == spec_hash_id(key, id@),
{
    let mut h: u64 = key.k0;
    let mut i: usize = 0;
    let n = id.len();
    while i < n
        invariant
            n == id@.len(),
            0 <= i <= n,
            h == spec_hash_state(key.k0, id@, i as int),
        decreases n - i,
    {
        h = (h ^ (id[i] as u64)).wrapping_mul(MIX_PRIME);
        i = i + 1;
    }
    (h ^ key.k1).wrapping_mul(MIX_PRIME)
}

/// Hashes a node id with `key`, salted with the run-scoped `salt`.
pub fn hash_salted(key: HashKey, value: u64, salt: u64) -> (r: u64)
    ensures
        r == spec_hash_salted(key, value, salt),
{
    let h = (key.k0 ^ value).wrapping_mul(MIX_PRIME);
    let h = (h ^ salt).wrapping_mul(MIX_PRIME);
    (h ^ key.k1).wrapping_mul(MIX_PRIME)
}

/// The anonymized node list: the same kinds at the same positions, with
/// every id rewritten by the salted hash.
pub open spec fn spec_anonymize_nodes(nodes: Seq<Node>, key: HashKey, salt: u64) -> Seq<Node> {
    Seq::new(
        nodes.len(),
        |i: int| Node { kind: nodes[i].kind, id: spec_hash_salted(key, nodes[i].id, salt) },
    )
}

/// Topology preservation under anonymization: the rewritten node list has
/// the same length and the same kind at every position; only ids change.
pub proof fn lemma_anonymize_preserves_topology(nodes: Seq<Node>, key: HashKey, salt: u64)
    ensures
        spec_anonymize_nodes(nodes, key, salt).len() == nodes.len(),
        forall|i: int| 0 <= i < nodes.len() ==> spec_anonymize_nodes(nodes, key, salt)[i].kind
            == (#[trigger] nodes[i]).kind,
        forall|i: int| 0 <= i < nodes.len() ==> spec_anonymize_nodes(nodes, key, salt)[i].id
            == spec_hash_salted(key, (#[trigger] nodes[i]).id, salt),
{
}

/// Rewrites every node id with the salted hash under the given key and salt.
/// The node count, the kind at every position and the edge list are unchanged.
pub fn anonymize_graph_with(graph: Graph, key: HashKey, salt: u64) -> (r: Graph)
    ensures
        r.nodes@ =~= spec_anonymize_nodes(graph.nodes@, key, salt),
        r.edges@ == graph.edges@,
{
    let Graph { mut nodes, edges } = graph;
    let n = nodes.len();
    let mut i: usize = 0;
    while i < n
        invariant
            n == nodes@.len(),
            n == graph.nodes@.len(),
            0 <= i <= n,
            forall|j: int| i <= j < n ==> nodes@[j] == #[trigger] graph.nodes@[j],
            forall|j: int| 0 <= j < i ==> nodes@[j].kind == #[trigger] graph.nodes@[j].kind,
            forall|j: int| 0 <= j < i ==> nodes@[j].id == spec_hash_salted(
                key,
                #[trigger] graph.nodes@[j].id,
                salt,
            ),
        decreases n - i,
    {
        let kind = nodes[i].kind;
        let id = hash_salted(key, nodes[i].id, salt);
        nodes[i] = Node { kind, id };
        i = i + 1;
    }
    Graph { nodes, edges }
}

/// Anonymizes a finished graph with a fresh run-scoped key and salt.
/// Topology is preserved; the ids are a salted keyed hash of the old ids
/// and are not reproducible across runs, since key and salt are drawn anew.
pub fn anonymize_graph(graph: Graph) -> (r: Graph)
    ensures
        r.edges@ == graph.edges@,
        r.nodes@.len() == graph.nodes@.len(),
        forall|i: int| 0 <= i < graph.nodes@.len() ==> r.nodes@[i].kind == (
        #[trigger] graph.nodes@[i]).kind,
        exists|key: HashKey, salt: u64| r.nodes@ == spec_anonymize_nodes(
            graph.nodes@,
            key,
            salt,
        ),
{
    let key = HashKey::fresh();
    let salt = random_u64();
    let r = anonymize_graph_with(graph, key, salt);
    proof {
        assert(r.nodes@ == spec_anonymize_nodes(graph.nodes@, key, salt));
    }
    r
}

} // verus!
