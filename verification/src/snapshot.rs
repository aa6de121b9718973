//! The structured graph snapshot: a JSON-shaped byte format holding the
//! node list and the edge endpoint-pair list, written and read back by
//! this module alone. Decoding an encoded graph gives the graph back
//! exactly; the surrounding process only moves the bytes to and from disk.

use vstd::prelude::*;

use crate::graph::Edge;
use crate::graph::Graph;
use crate::graph::Node;
use crate::graph::NodeType;

verus! {

/// Whether `c` is an ASCII decimal digit.
pub open spec fn is_digit(c: u8) -> bool {
    48 <= c <= 57
}

/// The decimal digits of `n`, most significant first.
pub open spec fn spec_dec(n: nat) -> Seq<u8>
    decreases n,
{
    if n < 10 {
        seq![(48 + n) as u8]
    } else {
        spec_dec(n / 10).push((48 + n % 10) as u8)
    }
}

/// Ten to the `k`.
pub open spec fn pow10(k: nat) -> nat
    decreases k,
{
    if k == 0 {
        1
    } else {
        10 * pow10((k - 1) as nat)
    }
}

proof fn lemma_dec_shape(n: nat)
    ensures
        spec_dec(n).len() >= 1,
        forall|i: int| 0 <= i < spec_dec(n).len() ==> is_digit(#[trigger] spec_dec(n)[i]),
        n < pow10(spec_dec(n).len()),
        n >= 10 ==> spec_dec(n).len() >= 2,
    decreases n,
{
    if n >= 10 {
        lemma_dec_shape(n / 10);
        assert forall|i: int| 0 <= i < spec_dec(n).len() implies is_digit(
            #[trigger] spec_dec(n)[i],
        ) by {
            if i < spec_dec(n).len() - 1 {
                assert(spec_dec(n)[i] == spec_dec(n / 10)[i]);
            }
        }
        assert(n < 10 * pow10(spec_dec(n / 10).len())) by {
            assert(n / 10 + 1 <= pow10(spec_dec(n / 10).len()));
            assert(10 * (n / 10 + 1) <= 10 * pow10(spec_dec(n / 10).len())) by (nonlinear_arith)
                requires
                    n / 10 + 1 <= pow10(spec_dec(n / 10).len()),
            ;
        }
        assert(spec_dec(n).len() == spec_dec(n / 10).len() + 1);
        assert(pow10(spec_dec(n).len()) == 10 * pow10(spec_dec(n / 10).len()));
    } else {
        assert(spec_dec(n).len() == 1);
        assert(pow10(1) == 10 * pow10(0));
    }
}

/// Appends the decimal digits of `x` to `out`.
pub fn push_u64(out: &mut Vec<u8>, x: u64)
    ensures
        final(out)@ =~= old(out)@ + spec_dec(x as nat),
    decreases x,
{
    if x >= 10 {
        push_u64(out, x / 10);
    }
    out.push(48 + (x % 10) as u8);
}

/// One step of greedy decimal parsing: consumes digits from position `i`
/// into the accumulator, rejecting values that do not fit in 64 bits.
pub open spec fn sp_u64_loop(s: Seq<u8>, i: int, acc: u64) -> Option<(u64, int)>
    decreases s.len() - i,
{
    if i < s.len() && is_digit(s[i]) {
        let d = (s[i] - 48) as u64;
        if acc > (u64::MAX - d) / 10 {
            None
        } else {
            sp_u64_loop(s, i + 1, (acc * 10 + d) as u64)
        }
    } else {
        Some((acc, i))
    }
}

/// Greedy decimal parse at position `i`: at least one digit, all
/// following digits consumed, overflow rejected.
pub open spec fn sp_u64(s: Seq<u8>, i: int) -> Option<(u64, int)> {
    if 0 <= i < s.len() && is_digit(s[i]) {
        sp_u64_loop(s, i, 0)
    } else {
        None
    }
}

/// Consumes the digits of `spec_dec(n)` lying in `s` at position `i`,
/// folding them onto an accumulator small enough not to overflow.
proof fn lemma_parse_dec_gen(s: Seq<u8>, i: int, acc: u64, n: u64)
    requires
        0 <= i,
        i + spec_dec(n as nat).len() <= s.len(),
        s.subrange(i, i + spec_dec(n as nat).len() as int) =~= spec_dec(n as nat),
        acc * pow10(spec_dec(n as nat).len()) + n <= u64::MAX,
    ensures
        sp_u64_loop(s, i, acc) == sp_u64_loop(
            s,
            i + spec_dec(n as nat).len(),
            (acc * pow10(spec_dec(n as nat).len()) + n) as u64,
        ),
    decreases n,
{
    let l = spec_dec(n as nat).len() as int;
    lemma_dec_shape(n as nat);
    if n < 10 {
        assert(l == 1);
        assert(pow10(1) == 10 * pow10(0));
        assert(s.subrange(i, i + 1)[0] == s[i]);
        assert(s[i] == (48 + n) as u8);
        assert(is_digit(s[i]));
        assert((s[i] - 48) as u64 == n);
        assert(acc * 10 + n <= u64::MAX);
        assert(acc <= (u64::MAX - n) / 10);
    } else {
        let m = (n / 10) as u64;
        let lm = spec_dec(m as nat).len() as int;
        lemma_dec_shape(m as nat);
        assert(spec_dec(n as nat) =~= spec_dec(m as nat).push((48 + n % 10) as u8));
        assert(lm == l - 1);
        assert(s.subrange(i, i + lm) =~= spec_dec(m as nat)) by {
            assert(forall|j: int| 0 <= j < lm ==> #[trigger] s.subrange(i, i + l)[j] == s[i + j]);
        }
        assert(pow10(spec_dec(n as nat).len()) == 10 * pow10(spec_dec(m as nat).len()));
        assert((acc * pow10((lm) as nat) + m) * 10 + (n % 10) == acc * pow10((l) as nat) + n)
            by (nonlinear_arith)
            requires
                pow10((l) as nat) == 10 * pow10((lm) as nat),
                m == n / 10,
                n >= 10,
        ;
        assert(acc * pow10((lm) as nat) + m <= u64::MAX) by (nonlinear_arith)
            requires
                acc * pow10((l) as nat) + n <= u64::MAX,
                pow10((l) as nat) == 10 * pow10((lm) as nat),
                m == n / 10,
                n >= 10,
                acc >= 0,
                pow10((lm) as nat) >= 1,
        ;
        lemma_parse_dec_gen(s, i, acc, m);
        let acc2 = (acc * pow10((lm) as nat) + m) as u64;
        assert(s.subrange(i, i + l)[lm] == s[i + lm]);
        assert(s[i + lm] == spec_dec(n as nat)[lm]);
        assert(s[i + lm] == (48 + n % 10) as u8);
        assert(is_digit(s[i + lm]));
        assert((s[i + lm] - 48) as u64 == n % 10);
        assert(acc2 <= (u64::MAX - (n % 10) as u64) / 10);
        assert(sp_u64_loop(s, i + lm, acc2) == sp_u64_loop(s, i + l, (acc2 * 10 + n % 10) as u64));
    }
}

/// Parsing right after printing gives the number back: if the bytes at
/// `i` are the decimal digits of `n` and whatever follows them is not a
/// digit, the greedy parse returns `n` and stops right after them.
pub proof fn lemma_parse_dec(s: Seq<u8>, i: int, n: u64)
    requires
        0 <= i,
        i + spec_dec(n as nat).len() <= s.len(),
        s.subrange(i, i + spec_dec(n as nat).len() as int) =~= spec_dec(n as nat),
        i + spec_dec(n as nat).len() == s.len() || !is_digit(s[i + spec_dec(n as nat).len()]),
    ensures
        sp_u64(s, i) == Some((n, i + spec_dec(n as nat).len() as int)),
{
    let l = spec_dec(n as nat).len() as int;
    lemma_dec_shape(n as nat);
    assert(pow10(spec_dec(n as nat).len()) >= 1);
    assert(0 * pow10(spec_dec(n as nat).len()) + n <= u64::MAX);
    lemma_parse_dec_gen(s, i, 0, n);
    assert(s[i] == spec_dec(n as nat)[0]);
    assert((0 * pow10(spec_dec(n as nat).len()) + n) as u64 == n);
}

/// Greedy decimal parsing, the executable form of `sp_u64_loop`.
fn parse_u64_loop(s: &Vec<u8>, i: usize, acc: u64) -> (r: Option<(u64, usize)>)
    requires
        i <= s@.len(),
    ensures
        match r {
            Some((v, j)) => sp_u64_loop(s@, i as int, acc) == Some((v, j as int)) && i <= j
                <= s@.len(),
            None => sp_u64_loop(s@, i as int, acc) is None,
        },
    decreases s@.len() - i,
{
    if i < s.len() && 48 <= s[i] && s[i] <= 57 {
        let d = (s[i] - 48) as u64;
        if acc > (u64::MAX - d) / 10 {
            None
        } else {
            parse_u64_loop(s, i + 1, acc * 10 + d)
        }
    } else {
        Some((acc, i))
    }
}

/// Parses a decimal number at position `i`, the executable form of
/// `sp_u64`.
pub fn parse_u64(s: &Vec<u8>, i: usize) -> (r: Option<(u64, usize)>)
    requires
        i <= s@.len(),
    ensures
        match r {
            Some((v, j)) => sp_u64(s@, i as int) == Some((v, j as int)) && i <= j <= s@.len(),
            None => sp_u64(s@, i as int) is None,
        },
{
    if i < s.len() && 48 <= s[i] && s[i] <= 57 {
        parse_u64_loop(s, i, 0)
    } else {
        None
    }
}

// ------------------------------------------------------------------
// The format's literal pieces
// ------------------------------------------------------------------

/// The bytes of `{"nodes":[`.
pub open spec fn lit_header() -> Seq<u8> {
    seq![123u8, 34u8, 110u8, 111u8, 100u8, 101u8, 115u8, 34u8, 58u8, 91u8]
}

/// The bytes of `],"edges":[`.
pub open spec fn lit_mid() -> Seq<u8> {
    seq![93u8, 44u8, 34u8, 101u8, 100u8, 103u8, 101u8, 115u8, 34u8, 58u8, 91u8]
}

/// The bytes of `]}`.
pub open spec fn lit_footer() -> Seq<u8> {
    seq![93u8, 125u8]
}

/// The bytes of `{"kind":"`.
pub open spec fn lit_node_open() -> Seq<u8> {
    seq![123u8, 34u8, 107u8, 105u8, 110u8, 100u8, 34u8, 58u8, 34u8]
}

/// The bytes of `","id":`.
pub open spec fn lit_node_mid() -> Seq<u8> {
    seq![34u8, 44u8, 34u8, 105u8, 100u8, 34u8, 58u8]
}

/// The bytes of `room`, `user` and `server`: the kind words.
pub open spec fn lit_kind(k: NodeType) -> Seq<u8> {
    match k {
        NodeType::Room => seq![114u8, 111u8, 111u8, 109u8],
        NodeType::User => seq![117u8, 115u8, 101u8, 114u8],
        NodeType::Server => seq![115u8, 101u8, 114u8, 118u8, 101u8, 114u8],
    }
}

fn make_lit_header() -> (v: Vec<u8>)
    ensures
        v@ =~= lit_header(),
{
    let mut v: Vec<u8> = Vec::new();
    v.push(123);
    v.push(34);
    v.push(110);
    v.push(111);
    v.push(100);
    v.push(101);
    v.push(115);
    v.push(34);
    v.push(58);
    v.push(91);
    v
}

fn make_lit_mid() -> (v: Vec<u8>)
    ensures
        v@ =~= lit_mid(),
{
    let mut v: Vec<u8> = Vec::new();
    v.push(93);
    v.push(44);
    v.push(34);
    v.push(101);
    v.push(100);
    v.push(103);
    v.push(101);
    v.push(115);
    v.push(34);
    v.push(58);
    v.push(91);
    v
}

fn make_lit_footer() -> (v: Vec<u8>)
    ensures
        v@ =~= lit_footer(),
{
    let mut v: Vec<u8> = Vec::new();
    v.push(93);
    v.push(125);
    v
}

fn make_lit_node_open() -> (v: Vec<u8>)
    ensures
        v@ =~= lit_node_open(),
{
    let mut v: Vec<u8> = Vec::new();
    v.push(123);
    v.push(34);
    v.push(107);
    v.push(105);
    v.push(110);
    v.push(100);
    v.push(34);
    v.push(58);
    v.push(34);
    v
}

fn make_lit_node_mid() -> (v: Vec<u8>)
    ensures
        v@ =~= lit_node_mid(),
{
    let mut v: Vec<u8> = Vec::new();
    v.push(34);
    v.push(44);
    v.push(34);
    v.push(105);
    v.push(100);
    v.push(34);
    v.push(58);
    v
}

fn make_lit_kind(k: NodeType) -> (v: Vec<u8>)
    ensures
        v@ =~= lit_kind(k),
{
    let mut v: Vec<u8> = Vec::new();
    match k {
        NodeType::Room => {
            v.push(114);
            v.push(111);
            v.push(111);
            v.push(109);
        },
        NodeType::User => {
            v.push(117);
            v.push(115);
            v.push(101);
            v.push(114);
        },
        NodeType::Server => {
            v.push(115);
            v.push(101);
            v.push(114);
            v.push(118);
            v.push(101);
            v.push(114);
        },
    }
    v
}

/// Appends `lit` to `out`.
fn push_bytes(out: &mut Vec<u8>, lit: &Vec<u8>)
    ensures
        final(out)@ =~= old(out)@ + lit@,
{
    let n = lit.len();
    let mut i: usize = 0;
    while i < n
        invariant
            n == lit@.len(),
            0 <= i <= n,
            out@ =~= old(out)@ + lit@.subrange(0, i as int),
        decreases n - i,
    {
        out.push(lit[i]);
        i = i + 1;
    }
}

/// Whether the bytes at position `i` are exactly `lit`; on success the
/// position right after them.
pub open spec fn sp_expect(s: Seq<u8>, i: int, lit: Seq<u8>) -> Option<int> {
    if 0 <= i && i + lit.len() <= s.len() && s.subrange(i, i + lit.len() as int) == lit {
        Some(i + lit.len() as int)
    } else {
        None
    }
}

/// Checks the bytes at position `i` against `lit`, the executable form
/// of `sp_expect`.
fn expect_bytes(s: &Vec<u8>, i: usize, lit: &Vec<u8>) -> (r: Option<usize>)
    requires
        i <= s@.len(),
    ensures
        match r {
            Some(j) => sp_expect(s@, i as int, lit@) == Some(j as int) && i <= j <= s@.len(),
            None => sp_expect(s@, i as int, lit@) is None,
        },
{
    let n = lit.len();
    let sn = s.len();
    if n > sn - i {
        return None;
    }
    let mut k: usize = 0;
    while k < n
        invariant
            n == lit@.len(),
            sn == s@.len(),
            i + n <= sn,
            0 <= k <= n,
            forall|j: int| 0 <= j < k ==> s@[i + j] == lit@[j],
        decreases n - k,
    {
        if s[i + k] != lit[k] {
            proof {
                assert(s@.subrange(i as int, i + n) != lit@) by {
                    assert(s@.subrange(i as int, i + n)[k as int] == s@[i + k]);
                }
            }
            return None;
        }
        k = k + 1;
    }
    proof {
        assert(s@.subrange(i as int, i + n) =~= lit@);
    }
    Some(i + n)
}

// ------------------------------------------------------------------
// Encoding
// ------------------------------------------------------------------

/// The encoding of one node: `{"kind":"<word>","id":<digits>}`.
pub open spec fn sp_encode_node(nd: Node) -> Seq<u8> {
    lit_node_open() + lit_kind(nd.kind) + lit_node_mid() + spec_dec(nd.id as nat) + seq![125u8]
}

/// The encoding of one edge: `[<digits>,<digits>]`.
pub open spec fn sp_encode_edge(e: Edge) -> Seq<u8> {
    seq![91u8] + spec_dec(e.a as nat) + seq![44u8] + spec_dec(e.b as nat) + seq![93u8]
}

/// The comma-separated encodings of the first `k` nodes.
pub open spec fn sp_encode_nodes_prefix(nodes: Seq<Node>, k: int) -> Seq<u8>
    decreases k,
{
    if k <= 0 {
        Seq::empty()
    } else if k == 1 {
        sp_encode_node(nodes[0])
    } else {
        sp_encode_nodes_prefix(nodes, k - 1) + seq![44u8] + sp_encode_node(nodes[k - 1])
    }
}

/// The comma-separated encodings of the whole node list.
pub open spec fn sp_encode_nodes(nodes: Seq<Node>) -> Seq<u8> {
    sp_encode_nodes_prefix(nodes, nodes.len() as int)
}

/// The comma-separated encodings of the first `k` edges.
pub open spec fn sp_encode_edges_prefix(edges: Seq<Edge>, k: int) -> Seq<u8>
    decreases k,
{
    if k <= 0 {
        Seq::empty()
    } else if k == 1 {
        sp_encode_edge(edges[0])
    } else {
        sp_encode_edges_prefix(edges, k - 1) + seq![44u8] + sp_encode_edge(edges[k - 1])
    }
}

/// The comma-separated encodings of the whole edge list.
pub open spec fn sp_encode_edges(edges: Seq<Edge>) -> Seq<u8> {
    sp_encode_edges_prefix(edges, edges.len() as int)
}

/// The full snapshot encoding of a graph.
pub open spec fn sp_encode_graph(nodes: Seq<Node>, edges: Seq<Edge>) -> Seq<u8> {
    lit_header() + sp_encode_nodes(nodes) + lit_mid() + sp_encode_edges(edges) + lit_footer()
}

/// Appends the encoding of one node to `out`.
fn push_node(out: &mut Vec<u8>, nd: Node)
    ensures
        final(out)@ =~= old(out)@ + sp_encode_node(nd),
{
    let open = make_lit_node_open();
    push_bytes(out, &open);
    let word = make_lit_kind(nd.kind);
    push_bytes(out, &word);
    let mid = make_lit_node_mid();
    push_bytes(out, &mid);
    push_u64(out, nd.id);
    out.push(125);
}

/// Appends the encoding of one edge to `out`.
fn push_edge(out: &mut Vec<u8>, e: Edge)
    ensures
        final(out)@ =~= old(out)@ + sp_encode_edge(e),
{
    out.push(91);
    push_u64(out, e.a as u64);
    out.push(44);
    push_u64(out, e.b as u64);
    out.push(93);
}

/// Encodes a graph as its snapshot bytes.
pub fn encode_graph(g: &Graph) -> (out: Vec<u8>)
    ensures
        out@ =~= sp_encode_graph(g.nodes@, g.edges@),
{
    let mut out: Vec<u8> = Vec::new();
    let header = make_lit_header();
    push_bytes(&mut out, &header);
    let n = g.nodes.len();
    if n > 0 {
        push_node(&mut out, g.nodes[0]);
        let mut k: usize = 1;
        while k < n
            invariant
                n == g.nodes@.len(),
                1 <= k <= n,
                out@ =~= lit_header() + sp_encode_nodes_prefix(g.nodes@, k as int),
            decreases n - k,
        {
            out.push(44);
            push_node(&mut out, g.nodes[k]);
            k = k + 1;
        }
    }
    let mid = make_lit_mid();
    push_bytes(&mut out, &mid);
    let ghost before_edges = out@;
    let m = g.edges.len();
    if m > 0 {
        push_edge(&mut out, g.edges[0]);
        let mut k: usize = 1;
        while k < m
            invariant
                m == g.edges@.len(),
                1 <= k <= m,
                out@ =~= before_edges + sp_encode_edges_prefix(g.edges@, k as int),
            decreases m - k,
        {
            out.push(44);
            push_edge(&mut out, g.edges[k]);
            k = k + 1;
        }
    }
    let footer = make_lit_footer();
    push_bytes(&mut out, &footer);
    out
}

// ------------------------------------------------------------------
// Parsing
// ------------------------------------------------------------------

/// The tail of a node parse, after the kind word: `","id":<digits>}`.
pub open spec fn sp_node_after_kind(s: Seq<u8>, i: int, k: NodeType) -> Option<(Node, int)> {
    match sp_expect(s, i, lit_node_mid()) {
        None => None,
        Some(j) => match sp_u64(s, j) {
            None => None,
            Some((id, j2)) => if j2 < s.len() && s[j2] == 125 {
                Some((Node { kind: k, id }, j2 + 1))
            } else {
                None
            },
        },
    }
}

/// Parses one node at position `i`.
pub open spec fn sp_node(s: Seq<u8>, i: int) -> Option<(Node, int)> {
    match sp_expect(s, i, lit_node_open()) {
        None => None,
        Some(j) => if sp_expect(s, j, lit_kind(NodeType::Room)) is Some {
            sp_node_after_kind(s, j + lit_kind(NodeType::Room).len(), NodeType::Room)
        } else if sp_expect(s, j, lit_kind(NodeType::User)) is Some {
            sp_node_after_kind(s, j + lit_kind(NodeType::User).len(), NodeType::User)
        } else if sp_expect(s, j, lit_kind(NodeType::Server)) is Some {
            sp_node_after_kind(s, j + lit_kind(NodeType::Server).len(), NodeType::Server)
        } else {
            None
        },
    }
}

/// Parses `,<node>` repetitions starting at position `i`, extending `acc`.
pub open spec fn sp_nodes_tail(s: Seq<u8>, i: int, acc: Seq<Node>) -> Option<(Seq<Node>, int)>
    decreases s.len() - i,
{
    if 0 <= i < s.len() && s[i] == 44 {
        match sp_node(s, i + 1) {
            None => None,
            Some((nd, j)) => if i + 1 < j <= s.len() {
                sp_nodes_tail(s, j, acc.push(nd))
            } else {
                None
            },
        }
    } else {
        Some((acc, i))
    }
}

/// Parses a possibly empty node list at position `i`.
pub open spec fn sp_nodes(s: Seq<u8>, i: int) -> Option<(Seq<Node>, int)> {
    if 0 <= i < s.len() && s[i] == 123 {
        match sp_node(s, i) {
            None => None,
            Some((nd, j)) => if i < j <= s.len() {
                sp_nodes_tail(s, j, seq![nd])
            } else {
                None
            },
        }
    } else {
        Some((Seq::empty(), i))
    }
}

/// Parses one edge at position `i`: `[<digits>,<digits>]`.
pub open spec fn sp_edge(s: Seq<u8>, i: int) -> Option<(Edge, int)> {
    if 0 <= i < s.len() && s[i] == 91 {
        match sp_u64(s, i + 1) {
            None => None,
            Some((a, j)) => if j < s.len() && s[j] == 44 {
                match sp_u64(s, j + 1) {
                    None => None,
                    Some((b, j2)) => if j2 < s.len() && s[j2] == 93 && a <= usize::MAX && b
                        <= usize::MAX {
                        Some((Edge { a: a as usize, b: b as usize }, j2 + 1))
                    } else {
                        None
                    },
                }
            } else {
                None
            },
        }
    } else {
        None
    }
}

/// Parses `,<edge>` repetitions starting at position `i`, extending `acc`.
pub open spec fn sp_edges_tail(s: Seq<u8>, i: int, acc: Seq<Edge>) -> Option<(Seq<Edge>, int)>
    decreases s.len() - i,
{
    if 0 <= i < s.len() && s[i] == 44 {
        match sp_edge(s, i + 1) {
            None => None,
            Some((e, j)) => if i + 1 < j <= s.len() {
                sp_edges_tail(s, j, acc.push(e))
            } else {
                None
            },
        }
    } else {
        Some((acc, i))
    }
}

/// Parses a possibly empty edge list at position `i`.
pub open spec fn sp_edges(s: Seq<u8>, i: int) -> Option<(Seq<Edge>, int)> {
    if 0 <= i < s.len() && s[i] == 91 {
        match sp_edge(s, i) {
            None => None,
            Some((e, j)) => if i < j <= s.len() {
                sp_edges_tail(s, j, seq![e])
            } else {
                None
            },
        }
    } else {
        Some((Seq::empty(), i))
    }
}

/// Parses a whole snapshot: header, node list, separator, edge list,
/// footer, end of input.
pub open spec fn sp_graph(s: Seq<u8>) -> Option<(Seq<Node>, Seq<Edge>)> {
    match sp_expect(s, 0, lit_header()) {
        None => None,
        Some(i1) => match sp_nodes(s, i1) {
            None => None,
            Some((ns, i2)) => match sp_expect(s, i2, lit_mid()) {
                None => None,
                Some(i3) => match sp_edges(s, i3) {
                    None => None,
                    Some((es, i4)) => match sp_expect(s, i4, lit_footer()) {
                        None => None,
                        Some(i5) => if i5 == s.len() {
                            Some((ns, es))
                        } else {
                            None
                        },
                    },
                },
            },
        },
    }
}

/// Parses one node, the executable form of `sp_node`.
fn parse_node(s: &Vec<u8>, i: usize) -> (r: Option<(Node, usize)>)
    requires
        i <= s@.len(),
    ensures
        match r {
            Some((nd, j)) => sp_node(s@, i as int) == Some((nd, j as int)) && i < j <= s@.len(),
            None => sp_node(s@, i as int) is None,
        },
{
    let open = make_lit_node_open();
    let j = match expect_bytes(s, i, &open) {
        None => {
            return None;
        },
        Some(j) => j,
    };
    let room = make_lit_kind(NodeType::Room);
    let user = make_lit_kind(NodeType::User);
    let server = make_lit_kind(NodeType::Server);
    let (kind, j2) = if let Some(j2) = expect_bytes(s, j, &room) {
        (NodeType::Room, j2)
    } else if let Some(j2) = expect_bytes(s, j, &user) {
        (NodeType::User, j2)
    } else if let Some(j2) = expect_bytes(s, j, &server) {
        (NodeType::Server, j2)
    } else {
        return None;
    };
    let mid = make_lit_node_mid();
    let j3 = match expect_bytes(s, j2, &mid) {
        None => {
            return None;
        },
        Some(j3) => j3,
    };
    let (id, j4) = match parse_u64(s, j3) {
        None => {
            return None;
        },
        Some((id, j4)) => (id, j4),
    };
    if j4 < s.len() && s[j4] == 125 {
        Some((Node { kind, id }, j4 + 1))
    } else {
        None
    }
}

/// Parses a node list, the executable form of `sp_nodes`.
fn parse_nodes(s: &Vec<u8>, i: usize) -> (r: Option<(Vec<Node>, usize)>)
    requires
        i <= s@.len(),
    ensures
        match r {
            Some((v, j)) => sp_nodes(s@, i as int) == Some((v@, j as int)) && i <= j <= s@.len(),
            None => sp_nodes(s@, i as int) is None,
        },
{
    if !(i < s.len() && s[i] == 123) {
        let empty: Vec<Node> = Vec::new();
        proof {
            assert(empty@ =~= Seq::<Node>::empty());
        }
        return Some((empty, i));
    }
    let (nd, j) = match parse_node(s, i) {
        None => {
            return None;
        },
        Some(p) => p,
    };
    let mut acc: Vec<Node> = Vec::new();
    acc.push(nd);
    let mut pos = j;
    proof {
        assert(acc@ =~= seq![nd]);
    }
    loop
        invariant
            i < pos <= s@.len(),
            sp_nodes(s@, i as int) == sp_nodes_tail(s@, pos as int, acc@),
        decreases s@.len() - pos,
    {
        if !(pos < s.len() && s[pos] == 44) {
            return Some((acc, pos));
        }
        match parse_node(s, pos + 1) {
            None => {
                return None;
            },
            Some((nd2, j2)) => {
                acc.push(nd2);
                pos = j2;
            },
        }
    }
}

/// Parses one edge, the executable form of `sp_edge`.
fn parse_edge(s: &Vec<u8>, i: usize) -> (r: Option<(Edge, usize)>)
    requires
        i <= s@.len(),
    ensures
        match r {
            Some((e, j)) => sp_edge(s@, i as int) == Some((e, j as int)) && i < j <= s@.len(),
            None => sp_edge(s@, i as int) is None,
        },
{
    if !(i < s.len() && s[i] == 91) {
        return None;
    }
    let (a, j) = match parse_u64(s, i + 1) {
        None => {
            return None;
        },
        Some(p) => p,
    };
    if !(j < s.len() && s[j] == 44) {
        return None;
    }
    let (b, j2) = match parse_u64(s, j + 1) {
        None => {
            return None;
        },
        Some(p) => p,
    };
    if j2 < s.len() && s[j2] == 93 {
        if a <= usize::MAX as u64 && b <= usize::MAX as u64 {
            Some((Edge { a: a as usize, b: b as usize }, j2 + 1))
        } else {
            None
        }
    } else {
        None
    }
}

/// Parses an edge list, the executable form of `sp_edges`.
fn parse_edges(s: &Vec<u8>, i: usize) -> (r: Option<(Vec<Edge>, usize)>)
    requires
        i <= s@.len(),
    ensures
        match r {
            Some((v, j)) => sp_edges(s@, i as int) == Some((v@, j as int)) && i <= j <= s@.len(),
            None => sp_edges(s@, i as int) is None,
        },
{
    if !(i < s.len() && s[i] == 91) {
        let empty: Vec<Edge> = Vec::new();
        proof {
            assert(empty@ =~= Seq::<Edge>::empty());
        }
        return Some((empty, i));
    }
    let (e, j) = match parse_edge(s, i) {
        None => {
            return None;
        },
        Some(p) => p,
    };
    let mut acc: Vec<Edge> = Vec::new();
    acc.push(e);
    let mut pos = j;
    proof {
        assert(acc@ =~= seq![e]);
    }
    loop
        invariant
            i < pos <= s@.len(),
            sp_edges(s@, i as int) == sp_edges_tail(s@, pos as int, acc@),
        decreases s@.len() - pos,
    {
        if !(pos < s.len() && s[pos] == 44) {
            return Some((acc, pos));
        }
        match parse_edge(s, pos + 1) {
            None => {
                return None;
            },
            Some((e2, j2)) => {
                acc.push(e2);
                pos = j2;
            },
        }
    }
}

/// Decodes a snapshot back into a graph; the result is exactly what
/// `sp_graph` describes for these bytes.
pub fn decode_graph(s: &Vec<u8>) -> (r: Option<Graph>)
    ensures
        match r {
            Some(g) => sp_graph(s@) == Some((g.nodes@, g.edges@)),
            None => sp_graph(s@) is None,
        },
{
    let header = make_lit_header();
    let i1 = match expect_bytes(s, 0, &header) {
        None => {
            return None;
        },
        Some(i1) => i1,
    };
    let (nodes, i2) = match parse_nodes(s, i1) {
        None => {
            return None;
        },
        Some(p) => p,
    };
    let mid = make_lit_mid();
    let i3 = match expect_bytes(s, i2, &mid) {
        None => {
            return None;
        },
        Some(i3) => i3,
    };
    let (edges, i4) = match parse_edges(s, i3) {
        None => {
            return None;
        },
        Some(p) => p,
    };
    let footer = make_lit_footer();
    let i5 = match expect_bytes(s, i4, &footer) {
        None => {
            return None;
        },
        Some(i5) => i5,
    };
    if i5 == s.len() {
        Some(Graph { nodes, edges })
    } else {
        None
    }
}

// ------------------------------------------------------------------
// Round trip: parsing an encoding gives the graph back
// ------------------------------------------------------------------

proof fn lemma_subrange_at(pre: Seq<u8>, piece: Seq<u8>, post: Seq<u8>)
    ensures
        (pre + piece + post).subrange(
            pre.len() as int,
            pre.len() + piece.len() as int,
        ) =~= piece,
{
    let s = pre + piece + post;
    assert forall|k: int| 0 <= k < piece.len() implies s.subrange(
        pre.len() as int,
        pre.len() + piece.len() as int,
    )[k] == piece[k] by {
        assert(s[pre.len() + k] == (pre + piece)[pre.len() + k]);
    }
}

proof fn lemma_subrange_eq_piece(s: Seq<u8>, i: int, whole: Seq<u8>, off: int, piece: Seq<u8>)
    requires
        0 <= i,
        i + whole.len() <= s.len(),
        s.subrange(i, i + whole.len()) == whole,
        0 <= off,
        off + piece.len() <= whole.len(),
        whole.subrange(off, off + piece.len()) == piece,
    ensures
        s.subrange(i + off, i + off + piece.len()) =~= piece,
{
    assert forall|k: int| 0 <= k < piece.len() implies s.subrange(
        i + off,
        i + off + piece.len(),
    )[k] == piece[k] by {
        assert(s.subrange(i, i + whole.len())[off + k] == s[i + off + k]);
        assert(whole.subrange(off, off + piece.len())[k] == whole[off + k]);
    }
}

proof fn lemma_parse_node_at(s: Seq<u8>, i: int, nd: Node)
    requires
        0 <= i,
        i + sp_encode_node(nd).len() <= s.len(),
        s.subrange(i, i + sp_encode_node(nd).len()) =~= sp_encode_node(nd),
    ensures
        sp_node(s, i) == Some((nd, i + sp_encode_node(nd).len())),
{
    let whole = sp_encode_node(nd);
    let open = lit_node_open();
    let word = lit_kind(nd.kind);
    let mid = lit_node_mid();
    let digits = spec_dec(nd.id as nat);
    let close = seq![125u8];
    let l = whole.len() as int;
    lemma_dec_shape(nd.id as nat);

    // the pieces of the node encoding, at their offsets
    assert(whole =~= Seq::<u8>::empty() + open + (word + mid + digits + close));
    lemma_subrange_at(Seq::<u8>::empty(), open, word + mid + digits + close);
    assert(whole.subrange(0, 9) =~= open);
    lemma_subrange_eq_piece(s, i, whole, 0, open);
    assert(sp_expect(s, i, open) == Some(i + 9));

    let w = word.len() as int;
    assert(whole =~= open + word + (mid + digits + close));
    lemma_subrange_at(open, word, mid + digits + close);
    assert(whole.subrange(9, 9 + w) =~= word);
    lemma_subrange_eq_piece(s, i, whole, 9, word);
    assert(sp_expect(s, i + 9, word) == Some(i + 9 + w));

    assert(whole =~= (open + word) + mid + (digits + close));
    lemma_subrange_at(open + word, mid, digits + close);
    assert(whole.subrange(9 + w, 9 + w + 7) =~= mid);
    lemma_subrange_eq_piece(s, i, whole, 9 + w, mid);
    assert(sp_expect(s, i + 9 + w, mid) == Some(i + 9 + w + 7));

    let d = digits.len() as int;
    assert(whole =~= (open + word + mid) + digits + close);
    lemma_subrange_at(open + word + mid, digits, close);
    assert(whole.subrange(9 + w + 7, 9 + w + 7 + d) =~= digits);
    lemma_subrange_eq_piece(s, i, whole, 9 + w + 7, digits);

    assert(whole =~= (open + word + mid + digits) + close + Seq::<u8>::empty());
    lemma_subrange_at(open + word + mid + digits, close, Seq::<u8>::empty());
    assert(whole.subrange(9 + w + 7 + d, l) =~= close);
    lemma_subrange_eq_piece(s, i, whole, 9 + w + 7 + d, close);
    assert(s.subrange(i + 9 + w + 7 + d, i + l)[0] == s[i + 9 + w + 7 + d]);
    assert(s[i + 9 + w + 7 + d] == 125);

    // the number parses back, stopped by the closing brace
    lemma_parse_dec(s, i + 9 + w + 7, nd.id);

    // the kind words are told apart by their first bytes
    let jw = i + 9;
    match nd.kind {
        NodeType::Room => {
        },
        NodeType::User => {
            assert(s.subrange(jw, jw + w)[0] == s[jw]);
            assert(s[jw] == 117);
            if sp_expect(s, jw, lit_kind(NodeType::Room)) is Some {
                assert(s.subrange(jw, jw + 4)[0] == s[jw]);
                assert(false);
            }
        },
        NodeType::Server => {
            assert(s.subrange(jw, jw + w)[0] == s[jw]);
            assert(s[jw] == 115);
            if sp_expect(s, jw, lit_kind(NodeType::Room)) is Some {
                assert(s.subrange(jw, jw + 4)[0] == s[jw]);
                assert(false);
            }
            if sp_expect(s, jw, lit_kind(NodeType::User)) is Some {
                assert(s.subrange(jw, jw + 4)[0] == s[jw]);
                assert(false);
            }
        },
    }
}

proof fn lemma_parse_edge_at(s: Seq<u8>, i: int, e: Edge)
    requires
        0 <= i,
        i + sp_encode_edge(e).len() <= s.len(),
        s.subrange(i, i + sp_encode_edge(e).len()) =~= sp_encode_edge(e),
    ensures
        sp_edge(s, i) == Some((e, i + sp_encode_edge(e).len())),
{
    let whole = sp_encode_edge(e);
    let lb = seq![91u8];
    let da = spec_dec(e.a as nat);
    let comma = seq![44u8];
    let db = spec_dec(e.b as nat);
    let rb = seq![93u8];
    let a = da.len() as int;
    let b = db.len() as int;
    let l = whole.len() as int;
    lemma_dec_shape(e.a as nat);
    lemma_dec_shape(e.b as nat);

    assert(whole =~= Seq::<u8>::empty() + lb + (da + comma + db + rb));
    lemma_subrange_at(Seq::<u8>::empty(), lb, da + comma + db + rb);
    assert(whole.subrange(0, 1) =~= lb);
    lemma_subrange_eq_piece(s, i, whole, 0, lb);
    assert(s.subrange(i, i + 1)[0] == s[i]);
    assert(s[i] == 91);

    assert(whole =~= lb + da + (comma + db + rb));
    lemma_subrange_at(lb, da, comma + db + rb);
    assert(whole.subrange(1, 1 + a) =~= da);
    lemma_subrange_eq_piece(s, i, whole, 1, da);

    assert(whole =~= (lb + da) + comma + (db + rb));
    lemma_subrange_at(lb + da, comma, db + rb);
    assert(whole.subrange(1 + a, 2 + a) =~= comma);
    lemma_subrange_eq_piece(s, i, whole, 1 + a, comma);
    assert(s.subrange(i + 1 + a, i + 2 + a)[0] == s[i + 1 + a]);
    assert(s[i + 1 + a] == 44);

    assert(whole =~= (lb + da + comma) + db + rb);
    lemma_subrange_at(lb + da + comma, db, rb);
    assert(whole.subrange(2 + a, 2 + a + b) =~= db);
    lemma_subrange_eq_piece(s, i, whole, 2 + a, db);

    assert(whole =~= (lb + da + comma + db) + rb + Seq::<u8>::empty());
    lemma_subrange_at(lb + da + comma + db, rb, Seq::<u8>::empty());
    assert(whole.subrange(2 + a + b, l) =~= rb);
    lemma_subrange_eq_piece(s, i, whole, 2 + a + b, rb);
    assert(s.subrange(i + 2 + a + b, i + l)[0] == s[i + 2 + a + b]);
    assert(s[i + 2 + a + b] == 93);

    lemma_parse_dec(s, i + 1, e.a as u64);
    lemma_parse_dec(s, i + 2 + a, e.b as u64);
}

/// The comma-led encodings of the nodes from position `k` on.
spec fn sp_encode_nodes_suffix(nodes: Seq<Node>, k: int) -> Seq<u8>
    decreases nodes.len() - k,
{
    if k < 0 || k >= nodes.len() {
        Seq::empty()
    } else {
        seq![44u8] + sp_encode_node(nodes[k]) + sp_encode_nodes_suffix(nodes, k + 1)
    }
}

proof fn lemma_stitch_nodes(nodes: Seq<Node>, k: int)
    requires
        1 <= k <= nodes.len(),
    ensures
        sp_encode_nodes(nodes) =~= sp_encode_nodes_prefix(nodes, k) + sp_encode_nodes_suffix(
            nodes,
            k,
        ),
    decreases nodes.len() - k,
{
    if k == nodes.len() {
    } else {
        lemma_stitch_nodes(nodes, k + 1);
        assert(sp_encode_nodes_prefix(nodes, k + 1) + sp_encode_nodes_suffix(nodes, k + 1)
            =~= sp_encode_nodes_prefix(nodes, k) + sp_encode_nodes_suffix(nodes, k));
    }
}

proof fn lemma_parse_nodes_suffix(s: Seq<u8>, i: int, nodes: Seq<Node>, k: int, acc: Seq<Node>)
    requires
        0 <= i,
        1 <= k <= nodes.len(),
        i + sp_encode_nodes_suffix(nodes, k).len() < s.len(),
        s.subrange(i, i + sp_encode_nodes_suffix(nodes, k).len()) =~= sp_encode_nodes_suffix(
            nodes,
            k,
        ),
        s[i + sp_encode_nodes_suffix(nodes, k).len()] == 93,
    ensures
        sp_nodes_tail(s, i, acc) == Some(
            (acc + nodes.skip(k), i + sp_encode_nodes_suffix(nodes, k).len()),
        ),
    decreases nodes.len() - k,
{
    let whole = sp_encode_nodes_suffix(nodes, k);
    let l = whole.len() as int;
    if k == nodes.len() {
        assert(l == 0);
        assert(s[i] == 93);
        assert(acc + nodes.skip(k) =~= acc);
    } else {
        let enc = sp_encode_node(nodes[k]);
        let le = enc.len() as int;
        let rest = sp_encode_nodes_suffix(nodes, k + 1);
        assert(whole =~= Seq::<u8>::empty() + seq![44u8] + (enc + rest));
        lemma_subrange_at(Seq::<u8>::empty(), seq![44u8], enc + rest);
        assert(whole.subrange(0, 1) =~= seq![44u8]);
        lemma_subrange_eq_piece(s, i, whole, 0, seq![44u8]);
        assert(s.subrange(i, i + 1)[0] == s[i]);
        assert(s[i] == 44);

        assert(whole =~= seq![44u8] + enc + rest);
        lemma_subrange_at(seq![44u8], enc, rest);
        assert(whole.subrange(1, 1 + le) =~= enc);
        lemma_subrange_eq_piece(s, i, whole, 1, enc);
        lemma_parse_node_at(s, i + 1, nodes[k]);

        assert(whole =~= (seq![44u8] + enc) + rest + Seq::<u8>::empty());
        lemma_subrange_at(seq![44u8] + enc, rest, Seq::<u8>::empty());
        assert(whole.subrange(1 + le, l) =~= rest);
        lemma_subrange_eq_piece(s, i, whole, 1 + le, rest);
        lemma_parse_nodes_suffix(s, i + 1 + le, nodes, k + 1, acc.push(nodes[k]));
        assert(acc.push(nodes[k]) + nodes.skip(k + 1) =~= acc + nodes.skip(k));
    }
}

proof fn lemma_parse_nodes_at(s: Seq<u8>, i: int, nodes: Seq<Node>)
    requires
        0 <= i,
        i + sp_encode_nodes(nodes).len() < s.len(),
        s.subrange(i, i + sp_encode_nodes(nodes).len()) =~= sp_encode_nodes(nodes),
        s[i + sp_encode_nodes(nodes).len()] == 93,
    ensures
        sp_nodes(s, i) == Some((nodes, i + sp_encode_nodes(nodes).len())),
{
    let whole = sp_encode_nodes(nodes);
    let l = whole.len() as int;
    if nodes.len() == 0 {
        assert(l == 0);
        assert(s[i] == 93);
        assert(sp_nodes(s, i) == Some((Seq::<Node>::empty(), i)));
        assert(nodes =~= Seq::<Node>::empty());
    } else {
        lemma_stitch_nodes(nodes, 1);
        let enc = sp_encode_node(nodes[0]);
        let le = enc.len() as int;
        let rest = sp_encode_nodes_suffix(nodes, 1);
        assert(whole =~= Seq::<u8>::empty() + enc + rest);
        lemma_subrange_at(Seq::<u8>::empty(), enc, rest);
        assert(whole.subrange(0, le) =~= enc);
        lemma_subrange_eq_piece(s, i, whole, 0, enc);
        lemma_parse_node_at(s, i, nodes[0]);
        assert(s.subrange(i, i + le)[0] == s[i]);
        assert(s[i] == 123);

        assert(whole =~= enc + rest + Seq::<u8>::empty());
        lemma_subrange_at(enc, rest, Seq::<u8>::empty());
        assert(whole.subrange(le, l) =~= rest);
        lemma_subrange_eq_piece(s, i, whole, le, rest);
        lemma_parse_nodes_suffix(s, i + le, nodes, 1, seq![nodes[0]]);
        assert(seq![nodes[0]] + nodes.skip(1) =~= nodes);
    }
}

/// The comma-led encodings of the edges from position `k` on.
spec fn sp_encode_edges_suffix(edges: Seq<Edge>, k: int) -> Seq<u8>
    decreases edges.len() - k,
{
    if k < 0 || k >= edges.len() {
        Seq::empty()
    } else {
        seq![44u8] + sp_encode_edge(edges[k]) + sp_encode_edges_suffix(edges, k + 1)
    }
}

proof fn lemma_stitch_edges(edges: Seq<Edge>, k: int)
    requires
        1 <= k <= edges.len(),
    ensures
        sp_encode_edges(edges) =~= sp_encode_edges_prefix(edges, k) + sp_encode_edges_suffix(
            edges,
            k,
        ),
    decreases edges.len() - k,
{
    if k == edges.len() {
    } else {
        lemma_stitch_edges(edges, k + 1);
        assert(sp_encode_edges_prefix(edges, k + 1) + sp_encode_edges_suffix(edges, k + 1)
            =~= sp_encode_edges_prefix(edges, k) + sp_encode_edges_suffix(edges, k));
    }
}

proof fn lemma_parse_edges_suffix(s: Seq<u8>, i: int, edges: Seq<Edge>, k: int, acc: Seq<Edge>)
    requires
        0 <= i,
        1 <= k <= edges.len(),
        i + sp_encode_edges_suffix(edges, k).len() < s.len(),
        s.subrange(i, i + sp_encode_edges_suffix(edges, k).len()) =~= sp_encode_edges_suffix(
            edges,
            k,
        ),
        s[i + sp_encode_edges_suffix(edges, k).len()] == 93,
    ensures
        sp_edges_tail(s, i, acc) == Some(
            (acc + edges.skip(k), i + sp_encode_edges_suffix(edges, k).len()),
        ),
    decreases edges.len() - k,
{
    let whole = sp_encode_edges_suffix(edges, k);
    let l = whole.len() as int;
    if k == edges.len() {
        assert(l == 0);
        assert(s[i] == 93);
        assert(acc + edges.skip(k) =~= acc);
    } else {
        let enc = sp_encode_edge(edges[k]);
        let le = enc.len() as int;
        let rest = sp_encode_edges_suffix(edges, k + 1);
        assert(whole =~= Seq::<u8>::empty() + seq![44u8] + (enc + rest));
        lemma_subrange_at(Seq::<u8>::empty(), seq![44u8], enc + rest);
        assert(whole.subrange(0, 1) =~= seq![44u8]);
        lemma_subrange_eq_piece(s, i, whole, 0, seq![44u8]);
        assert(s.subrange(i, i + 1)[0] == s[i]);
        assert(s[i] == 44);

        assert(whole =~= seq![44u8] + enc + rest);
        lemma_subrange_at(seq![44u8], enc, rest);
        assert(whole.subrange(1, 1 + le) =~= enc);
        lemma_subrange_eq_piece(s, i, whole, 1, enc);
        lemma_parse_edge_at(s, i + 1, edges[k]);

        assert(whole =~= (seq![44u8] + enc) + rest + Seq::<u8>::empty());
        lemma_subrange_at(seq![44u8] + enc, rest, Seq::<u8>::empty());
        assert(whole.subrange(1 + le, l) =~= rest);
        lemma_subrange_eq_piece(s, i, whole, 1 + le, rest);
        lemma_parse_edges_suffix(s, i + 1 + le, edges, k + 1, acc.push(edges[k]));
        assert(acc.push(edges[k]) + edges.skip(k + 1) =~= acc + edges.skip(k));
    }
}

proof fn lemma_parse_edges_at(s: Seq<u8>, i: int, edges: Seq<Edge>)
    requires
        0 <= i,
        i + sp_encode_edges(edges).len() < s.len(),
        s.subrange(i, i + sp_encode_edges(edges).len()) =~= sp_encode_edges(edges),
        s[i + sp_encode_edges(edges).len()] == 93,
    ensures
        sp_edges(s, i) == Some((edges, i + sp_encode_edges(edges).len())),
{
    let whole = sp_encode_edges(edges);
    let l = whole.len() as int;
    if edges.len() == 0 {
        assert(l == 0);
        assert(s[i] == 93);
        assert(sp_edges(s, i) == Some((Seq::<Edge>::empty(), i)));
        assert(edges =~= Seq::<Edge>::empty());
    } else {
        lemma_stitch_edges(edges, 1);
        let enc = sp_encode_edge(edges[0]);
        let le = enc.len() as int;
        let rest = sp_encode_edges_suffix(edges, 1);
        assert(whole =~= Seq::<u8>::empty() + enc + rest);
        lemma_subrange_at(Seq::<u8>::empty(), enc, rest);
        assert(whole.subrange(0, le) =~= enc);
        lemma_subrange_eq_piece(s, i, whole, 0, enc);
        lemma_parse_edge_at(s, i, edges[0]);
        assert(s.subrange(i, i + le)[0] == s[i]);
        assert(s[i] == 91);

        assert(whole =~= enc + rest + Seq::<u8>::empty());
        lemma_subrange_at(enc, rest, Seq::<u8>::empty());
        assert(whole.subrange(le, l) =~= rest);
        lemma_subrange_eq_piece(s, i, whole, le, rest);
        lemma_parse_edges_suffix(s, i + le, edges, 1, seq![edges[0]]);
        assert(seq![edges[0]] + edges.skip(1) =~= edges);
    }
}

/// Round-trip: parsing the snapshot encoding of any graph gives back
/// exactly its node list and its edge list.
#[verifier::rlimit(100)]
pub proof fn lemma_snapshot_roundtrip(nodes: Seq<Node>, edges: Seq<Edge>)
    ensures
        sp_graph(sp_encode_graph(nodes, edges)) == Some((nodes, edges)),
{
    let s = sp_encode_graph(nodes, edges);
    let en = sp_encode_nodes(nodes);
    let ee = sp_encode_edges(edges);
    let ln = en.len() as int;
    let le = ee.len() as int;
    let l = s.len() as int;
    assert(s.subrange(0, l) =~= s);

    assert(s =~= Seq::<u8>::empty() + lit_header() + (en + lit_mid() + ee + lit_footer()));
    lemma_subrange_at(Seq::<u8>::empty(), lit_header(), en + lit_mid() + ee + lit_footer());
    assert(s.subrange(0, 10) =~= lit_header());
    assert(sp_expect(s, 0, lit_header()) == Some(10int));

    assert(s =~= lit_header() + en + (lit_mid() + ee + lit_footer()));
    lemma_subrange_at(lit_header(), en, lit_mid() + ee + lit_footer());
    assert(s.subrange(10, 10 + ln) =~= en);

    assert(s =~= (lit_header() + en) + lit_mid() + (ee + lit_footer()));
    lemma_subrange_at(lit_header() + en, lit_mid(), ee + lit_footer());
    assert(s.subrange(10 + ln, 21 + ln) =~= lit_mid());
    assert(s.subrange(10 + ln, 21 + ln)[0] == s[10 + ln]);
    assert(s[10 + ln] == 93);
    lemma_parse_nodes_at(s, 10, nodes);
    assert(sp_expect(s, 10 + ln, lit_mid()) == Some(21 + ln));

    assert(s =~= (lit_header() + en + lit_mid()) + ee + lit_footer());
    lemma_subrange_at(lit_header() + en + lit_mid(), ee, lit_footer());
    assert(s.subrange(21 + ln, 21 + ln + le) =~= ee);

    assert(s =~= (lit_header() + en + lit_mid() + ee) + lit_footer() + Seq::<u8>::empty());
    lemma_subrange_at(lit_header() + en + lit_mid() + ee, lit_footer(), Seq::<u8>::empty());
    assert(s.subrange(21 + ln + le, l) =~= lit_footer());
    assert(s.subrange(21 + ln + le, l)[0] == s[21 + ln + le]);
    assert(s[21 + ln + le] == 93);
    lemma_parse_edges_at(s, 21 + ln, edges);
    assert(sp_expect(s, 21 + ln + le, lit_footer()) == Some(l));
}

} // verus!
