//! Human-readable exports of the anonymized graph: a plain edge-list
//! graph description (dot) and a graph-markup document (GraphML). Both
//! carry every node with its kind and id rendered as a label of the form
//! `room_<id>`, `user_<id>` or `server_<id>`, and every edge by its
//! endpoint positions. The bytes are fully determined by the graph.

use vstd::prelude::*;

use crate::graph::Edge;
use crate::graph::Graph;
use crate::graph::Node;
use crate::graph::NodeType;
use crate::snapshot::spec_dec;
use crate::snapshot::push_u64;

verus! {

/// The bytes of `graph {\n`.
pub open spec fn lit_dot_header() -> Seq<u8> {
    seq![103u8, 114u8, 97u8, 112u8, 104u8, 32u8, 123u8, 10u8]
}

fn make_lit_dot_header() -> (v: Vec<u8>)
    ensures
        v@ =~= lit_dot_header(),
{
    let mut v: Vec<u8> = Vec::new();
    v.push(103);
    v.push(114);
    v.push(97);
    v.push(112);
    v.push(104);
    v.push(32);
    v.push(123);
    v.push(10);
    v
}

/// The bytes of `}\n`.
pub open spec fn lit_dot_footer() -> Seq<u8> {
    seq![125u8, 10u8]
}

fn make_lit_dot_footer() -> (v: Vec<u8>)
    ensures
        v@ =~= lit_dot_footer(),
{
    let mut v: Vec<u8> = Vec::new();
    v.push(125);
    v.push(10);
    v
}

/// The bytes of `    `.
pub open spec fn lit_dot_indent() -> Seq<u8> {
    seq![32u8, 32u8, 32u8, 32u8]
}

fn make_lit_dot_indent() -> (v: Vec<u8>)
    ensures
        v@ =~= lit_dot_indent(),
{
    let mut v: Vec<u8> = Vec::new();
    v.push(32);
    v.push(32);
    v.push(32);
    v.push(32);
    v
}

/// The bytes of ` [ label = \"`.
pub open spec fn lit_dot_label_open() -> Seq<u8> {
    seq![32u8, 91u8, 32u8, 108u8, 97u8, 98u8, 101u8, 108u8, 32u8, 61u8, 32u8, 34u8]
}

fn make_lit_dot_label_open() -> (v: Vec<u8>)
    ensures
        v@ =~= lit_dot_label_open(),
{
    let mut v: Vec<u8> = Vec::new();
    v.push(32);
    v.push(91);
    v.push(32);
    v.push(108);
    v.push(97);
    v.push(98);
    v.push(101);
    v.push(108);
    v.push(32);
    v.push(61);
    v.push(32);
    v.push(34);
    v
}

/// The bytes of `\" ]\n`.
pub open spec fn lit_dot_label_close() -> Seq<u8> {
    seq![34u8, 32u8, 93u8, 10u8]
}

fn make_lit_dot_label_close() -> (v: Vec<u8>)
    ensures
        v@ =~= lit_dot_label_close(),
{
    let mut v: Vec<u8> = Vec::new();
    v.push(34);
    v.push(32);
    v.push(93);
    v.push(10);
    v
}

/// The bytes of ` -- `.
pub open spec fn lit_dot_edge_sep() -> Seq<u8> {
    seq![32u8, 45u8, 45u8, 32u8]
}

fn make_lit_dot_edge_sep() -> (v: Vec<u8>)
    ensures
        v@ =~= lit_dot_edge_sep(),
{
    let mut v: Vec<u8> = Vec::new();
    v.push(32);
    v.push(45);
    v.push(45);
    v.push(32);
    v
}

/// The bytes of ` [ ]\n`.
pub open spec fn lit_dot_edge_close() -> Seq<u8> {
    seq![32u8, 91u8, 32u8, 93u8, 10u8]
}

fn make_lit_dot_edge_close() -> (v: Vec<u8>)
    ensures
        v@ =~= lit_dot_edge_close(),
{
    let mut v: Vec<u8> = Vec::new();
    v.push(32);
    v.push(91);
    v.push(32);
    v.push(93);
    v.push(10);
    v
}

/// The bytes of `<?xml version=\"1.0\" encoding=\"UTF-8\"?>\n`.
pub open spec fn lit_xml_h1() -> Seq<u8> {
    seq![60u8, 63u8, 120u8, 109u8, 108u8, 32u8, 118u8, 101u8, 114u8, 115u8, 105u8, 111u8, 110u8, 61u8, 34u8, 49u8, 46u8, 48u8, 34u8, 32u8, 101u8, 110u8, 99u8, 111u8, 100u8, 105u8, 110u8, 103u8, 61u8, 34u8, 85u8, 84u8, 70u8, 45u8, 56u8, 34u8, 63u8, 62u8, 10u8]
}

fn make_lit_xml_h1() -> (v: Vec<u8>)
    ensures
        v@ =~= lit_xml_h1(),
{
    let mut v: Vec<u8> = Vec::new();
    v.push(60);
    v.push(63);
    v.push(120);
    v.push(109);
    v.push(108);
    v.push(32);
    v.push(118);
    v.push(101);
    v.push(114);
    v.push(115);
    v.push(105);
    v.push(111);
    v.push(110);
    v.push(61);
    v.push(34);
    v.push(49);
    v.push(46);
    v.push(48);
    v.push(34);
    v.push(32);
    v.push(101);
    v.push(110);
    v.push(99);
    v.push(111);
    v.push(100);
    v.push(105);
    v.push(110);
    v.push(103);
    v.push(61);
    v.push(34);
    v.push(85);
    v.push(84);
    v.push(70);
    v.push(45);
    v.push(56);
    v.push(34);
    v.push(63);
    v.push(62);
    v.push(10);
    v
}

/// The bytes of `<graphml xmlns=\"http://graphml.graphdraw`.
pub open spec fn lit_xml_h2() -> Seq<u8> {
    seq![60u8, 103u8, 114u8, 97u8, 112u8, 104u8, 109u8, 108u8, 32u8, 120u8, 109u8, 108u8, 110u8, 115u8, 61u8, 34u8, 104u8, 116u8, 116u8, 112u8, 58u8, 47u8, 47u8, 103u8, 114u8, 97u8, 112u8, 104u8, 109u8, 108u8, 46u8, 103u8, 114u8, 97u8, 112u8, 104u8, 100u8, 114u8, 97u8, 119u8]
}

fn make_lit_xml_h2() -> (v: Vec<u8>)
    ensures
        v@ =~= lit_xml_h2(),
{
    let mut v: Vec<u8> = Vec::new();
    v.push(60);
    v.push(103);
    v.push(114);
    v.push(97);
    v.push(112);
    v.push(104);
    v.push(109);
    v.push(108);
    v.push(32);
    v.push(120);
    v.push(109);
    v.push(108);
    v.push(110);
    v.push(115);
    v.push(61);
    v.push(34);
    v.push(104);
    v.push(116);
    v.push(116);
    v.push(112);
    v.push(58);
    v.push(47);
    v.push(47);
    v.push(103);
    v.push(114);
    v.push(97);
    v.push(112);
    v.push(104);
    v.push(109);
    v.push(108);
    v.push(46);
    v.push(103);
    v.push(114);
    v.push(97);
    v.push(112);
    v.push(104);
    v.push(100);
    v.push(114);
    v.push(97);
    v.push(119);
    v
}

/// The bytes of `ing.org/xmlns\">\n`.
pub open spec fn lit_xml_h3() -> Seq<u8> {
    seq![105u8, 110u8, 103u8, 46u8, 111u8, 114u8, 103u8, 47u8, 120u8, 109u8, 108u8, 110u8, 115u8, 34u8, 62u8, 10u8]
}

fn make_lit_xml_h3() -> (v: Vec<u8>)
    ensures
        v@ =~= lit_xml_h3(),
{
    let mut v: Vec<u8> = Vec::new();
    v.push(105);
    v.push(110);
    v.push(103);
    v.push(46);
    v.push(111);
    v.push(114);
    v.push(103);
    v.push(47);
    v.push(120);
    v.push(109);
    v.push(108);
    v.push(110);
    v.push(115);
    v.push(34);
    v.push(62);
    v.push(10);
    v
}

/// The bytes of `  <key id=\"weight\" for=\"node\" attr.name=`.
pub open spec fn lit_xml_h4() -> Seq<u8> {
    seq![32u8, 32u8, 60u8, 107u8, 101u8, 121u8, 32u8, 105u8, 100u8, 61u8, 34u8, 119u8, 101u8, 105u8, 103u8, 104u8, 116u8, 34u8, 32u8, 102u8, 111u8, 114u8, 61u8, 34u8, 110u8, 111u8, 100u8, 101u8, 34u8, 32u8, 97u8, 116u8, 116u8, 114u8, 46u8, 110u8, 97u8, 109u8, 101u8, 61u8]
}

fn make_lit_xml_h4() -> (v: Vec<u8>)
    ensures
        v@ =~= lit_xml_h4(),
{
    let mut v: Vec<u8> = Vec::new();
    v.push(32);
    v.push(32);
    v.push(60);
    v.push(107);
    v.push(101);
    v.push(121);
    v.push(32);
    v.push(105);
    v.push(100);
    v.push(61);
    v.push(34);
    v.push(119);
    v.push(101);
    v.push(105);
    v.push(103);
    v.push(104);
    v.push(116);
    v.push(34);
    v.push(32);
    v.push(102);
    v.push(111);
    v.push(114);
    v.push(61);
    v.push(34);
    v.push(110);
    v.push(111);
    v.push(100);
    v.push(101);
    v.push(34);
    v.push(32);
    v.push(97);
    v.push(116);
    v.push(116);
    v.push(114);
    v.push(46);
    v.push(110);
    v.push(97);
    v.push(109);
    v.push(101);
    v.push(61);
    v
}

/// The bytes of `\"weight\" attr.type=\"string\" />\n`.
pub open spec fn lit_xml_h5() -> Seq<u8> {
    seq![34u8, 119u8, 101u8, 105u8, 103u8, 104u8, 116u8, 34u8, 32u8, 97u8, 116u8, 116u8, 114u8, 46u8, 116u8, 121u8, 112u8, 101u8, 61u8, 34u8, 115u8, 116u8, 114u8, 105u8, 110u8, 103u8, 34u8, 32u8, 47u8, 62u8, 10u8]
}

fn make_lit_xml_h5() -> (v: Vec<u8>)
    ensures
        v@ =~= lit_xml_h5(),
{
    let mut v: Vec<u8> = Vec::new();
    v.push(34);
    v.push(119);
    v.push(101);
    v.push(105);
    v.push(103);
    v.push(104);
    v.push(116);
    v.push(34);
    v.push(32);
    v.push(97);
    v.push(116);
    v.push(116);
    v.push(114);
    v.push(46);
    v.push(116);
    v.push(121);
    v.push(112);
    v.push(101);
    v.push(61);
    v.push(34);
    v.push(115);
    v.push(116);
    v.push(114);
    v.push(105);
    v.push(110);
    v.push(103);
    v.push(34);
    v.push(32);
    v.push(47);
    v.push(62);
    v.push(10);
    v
}

/// The bytes of `  <graph edgedefault=\"undirected\">\n`.
pub open spec fn lit_xml_h6() -> Seq<u8> {
    seq![32u8, 32u8, 60u8, 103u8, 114u8, 97u8, 112u8, 104u8, 32u8, 101u8, 100u8, 103u8, 101u8, 100u8, 101u8, 102u8, 97u8, 117u8, 108u8, 116u8, 61u8, 34u8, 117u8, 110u8, 100u8, 105u8, 114u8, 101u8, 99u8, 116u8, 101u8, 100u8, 34u8, 62u8, 10u8]
}

fn make_lit_xml_h6() -> (v: Vec<u8>)
    ensures
        v@ =~= lit_xml_h6(),
{
    let mut v: Vec<u8> = Vec::new();
    v.push(32);
    v.push(32);
    v.push(60);
    v.push(103);
    v.push(114);
    v.push(97);
    v.push(112);
    v.push(104);
    v.push(32);
    v.push(101);
    v.push(100);
    v.push(103);
    v.push(101);
    v.push(100);
    v.push(101);
    v.push(102);
    v.push(97);
    v.push(117);
    v.push(108);
    v.push(116);
    v.push(61);
    v.push(34);
    v.push(117);
    v.push(110);
    v.push(100);
    v.push(105);
    v.push(114);
    v.push(101);
    v.push(99);
    v.push(116);
    v.push(101);
    v.push(100);
    v.push(34);
    v.push(62);
    v.push(10);
    v
}

/// The bytes of the GraphML prologue, up to the opening graph element.
pub open spec fn lit_xml_header() -> Seq<u8> {
    lit_xml_h1() + lit_xml_h2() + lit_xml_h3() + lit_xml_h4() + lit_xml_h5() + lit_xml_h6()
}

fn make_lit_xml_header() -> (v: Vec<u8>)
    ensures
        v@ =~= lit_xml_header(),
{
    let mut v: Vec<u8> = Vec::new();
    let p = make_lit_xml_h1();
    push_lit(&mut v, &p);
    let p = make_lit_xml_h2();
    push_lit(&mut v, &p);
    let p = make_lit_xml_h3();
    push_lit(&mut v, &p);
    let p = make_lit_xml_h4();
    push_lit(&mut v, &p);
    let p = make_lit_xml_h5();
    push_lit(&mut v, &p);
    let p = make_lit_xml_h6();
    push_lit(&mut v, &p);
    v
}

/// The bytes of `  </graph>\n</graphml>\n`.
pub open spec fn lit_xml_footer() -> Seq<u8> {
    seq![32u8, 32u8, 60u8, 47u8, 103u8, 114u8, 97u8, 112u8, 104u8, 62u8, 10u8, 60u8, 47u8, 103u8, 114u8, 97u8, 112u8, 104u8, 109u8, 108u8, 62u8, 10u8]
}

fn make_lit_xml_footer() -> (v: Vec<u8>)
    ensures
        v@ =~= lit_xml_footer(),
{
    let mut v: Vec<u8> = Vec::new();
    v.push(32);
    v.push(32);
    v.push(60);
    v.push(47);
    v.push(103);
    v.push(114);
    v.push(97);
    v.push(112);
    v.push(104);
    v.push(62);
    v.push(10);
    v.push(60);
    v.push(47);
    v.push(103);
    v.push(114);
    v.push(97);
    v.push(112);
    v.push(104);
    v.push(109);
    v.push(108);
    v.push(62);
    v.push(10);
    v
}

/// The bytes of `    <node id=\"n`.
pub open spec fn lit_xml_node_open() -> Seq<u8> {
    seq![32u8, 32u8, 32u8, 32u8, 60u8, 110u8, 111u8, 100u8, 101u8, 32u8, 105u8, 100u8, 61u8, 34u8, 110u8]
}

fn make_lit_xml_node_open() -> (v: Vec<u8>)
    ensures
        v@ =~= lit_xml_node_open(),
{
    let mut v: Vec<u8> = Vec::new();
    v.push(32);
    v.push(32);
    v.push(32);
    v.push(32);
    v.push(60);
    v.push(110);
    v.push(111);
    v.push(100);
    v.push(101);
    v.push(32);
    v.push(105);
    v.push(100);
    v.push(61);
    v.push(34);
    v.push(110);
    v
}

/// The bytes of `\">\n      <data key=\"weight\">`.
pub open spec fn lit_xml_node_mid() -> Seq<u8> {
    seq![34u8, 62u8, 10u8, 32u8, 32u8, 32u8, 32u8, 32u8, 32u8, 60u8, 100u8, 97u8, 116u8, 97u8, 32u8, 107u8, 101u8, 121u8, 61u8, 34u8, 119u8, 101u8, 105u8, 103u8, 104u8, 116u8, 34u8, 62u8]
}

fn make_lit_xml_node_mid() -> (v: Vec<u8>)
    ensures
        v@ =~= lit_xml_node_mid(),
{
    let mut v: Vec<u8> = Vec::new();
    v.push(34);
    v.push(62);
    v.push(10);
    v.push(32);
    v.push(32);
    v.push(32);
    v.push(32);
    v.push(32);
    v.push(32);
    v.push(60);
    v.push(100);
    v.push(97);
    v.push(116);
    v.push(97);
    v.push(32);
    v.push(107);
    v.push(101);
    v.push(121);
    v.push(61);
    v.push(34);
    v.push(119);
    v.push(101);
    v.push(105);
    v.push(103);
    v.push(104);
    v.push(116);
    v.push(34);
    v.push(62);
    v
}

/// The bytes of `</data>\n    </node>\n`.
pub open spec fn lit_xml_node_close() -> Seq<u8> {
    seq![60u8, 47u8, 100u8, 97u8, 116u8, 97u8, 62u8, 10u8, 32u8, 32u8, 32u8, 32u8, 60u8, 47u8, 110u8, 111u8, 100u8, 101u8, 62u8, 10u8]
}

fn make_lit_xml_node_close() -> (v: Vec<u8>)
    ensures
        v@ =~= lit_xml_node_close(),
{
    let mut v: Vec<u8> = Vec::new();
    v.push(60);
    v.push(47);
    v.push(100);
    v.push(97);
    v.push(116);
    v.push(97);
    v.push(62);
    v.push(10);
    v.push(32);
    v.push(32);
    v.push(32);
    v.push(32);
    v.push(60);
    v.push(47);
    v.push(110);
    v.push(111);
    v.push(100);
    v.push(101);
    v.push(62);
    v.push(10);
    v
}

/// The bytes of `    <edge source=\"n`.
pub open spec fn lit_xml_edge_open() -> Seq<u8> {
    seq![32u8, 32u8, 32u8, 32u8, 60u8, 101u8, 100u8, 103u8, 101u8, 32u8, 115u8, 111u8, 117u8, 114u8, 99u8, 101u8, 61u8, 34u8, 110u8]
}

fn make_lit_xml_edge_open() -> (v: Vec<u8>)
    ensures
        v@ =~= lit_xml_edge_open(),
{
    let mut v: Vec<u8> = Vec::new();
    v.push(32);
    v.push(32);
    v.push(32);
    v.push(32);
    v.push(60);
    v.push(101);
    v.push(100);
    v.push(103);
    v.push(101);
    v.push(32);
    v.push(115);
    v.push(111);
    v.push(117);
    v.push(114);
    v.push(99);
    v.push(101);
    v.push(61);
    v.push(34);
    v.push(110);
    v
}

/// The bytes of `\" target=\"n`.
pub open spec fn lit_xml_edge_mid() -> Seq<u8> {
    seq![34u8, 32u8, 116u8, 97u8, 114u8, 103u8, 101u8, 116u8, 61u8, 34u8, 110u8]
}

fn make_lit_xml_edge_mid() -> (v: Vec<u8>)
    ensures
        v@ =~= lit_xml_edge_mid(),
{
    let mut v: Vec<u8> = Vec::new();
    v.push(34);
    v.push(32);
    v.push(116);
    v.push(97);
    v.push(114);
    v.push(103);
    v.push(101);
    v.push(116);
    v.push(61);
    v.push(34);
    v.push(110);
    v
}

/// The bytes of `\" />\n`.
pub open spec fn lit_xml_edge_close() -> Seq<u8> {
    seq![34u8, 32u8, 47u8, 62u8, 10u8]
}

fn make_lit_xml_edge_close() -> (v: Vec<u8>)
    ensures
        v@ =~= lit_xml_edge_close(),
{
    let mut v: Vec<u8> = Vec::new();
    v.push(34);
    v.push(32);
    v.push(47);
    v.push(62);
    v.push(10);
    v
}

/// The bytes of `room_`.
pub open spec fn lit_label_room() -> Seq<u8> {
    seq![114u8, 111u8, 111u8, 109u8, 95u8]
}

fn make_lit_label_room() -> (v: Vec<u8>)
    ensures
        v@ =~= lit_label_room(),
{
    let mut v: Vec<u8> = Vec::new();
    v.push(114);
    v.push(111);
    v.push(111);
    v.push(109);
    v.push(95);
    v
}

/// The bytes of `user_`.
pub open spec fn lit_label_user() -> Seq<u8> {
    seq![117u8, 115u8, 101u8, 114u8, 95u8]
}

fn make_lit_label_user() -> (v: Vec<u8>)
    ensures
        v@ =~= lit_label_user(),
{
    let mut v: Vec<u8> = Vec::new();
    v.push(117);
    v.push(115);
    v.push(101);
    v.push(114);
    v.push(95);
    v
}

/// The bytes of `server_`.
pub open spec fn lit_label_server() -> Seq<u8> {
    seq![115u8, 101u8, 114u8, 118u8, 101u8, 114u8, 95u8]
}

fn make_lit_label_server() -> (v: Vec<u8>)
    ensures
        v@ =~= lit_label_server(),
{
    let mut v: Vec<u8> = Vec::new();
    v.push(115);
    v.push(101);
    v.push(114);
    v.push(118);
    v.push(101);
    v.push(114);
    v.push(95);
    v
}

/// Appends `lit` to `out`.
fn push_lit(out: &mut Vec<u8>, lit: &Vec<u8>)
    ensures
        final(out)@ =~= old(out)@ + lit@,
{
    let n = lit.len();
    let mut i: usize = 0;
    while i < n
        invariant
            n == lit@.len(),
            0 <= i <= n,
            out@ =~= old(out)@ + lit@.subrange(0, i as int),
        decreases n - i,
    {
        out.push(lit[i]);
        i = i + 1;
    }
}

/// The label of a node: its kind word, an underscore, its id in decimal.
pub open spec fn sp_label(nd: Node) -> Seq<u8> {
    (match nd.kind {
        NodeType::Room => lit_label_room(),
        NodeType::User => lit_label_user(),
        NodeType::Server => lit_label_server(),
    }) + spec_dec(nd.id as nat)
}

/// Appends the label of `nd` to `out`.
fn push_label(out: &mut Vec<u8>, nd: Node)
    ensures
        final(out)@ =~= old(out)@ + sp_label(nd),
{
    let word = match nd.kind {
        NodeType::Room => make_lit_label_room(),
        NodeType::User => make_lit_label_user(),
        NodeType::Server => make_lit_label_server(),
    };
    push_lit(out, &word);
    push_u64(out, nd.id);
}

// ------------------------------------------------------------------
// The dot export
// ------------------------------------------------------------------

/// One node statement of the dot export.
pub open spec fn sp_dot_node_line(i: int, nd: Node) -> Seq<u8> {
    lit_dot_indent() + spec_dec(i as nat) + lit_dot_label_open() + sp_label(nd)
        + lit_dot_label_close()
}

/// The node statements for the first `k` nodes.
pub open spec fn sp_dot_nodes(nodes: Seq<Node>, k: int) -> Seq<u8>
    decreases k,
{
    if k <= 0 {
        Seq::empty()
    } else {
        sp_dot_nodes(nodes, k - 1) + sp_dot_node_line(k - 1, nodes[k - 1])
    }
}

/// One edge statement of the dot export.
pub open spec fn sp_dot_edge_line(e: Edge) -> Seq<u8> {
    lit_dot_indent() + spec_dec(e.a as nat) + lit_dot_edge_sep() + spec_dec(e.b as nat)
        + lit_dot_edge_close()
}

/// The edge statements for the first `k` edges.
pub open spec fn sp_dot_edges(edges: Seq<Edge>, k: int) -> Seq<u8>
    decreases k,
{
    if k <= 0 {
        Seq::empty()
    } else {
        sp_dot_edges(edges, k - 1) + sp_dot_edge_line(edges[k - 1])
    }
}

/// The whole dot document for a graph.
pub open spec fn sp_export_dot(nodes: Seq<Node>, edges: Seq<Edge>) -> Seq<u8> {
    lit_dot_header() + sp_dot_nodes(nodes, nodes.len() as int) + sp_dot_edges(
        edges,
        edges.len() as int,
    ) + lit_dot_footer()
}

/// Renders the plain graph-description (dot) export.
pub fn export_graph_to_dot(g: &Graph) -> (out: Vec<u8>)
    ensures
        out@ =~= sp_export_dot(g.nodes@, g.edges@),
{
    let mut out: Vec<u8> = Vec::new();
    let header = make_lit_dot_header();
    push_lit(&mut out, &header);
    let indent = make_lit_dot_indent();
    let label_open = make_lit_dot_label_open();
    let label_close = make_lit_dot_label_close();
    let n = g.nodes.len();
    let mut k: usize = 0;
    while k < n
        invariant
            n == g.nodes@.len(),
            0 <= k <= n,
            indent@ =~= lit_dot_indent(),
            label_open@ =~= lit_dot_label_open(),
            label_close@ =~= lit_dot_label_close(),
            out@ =~= lit_dot_header() + sp_dot_nodes(g.nodes@, k as int),
        decreases n - k,
    {
        push_lit(&mut out, &indent);
        push_u64(&mut out, k as u64);
        push_lit(&mut out, &label_open);
        push_label(&mut out, g.nodes[k]);
        push_lit(&mut out, &label_close);
        k = k + 1;
    }
    let ghost mid = out@;
    let edge_sep = make_lit_dot_edge_sep();
    let edge_close = make_lit_dot_edge_close();
    let m = g.edges.len();
    let mut k: usize = 0;
    while k < m
        invariant
            m == g.edges@.len(),
            0 <= k <= m,
            indent@ =~= lit_dot_indent(),
            edge_sep@ =~= lit_dot_edge_sep(),
            edge_close@ =~= lit_dot_edge_close(),
            out@ =~= mid + sp_dot_edges(g.edges@, k as int),
        decreases m - k,
    {
        push_lit(&mut out, &indent);
        push_u64(&mut out, g.edges[k].a as u64);
        push_lit(&mut out, &edge_sep);
        push_u64(&mut out, g.edges[k].b as u64);
        push_lit(&mut out, &edge_close);
        k = k + 1;
    }
    let footer = make_lit_dot_footer();
    push_lit(&mut out, &footer);
    out
}

// ------------------------------------------------------------------
// The GraphML export
// ------------------------------------------------------------------

/// One node element of the GraphML export.
pub open spec fn sp_xml_node(i: int, nd: Node) -> Seq<u8> {
    lit_xml_node_open() + spec_dec(i as nat) + lit_xml_node_mid() + sp_label(nd)
        + lit_xml_node_close()
}

/// The node elements for the first `k` nodes.
pub open spec fn sp_xml_nodes(nodes: Seq<Node>, k: int) -> Seq<u8>
    decreases k,
{
    if k <= 0 {
        Seq::empty()
    } else {
        sp_xml_nodes(nodes, k - 1) + sp_xml_node(k - 1, nodes[k - 1])
    }
}

/// One edge element of the GraphML export.
pub open spec fn sp_xml_edge(e: Edge) -> Seq<u8> {
    lit_xml_edge_open() + spec_dec(e.a as nat) + lit_xml_edge_mid() + spec_dec(e.b as nat)
        + lit_xml_edge_close()
}

/// The edge elements for the first `k` edges.
pub open spec fn sp_xml_edges(edges: Seq<Edge>, k: int) -> Seq<u8>
    decreases k,
{
    if k <= 0 {
        Seq::empty()
    } else {
        sp_xml_edges(edges, k - 1) + sp_xml_edge(edges[k - 1])
    }
}

/// The whole GraphML document for a graph.
pub open spec fn sp_export_graphml(nodes: Seq<Node>, edges: Seq<Edge>) -> Seq<u8> {
    lit_xml_header() + sp_xml_nodes(nodes, nodes.len() as int) + sp_xml_edges(
        edges,
        edges.len() as int,
    ) + lit_xml_footer()
}

/// Renders the graph-markup (GraphML) export.
pub fn export_graph_to_graphml(g: &Graph) -> (out: Vec<u8>)
    ensures
        out@ =~= sp_export_graphml(g.nodes@, g.edges@),
{
    let mut out: Vec<u8> = Vec::new();
    let header = make_lit_xml_header();
    push_lit(&mut out, &header);
    let node_open = make_lit_xml_node_open();
    let node_mid = make_lit_xml_node_mid();
    let node_close = make_lit_xml_node_close();
    let n = g.nodes.len();
    let mut k: usize = 0;
    while k < n
        invariant
            n == g.nodes@.len(),
            0 <= k <= n,
            node_open@ =~= lit_xml_node_open(),
            node_mid@ =~= lit_xml_node_mid(),
            node_close@ =~= lit_xml_node_close(),
            out@ =~= lit_xml_header() + sp_xml_nodes(g.nodes@, k as int),
        decreases n - k,
    {
        push_lit(&mut out, &node_open);
        push_u64(&mut out, k as u64);
        push_lit(&mut out, &node_mid);
        push_label(&mut out, g.nodes[k]);
        push_lit(&mut out, &node_close);
        k = k + 1;
    }
    let ghost mid = out@;
    let edge_open = make_lit_xml_edge_open();
    let edge_mid = make_lit_xml_edge_mid();
    let edge_close = make_lit_xml_edge_close();
    let m = g.edges.len();
    let mut k: usize = 0;
    while k < m
        invariant
            m == g.edges@.len(),
            0 <= k <= m,
            edge_open@ =~= lit_xml_edge_open(),
            edge_mid@ =~= lit_xml_edge_mid(),
            edge_close@ =~= lit_xml_edge_close(),
            out@ =~= mid + sp_xml_edges(g.edges@, k as int),
        decreases m - k,
    {
        push_lit(&mut out, &edge_open);
        push_u64(&mut out, g.edges[k].a as u64);
        push_lit(&mut out, &edge_mid);
        push_u64(&mut out, g.edges[k].b as u64);
        push_lit(&mut out, &edge_close);
        k = k + 1;
    }
    let footer = make_lit_xml_footer();
    push_lit(&mut out, &footer);
    out
}

} // verus!
