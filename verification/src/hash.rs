//! Content digests. Patches and graphs are written out in a canonical byte
//! encoding, and the encoding is hashed with BLAKE3.
//!
//! The encoding: tags and booleans are single bytes; identifiers are 16 bytes,
//! lengths and 64-bit words 8 bytes, 32-bit words and characters 4 bytes, all
//! little-endian; a string is its length in characters followed by its
//! characters; a sequence is its length followed by its elements.
use vstd::prelude::*;
use crate::strmap::{StrMap, chars_of};
use std::collections::BTreeMap;
use crate::types::{
    ConfigValue, CValue, cv_view, cv_list_view, cv_entries_view, lemma_cv_list_view,
    lemma_cv_entries_view, ConfigChange, ChangeView, DataType, PortDirection, ExecutionDomain,
    PortSemantic, PortPolarity, TypedPort, PortView, ports_view, NodeKind, NodeKindView,
    MetadataRef, ConfidenceScore, PortRef, PortRefView, opt_port_view, PatchSource, TrustLevel,
};
use crate::ir::{Node, Edge, EdgeKind, EdgeDelta, Modulation, Topology};
use crate::patch::{Operation, Patch};
use crate::keyorder::{sorted_keys, key_order, enumerates};

verus! {

// ──────────────────────────────────────────────
// BLAKE3
// ──────────────────────────────────────────────

/// The BLAKE3 digest of a byte string.
pub uninterp spec fn blake3_digest(data: Seq<u8>) -> Seq<u8>;

/// `blake3::hash`: the 32-byte BLAKE3 digest of the bytes. The digest is a
/// function of the bytes alone; what it is, is not stated here.
#[verifier::external_body]
pub(crate) fn blake3_of(data: &Vec<u8>) -> (h: crate::types::Hash)
    ensures
        h@ == blake3_digest(data@),
{
    *blake3::hash(data.as_slice()).as_bytes()
}

// ──────────────────────────────────────────────
// Words
// ──────────────────────────────────────────────

/// The `n` low-order bytes of `x`, least significant first.
pub open spec fn le_bytes(x: nat, n: nat) -> Seq<u8>
    decreases n,
{
    if n == 0 {
        Seq::empty()
    } else {
        seq![(x % 256) as u8] + le_bytes(x / 256, (n - 1) as nat)
    }
}

pub open spec fn enc_u32(x: u32) -> Seq<u8> {
    le_bytes(x as nat, 4)
}

pub open spec fn enc_u64(x: u64) -> Seq<u8> {
    le_bytes(x as nat, 8)
}

pub open spec fn enc_id(x: u128) -> Seq<u8> {
    le_bytes(x as nat, 16)
}

pub open spec fn enc_len(n: nat) -> Seq<u8> {
    le_bytes(n, 8)
}

pub open spec fn enc_bool(b: bool) -> Seq<u8> {
    seq![if b { 1u8 } else { 0u8 }]
}

/// A signed word: a sign byte, then the magnitude (of `-(x + 1)` when negative).
pub open spec fn enc_i64(x: i64) -> Seq<u8> {
    if x >= 0 {
        seq![0u8] + le_bytes(x as nat, 8)
    } else {
        seq![1u8] + le_bytes((-(x + 1)) as nat, 8)
    }
}

pub open spec fn enc_chars(s: Seq<char>) -> Seq<u8>
    decreases s.len(),
{
    if s.len() == 0 {
        Seq::empty()
    } else {
        enc_chars(s.drop_last()) + le_bytes((s.last() as u32) as nat, 4)
    }
}

pub open spec fn enc_str(s: Seq<char>) -> Seq<u8> {
    enc_len(s.len()) + enc_chars(s)
}

pub open spec fn enc_opt_id(o: Option<u128>) -> Seq<u8> {
    match o {
        Some(x) => seq![1u8] + enc_id(x),
        None => seq![0u8],
    }
}

pub open spec fn enc_ids(s: Seq<u128>) -> Seq<u8>
    decreases s.len(),
{
    if s.len() == 0 {
        Seq::empty()
    } else {
        enc_ids(s.drop_last()) + enc_id(s.last())
    }
}

/// Appends the `n` low-order bytes of `x`, least significant first.
pub(crate) fn push_le(out: &mut Vec<u8>, x: u128, n: usize)
    ensures
        final(out)@ == old(out)@ + le_bytes(x as nat, n as nat),
{
    let ghost start = out@;
    let mut v: u128 = x;
    let mut i: usize = 0;
    proof {
        assert(out@ + le_bytes(v as nat, (n - i) as nat) =~= start + le_bytes(x as nat, n as nat));
    }
    while i < n
        invariant
            i <= n,
            out@ + le_bytes(v as nat, (n - i) as nat) == start + le_bytes(x as nat, n as nat),
        decreases n - i,
    {
        let ghost before = out@;
        let b = (v % 256) as u8;
        out.push(b);
        proof {
            assert(le_bytes(v as nat, (n - i) as nat) == seq![(v as nat % 256) as u8] + le_bytes(
                v as nat / 256,
                (n - i - 1) as nat,
            ));
            assert(out@ + le_bytes((v / 256) as nat, (n - (i + 1)) as nat) =~= before + le_bytes(
                v as nat,
                (n - i) as nat,
            ));
        }
        v = v / 256;
        i = i + 1;
    }
}

pub(crate) fn push_u32(out: &mut Vec<u8>, x: u32)
    ensures
        final(out)@ == old(out)@ + enc_u32(x),
{
    push_le(out, x as u128, 4);
}

pub(crate) fn push_u64(out: &mut Vec<u8>, x: u64)
    ensures
        final(out)@ == old(out)@ + enc_u64(x),
{
    push_le(out, x as u128, 8);
}

pub(crate) fn push_id(out: &mut Vec<u8>, x: u128)
    ensures
        final(out)@ == old(out)@ + enc_id(x),
{
    push_le(out, x, 16);
}

pub(crate) fn push_len(out: &mut Vec<u8>, n: usize)
    ensures
        final(out)@ == old(out)@ + enc_len(n as nat),
{
    push_le(out, n as u128, 8);
}

pub(crate) fn push_tag(out: &mut Vec<u8>, t: u8)
    ensures
        final(out)@ == old(out)@ + seq![t],
{
    out.push(t);
    assert(out@ =~= old(out)@ + seq![t]);
}

pub(crate) fn push_bool(out: &mut Vec<u8>, b: bool)
    ensures
        final(out)@ == old(out)@ + enc_bool(b),
{
    if b {
        push_tag(out, 1);
    } else {
        push_tag(out, 0);
    }
}

pub(crate) fn push_i64(out: &mut Vec<u8>, x: i64)
    ensures
        final(out)@ == old(out)@ + enc_i64(x),
{
    let ghost start = out@;
    if x >= 0 {
        push_tag(out, 0);
        push_le(out, x as u128, 8);
        assert(out@ =~= start + enc_i64(x));
    } else {
        push_tag(out, 1);
        let m: i64 = -(x + 1);
        push_le(out, m as u128, 8);
        assert(out@ =~= start + enc_i64(x));
    }
}

pub(crate) fn push_str(out: &mut Vec<u8>, s: &str)
    ensures
        final(out)@ == old(out)@ + enc_str(s@),
{
    let ghost start = out@;
    let cs = chars_of(s);
    push_len(out, cs.len());
    let ghost mid = out@;
    let mut i: usize = 0;
    proof {
        assert(cs@.take(0) =~= Seq::<char>::empty());
        assert(out@ =~= mid + enc_chars(cs@.take(0)));
    }
    while i < cs.len()
        invariant
            i <= cs@.len(),
            out@ == mid + enc_chars(cs@.take(i as int)),
        decreases cs@.len() - i,
    {
        let c = cs[i];
        push_le(out, (c as u32) as u128, 4);
        proof {
            assert(cs@.take(i + 1).drop_last() =~= cs@.take(i as int));
            assert(out@ =~= mid + enc_chars(cs@.take(i + 1)));
        }
        i = i + 1;
    }
    proof {
        assert(cs@.take(cs@.len() as int) =~= cs@);
        assert(out@ =~= start + enc_str(s@));
    }
}

pub(crate) fn push_opt_id(out: &mut Vec<u8>, o: Option<u128>)
    ensures
        final(out)@ == old(out)@ + enc_opt_id(o),
{
    let ghost start = out@;
    match o {
        Some(x) => {
            push_tag(out, 1);
            push_id(out, x);
        },
        None => {
            push_tag(out, 0);
        },
    }
    assert(out@ =~= start + enc_opt_id(o));
}

pub(crate) fn push_ids(out: &mut Vec<u8>, s: &Vec<u128>)
    ensures
        final(out)@ == old(out)@ + enc_len(s@.len()) + enc_ids(s@),
{
    let ghost start = out@;
    push_len(out, s.len());
    let ghost mid = out@;
    let mut i: usize = 0;
    proof {
        assert(s@.take(0) =~= Seq::<u128>::empty());
        assert(out@ =~= mid + enc_ids(s@.take(0)));
    }
    while i < s.len()
        invariant
            i <= s@.len(),
            out@ == mid + enc_ids(s@.take(i as int)),
        decreases s@.len() - i,
    {
        push_id(out, s[i]);
        proof {
            assert(s@.take(i + 1).drop_last() =~= s@.take(i as int));
            assert(out@ =~= mid + enc_ids(s@.take(i + 1)));
        }
        i = i + 1;
    }
    proof {
        assert(s@.take(s@.len() as int) =~= s@);
        assert(out@ =~= start + enc_len(s@.len()) + enc_ids(s@));
    }
}


// ──────────────────────────────────────────────
// Configuration values
// ──────────────────────────────────────────────

pub open spec fn enc_cvalue(v: CValue) -> Seq<u8>
    decreases v, 0int,
{
    match v {
        CValue::Float(b) => seq![0u8] + enc_u64(b),
        CValue::Int(i) => seq![1u8] + enc_i64(i),
        CValue::Bool(b) => seq![2u8] + enc_bool(b),
        CValue::Str(s) => seq![3u8] + enc_str(s),
        CValue::List(l) => seq![4u8] + enc_len(l.len()) + enc_cvalue_list(l),
        CValue::Table(es) => seq![5u8] + enc_len(es.len()) + enc_cvalue_entries(es),
    }
}

pub open spec fn enc_cvalue_list(s: Seq<CValue>) -> Seq<u8>
    decreases s, 1int,
{
    if s.len() == 0 {
        Seq::empty()
    } else {
        enc_cvalue_list(s.drop_last()) + enc_cvalue(s.last())
    }
}

pub open spec fn enc_cvalue_entries(s: Seq<(Seq<char>, CValue)>) -> Seq<u8>
    decreases s, 1int,
{
    if s.len() == 0 {
        Seq::empty()
    } else {
        enc_cvalue_entries(s.drop_last()) + enc_str(s.last().0) + enc_cvalue(s.last().1)
    }
}

/// A configuration: its entries in key order.
pub open spec fn enc_config(c: StrMap<ConfigValue>) -> Seq<u8> {
    enc_len(c.entries().len()) + enc_cvalue_entries(cv_entries_view(c.entries()))
}

pub(crate) fn push_value(out: &mut Vec<u8>, v: &ConfigValue)
    ensures
        final(out)@ == old(out)@ + enc_cvalue(v@),
    decreases v,
{
    let ghost start = out@;
    match v {
        ConfigValue::Float(b) => {
            push_tag(out, 0);
            push_u64(out, *b);
        },
        ConfigValue::Int(i) => {
            push_tag(out, 1);
            push_i64(out, *i);
        },
        ConfigValue::Bool(b) => {
            push_tag(out, 2);
            push_bool(out, *b);
        },
        ConfigValue::String(s) => {
            push_tag(out, 3);
            push_str(out, s.as_str());
        },
        ConfigValue::List(l) => {
            proof {
                lemma_cv_list_view(l@);
            }
            push_tag(out, 4);
            push_len(out, l.len());
            let ghost mid = out@;
            let ghost lv = cv_list_view(l@);
            let mut i: usize = 0;
            proof {
                assert(lv.take(0) =~= Seq::<CValue>::empty());
                assert(out@ =~= mid + enc_cvalue_list(lv.take(0)));
            }
            while i < l.len()
                invariant
                    *v == ConfigValue::List(*l),
                    lv == cv_list_view(l@),
                    lv.len() == l@.len(),
                    forall|j: int| 0 <= j < l@.len() ==> (#[trigger] lv[j]) == cv_view(l@[j]),
                    i <= l@.len(),
                    out@ == mid + enc_cvalue_list(lv.take(i as int)),
                decreases l@.len() - i,
            {
                proof {
                    vstd::std_specs::vec::axiom_vec_index_decreases(*l, i as int);
                    assert(decreases_to!(*v => (*v)->List_0));
                }
                push_value(out, &l[i]);
                proof {
                    assert(lv.take(i + 1).drop_last() =~= lv.take(i as int));
                    assert(lv.take(i + 1).last() == cv_view(l@[i as int]));
                    assert(out@ =~= mid + enc_cvalue_list(lv.take(i + 1)));
                }
                i = i + 1;
            }
            proof {
                assert(lv.take(lv.len() as int) =~= lv);
            }
        },
        ConfigValue::Table(m) => {
            proof {
                lemma_cv_entries_view::<ConfigValue>(m.entries());
                crate::strmap::lemma_entries_decrease(*m);
                assert(decreases_to!(*v => (*v)->Table_0));
            }
            push_tag(out, 5);
            push_entries(out, m);
        },
    }
    assert(out@ =~= start + enc_cvalue(v@));
}

/// Appends a table's entry count and its entries in key order.
pub(crate) fn push_entries(out: &mut Vec<u8>, m: &StrMap<ConfigValue>)
    ensures
        final(out)@ == old(out)@ + enc_config(*m),
    decreases m,
{
    proof {
        lemma_cv_entries_view::<ConfigValue>(m.entries());
    }
    let ghost start = out@;
    push_len(out, m.len());
    let ghost mid = out@;
    let ghost es = cv_entries_view(m.entries());
    let mut i: usize = 0;
    proof {
        assert(es.take(0) =~= Seq::<(Seq<char>, CValue)>::empty());
        assert(out@ =~= mid + enc_cvalue_entries(es.take(0)));
    }
    while i < m.len()
        invariant
            es == cv_entries_view(m.entries()),
            es.len() == m.entries().len(),
            forall|j: int|
                0 <= j < m.entries().len() ==> (#[trigger] es[j]) == (
                    m.entries()[j].0@,
                    cv_view(m.entries()[j].1),
                ),
            i <= m.entries().len(),
            out@ == mid + enc_cvalue_entries(es.take(i as int)),
        decreases m.entries().len() - i,
    {
        proof {
            crate::strmap::lemma_entries_decrease(*m);
            assert(decreases_to!(m.entries() => m.entries()[i as int]));
        }
        push_str(out, m.key_at(i).as_str());
        push_value(out, m.value_at(i));
        proof {
            assert(es.take(i + 1).drop_last() =~= es.take(i as int));
            assert(es.take(i + 1).last() == es[i as int]);
            assert(out@ =~= mid + enc_cvalue_entries(es.take(i + 1)));
        }
        i = i + 1;
    }
    proof {
        assert(es.take(es.len() as int) =~= es);
        assert(out@ =~= start + enc_config(*m));
    }
}

// ──────────────────────────────────────────────
// Nodes
// ──────────────────────────────────────────────

pub open spec fn enc_data_type(d: DataType) -> Seq<u8> {
    match d {
        DataType::Audio { channels } => seq![0u8] + enc_u32(channels),
        DataType::Control => seq![1u8],
        DataType::Midi => seq![2u8],
        DataType::Spectral { bins } => seq![3u8] + enc_u32(bins),
        DataType::Blob => seq![4u8],
        DataType::Meta => seq![5u8],
    }
}

pub open spec fn direction_tag(d: PortDirection) -> u8 {
    match d {
        PortDirection::Input => 0u8,
        PortDirection::Output => 1u8,
    }
}

pub open spec fn domain_tag(d: ExecutionDomain) -> u8 {
    match d {
        ExecutionDomain::Sample => 0u8,
        ExecutionDomain::Block => 1u8,
        ExecutionDomain::Timeline => 2u8,
        ExecutionDomain::Background => 3u8,
    }
}

pub open spec fn semantic_tag(s: PortSemantic) -> u8 {
    match s {
        PortSemantic::Signal => 0u8,
    }
}

pub open spec fn polarity_tag(p: PortPolarity) -> u8 {
    match p {
        PortPolarity::Bipolar => 0u8,
    }
}

pub open spec fn enc_port(p: PortView) -> Seq<u8> {
    enc_str(p.name) + seq![direction_tag(p.direction), domain_tag(p.domain)] + enc_data_type(
        p.data_type,
    ) + seq![semantic_tag(p.semantic), polarity_tag(p.polarity)]
}

pub open spec fn enc_ports(s: Seq<PortView>) -> Seq<u8>
    decreases s.len(),
{
    if s.len() == 0 {
        Seq::empty()
    } else {
        enc_ports(s.drop_last()) + enc_port(s.last())
    }
}

pub open spec fn enc_kind(k: NodeKindView) -> Seq<u8> {
    match k {
        NodeKindView::Source => seq![0u8],
        NodeKindView::Processor => seq![1u8],
        NodeKindView::Analyzer => seq![2u8],
        NodeKindView::Sink => seq![3u8],
        NodeKindView::Junction => seq![4u8],
        NodeKindView::Foreign(s) => seq![5u8] + enc_str(s),
        NodeKindView::Intent => seq![6u8],
        NodeKindView::Metadata => seq![7u8],
        NodeKindView::Boundary => seq![8u8],
        NodeKindView::SubGraph => seq![9u8],
        NodeKindView::InputProxy => seq![10u8],
        NodeKindView::OutputProxy => seq![11u8],
        NodeKindView::CircuitModule { circuit_id } => seq![12u8] + enc_id(circuit_id),
    }
}

pub open spec fn enc_meta(m: Option<Seq<char>>) -> Seq<u8> {
    match m {
        Some(s) => seq![1u8] + enc_str(s),
        None => seq![0u8],
    }
}

pub open spec fn confidence_tag(c: ConfidenceScore) -> u8 {
    match c {
        ConfidenceScore::Verified => 0u8,
    }
}

pub open spec fn enc_node(n: Node) -> Seq<u8> {
    enc_id(n.id) + enc_kind(n.kind@) + enc_len(n.ports@.len()) + enc_ports(ports_view(n.ports@))
        + enc_config(n.config) + enc_meta(n.metadata@) + seq![confidence_tag(n.confidence)]
}

fn push_data_type(out: &mut Vec<u8>, d: DataType)
    ensures
        final(out)@ == old(out)@ + enc_data_type(d),
{
    let ghost start = out@;
    match d {
        DataType::Audio { channels } => {
            push_tag(out, 0);
            push_u32(out, channels);
        },
        DataType::Control => push_tag(out, 1),
        DataType::Midi => push_tag(out, 2),
        DataType::Spectral { bins } => {
            push_tag(out, 3);
            push_u32(out, bins);
        },
        DataType::Blob => push_tag(out, 4),
        DataType::Meta => push_tag(out, 5),
    }
    assert(out@ =~= start + enc_data_type(d));
}

fn push_port(out: &mut Vec<u8>, p: &TypedPort)
    ensures
        final(out)@ == old(out)@ + enc_port(p@),
{
    let ghost start = out@;
    push_str(out, p.name.as_str());
    match p.direction {
        PortDirection::Input => push_tag(out, 0),
        PortDirection::Output => push_tag(out, 1),
    }
    match p.domain {
        ExecutionDomain::Sample => push_tag(out, 0),
        ExecutionDomain::Block => push_tag(out, 1),
        ExecutionDomain::Timeline => push_tag(out, 2),
        ExecutionDomain::Background => push_tag(out, 3),
    }
    push_data_type(out, p.data_type);
    match p.semantic {
        PortSemantic::Signal => push_tag(out, 0),
    }
    match p.polarity {
        PortPolarity::Bipolar => push_tag(out, 0),
    }
    assert(out@ =~= start + enc_port(p@));
}

fn push_kind(out: &mut Vec<u8>, k: &NodeKind)
    ensures
        final(out)@ == old(out)@ + enc_kind(k@),
{
    let ghost start = out@;
    match k {
        NodeKind::Source => push_tag(out, 0),
        NodeKind::Processor => push_tag(out, 1),
        NodeKind::Analyzer => push_tag(out, 2),
        NodeKind::Sink => push_tag(out, 3),
        NodeKind::Junction => push_tag(out, 4),
        NodeKind::Foreign(s) => {
            push_tag(out, 5);
            push_str(out, s.as_str());
        },
        NodeKind::Intent => push_tag(out, 6),
        NodeKind::Metadata => push_tag(out, 7),
        NodeKind::Boundary => push_tag(out, 8),
        NodeKind::SubGraph => push_tag(out, 9),
        NodeKind::InputProxy => push_tag(out, 10),
        NodeKind::OutputProxy => push_tag(out, 11),
        NodeKind::CircuitModule { circuit_id } => {
            push_tag(out, 12);
            push_id(out, *circuit_id);
        },
    }
    assert(out@ =~= start + enc_kind(k@));
}

pub(crate) fn push_node(out: &mut Vec<u8>, n: &Node)
    ensures
        final(out)@ == old(out)@ + enc_node(*n),
{
    let ghost start = out@;
    push_id(out, n.id);
    push_kind(out, &n.kind);
    push_len(out, n.ports.len());
    let ghost mid = out@;
    let ghost pv = ports_view(n.ports@);
    let mut i: usize = 0;
    proof {
        assert(pv.take(0) =~= Seq::<PortView>::empty());
        assert(out@ =~= mid + enc_ports(pv.take(0)));
    }
    while i < n.ports.len()
        invariant
            pv == ports_view(n.ports@),
            i <= n.ports@.len(),
            out@ == mid + enc_ports(pv.take(i as int)),
        decreases n.ports@.len() - i,
    {
        push_port(out, &n.ports[i]);
        proof {
            assert(pv.take(i + 1).drop_last() =~= pv.take(i as int));
            assert(out@ =~= mid + enc_ports(pv.take(i + 1)));
        }
        i = i + 1;
    }
    proof {
        assert(pv.take(pv.len() as int) =~= pv);
    }
    push_entries(out, &n.config);
    match &n.metadata.0 {
        Some(s) => {
            push_tag(out, 1);
            push_str(out, s.as_str());
        },
        None => push_tag(out, 0),
    }
    match n.confidence {
        ConfidenceScore::Verified => push_tag(out, 0),
    }
    assert(out@ =~= start + enc_node(*n));
}

// ──────────────────────────────────────────────
// Edges, modulations and changes
// ──────────────────────────────────────────────

pub open spec fn enc_port_ref(p: PortRefView) -> Seq<u8> {
    enc_id(p.node_id) + enc_str(p.port_name)
}

pub open spec fn edge_kind_tag(k: EdgeKind) -> u8 {
    match k {
        EdgeKind::Normal => 0u8,
        EdgeKind::Feedback => 1u8,
    }
}

pub open spec fn enc_edge(e: Edge) -> Seq<u8> {
    enc_id(e.id) + enc_port_ref(e.source@) + enc_port_ref(e.target@) + seq![edge_kind_tag(e.kind)]
}

pub open spec fn enc_opt_port_ref(o: Option<PortRefView>) -> Seq<u8> {
    match o {
        Some(p) => seq![1u8] + enc_port_ref(p),
        None => seq![0u8],
    }
}

pub open spec fn enc_edge_delta(d: EdgeDelta) -> Seq<u8> {
    enc_opt_port_ref(opt_port_view(d.source)) + enc_opt_port_ref(opt_port_view(d.target)) + match d.kind {
        Some(k) => seq![1u8, edge_kind_tag(k)],
        None => seq![0u8],
    }
}

pub open spec fn enc_modulation(m: Modulation) -> Seq<u8> {
    enc_id(m.id) + enc_port_ref(m.source@) + enc_id(m.target_node) + enc_str(m.target_param@)
        + enc_u32(m.amount)
}

pub open spec fn enc_opt_cvalue(o: Option<CValue>) -> Seq<u8> {
    match o {
        Some(v) => seq![1u8] + enc_cvalue(v),
        None => seq![0u8],
    }
}

pub open spec fn enc_change(c: ChangeView) -> Seq<u8> {
    enc_opt_cvalue(c.old) + enc_opt_cvalue(c.new)
}

pub open spec fn enc_delta_entries(s: Seq<(String, ConfigChange)>) -> Seq<u8>
    decreases s.len(),
{
    if s.len() == 0 {
        Seq::empty()
    } else {
        enc_delta_entries(s.drop_last()) + enc_str(s.last().0@) + enc_change(s.last().1@)
    }
}

/// A configuration delta: its entries in key order.
pub open spec fn enc_delta(d: StrMap<ConfigChange>) -> Seq<u8> {
    enc_len(d.entries().len()) + enc_delta_entries(d.entries())
}

fn push_port_ref(out: &mut Vec<u8>, p: &PortRef)
    ensures
        final(out)@ == old(out)@ + enc_port_ref(p@),
{
    let ghost start = out@;
    push_id(out, p.node_id);
    push_str(out, p.port_name.as_str());
    assert(out@ =~= start + enc_port_ref(p@));
}

fn push_edge_kind(out: &mut Vec<u8>, k: EdgeKind)
    ensures
        final(out)@ == old(out)@ + seq![edge_kind_tag(k)],
{
    match k {
        EdgeKind::Normal => push_tag(out, 0),
        EdgeKind::Feedback => push_tag(out, 1),
    }
}

pub(crate) fn push_edge(out: &mut Vec<u8>, e: &Edge)
    ensures
        final(out)@ == old(out)@ + enc_edge(*e),
{
    let ghost start = out@;
    push_id(out, e.id);
    push_port_ref(out, &e.source);
    push_port_ref(out, &e.target);
    push_edge_kind(out, e.kind);
    assert(out@ =~= start + enc_edge(*e));
}

fn push_opt_port_ref(out: &mut Vec<u8>, o: &Option<PortRef>)
    ensures
        final(out)@ == old(out)@ + enc_opt_port_ref(opt_port_view(*o)),
{
    let ghost start = out@;
    match o {
        Some(p) => {
            push_tag(out, 1);
            push_port_ref(out, p);
        },
        None => push_tag(out, 0),
    }
    assert(out@ =~= start + enc_opt_port_ref(opt_port_view(*o)));
}

fn push_edge_delta(out: &mut Vec<u8>, d: &EdgeDelta)
    ensures
        final(out)@ == old(out)@ + enc_edge_delta(*d),
{
    let ghost start = out@;
    push_opt_port_ref(out, &d.source);
    push_opt_port_ref(out, &d.target);
    match d.kind {
        Some(k) => {
            push_tag(out, 1);
            push_edge_kind(out, k);
        },
        None => push_tag(out, 0),
    }
    assert(out@ =~= start + enc_edge_delta(*d));
}

pub(crate) fn push_modulation(out: &mut Vec<u8>, m: &Modulation)
    ensures
        final(out)@ == old(out)@ + enc_modulation(*m),
{
    let ghost start = out@;
    push_id(out, m.id);
    push_port_ref(out, &m.source);
    push_id(out, m.target_node);
    push_str(out, m.target_param.as_str());
    push_u32(out, m.amount);
    assert(out@ =~= start + enc_modulation(*m));
}

fn push_opt_value(out: &mut Vec<u8>, o: &Option<ConfigValue>)
    ensures
        final(out)@ == old(out)@ + enc_opt_cvalue(crate::types::opt_cv_view(*o)),
{
    let ghost start = out@;
    match o {
        Some(v) => {
            push_tag(out, 1);
            push_value(out, v);
        },
        None => push_tag(out, 0),
    }
    assert(out@ =~= start + enc_opt_cvalue(crate::types::opt_cv_view(*o)));
}

fn push_delta(out: &mut Vec<u8>, d: &StrMap<ConfigChange>)
    ensures
        final(out)@ == old(out)@ + enc_delta(*d),
{
    let ghost start = out@;
    push_len(out, d.len());
    let ghost mid = out@;
    let ghost es = d.entries();
    let mut i: usize = 0;
    proof {
        assert(es.take(0) =~= Seq::<(String, ConfigChange)>::empty());
        assert(out@ =~= mid + enc_delta_entries(es.take(0)));
    }
    while i < d.len()
        invariant
            es == d.entries(),
            i <= es.len(),
            out@ == mid + enc_delta_entries(es.take(i as int)),
        decreases es.len() - i,
    {
        let c = d.value_at(i);
        push_str(out, d.key_at(i).as_str());
        push_opt_value(out, &c.old);
        push_opt_value(out, &c.new);
        proof {
            assert(es.take(i + 1).drop_last() =~= es.take(i as int));
            assert(es.take(i + 1).last() == es[i as int]);
            assert(out@ =~= mid + enc_delta_entries(es.take(i + 1)));
        }
        i = i + 1;
    }
    proof {
        assert(es.take(es.len() as int) =~= es);
        assert(out@ =~= start + enc_delta(*d));
    }
}

// ──────────────────────────────────────────────
// Operations and patches
// ──────────────────────────────────────────────

pub open spec fn enc_op(o: Operation) -> Seq<u8> {
    match o {
        Operation::AddNode(n) => seq![0u8] + enc_node(n),
        Operation::RemoveNode(id) => seq![1u8] + enc_id(id),
        Operation::ReplaceNode(n) => seq![2u8] + enc_node(n),
        Operation::ModifyConfig { node_id, delta } => seq![3u8] + enc_id(node_id) + enc_delta(delta),
        Operation::AddEdge(e) => seq![4u8] + enc_edge(e),
        Operation::RemoveEdge(id) => seq![5u8] + enc_id(id),
        Operation::ModifyEdge { edge_id, delta } => seq![6u8] + enc_id(edge_id) + enc_edge_delta(delta),
        Operation::AddModulation(m) => seq![7u8] + enc_modulation(m),
        Operation::RemoveModulation(id) => seq![8u8] + enc_id(id),
    }
}

pub open spec fn enc_ops(s: Seq<Operation>) -> Seq<u8>
    decreases s.len(),
{
    if s.len() == 0 {
        Seq::empty()
    } else {
        enc_ops(s.drop_last()) + enc_op(s.last())
    }
}

pub open spec fn enc_hashes(s: Seq<crate::types::Hash>) -> Seq<u8>
    decreases s.len(),
{
    if s.len() == 0 {
        Seq::empty()
    } else {
        enc_hashes(s.drop_last()) + s.last()@
    }
}

pub open spec fn source_tag(s: PatchSource) -> u8 {
    match s {
        PatchSource::System => 0u8,
        PatchSource::UserDirect => 1u8,
    }
}

pub open spec fn trust_tag(t: TrustLevel) -> u8 {
    match t {
        TrustLevel::Trusted => 0u8,
        TrustLevel::Untrusted => 1u8,
    }
}

/// The content of a patch: its operations, intent, parents, provenance and
/// trust. The identity, the timestamp and the stored digest are left out, so
/// that the digest depends on what the patch does and not on when or under
/// which name it was made.
pub open spec fn enc_patch(p: Patch) -> Seq<u8> {
    enc_len(p.operations@.len()) + enc_ops(p.operations@) + enc_opt_id(p.intent_ref) + enc_len(
        p.parents@.len(),
    ) + enc_ids(p.parents@) + enc_len(p.parent_hashes@.len()) + enc_hashes(p.parent_hashes@)
        + seq![source_tag(p.source), trust_tag(p.trust)]
}

/// The digest that a patch with valid provenance carries.
pub open spec fn patch_digest(p: Patch) -> Seq<u8> {
    blake3_digest(enc_patch(p))
}

fn push_op(out: &mut Vec<u8>, o: &Operation)
    ensures
        final(out)@ == old(out)@ + enc_op(*o),
{
    let ghost start = out@;
    match o {
        Operation::AddNode(n) => {
            push_tag(out, 0);
            push_node(out, n);
        },
        Operation::RemoveNode(id) => {
            push_tag(out, 1);
            push_id(out, *id);
        },
        Operation::ReplaceNode(n) => {
            push_tag(out, 2);
            push_node(out, n);
        },
        Operation::ModifyConfig { node_id, delta } => {
            push_tag(out, 3);
            push_id(out, *node_id);
            push_delta(out, delta);
        },
        Operation::AddEdge(e) => {
            push_tag(out, 4);
            push_edge(out, e);
        },
        Operation::RemoveEdge(id) => {
            push_tag(out, 5);
            push_id(out, *id);
        },
        Operation::ModifyEdge { edge_id, delta } => {
            push_tag(out, 6);
            push_id(out, *edge_id);
            push_edge_delta(out, delta);
        },
        Operation::AddModulation(m) => {
            push_tag(out, 7);
            push_modulation(out, m);
        },
        Operation::RemoveModulation(id) => {
            push_tag(out, 8);
            push_id(out, *id);
        },
    }
    assert(out@ =~= start + enc_op(*o));
}

/// The canonical encoding of a patch's content.
pub fn encode_patch(p: &Patch) -> (out: Vec<u8>)
    ensures
        out@ == enc_patch(*p),
{
    let mut out: Vec<u8> = Vec::new();
    push_len(&mut out, p.operations.len());
    let ghost mid = out@;
    let ghost ops = p.operations@;
    let mut i: usize = 0;
    proof {
        assert(ops.take(0) =~= Seq::<Operation>::empty());
        assert(out@ =~= mid + enc_ops(ops.take(0)));
    }
    while i < p.operations.len()
        invariant
            ops == p.operations@,
            i <= ops.len(),
            out@ == mid + enc_ops(ops.take(i as int)),
        decreases ops.len() - i,
    {
        push_op(&mut out, &p.operations[i]);
        proof {
            assert(ops.take(i + 1).drop_last() =~= ops.take(i as int));
            assert(out@ =~= mid + enc_ops(ops.take(i + 1)));
        }
        i = i + 1;
    }
    proof {
        assert(ops.take(ops.len() as int) =~= ops);
    }
    push_opt_id(&mut out, p.intent_ref);
    push_ids(&mut out, &p.parents);
    push_len(&mut out, p.parent_hashes.len());
    let ghost mid2 = out@;
    let ghost hs = p.parent_hashes@;
    let mut j: usize = 0;
    proof {
        assert(hs.take(0) =~= Seq::<crate::types::Hash>::empty());
        assert(out@ =~= mid2 + enc_hashes(hs.take(0)));
    }
    while j < p.parent_hashes.len()
        invariant
            hs == p.parent_hashes@,
            j <= hs.len(),
            out@ == mid2 + enc_hashes(hs.take(j as int)),
        decreases hs.len() - j,
    {
        let h: crate::types::Hash = p.parent_hashes[j];
        let mut b: usize = 0;
        let ghost before = out@;
        while b < 32
            invariant
                b <= 32,
                h@.len() == 32,
                out@ == before + h@.take(b as int),
            decreases 32 - b,
        {
            out.push(h[b]);
            proof {
                assert(h@.take(b + 1) =~= h@.take(b as int).push(h@[b as int]));
            }
            b = b + 1;
        }
        proof {
            assert(h@.take(32) =~= h@);
            assert(hs.take(j + 1).drop_last() =~= hs.take(j as int));
            assert(out@ =~= mid2 + enc_hashes(hs.take(j + 1)));
        }
        j = j + 1;
    }
    proof {
        assert(hs.take(hs.len() as int) =~= hs);
    }
    match p.source {
        PatchSource::System => push_tag(&mut out, 0),
        PatchSource::UserDirect => push_tag(&mut out, 1),
    }
    match p.trust {
        TrustLevel::Trusted => push_tag(&mut out, 0),
        TrustLevel::Untrusted => push_tag(&mut out, 1),
    }
    assert(out@ =~= enc_patch(*p));
    out
}

/// The digest of a patch's content.
pub fn hash_patch(p: &Patch) -> (h: crate::types::Hash)
    ensures
        h@ == patch_digest(*p),
{
    let bytes = encode_patch(p);
    blake3_of(&bytes)
}

// ──────────────────────────────────────────────
// Graphs
// ──────────────────────────────────────────────

pub open spec fn enc_node_table(ks: Seq<u128>, m: Map<u128, Node>) -> Seq<u8>
    decreases ks.len(),
{
    if ks.len() == 0 {
        Seq::empty()
    } else {
        enc_node_table(ks.drop_last(), m) + enc_node(m[ks.last()])
    }
}

pub open spec fn enc_edge_table(ks: Seq<u128>, m: Map<u128, Edge>) -> Seq<u8>
    decreases ks.len(),
{
    if ks.len() == 0 {
        Seq::empty()
    } else {
        enc_edge_table(ks.drop_last(), m) + enc_edge(m[ks.last()])
    }
}

pub open spec fn enc_modulation_table(ks: Seq<u128>, m: Map<u128, Modulation>) -> Seq<u8>
    decreases ks.len(),
{
    if ks.len() == 0 {
        Seq::empty()
    } else {
        enc_modulation_table(ks.drop_last(), m) + enc_modulation(m[ks.last()])
    }
}

/// The content of a topology: its nodes, edges and modulations, each table in
/// increasing identifier order.
pub open spec fn enc_topology(t: Topology) -> Seq<u8> {
    enc_tables(t.nodes@, t.edges@, t.modulations@)
}

/// The canonical encoding of a node table, an edge table and a modulation
/// table: each as its length and its entries in identifier order.
pub open spec fn enc_tables(nodes: Map<u128, Node>, edges: Map<u128, Edge>, mods: Map<u128, Modulation>) -> Seq<u8> {
    let nk = key_order(nodes.dom());
    let ek = key_order(edges.dom());
    let mk = key_order(mods.dom());
    enc_len(nk.len()) + enc_node_table(nk, nodes) + enc_len(ek.len()) + enc_edge_table(ek, edges)
        + enc_len(mk.len()) + enc_modulation_table(mk, mods)
}

/// The digest of a graph: that of its topology.
pub open spec fn topology_digest(t: Topology) -> Seq<u8> {
    blake3_digest(enc_topology(t))
}

fn push_nodes(out: &mut Vec<u8>, m: &BTreeMap<u128, Node>)
    ensures
        final(out)@ == old(out)@ + enc_len(key_order(m@.dom()).len()) + enc_node_table(
            key_order(m@.dom()),
            m@,
        ),
{
    let ghost start = out@;
    let ks = sorted_keys(m);
    push_len(out, ks.len());
    let ghost mid = out@;
    let mut i: usize = 0;
    proof {
        assert(ks@.take(0) =~= Seq::<u128>::empty());
    }
    while i < ks.len()
        invariant
            enumerates(ks@, m@.dom()),
            ks@ == key_order(m@.dom()),
            i <= ks@.len(),
            out@ == mid + enc_node_table(ks@.take(i as int), m@),
        decreases ks@.len() - i,
    {
        let k = ks[i];
        proof {
            assert(ks@.contains(k));
        }
        match m.get(&k) {
            Some(n) => push_node(out, n),
            None => {},
        }
        proof {
            assert(ks@.take(i + 1).drop_last() =~= ks@.take(i as int));
            assert(out@ =~= mid + enc_node_table(ks@.take(i + 1), m@));
        }
        i = i + 1;
    }
    proof {
        assert(ks@.take(ks@.len() as int) =~= ks@);
    }
}

fn push_edges(out: &mut Vec<u8>, m: &BTreeMap<u128, Edge>)
    ensures
        final(out)@ == old(out)@ + enc_len(key_order(m@.dom()).len()) + enc_edge_table(
            key_order(m@.dom()),
            m@,
        ),
{
    let ks = sorted_keys(m);
    push_len(out, ks.len());
    let ghost mid = out@;
    let mut i: usize = 0;
    proof {
        assert(ks@.take(0) =~= Seq::<u128>::empty());
    }
    while i < ks.len()
        invariant
            enumerates(ks@, m@.dom()),
            ks@ == key_order(m@.dom()),
            i <= ks@.len(),
            out@ == mid + enc_edge_table(ks@.take(i as int), m@),
        decreases ks@.len() - i,
    {
        let k = ks[i];
        proof {
            assert(ks@.contains(k));
        }
        match m.get(&k) {
            Some(e) => push_edge(out, e),
            None => {},
        }
        proof {
            assert(ks@.take(i + 1).drop_last() =~= ks@.take(i as int));
            assert(out@ =~= mid + enc_edge_table(ks@.take(i + 1), m@));
        }
        i = i + 1;
    }
    proof {
        assert(ks@.take(ks@.len() as int) =~= ks@);
    }
}

fn push_modulations(out: &mut Vec<u8>, m: &BTreeMap<u128, Modulation>)
    ensures
        final(out)@ == old(out)@ + enc_len(key_order(m@.dom()).len()) + enc_modulation_table(
            key_order(m@.dom()),
            m@,
        ),
{
    let ks = sorted_keys(m);
    push_len(out, ks.len());
    let ghost mid = out@;
    let mut i: usize = 0;
    proof {
        assert(ks@.take(0) =~= Seq::<u128>::empty());
    }
    while i < ks.len()
        invariant
            enumerates(ks@, m@.dom()),
            ks@ == key_order(m@.dom()),
            i <= ks@.len(),
            out@ == mid + enc_modulation_table(ks@.take(i as int), m@),
        decreases ks@.len() - i,
    {
        let k = ks[i];
        proof {
            assert(ks@.contains(k));
        }
        match m.get(&k) {
            Some(e) => push_modulation(out, e),
            None => {},
        }
        proof {
            assert(ks@.take(i + 1).drop_last() =~= ks@.take(i as int));
            assert(out@ =~= mid + enc_modulation_table(ks@.take(i + 1), m@));
        }
        i = i + 1;
    }
    proof {
        assert(ks@.take(ks@.len() as int) =~= ks@);
    }
}

/// The canonical encoding of a node, an edge and a modulation table.
pub fn encode_tables(
    nodes: &BTreeMap<u128, Node>,
    edges: &BTreeMap<u128, Edge>,
    mods: &BTreeMap<u128, Modulation>,
) -> (out: Vec<u8>)
    ensures
        out@ == enc_tables(nodes@, edges@, mods@),
{
    let mut out: Vec<u8> = Vec::new();
    push_nodes(&mut out, nodes);
    push_edges(&mut out, edges);
    push_modulations(&mut out, mods);
    assert(out@ =~= enc_tables(nodes@, edges@, mods@));
    out
}

/// The canonical encoding of a topology.
pub fn encode_topology(t: &Topology) -> (out: Vec<u8>)
    ensures
        out@ == enc_topology(*t),
{
    encode_tables(&t.nodes, &t.edges, &t.modulations)
}

/// The digest of a graph's topology.
pub fn hash_topology(t: &Topology) -> (h: crate::types::Hash)
    ensures
        h@ == topology_digest(*t),
{
    let bytes = encode_topology(t);
    blake3_of(&bytes)
}

} // verus!
