//! The surface DSL: a text rendering of a graph for people to read (export only).
//!
//! Floating-point configuration values are written with the text that the
//! caller supplies for their bit pattern; a value without supplied text is
//! written as `f64:0x` and its sixteen hexadecimal bit digits.
use vstd::prelude::*;
use std::collections::BTreeMap;
use crate::strmap::StrMap;
use crate::types::{
    ConfigValue, CValue, cv_view, cv_list_view, cv_entries_view, lemma_cv_list_view,
    lemma_cv_entries_view, DataType, PortDirection, ExecutionDomain, TypedPort, PortView, ports_view,
    NodeKind, NodeKindView,
};
use crate::ir::{Node, Edge, Graph};
use crate::patch::hex_chars;
use crate::hash::{hash_topology, topology_digest};
use crate::actions::{node_name, node_name_text};
use crate::text::{
    dec_text, int_text, hex_fixed, id_text, bool_text, push_dec, push_int, push_hex_fixed,
    push_id_text, push_bool, id_string,
};
use crate::keyorder::{sorted_keys, key_order, enumerates};

verus! {

broadcast use vstd::laws_cmp::group_laws_cmp;

// ──────────────────────────────────────────────
// Values
// ──────────────────────────────────────────────

/// The text of a floating-point value: the supplied text for its bits, or
/// the bits in hexadecimal.
pub open spec fn float_text(bits: u64, ft: Map<u64, Seq<char>>) -> Seq<char> {
    if ft.contains_key(bits) {
        ft[bits]
    } else {
        "f64:0x"@ + hex_fixed(bits as nat, 16)
    }
}

/// A configuration value as text: strings quoted, lists in brackets, maps in
/// braces with `key: value` entries, elements separated by `, `.
pub open spec fn value_text(v: CValue, ft: Map<u64, Seq<char>>) -> Seq<char>
    decreases v, 0int,
{
    match v {
        CValue::Float(b) => float_text(b, ft),
        CValue::Int(i) => int_text(i as int),
        CValue::Bool(b) => bool_text(b),
        CValue::Str(s) => "\""@ + s + "\""@,
        CValue::List(items) => "["@ + items_text(items, ft) + "]"@,
        CValue::Table(es) => "{"@ + entries_text(es, ft) + "}"@,
    }
}

pub open spec fn items_text(items: Seq<CValue>, ft: Map<u64, Seq<char>>) -> Seq<char>
    decreases items, 1int,
{
    if items.len() == 0 {
        Seq::empty()
    } else if items.len() == 1 {
        value_text(items[0], ft)
    } else {
        items_text(items.drop_last(), ft) + ", "@ + value_text(items.last(), ft)
    }
}

pub open spec fn entries_text(es: Seq<(Seq<char>, CValue)>, ft: Map<u64, Seq<char>>) -> Seq<char>
    decreases es, 1int,
{
    if es.len() == 0 {
        Seq::empty()
    } else if es.len() == 1 {
        es[0].0 + ": "@ + value_text(es[0].1, ft)
    } else {
        entries_text(es.drop_last(), ft) + ", "@ + es.last().0 + ": "@ + value_text(es.last().1, ft)
    }
}

fn push_float(out: &mut String, bits: u64, ft: &BTreeMap<u64, String>)
    ensures
        final(out)@ == old(out)@ + float_text(bits, ft@.map_values(|s: String| s@)),
{
    let ghost start = out@;
    match ft.get(&bits) {
        Some(t) => {
            out.append(t.as_str());
        },
        None => {
            out.append("f64:0x");
            push_hex_fixed(out, bits as u128, 16);
        },
    }
    assert(out@ =~= start + float_text(bits, ft@.map_values(|s: String| s@)));
}

/// Appends a configuration value as text.
fn push_value_text(out: &mut String, v: &ConfigValue, ft: &BTreeMap<u64, String>)
    ensures
        final(out)@ == old(out)@ + value_text(v@, ft@.map_values(|s: String| s@)),
    decreases v,
{
    let ghost fm = ft@.map_values(|s: String| s@);
    let ghost start = out@;
    match v {
        ConfigValue::Float(b) => push_float(out, *b, ft),
        ConfigValue::Int(i) => push_int(out, *i),
        ConfigValue::Bool(b) => push_bool(out, *b),
        ConfigValue::String(s) => {
            out.append("\"");
            out.append(s.as_str());
            out.append("\"");
        },
        ConfigValue::List(items) => {
            proof {
                lemma_cv_list_view(items@);
            }
            let ghost lv = cv_list_view(items@);
            out.append("[");
            let ghost mid = out@;
            let mut i: usize = 0;
            proof {
                assert(lv.take(0) =~= Seq::<CValue>::empty());
                assert(out@ =~= mid + items_text(lv.take(0), fm));
            }
            while i < items.len()
                invariant
                    *v == ConfigValue::List(*items),
                    fm == ft@.map_values(|s: String| s@),
                    lv == cv_list_view(items@),
                    lv.len() == items@.len(),
                    forall|j: int| 0 <= j < items@.len() ==> (#[trigger] lv[j]) == cv_view(items@[j]),
                    i <= items@.len(),
                    out@ == mid + items_text(lv.take(i as int), fm),
                decreases items@.len() - i,
            {
                proof {
                    vstd::std_specs::vec::axiom_vec_index_decreases(*items, i as int);
                    assert(decreases_to!(*v => (*v)->List_0));
                    assert(lv.take(i + 1).drop_last() =~= lv.take(i as int));
                    assert(lv.take(i + 1).last() == cv_view(items@[i as int]));
                }
                if i > 0 {
                    out.append(", ");
                }
                push_value_text(out, &items[i], ft);
                proof {
                    if i == 0 {
                        assert(lv.take(1)[0] == lv[0]);
                    }
                    assert(out@ =~= mid + items_text(lv.take(i + 1), fm));
                }
                i = i + 1;
            }
            proof {
                assert(lv.take(lv.len() as int) =~= lv);
            }
            out.append("]");
        },
        ConfigValue::Table(m) => {
            proof {
                lemma_cv_entries_view::<ConfigValue>(m.entries());
            }
            let ghost es = cv_entries_view(m.entries());
            out.append("{");
            let ghost mid = out@;
            let mut i: usize = 0;
            proof {
                assert(es.take(0) =~= Seq::<(Seq<char>, CValue)>::empty());
                assert(out@ =~= mid + entries_text(es.take(0), fm));
            }
            while i < m.len()
                invariant
                    *v == ConfigValue::Table(*m),
                    fm == ft@.map_values(|s: String| s@),
                    es == cv_entries_view(m.entries()),
                    es.len() == m.entries().len(),
                    forall|j: int|
                        0 <= j < m.entries().len() ==> (#[trigger] es[j]) == (
                            m.entries()[j].0@,
                            cv_view(m.entries()[j].1),
                        ),
                    i <= m.entries().len(),
                    out@ == mid + entries_text(es.take(i as int), fm),
                decreases m.entries().len() - i,
            {
                proof {
                    crate::strmap::lemma_entries_decrease(*m);
                    assert(decreases_to!(*v => (*v)->Table_0));
                    assert(decreases_to!(m.entries() => m.entries()[i as int]));
                    assert(es.take(i + 1).drop_last() =~= es.take(i as int));
                    assert(es.take(i + 1).last() == es[i as int]);
                }
                if i > 0 {
                    out.append(", ");
                }
                out.append(m.key_at(i).as_str());
                out.append(": ");
                push_value_text(out, m.value_at(i), ft);
                proof {
                    if i == 0 {
                        assert(es.take(1)[0] == es[0]);
                    }
                    assert(out@ =~= mid + entries_text(es.take(i + 1), fm));
                }
                i = i + 1;
            }
            proof {
                assert(es.take(es.len() as int) =~= es);
            }
            out.append("}");
        },
    }
    assert(out@ =~= start + value_text(v@, fm));
}

/// A configuration value as text.
pub fn format_config_value(v: &ConfigValue, ft: &BTreeMap<u64, String>) -> (s: String)
    ensures
        s@ == value_text(v@, ft@.map_values(|t: String| t@)),
{
    let mut s = String::new();
    push_value_text(&mut s, v, ft);
    assert(s@ =~= value_text(v@, ft@.map_values(|t: String| t@)));
    s
}

// ──────────────────────────────────────────────
// Ports and nodes
// ──────────────────────────────────────────────

pub open spec fn data_type_text(dt: DataType) -> Seq<char> {
    match dt {
        DataType::Audio { channels } => "audio("@ + dec_text(channels as nat) + "ch)"@,
        DataType::Control => "control"@,
        DataType::Midi => "midi"@,
        DataType::Spectral { bins } => "spectral("@ + dec_text(bins as nat) + ")"@,
        DataType::Blob => "blob"@,
        DataType::Meta => "meta"@,
    }
}

/// A data type as text.
pub fn format_data_type(dt: &DataType) -> (s: String)
    ensures
        s@ == data_type_text(*dt),
{
    let mut s = String::new();
    match dt {
        DataType::Audio { channels } => {
            s.append("audio(");
            push_dec(&mut s, *channels as u128);
            s.append("ch)");
        },
        DataType::Control => s.append("control"),
        DataType::Midi => s.append("midi"),
        DataType::Spectral { bins } => {
            s.append("spectral(");
            push_dec(&mut s, *bins as u128);
            s.append(")");
        },
        DataType::Blob => s.append("blob"),
        DataType::Meta => s.append("meta"),
    }
    assert(s@ =~= data_type_text(*dt));
    s
}

pub open spec fn direction_text(d: PortDirection) -> Seq<char> {
    match d {
        PortDirection::Input => "in"@,
        PortDirection::Output => "out"@,
    }
}

pub open spec fn domain_text(d: ExecutionDomain) -> Seq<char> {
    match d {
        ExecutionDomain::Sample => "@sample"@,
        ExecutionDomain::Block => "@block"@,
        ExecutionDomain::Timeline => "@timeline"@,
        ExecutionDomain::Background => "@background"@,
    }
}

/// A port line: the direction, the quoted name unless it is the direction's
/// own word, the data type and the domain.
pub open spec fn port_line(p: PortView) -> Seq<char> {
    if p.name == direction_text(p.direction) {
        "  "@ + direction_text(p.direction) + ": "@ + data_type_text(p.data_type) + " "@ + domain_text(p.domain) + "\n"@
    } else {
        "  "@ + direction_text(p.direction) + " \""@ + p.name + "\": "@ + data_type_text(p.data_type) + " "@
            + domain_text(p.domain) + "\n"@
    }
}

/// A port line names its port: it starts with two spaces and the direction
/// word, and when the port's name is not that word, the name follows in
/// double quotes right after the direction and a space, then a colon, the
/// data type and a space; the line ends with the domain and a line break.
pub proof fn law_port_line_names_the_port(p: PortView)
    ensures
        port_line(p).take(2int + direction_text(p.direction).len()) == "  "@ + direction_text(p.direction),
        p.name != direction_text(p.direction) ==> port_line(p).subrange(
            3int + direction_text(p.direction).len(),
            5int + direction_text(p.direction).len() + p.name.len(),
        ) == seq!['"'] + p.name + seq!['"'],
        port_line(p).skip(port_line(p).len() - domain_text(p.domain).len() - 1) == domain_text(p.domain) + seq!['\n'],
        p.name == direction_text(p.direction) ==> port_line(p) == "  "@ + direction_text(p.direction) + ": "@ + data_type_text(
            p.data_type,
        ) + " "@ + domain_text(p.domain) + "\n"@,
        p.name != direction_text(p.direction) ==> port_line(p).subrange(
            5int + direction_text(p.direction).len() + p.name.len(),
            port_line(p).len() - domain_text(p.domain).len() - 1,
        ) == ": "@ + data_type_text(p.data_type) + " "@,
{
    reveal_strlit("  ");
    reveal_strlit(" \"");
    reveal_strlit("\": ");
    reveal_strlit("\n");
    let d = direction_text(p.direction);
    let l = port_line(p);
    assert(l.take(2int + d.len()) =~= "  "@ + d);
    if p.name != d {
        assert(l.subrange(3int + d.len(), 5int + d.len() + p.name.len()) =~= seq!['"'] + p.name + seq!['"']);
        reveal_strlit(": ");
        reveal_strlit(" ");
        assert(l.subrange(5int + d.len() + p.name.len(), l.len() - domain_text(p.domain).len() - 1) =~= ": "@
            + data_type_text(p.data_type) + " "@);
    }
    assert(l.skip(l.len() - domain_text(p.domain).len() - 1) =~= domain_text(p.domain) + seq!['\n']);
}

pub open spec fn port_lines(ps: Seq<PortView>) -> Seq<char>
    decreases ps.len(),
{
    if ps.len() == 0 {
        Seq::empty()
    } else {
        port_lines(ps.drop_last()) + port_line(ps.last())
    }
}

/// The configuration lines: one per entry other than `name`, in key order.
pub open spec fn config_lines(es: Seq<(Seq<char>, CValue)>, ft: Map<u64, Seq<char>>) -> Seq<char>
    decreases es.len(),
{
    if es.len() == 0 {
        Seq::empty()
    } else {
        config_lines(es.drop_last(), ft) + if es.last().0 == "name"@ {
            Seq::empty()
        } else {
            "    "@ + es.last().0 + ": "@ + value_text(es.last().1, ft) + "\n"@
        }
    }
}

/// Some entry is not `name`.
pub open spec fn has_shown_entry(es: Seq<(Seq<char>, CValue)>) -> bool {
    exists|i: int| 0 <= i < es.len() && (#[trigger] es[i]).0 != "name"@
}

/// The body of a node block: its ports, then its configuration (without
/// `name`) in a `config` block when there is any.
pub open spec fn node_body(n: Node, ft: Map<u64, Seq<char>>) -> Seq<char> {
    let es = cv_entries_view(n.config.entries());
    port_lines(ports_view(n.ports@)) + if has_shown_entry(es) {
        "  config {\n"@ + config_lines(es, ft) + "  }\n"@
    } else {
        Seq::empty()
    }
}

#[verifier::spinoff_prover]
#[verifier::rlimit(40)]
fn push_port_line(out: &mut String, p: &TypedPort)
    ensures
        final(out)@ == old(out)@ + port_line(p@),
{
    let ghost start = out@;
    let dir: &str = match p.direction {
        PortDirection::Input => "in",
        PortDirection::Output => "out",
    };
    let domain: &str = match p.domain {
        ExecutionDomain::Sample => "@sample",
        ExecutionDomain::Block => "@block",
        ExecutionDomain::Timeline => "@timeline",
        ExecutionDomain::Background => "@background",
    };
    let dtype = format_data_type(&p.data_type);
    let dir_s = String::from_str(dir);
    if p.name == dir_s {
        out.append("  ");
        out.append(dir);
        out.append(": ");
        out.append(dtype.as_str());
        out.append(" ");
        out.append(domain);
        out.append("\n");
    } else {
        out.append("  ");
        out.append(dir);
        out.append(" \"");
        out.append(p.name.as_str());
        out.append("\": ");
        out.append(dtype.as_str());
        out.append(" ");
        out.append(domain);
        out.append("\n");
    }
    assert(out@ =~= start + port_line(p@));
}

/// Appends the body of a node block.
fn render_node_body(out: &mut String, node: &Node, ft: &BTreeMap<u64, String>)
    ensures
        final(out)@ == old(out)@ + node_body(*node, ft@.map_values(|t: String| t@)),
{
    let ghost fm = ft@.map_values(|t: String| t@);
    let ghost start = out@;
    let ghost pv = ports_view(node.ports@);
    let mut i: usize = 0;
    proof {
        assert(pv.take(0) =~= Seq::<PortView>::empty());
        assert(out@ =~= start + port_lines(pv.take(0)));
    }
    while i < node.ports.len()
        invariant
            pv == ports_view(node.ports@),
            i <= node.ports@.len(),
            out@ == start + port_lines(pv.take(i as int)),
        decreases node.ports@.len() - i,
    {
        push_port_line(out, &node.ports[i]);
        proof {
            assert(pv.take(i + 1).drop_last() =~= pv.take(i as int));
            assert(out@ =~= start + port_lines(pv.take(i + 1)));
        }
        i = i + 1;
    }
    proof {
        assert(pv.take(pv.len() as int) =~= pv);
    }
    let ghost after_ports = out@;
    proof {
        lemma_cv_entries_view::<ConfigValue>(node.config.entries());
    }
    let ghost es = cv_entries_view(node.config.entries());
    let name_key = String::from_str("name");
    // Whether any entry is shown.
    let mut shown = false;
    let mut j: usize = 0;
    while j < node.config.len()
        invariant
            es == cv_entries_view(node.config.entries()),
            es.len() == node.config.entries().len(),
            forall|q: int|
                0 <= q < node.config.entries().len() ==> (#[trigger] es[q]) == (
                    node.config.entries()[q].0@,
                    cv_view(node.config.entries()[q].1),
                ),
            name_key@ == "name"@,
            j <= es.len(),
            shown == exists|q: int| 0 <= q < j && (#[trigger] es[q]).0 != "name"@,
        decreases es.len() - j,
    {
        if *node.config.key_at(j) != name_key {
            shown = true;
        }
        proof {
            if !shown {
                assert forall|q: int| 0 <= q < j + 1 implies (#[trigger] es[q]).0 == "name"@ by {
                    if q == j {
                        assert(es[q].0 == node.config.entries()[q].0@);
                    }
                }
            } else {
                if exists|q: int| 0 <= q < j && (#[trigger] es[q]).0 != "name"@ {
                    let q = choose|q: int| 0 <= q < j && (#[trigger] es[q]).0 != "name"@;
                    assert(0 <= q < j + 1 && es[q].0 != "name"@);
                } else {
                    assert(es[j as int].0 != "name"@);
                }
            }
        }
        j = j + 1;
    }
    if shown {
        out.append("  config {\n");
        let ghost mid = out@;
        let mut k: usize = 0;
        proof {
            assert(es.take(0) =~= Seq::<(Seq<char>, CValue)>::empty());
            assert(out@ =~= mid + config_lines(es.take(0), fm));
        }
        while k < node.config.len()
            invariant
                fm == ft@.map_values(|t: String| t@),
                es == cv_entries_view(node.config.entries()),
                es.len() == node.config.entries().len(),
                forall|q: int|
                    0 <= q < node.config.entries().len() ==> (#[trigger] es[q]) == (
                        node.config.entries()[q].0@,
                        cv_view(node.config.entries()[q].1),
                    ),
                name_key@ == "name"@,
                k <= es.len(),
                out@ == mid + config_lines(es.take(k as int), fm),
            decreases es.len() - k,
        {
            let key = node.config.key_at(k);
            proof {
                assert(es.take(k + 1).drop_last() =~= es.take(k as int));
                assert(es.take(k + 1).last() == es[k as int]);
            }
            if *key != name_key {
                out.append("    ");
                out.append(key.as_str());
                out.append(": ");
                push_value_text(out, node.config.value_at(k), ft);
                out.append("\n");
            }
            proof {
                assert(out@ =~= mid + config_lines(es.take(k + 1), fm));
            }
            k = k + 1;
        }
        proof {
            assert(es.take(es.len() as int) =~= es);
        }
        out.append("  }\n");
    }
    assert(out@ =~= start + node_body(*node, fm));
}

pub open spec fn kind_word(k: NodeKindView) -> Seq<char> {
    match k {
        NodeKindView::Source => "source"@,
        NodeKindView::Processor => "processor"@,
        NodeKindView::Analyzer => "analyzer"@,
        NodeKindView::Sink => "sink"@,
        NodeKindView::Junction => "junction"@,
        NodeKindView::Foreign(_) => "foreign"@,
        NodeKindView::Intent => "intent"@,
        NodeKindView::Metadata => "metadata"@,
        NodeKindView::Boundary => "boundary"@,
        NodeKindView::SubGraph => "subgraph"@,
        NodeKindView::InputProxy => "input_proxy"@,
        NodeKindView::OutputProxy => "output_proxy"@,
        NodeKindView::CircuitModule { .. } => "circuit_module"@,
    }
}

/// A node block: a foreign node shows its name and its plugin, any other
/// node its kind, name and identifier; then the body, the closing brace and
/// a blank line.
pub open spec fn node_block(n: Node, ft: Map<u64, Seq<char>>) -> Seq<char> {
    match n.kind@ {
        NodeKindView::Foreign(plugin) => "foreign \""@ + node_name_text(n) + "\" \""@ + plugin + "\" {\n"@ + node_body(n, ft)
            + "}\n"@ + "\n"@,
        _ => kind_word(n.kind@) + " \""@ + node_name_text(n) + "\" { # id: "@ + id_text(n.id) + "\n"@ + node_body(n, ft)
            + "}\n"@ + "\n"@,
    }
}

#[verifier::spinoff_prover]
#[verifier::rlimit(40)]
fn push_node_block(out: &mut String, node: &Node, ft: &BTreeMap<u64, String>)
    ensures
        final(out)@ == old(out)@ + node_block(*node, ft@.map_values(|t: String| t@)),
{
    let ghost start = out@;
    let name = node_name(node);
    match &node.kind {
        NodeKind::Foreign(plugin) => {
            out.append("foreign \"");
            out.append(name.as_str());
            out.append("\" \"");
            out.append(plugin.as_str());
            out.append("\" {\n");
        },
        _ => {
            let word: &str = match &node.kind {
                NodeKind::Source => "source",
                NodeKind::Processor => "processor",
                NodeKind::Analyzer => "analyzer",
                NodeKind::Sink => "sink",
                NodeKind::Junction => "junction",
                NodeKind::Foreign(_) => "foreign",
                NodeKind::Intent => "intent",
                NodeKind::Metadata => "metadata",
                NodeKind::Boundary => "boundary",
                NodeKind::SubGraph => "subgraph",
                NodeKind::InputProxy => "input_proxy",
                NodeKind::OutputProxy => "output_proxy",
                NodeKind::CircuitModule { .. } => "circuit_module",
            };
            out.append(word);
            out.append(" \"");
            out.append(name.as_str());
            out.append("\" { # id: ");
            push_id_text(out, node.id);
            out.append("\n");
        },
    }
    render_node_body(out, node, ft);
    out.append("}\n");
    out.append("\n");
    assert(out@ =~= start + node_block(*node, ft@.map_values(|t: String| t@)));
}

// ──────────────────────────────────────────────
// Graphs
// ──────────────────────────────────────────────

pub open spec fn nodes_text(ks: Seq<u128>, m: Map<u128, Node>, ft: Map<u64, Seq<char>>) -> Seq<char>
    decreases ks.len(),
{
    if ks.len() == 0 {
        Seq::empty()
    } else {
        nodes_text(ks.drop_last(), m, ft) + node_block(m[ks.last()], ft)
    }
}

/// The name shown for a node identifier in a connection.
pub open spec fn name_of(m: Map<u128, Node>, id: u128) -> Seq<char> {
    if m.contains_key(id) {
        node_name_text(m[id])
    } else {
        id_text(id)
    }
}

pub open spec fn edge_line(e: Edge, m: Map<u128, Node>) -> Seq<char> {
    name_of(m, e.source.node_id) + "."@ + e.source.port_name@ + " -> "@ + name_of(m, e.target.node_id) + "."@
        + e.target.port_name@ + "  # normal"@ + "\n"@
}

pub open spec fn edges_text(ks: Seq<u128>, edges: Map<u128, Edge>, m: Map<u128, Node>) -> Seq<char>
    decreases ks.len(),
{
    if ks.len() == 0 {
        Seq::empty()
    } else {
        edges_text(ks.drop_last(), edges, m) + edge_line(edges[ks.last()], m)
    }
}

/// The whole text: a header with the revision, the first eight bytes of the
/// topology digest and the number of applied patches; a block per node in
/// identifier order; then, when there are edges, a line per edge.
pub open spec fn dsl_text(g: Graph, ft: Map<u64, Seq<char>>) -> Seq<char> {
    let nk = key_order(g.topology.nodes@.dom());
    let ek = key_order(g.topology.edges@.dom());
    "# DirtyData Surface DSL — revision "@ + dec_text(g.revision.0 as nat) + "\n"@ + "# Hash: blake3:"@ + hex_chars(
        topology_digest(g.topology).take(8),
    ) + "\n"@ + "# Patches: "@ + dec_text(g.lineage.applied_patches@.len()) + "\n"@ + "\n"@ + nodes_text(
        nk,
        g.topology.nodes@,
        ft,
    ) + if ek.len() > 0 {
        "# Connections"@ + "\n"@ + edges_text(ek, g.topology.edges@, g.topology.nodes@)
    } else {
        Seq::empty()
    }
}

/// The first eight bytes in hexadecimal.
pub fn hex_short(bytes: &[u8]) -> (s: String)
    requires
        bytes@.len() >= 8,
    ensures
        s@ == hex_chars(bytes@.take(8)),
{
    let mut first: Vec<u8> = Vec::new();
    let mut i: usize = 0;
    while i < 8
        invariant
            bytes@.len() >= 8,
            i <= 8,
            first@ == bytes@.take(i as int),
        decreases 8 - i,
    {
        first.push(bytes[i]);
        proof {
            assert(bytes@.take(i + 1) =~= bytes@.take(i as int).push(bytes@[i as int]));
        }
        i = i + 1;
    }
    crate::patch::encode(first.as_slice())
}

fn name_of_node(nodes: &BTreeMap<u128, Node>, id: u128) -> (s: String)
    ensures
        s@ == name_of(nodes@, id),
{
    match nodes.get(&id) {
        Some(n) => node_name(n),
        None => id_string(id),
    }
}

/// The graph as surface DSL text, floating-point values written with the
/// text supplied for their bits (see the module documentation).
pub fn render_dsl(graph: &Graph, float_text: &BTreeMap<u64, String>) -> (s: String)
    ensures
        s@ == dsl_text(*graph, float_text@.map_values(|t: String| t@)),
{
    let ghost fm = float_text@.map_values(|t: String| t@);
    let mut out = String::new();
    out.append("# DirtyData Surface DSL — revision ");
    push_dec(&mut out, graph.revision.0 as u128);
    out.append("\n");
    out.append("# Hash: blake3:");
    let digest = hash_topology(&graph.topology);
    let short = hex_short(digest.as_slice());
    out.append(short.as_str());
    out.append("\n");
    out.append("# Patches: ");
    push_dec(&mut out, graph.lineage.applied_patches.len() as u128);
    out.append("\n");
    out.append("\n");
    let ghost header = out@;
    let nk = sorted_keys(&graph.topology.nodes);
    let mut i: usize = 0;
    proof {
        assert(nk@.take(0) =~= Seq::<u128>::empty());
        assert(out@ =~= header + nodes_text(nk@.take(0), graph.topology.nodes@, fm));
    }
    while i < nk.len()
        invariant
            fm == float_text@.map_values(|t: String| t@),
            enumerates(nk@, graph.topology.nodes@.dom()),
            i <= nk@.len(),
            out@ == header + nodes_text(nk@.take(i as int), graph.topology.nodes@, fm),
        decreases nk@.len() - i,
    {
        let k = nk[i];
        proof {
            assert(nk@.contains(k));
            assert(nk@.take(i + 1).drop_last() =~= nk@.take(i as int));
            assert(nk@.take(i + 1).last() == k);
        }
        match graph.topology.nodes.get(&k) {
            Some(n) => push_node_block(&mut out, n, float_text),
            None => {},
        }
        proof {
            assert(out@ =~= header + nodes_text(nk@.take(i + 1), graph.topology.nodes@, fm));
        }
        i = i + 1;
    }
    proof {
        assert(nk@.take(nk@.len() as int) =~= nk@);
    }
    let ghost body = out@;
    let ek = sorted_keys(&graph.topology.edges);
    if ek.len() > 0 {
        out.append("# Connections");
        out.append("\n");
        let ghost mid = out@;
        let mut j: usize = 0;
        proof {
            assert(ek@.take(0) =~= Seq::<u128>::empty());
            assert(out@ =~= mid + edges_text(ek@.take(0), graph.topology.edges@, graph.topology.nodes@));
        }
        while j < ek.len()
            invariant
                enumerates(ek@, graph.topology.edges@.dom()),
                j <= ek@.len(),
                out@ == mid + edges_text(ek@.take(j as int), graph.topology.edges@, graph.topology.nodes@),
            decreases ek@.len() - j,
        {
            let k = ek[j];
            proof {
                assert(ek@.contains(k));
                assert(ek@.take(j + 1).drop_last() =~= ek@.take(j as int));
                assert(ek@.take(j + 1).last() == k);
            }
            match graph.topology.edges.get(&k) {
                Some(e) => {
                    let src = name_of_node(&graph.topology.nodes, e.source.node_id);
                    let tgt = name_of_node(&graph.topology.nodes, e.target.node_id);
                    out.append(src.as_str());
                    out.append(".");
                    out.append(e.source.port_name.as_str());
                    out.append(" -> ");
                    out.append(tgt.as_str());
                    out.append(".");
                    out.append(e.target.port_name.as_str());
                    out.append("  # normal");
                    out.append("\n");
                },
                None => {},
            }
            proof {
                assert(out@ =~= mid + edges_text(ek@.take(j + 1), graph.topology.edges@, graph.topology.nodes@));
            }
            j = j + 1;
        }
        proof {
            assert(ek@.take(ek@.len() as int) =~= ek@);
        }
    }
    assert(out@ =~= dsl_text(*graph, fm));
    out
}

} // verus!
