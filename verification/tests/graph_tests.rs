use std::collections::{BTreeMap, HashSet};

use dirtydata::dsl::{format_config_value, format_data_type, hex_short, render_dsl};
use dirtydata::graph_utils::{clone_subgraph, get_upstream_nodes, topological_sort};
use dirtydata::hash::hash_topology;
use dirtydata::ir::{Edge, EdgeKind, Graph, Node};
use dirtydata::patch::{encode, Operation, Patch};
use dirtydata::strmap::StrMap;
use dirtydata::types::{ConfidenceScore, ConfigValue, DataType, MetadataRef, NodeKind, PortRef, StableId};

fn bare_node(id: StableId, kind: NodeKind) -> Node {
    Node {
        id,
        kind,
        ports: Vec::new(),
        config: StrMap::new(),
        metadata: MetadataRef(None),
        confidence: ConfidenceScore::Verified,
    }
}

fn link(id: StableId, from: StableId, to: StableId, kind: EdgeKind) -> Edge {
    Edge {
        id,
        source: PortRef { node_id: from, port_name: "out".to_string() },
        target: PortRef { node_id: to, port_name: "in".to_string() },
        kind,
    }
}

fn graph_of(nodes: &[StableId], edges: &[(StableId, StableId, StableId, EdgeKind)]) -> Graph {
    let mut ops = Vec::new();
    for &n in nodes {
        ops.push(Operation::AddNode(bare_node(n, NodeKind::Processor)));
    }
    for &(id, a, b, k) in edges {
        ops.push(Operation::AddEdge(link(id, a, b, k)));
    }
    let mut g = Graph::new();
    g.apply_patch(&Patch::from_operations(ops)).unwrap();
    g
}

#[test]
fn topological_sort_orders_a_chain() {
    let g = graph_of(&[3, 1, 2], &[(10, 1, 2, EdgeKind::Normal), (11, 2, 3, EdgeKind::Normal)]);
    let (order, cycles) = topological_sort(&g);
    assert_eq!(order, vec![1, 2, 3]);
    assert!(cycles.is_empty());
}

#[test]
fn topological_sort_puts_sources_first_in_identifier_order() {
    let g = graph_of(
        &[1, 2, 3, 4],
        &[(10, 1, 3, EdgeKind::Normal), (11, 2, 3, EdgeKind::Normal), (12, 3, 4, EdgeKind::Normal)],
    );
    let (order, cycles) = topological_sort(&g);
    assert_eq!(order, vec![1, 2, 3, 4]);
    assert!(cycles.is_empty());
}

#[test]
fn topological_sort_reports_the_nodes_on_a_cycle() {
    let g = graph_of(&[1, 2, 3], &[(10, 1, 2, EdgeKind::Normal), (11, 2, 1, EdgeKind::Normal)]);
    let (order, cycles) = topological_sort(&g);
    assert_eq!(order, vec![3]);
    assert_eq!(cycles, vec![vec![1, 2]]);
}

#[test]
fn topological_sort_sorts_what_a_cycle_feeds() {
    let g = graph_of(
        &[1, 2, 3],
        &[(10, 1, 2, EdgeKind::Normal), (11, 2, 1, EdgeKind::Normal), (12, 2, 3, EdgeKind::Normal)],
    );
    let (order, cycles) = topological_sort(&g);
    assert_eq!(order, vec![3]);
    assert_eq!(cycles, vec![vec![1, 2]]);
}

#[test]
fn topological_sort_keeps_a_node_between_two_cycles_sorted() {
    let g = graph_of(
        &[1, 2, 3, 4, 5, 6],
        &[
            (10, 1, 2, EdgeKind::Normal),
            (11, 2, 1, EdgeKind::Normal),
            (12, 2, 3, EdgeKind::Normal),
            (13, 3, 4, EdgeKind::Normal),
            (14, 4, 5, EdgeKind::Normal),
            (15, 5, 4, EdgeKind::Normal),
            (16, 3, 6, EdgeKind::Normal),
        ],
    );
    let (order, cycles) = topological_sort(&g);
    assert_eq!(order, vec![3, 6]);
    assert_eq!(cycles, vec![vec![1, 2, 4, 5]]);
}

#[test]
fn topological_sort_ignores_feedback_edges() {
    let g = graph_of(&[1, 2], &[(10, 1, 2, EdgeKind::Normal), (11, 2, 1, EdgeKind::Feedback)]);
    let (order, cycles) = topological_sort(&g);
    assert_eq!(order, vec![1, 2]);
    assert!(cycles.is_empty());
}

#[test]
fn upstream_nodes_follow_feed_forward_edges_only() {
    let g = graph_of(
        &[1, 2, 3, 4],
        &[(10, 1, 2, EdgeKind::Normal), (11, 2, 3, EdgeKind::Normal), (12, 4, 3, EdgeKind::Feedback)],
    );
    let up = get_upstream_nodes(&g, 3);
    let want: HashSet<StableId> = [1, 2, 3].into_iter().collect();
    assert_eq!(up, want);
    let only: HashSet<StableId> = [1].into_iter().collect();
    assert_eq!(get_upstream_nodes(&g, 1), only);
}

#[test]
fn clone_subgraph_keeps_the_chosen_nodes_and_their_edges() {
    let g = graph_of(&[1, 2, 3], &[(10, 1, 2, EdgeKind::Normal), (11, 2, 3, EdgeKind::Normal)]);
    let ids: HashSet<StableId> = [1, 2, 9].into_iter().collect();
    let sub = clone_subgraph(&g, &ids);
    assert_eq!(sub.nodes.len(), 2);
    assert!(sub.nodes.contains_key(&1) && sub.nodes.contains_key(&2));
    assert_eq!(sub.edges.len(), 1);
    assert!(sub.edges.contains_key(&10));
    assert!(sub.topology.nodes.is_empty());
    assert_eq!(sub.revision.0, 0);
}

#[test]
fn config_values_as_text() {
    let ft: BTreeMap<u64, String> = [(0.5f64.to_bits(), "0.5".to_string())].into_iter().collect();
    assert_eq!(format_config_value(&ConfigValue::Int(-42), &ft), "-42");
    assert_eq!(format_config_value(&ConfigValue::Bool(true), &ft), "true");
    assert_eq!(format_config_value(&ConfigValue::String("hi".to_string()), &ft), "\"hi\"");
    assert_eq!(format_config_value(&ConfigValue::Float(0.5f64.to_bits()), &ft), "0.5");
    assert_eq!(format_config_value(&ConfigValue::Float(1.0f64.to_bits()), &ft), "f64:0x3ff0000000000000");
    let list = ConfigValue::List(vec![ConfigValue::Int(1), ConfigValue::Int(2)]);
    assert_eq!(format_config_value(&list, &ft), "[1, 2]");
    let mut m = StrMap::new();
    m.insert("b".to_string(), ConfigValue::Int(2));
    m.insert("a".to_string(), ConfigValue::Bool(false));
    assert_eq!(format_config_value(&ConfigValue::Table(m), &ft), "{a: false, b: 2}");
}

#[test]
fn data_types_as_text() {
    assert_eq!(format_data_type(&DataType::Audio { channels: 2 }), "audio(2ch)");
    assert_eq!(format_data_type(&DataType::Spectral { bins: 512 }), "spectral(512)");
    assert_eq!(format_data_type(&DataType::Midi), "midi");
}

#[test]
fn hex_short_takes_eight_bytes() {
    assert_eq!(hex_short(&[1, 2, 3, 4, 5, 6, 7, 8, 9, 10]), "0102030405060708");
}

#[test]
fn render_dsl_of_an_empty_graph_is_the_header() {
    let g = Graph::new();
    let h = hash_topology(&g.topology);
    let text = render_dsl(&g, &BTreeMap::new());
    let want = format!(
        "# DirtyData Surface DSL — revision 0\n# Hash: blake3:{}\n# Patches: 0\n\n",
        encode(&h[..8])
    );
    assert_eq!(text, want);
}

#[test]
fn render_dsl_shows_nodes_config_and_connections() {
    let mut g = Graph::new();
    let mut osc = Node::new_source("osc");
    osc.id = 1;
    osc.config.insert("freq".to_string(), ConfigValue::Float(440.0f64.to_bits()));
    let mut out = Node::new_sink("out");
    out.id = 2;
    let e = link(10, 1, 2, EdgeKind::Normal);
    g.apply_patch(&Patch::from_operations(vec![Operation::AddNode(osc), Operation::AddNode(out), Operation::AddEdge(e)]))
        .unwrap();
    let ft: BTreeMap<u64, String> = [(440.0f64.to_bits(), "440".to_string())].into_iter().collect();
    let text = render_dsl(&g, &ft);
    let h = hash_topology(&g.topology);
    let want = format!(
        "# DirtyData Surface DSL — revision 1\n# Hash: blake3:{}\n# Patches: 1\n\n\
source \"osc\" {{ # id: 00000000000000000000000000000001\n  out: audio(2ch) @sample\n  config {{\n    freq: 440\n  }}\n}}\n\n\
sink \"out\" {{ # id: 00000000000000000000000000000002\n  in: audio(2ch) @sample\n}}\n\n\
# Connections\nosc.out -> out.in  # normal\n",
        encode(&h[..8])
    );
    assert_eq!(text, want);
}
