use dirtydata::actions::{compile_actions, node_name, resolve_name, ActionError, UserAction};
use dirtydata::ir::{Edge, EdgeKind, Graph, Node};
use dirtydata::patch::{Operation, Patch};
use dirtydata::strmap::StrMap;
use dirtydata::text::id_string;
use dirtydata::types::{ConfidenceScore, ConfigValue, MetadataRef, NodeKind, PortRef, StableId};

fn named_node(id: StableId, name: &str) -> Node {
    let mut n = Node {
        id,
        kind: NodeKind::Processor,
        ports: Vec::new(),
        config: StrMap::new(),
        metadata: MetadataRef(None),
        confidence: ConfidenceScore::Verified,
    };
    n.config.insert("name".to_string(), ConfigValue::String(name.to_string()));
    n
}

fn studio() -> Graph {
    let mut g = Graph::new();
    let mut lfo = named_node(3, "lfo");
    lfo.config.insert("rate".to_string(), ConfigValue::Float(2.0f64.to_bits()));
    lfo.config.insert("depth".to_string(), ConfigValue::Float(0.5f64.to_bits()));
    lfo.config.insert("shape".to_string(), ConfigValue::String("sine".to_string()));
    g.apply_patch(&Patch::from_operations(vec![
        Operation::AddNode(named_node(1, "osc")),
        Operation::AddNode(named_node(2, "dup")),
        Operation::AddNode(named_node(4, "dup")),
        Operation::AddNode(lfo),
        Operation::AddEdge(Edge {
            id: 20,
            source: PortRef { node_id: 1, port_name: "out".to_string() },
            target: PortRef { node_id: 3, port_name: "in".to_string() },
            kind: EdgeKind::Normal,
        }),
    ]))
    .unwrap();
    g
}

fn no_jitter(b: u64) -> u64 {
    b
}

#[test]
fn node_name_falls_back_to_the_identifier() {
    let mut n = named_node(7, "x");
    assert_eq!(node_name(&n), "x");
    n.config = StrMap::new();
    assert_eq!(node_name(&n), id_string(7));
}

#[test]
fn names_resolve_by_creation_identifier_or_display_name() {
    let g = studio();
    let mut created = StrMap::new();
    created.insert("new".to_string(), 99u128);
    assert_eq!(resolve_name("new", &g, &created).unwrap(), 99);
    assert_eq!(resolve_name("osc", &g, &created).unwrap(), 1);
    assert_eq!(resolve_name(&id_string(2), &g, &created).unwrap(), 2);
    assert!(matches!(resolve_name("dup", &g, &created), Err(ActionError::AmbiguousName(s)) if s == "dup"));
    assert!(matches!(resolve_name("nope", &g, &created), Err(ActionError::NodeNotFound(s)) if s == "nope"));
}

#[test]
fn error_messages_read_as_sentences() {
    assert_eq!(ActionError::NodeNotFound("a".to_string()).message(), "node 'a' not found");
    assert_eq!(ActionError::AmbiguousName("b".to_string()).message(), "ambiguous node name 'b'");
    assert_eq!(
        ActionError::InvalidConfig("k".to_string(), "null is not allowed".to_string()).message(),
        "invalid config for 'k': null is not allowed"
    );
}

#[test]
fn added_nodes_can_be_connected_by_name() {
    let g = studio();
    let actions = vec![
        UserAction::AddSource { name: "noise".to_string(), channels: 2 },
        UserAction::Connect { from: "noise".to_string(), from_port: None, to: "osc".to_string(), to_port: Some("fm".to_string()) },
    ];
    let ops = compile_actions(&actions, &g, no_jitter).unwrap();
    assert_eq!(ops.len(), 2);
    let id = match &ops[0] {
        Operation::AddNode(n) => {
            assert!(matches!(n.kind, NodeKind::Processor));
            assert!(matches!(n.config.get("type"), Some(ConfigValue::String(s)) if s == "source"));
            assert!(matches!(n.config.get("name"), Some(ConfigValue::String(s)) if s == "noise"));
            n.id
        }
        _ => panic!("expected a node"),
    };
    match &ops[1] {
        Operation::AddEdge(e) => {
            assert_eq!(e.source.node_id, id);
            assert_eq!(e.source.port_name, "out");
            assert_eq!(e.target.node_id, 1);
            assert_eq!(e.target.port_name, "fm");
            assert_eq!(e.kind, EdgeKind::Normal);
        }
        _ => panic!("expected an edge"),
    }
}

#[test]
fn foreign_nodes_record_their_plugin() {
    let g = Graph::new();
    let actions = vec![UserAction::AddForeign { name: "vst".to_string(), plugin: "reverb".to_string(), channels: 2 }];
    let ops = compile_actions(&actions, &g, no_jitter).unwrap();
    assert!(matches!(&ops[0], Operation::AddNode(n) if matches!(n.config.get("type"), Some(ConfigValue::String(s)) if s == "foreign:reverb")));
}

#[test]
fn disconnect_removes_the_matching_edge_or_nothing() {
    let g = studio();
    let hit = vec![UserAction::Disconnect { from: "osc".to_string(), from_port: None, to: "lfo".to_string(), to_port: None }];
    let ops = compile_actions(&hit, &g, no_jitter).unwrap();
    assert_eq!(ops.len(), 1);
    assert!(matches!(ops[0], Operation::RemoveEdge(20)));
    let miss = vec![UserAction::Disconnect { from: "lfo".to_string(), from_port: None, to: "osc".to_string(), to_port: None }];
    assert!(compile_actions(&miss, &g, no_jitter).unwrap().is_empty());
}

#[test]
fn set_config_and_replace_node_change_one_key() {
    let g = studio();
    let actions = vec![
        UserAction::SetConfig { node: "osc".to_string(), key: "freq".to_string(), value: Ok(ConfigValue::Int(440)) },
        UserAction::ReplaceNode { name: "lfo".to_string(), new_kind_name: "env".to_string() },
        UserAction::RemoveNode { name: "osc".to_string() },
        UserAction::SquashHistory,
        UserAction::RemoveModulation { id: 5 },
    ];
    let ops = compile_actions(&actions, &g, no_jitter).unwrap();
    assert_eq!(ops.len(), 4);
    match &ops[0] {
        Operation::ModifyConfig { node_id, delta } => {
            assert_eq!(*node_id, 1);
            assert_eq!(delta.len(), 1);
            assert!(matches!(delta.get("freq"), Some(c) if c.old.is_none() && matches!(c.new, Some(ConfigValue::Int(440)))));
        }
        _ => panic!("expected a config change"),
    }
    match &ops[1] {
        Operation::ModifyConfig { node_id, delta } => {
            assert_eq!(*node_id, 3);
            assert!(matches!(delta.get("name"), Some(c) if matches!(&c.new, Some(ConfigValue::String(s)) if s == "env")));
        }
        _ => panic!("expected a config change"),
    }
    assert!(matches!(ops[2], Operation::RemoveNode(1)));
    assert!(matches!(ops[3], Operation::RemoveModulation(5)));
}

#[test]
fn modulation_targets_resolved_nodes() {
    let g = studio();
    let actions = vec![UserAction::AddModulation {
        source_node: "lfo".to_string(),
        source_port: "out".to_string(),
        target_node: "osc".to_string(),
        target_param: "pitch".to_string(),
        amount: 0.25f32.to_bits(),
    }];
    let ops = compile_actions(&actions, &g, no_jitter).unwrap();
    match &ops[0] {
        Operation::AddModulation(m) => {
            assert_eq!(m.source.node_id, 3);
            assert_eq!(m.target_node, 1);
            assert_eq!(m.target_param, "pitch");
            assert_eq!(m.amount, 0.25f32.to_bits());
        }
        _ => panic!("expected a modulation"),
    }
}

#[test]
fn monte_carlo_jitters_every_float_parameter_each_round() {
    let g = studio();
    let actions = vec![UserAction::RunMonteCarlo { node_name: "lfo".to_string(), count: 3 }];
    let ops = compile_actions(&actions, &g, |b: u64| b + 1).unwrap();
    assert_eq!(ops.len(), 6);
    for (i, op) in ops.iter().enumerate() {
        match op {
            Operation::ModifyConfig { node_id, delta } => {
                assert_eq!(*node_id, 3);
                let (key, bits) = if i % 2 == 0 { ("depth", 0.5f64.to_bits()) } else { ("rate", 2.0f64.to_bits()) };
                assert!(matches!(delta.get(key), Some(c) if matches!(c.new, Some(ConfigValue::Float(b)) if b == bits + 1)));
            }
            _ => panic!("expected a config change"),
        }
    }
}

#[test]
fn the_first_unresolved_name_stops_compilation() {
    let g = studio();
    let actions = vec![
        UserAction::AddSink { name: "bus".to_string(), channels: 2 },
        UserAction::RemoveNode { name: "dup".to_string() },
        UserAction::RemoveNode { name: "ghost".to_string() },
    ];
    assert!(matches!(compile_actions(&actions, &g, no_jitter), Err(ActionError::AmbiguousName(s)) if s == "dup"));
    let later = vec![UserAction::Connect { from: "osc".to_string(), from_port: None, to: "ghost".to_string(), to_port: None }];
    assert!(matches!(compile_actions(&later, &g, no_jitter), Err(ActionError::NodeNotFound(s)) if s == "ghost"));
}

#[test]
fn an_unreadable_value_stops_compilation_after_its_node_resolves() {
    let g = studio();
    let bad = vec![UserAction::SetConfig {
        node: "osc".to_string(),
        key: "freq".to_string(),
        value: Err("null is not allowed".to_string()),
    }];
    let err = compile_actions(&bad, &g, no_jitter).unwrap_err();
    assert!(matches!(&err, ActionError::InvalidConfig(k, m) if k == "freq" && m == "null is not allowed"));
    assert_eq!(err.message(), "invalid config for 'freq': null is not allowed");
    let missing_first = vec![
        UserAction::RemoveNode { name: "nowhere".to_string() },
        UserAction::SetConfig { node: "osc".to_string(), key: "freq".to_string(), value: Err("null is not allowed".to_string()) },
    ];
    assert!(matches!(compile_actions(&missing_first, &g, no_jitter), Err(ActionError::NodeNotFound(n)) if n == "nowhere"));
    let unresolved_node = vec![UserAction::SetConfig {
        node: "nowhere".to_string(),
        key: "freq".to_string(),
        value: Err("null is not allowed".to_string()),
    }];
    assert!(matches!(compile_actions(&unresolved_node, &g, no_jitter), Err(ActionError::NodeNotFound(_))));
}
