use dirtydata::hash::hash_topology;
use dirtydata::ir::{Edge, EdgeKind, Graph, Node};
use dirtydata::patch::{config_diff, encode, Operation, Patch, PatchError, PatchSet};
use dirtydata::strmap::StrMap;
use dirtydata::types::{ConfidenceScore, ConfigChange, ConfigValue, MetadataRef, NodeKind, PortRef, StableId};

fn bare_node(id: StableId, kind: NodeKind) -> Node {
    Node {
        id,
        kind,
        ports: Vec::new(),
        config: StrMap::new(),
        metadata: MetadataRef(None),
        confidence: ConfidenceScore::Verified,
    }
}

fn edge(id: StableId, from: StableId, to: StableId) -> Edge {
    Edge {
        id,
        source: PortRef { node_id: from, port_name: "out".to_string() },
        target: PortRef { node_id: to, port_name: "in".to_string() },
        kind: EdgeKind::Normal,
    }
}

fn two_nodes_and_edge() -> Patch {
    Patch::from_operations(vec![
        Operation::AddNode(bare_node(1, NodeKind::Source)),
        Operation::AddNode(bare_node(2, NodeKind::Sink)),
        Operation::AddEdge(edge(10, 1, 2)),
    ])
}

#[test]
fn apply_patch_adds_nodes_and_edges_and_records_lineage() {
    let mut g = Graph::new();
    let p = two_nodes_and_edge();
    let id = p.identity;
    assert!(g.apply_patch(&p).is_ok());
    assert_eq!(g.topology.nodes.len(), 2);
    assert_eq!(g.topology.edges.len(), 1);
    assert_eq!(g.nodes.len(), 2);
    assert_eq!(g.revision.0, 1);
    assert_eq!(g.lineage.applied_patches, vec![id]);
    assert!(g.lineage.history.contains_key(&id));
}

#[test]
fn apply_patch_is_all_or_nothing() {
    let mut g = Graph::new();
    let p = Patch::from_operations(vec![
        Operation::AddNode(bare_node(1, NodeKind::Source)),
        Operation::AddNode(bare_node(1, NodeKind::Sink)),
    ]);
    let r = g.apply_patch(&p);
    assert!(matches!(r, Err(PatchError::NodeAlreadyExists(1))));
    assert_eq!(g.topology.nodes.len(), 0);
    assert_eq!(g.nodes.len(), 0);
    assert_eq!(g.revision.0, 0);
    assert!(g.lineage.applied_patches.is_empty());
}

#[test]
fn apply_patch_rejects_an_edge_to_a_missing_node() {
    let mut g = Graph::new();
    let p = Patch::from_operations(vec![
        Operation::AddNode(bare_node(1, NodeKind::Source)),
        Operation::AddEdge(edge(10, 1, 99)),
    ]);
    assert!(matches!(g.apply_patch(&p), Err(PatchError::NodeNotFound(99))));
}

#[test]
fn apply_patch_rejects_removing_a_missing_edge() {
    let mut g = Graph::new();
    let p = Patch::from_operations(vec![Operation::RemoveEdge(5)]);
    assert!(matches!(g.apply_patch(&p), Err(PatchError::EdgeNotFound(5))));
}

#[test]
fn removing_a_node_removes_its_edges() {
    let mut g = Graph::new();
    g.apply_patch(&two_nodes_and_edge()).unwrap();
    g.apply_patch(&Patch::from_operations(vec![Operation::RemoveNode(2)])).unwrap();
    assert_eq!(g.topology.nodes.len(), 1);
    assert_eq!(g.topology.edges.len(), 0);
}

#[test]
fn modify_config_changes_only_the_named_key() {
    let mut g = Graph::new();
    let mut n = bare_node(1, NodeKind::Processor);
    n.config.insert("gain".to_string(), ConfigValue::Int(3));
    n.config.insert("name".to_string(), ConfigValue::String("amp".to_string()));
    g.apply_patch(&Patch::from_operations(vec![Operation::AddNode(n)])).unwrap();
    let mut delta = StrMap::new();
    delta.insert("gain".to_string(), ConfigChange { old: Some(ConfigValue::Int(3)), new: Some(ConfigValue::Int(7)) });
    g.apply_patch(&Patch::from_operations(vec![Operation::ModifyConfig { node_id: 1, delta }])).unwrap();
    let node = g.topology.nodes.get(&1).unwrap();
    assert!(matches!(node.config.get("gain"), Some(ConfigValue::Int(7))));
    assert!(matches!(node.config.get("name"), Some(ConfigValue::String(s)) if s == "amp"));
}

#[test]
fn replay_builds_the_graph_and_replay_is_deterministic() {
    let patches = vec![two_nodes_and_edge()];
    let a = Graph::replay(&patches).unwrap();
    let b = Graph::replay(&patches).unwrap();
    assert_eq!(a.topology.nodes.len(), 2);
    assert_eq!(hash_topology(&a.topology), hash_topology(&b.topology));
}

#[test]
fn replay_stops_at_the_first_error() {
    let patches = vec![Patch::from_operations(vec![Operation::RemoveNode(4)])];
    assert!(matches!(Graph::replay(&patches), Err(PatchError::NodeNotFound(4))));
}

#[test]
fn replay_and_verify_accepts_the_right_digest_and_reports_a_wrong_one() {
    let patches = vec![two_nodes_and_edge()];
    let g = Graph::replay(&patches).unwrap();
    let good = hash_topology(&g.topology);
    assert!(Graph::replay_and_verify(&patches, &good).is_ok());
    let bad = [0u8; 32];
    match Graph::replay_and_verify(&patches, &bad) {
        Err(PatchError::HashMismatch { expected, actual }) => {
            assert_eq!(expected, "0".repeat(64));
            assert_eq!(actual, encode(&good));
        }
        other => panic!("unexpected {:?}", other.is_ok()),
    }
}

#[test]
fn encode_gives_two_lowercase_hex_digits_per_byte() {
    assert_eq!(encode(&[0x00, 0x0f, 0xa5, 0xff]), "000fa5ff");
    assert_eq!(encode(&[]), "");
}

#[test]
fn patch_digest_is_valid_after_construction_and_detects_tampering() {
    let p = two_nodes_and_edge();
    assert!(p.verify_hash());
    let p = p.with_intent(42);
    assert!(p.verify_hash());
    assert_eq!(p.intent_ref, Some(42));
    let p = p.with_parents(vec![(7, [1u8; 32])]);
    assert!(p.verify_hash());
    assert_eq!(p.parents, vec![7]);
    let mut tampered = p.clone();
    tampered.operations.push(Operation::RemoveNode(1));
    assert!(!tampered.verify_hash());
}

#[test]
fn patch_digest_does_not_depend_on_identity() {
    let a = two_nodes_and_edge();
    let b = two_nodes_and_edge();
    assert_eq!(a.deterministic_hash, b.deterministic_hash);
}

#[test]
fn patch_sets_count_and_merge() {
    let empty = PatchSet::new();
    assert!(empty.is_empty());
    assert_eq!(empty.len(), 0);
    let one = PatchSet::single(two_nodes_and_edge());
    assert!(!one.is_empty());
    let both = one.merge(&PatchSet::single(Patch::from_operations(vec![Operation::RemoveEdge(3)]))).unwrap();
    assert_eq!(both.len(), 2);
}

#[test]
fn config_diff_lists_changed_added_and_removed_keys() {
    let mut old = StrMap::new();
    old.insert("a".to_string(), ConfigValue::Int(1));
    old.insert("b".to_string(), ConfigValue::Bool(true));
    old.insert("c".to_string(), ConfigValue::Int(5));
    let mut new = StrMap::new();
    new.insert("a".to_string(), ConfigValue::Int(2));
    new.insert("c".to_string(), ConfigValue::Int(5));
    new.insert("d".to_string(), ConfigValue::String("x".to_string()));
    let d = config_diff(&old, &new);
    assert_eq!(d.len(), 3);
    assert!(matches!(d.get("a"), Some(ConfigChange { old: Some(ConfigValue::Int(1)), new: Some(ConfigValue::Int(2)) })));
    assert!(matches!(d.get("b"), Some(ConfigChange { old: Some(ConfigValue::Bool(true)), new: None })));
    assert!(matches!(d.get("d"), Some(ConfigChange { old: None, new: Some(ConfigValue::String(_)) })));
    assert!(d.get("c").is_none());
}

#[test]
fn diff_from_an_empty_graph_rebuilds_the_graph() {
    let mut g = Graph::new();
    g.apply_patch(&two_nodes_and_edge()).unwrap();
    let ps = Graph::new().diff(&g);
    assert_eq!(ps.len(), 1);
    let rebuilt = Graph::replay(&ps.patches).unwrap();
    assert_eq!(hash_topology(&rebuilt.topology), hash_topology(&g.topology));
}

#[test]
fn diff_of_a_graph_with_itself_is_empty() {
    let mut g = Graph::new();
    g.apply_patch(&two_nodes_and_edge()).unwrap();
    let ps = g.diff(&g);
    assert_eq!(ps.len(), 1);
    assert!(ps.patches[0].operations.is_empty());
}

#[test]
fn diff_removes_then_adds_then_changes() {
    let mut a = Graph::new();
    a.apply_patch(&two_nodes_and_edge()).unwrap();
    let mut b = Graph::new();
    b.apply_patch(&Patch::from_operations(vec![
        Operation::AddNode(bare_node(1, NodeKind::Source)),
        Operation::AddNode(bare_node(3, NodeKind::Sink)),
    ]))
    .unwrap();
    let ps = a.diff(&b);
    let ops = &ps.patches[0].operations;
    assert_eq!(ops.len(), 3);
    assert!(matches!(ops[0], Operation::RemoveNode(2)));
    assert!(matches!(&ops[1], Operation::AddNode(n) if n.id == 3));
    assert!(matches!(ops[2], Operation::RemoveEdge(10)));
}

#[test]
fn squash_history_leaves_one_baseline_that_rebuilds_the_topology() {
    let mut g = Graph::new();
    g.apply_patch(&two_nodes_and_edge()).unwrap();
    g.apply_patch(&Patch::from_operations(vec![Operation::AddNode(bare_node(3, NodeKind::Processor))])).unwrap();
    let before = hash_topology(&g.topology);
    g.squash_history();
    assert_eq!(g.lineage.applied_patches.len(), 1);
    assert_eq!(g.lineage.history.len(), 1);
    assert_eq!(hash_topology(&g.topology), before);
    let baseline = g.lineage.history.values().next().unwrap().clone();
    let rebuilt = Graph::replay(&[baseline]).unwrap();
    assert_eq!(hash_topology(&rebuilt.topology), before);
}

#[test]
fn topology_digest_changes_with_the_topology() {
    let a = Graph::replay(&[two_nodes_and_edge()]).unwrap();
    let b = Graph::new();
    assert_ne!(hash_topology(&a.topology), hash_topology(&b.topology));
}

#[test]
fn removing_a_node_then_its_edge_is_refused_by_the_general_diff() {
    // the edge goes with its node, so a diff that also removes it cannot be applied
    let mut a = Graph::new();
    a.apply_patch(&two_nodes_and_edge()).unwrap();
    let b = Graph::new();
    let ps = a.diff(&b);
    let mut c = Graph::replay(&[two_nodes_and_edge()]).unwrap();
    assert!(matches!(c.apply_patch(&ps.patches[0]), Err(PatchError::EdgeNotFound(10))));
}

#[test]
fn applying_a_diff_turns_one_graph_into_the_other() {
    let mut amp_a = bare_node(1, NodeKind::Processor);
    amp_a.config.insert("gain".to_string(), ConfigValue::Int(1));
    amp_a.config.insert("mode".to_string(), ConfigValue::String("clean".to_string()));
    let mut amp_b = bare_node(1, NodeKind::Processor);
    amp_b.config.insert("gain".to_string(), ConfigValue::Int(2));
    amp_b.config.insert("drive".to_string(), ConfigValue::Bool(true));
    let a = Graph::replay(&[Patch::from_operations(vec![
        Operation::AddNode(amp_a),
        Operation::AddNode(bare_node(2, NodeKind::Sink)),
        Operation::AddEdge(edge(10, 1, 2)),
    ])])
    .unwrap();
    let b = Graph::replay(&[Patch::from_operations(vec![
        Operation::AddNode(amp_b),
        Operation::AddNode(bare_node(2, NodeKind::Sink)),
        Operation::AddNode(bare_node(3, NodeKind::Sink)),
        Operation::AddEdge(edge(10, 1, 3)),
        Operation::AddEdge(edge(11, 2, 3)),
    ])])
    .unwrap();
    let ps = a.diff(&b);
    let ops = &ps.patches[0].operations;
    assert_eq!(ops.len(), 4);
    assert!(matches!(&ops[0], Operation::ModifyConfig { node_id: 1, delta } if delta.len() == 3));
    assert!(matches!(&ops[1], Operation::AddNode(n) if n.id == 3));
    assert!(matches!(&ops[2], Operation::ModifyEdge { edge_id: 10, delta } if delta.source.is_none() && delta.target.as_ref().map(|t| t.node_id) == Some(3) && delta.kind.is_none()));
    assert!(matches!(&ops[3], Operation::AddEdge(e) if e.id == 11));
    let mut c = Graph::replay(&[Patch::from_operations(vec![
        Operation::AddNode({
            let mut n = bare_node(1, NodeKind::Processor);
            n.config.insert("gain".to_string(), ConfigValue::Int(1));
            n.config.insert("mode".to_string(), ConfigValue::String("clean".to_string()));
            n
        }),
        Operation::AddNode(bare_node(2, NodeKind::Sink)),
        Operation::AddEdge(edge(10, 1, 2)),
    ])])
    .unwrap();
    c.apply_patch(&ps.patches[0]).unwrap();
    assert_eq!(hash_topology(&c.topology), hash_topology(&b.topology));
}

#[test]
fn patch_errors_read_as_sentences() {
    assert_eq!(PatchError::NodeNotFound(1).message(), "node 00000000000000000000000000000001 not found");
    assert_eq!(PatchError::EdgeAlreadyExists(255).message(), "edge 000000000000000000000000000000ff already exists");
    assert_eq!(
        PatchError::PortNotFound { node: 2, port: "in".to_string() }.message(),
        "port 'in' not found on node 00000000000000000000000000000002"
    );
    assert_eq!(
        PatchError::HashMismatch { expected: "aa".to_string(), actual: "bb".to_string() }.message(),
        "hash mismatch: expected aa, got bb"
    );
    assert_eq!(PatchError::MergeConflict("x".to_string()).message(), "merge conflict: x");
}

#[test]
fn replay_records_the_lineage_and_nothing_replays_to_a_new_graph() {
    let empty = Graph::replay(&[]).unwrap();
    let fresh = Graph::new();
    assert_eq!(empty.spec_version, fresh.spec_version);
    assert_eq!(empty.revision.0, 0);
    assert!(empty.topology.nodes.is_empty() && empty.topology.edges.is_empty());
    assert!(empty.lineage.applied_patches.is_empty() && empty.lineage.history.is_empty());
    assert_eq!(empty.verification.trust_state, "verified");
    let first = two_nodes_and_edge();
    let second = Patch::from_operations(vec![Operation::RemoveEdge(10)]);
    let ids = vec![first.identity, second.identity];
    let patches = vec![first, second];
    let g = Graph::replay(&patches).unwrap();
    assert_eq!(g.revision.0, 2);
    assert_eq!(g.lineage.applied_patches, ids);
    assert_eq!(g.lineage.history.len(), 2);
    assert_eq!(g.lineage.history.get(&ids[1]).unwrap().operations.len(), 1);
    let good = hash_topology(&g.topology);
    let verified = Graph::replay_and_verify(&patches, &good).unwrap();
    assert_eq!(verified.revision.0, 2);
    assert_eq!(verified.lineage.applied_patches, ids);
}
