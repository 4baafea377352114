use dirtydata::ir::{Edge, EdgeDelta, EdgeKind, Node};
use dirtydata::merge::{merge_three_way, MergeError};
use dirtydata::patch::{Operation, Patch, PatchSet};
use dirtydata::strmap::StrMap;
use dirtydata::types::{ConfidenceScore, ConfigChange, ConfigValue, MetadataRef, NodeKind, PortRef, StableId};

fn bare_node(id: StableId, kind: NodeKind) -> Node {
    Node {
        id,
        kind,
        ports: Vec::new(),
        config: StrMap::new(),
        metadata: MetadataRef(None),
        confidence: ConfidenceScore::Verified,
    }
}

#[test]
fn test_merge_add_node_conflict() {
    let node_id: StableId = 0x1111;
    let left_node = bare_node(node_id, NodeKind::Source);
    let right_node = bare_node(node_id, NodeKind::Processor); // Different kind

    let base = PatchSet { patches: Vec::new() };
    let left = PatchSet { patches: vec![Patch::from_operations(vec![Operation::AddNode(left_node)])] };
    let right = PatchSet { patches: vec![Patch::from_operations(vec![Operation::AddNode(right_node)])] };

    let result = merge_three_way(&base, &left, &right);
    assert_eq!(result.unwrap_err(), MergeError::AddNodeConflict { node_id });
}

#[test]
fn test_merge_add_edge_conflict() {
    let edge_id: StableId = 0x2222;
    let src1 = PortRef { node_id: 0x10, port_name: "out".into() };
    let src2 = PortRef { node_id: 0x11, port_name: "out".into() };
    let tgt = PortRef { node_id: 0x12, port_name: "in".into() };

    let left_edge = Edge { id: edge_id, source: src1, target: tgt.clone(), kind: EdgeKind::Normal };
    let right_edge = Edge { id: edge_id, source: src2, target: tgt, kind: EdgeKind::Normal };

    let base = PatchSet { patches: Vec::new() };
    let left = PatchSet { patches: vec![Patch::from_operations(vec![Operation::AddEdge(left_edge)])] };
    let right = PatchSet { patches: vec![Patch::from_operations(vec![Operation::AddEdge(right_edge)])] };

    let result = merge_three_way(&base, &left, &right);
    assert_eq!(result.unwrap_err(), MergeError::AddEdgeConflict { edge_id });
}

#[test]
fn test_merge_remove_edge_success() {
    let edge_id: StableId = 0x3333;
    let base = PatchSet { patches: Vec::new() };
    let left = PatchSet { patches: vec![Patch::from_operations(vec![Operation::RemoveEdge(edge_id)])] };
    let right = PatchSet { patches: Vec::new() };

    let result = merge_three_way(&base, &left, &right).unwrap();
    assert_eq!(result.patches[0].operations.len(), 1);
    assert!(matches!(result.patches[0].operations[0], Operation::RemoveEdge(id) if id == edge_id));
}

#[test]
fn merge_conflict_is_the_same_with_sides_exchanged() {
    let node_id: StableId = 7;
    let base = PatchSet::new();
    let a = PatchSet::single(Patch::from_operations(vec![Operation::RemoveNode(node_id)]));
    let b = PatchSet::single(Patch::from_operations(vec![Operation::AddNode(bare_node(node_id, NodeKind::Sink))]));
    let ab = merge_three_way(&base, &a, &b).unwrap_err();
    let ba = merge_three_way(&base, &b, &a).unwrap_err();
    assert_eq!(ab, MergeError::RemoveModifyConflict { node_id });
    assert_eq!(ab, ba);
}

#[test]
fn merge_with_empty_side_keeps_the_other_side() {
    let base = PatchSet::new();
    let left = PatchSet::single(Patch::from_operations(vec![
        Operation::AddNode(bare_node(5, NodeKind::Source)),
        Operation::RemoveNode(3),
        Operation::RemoveEdge(9),
    ]));
    let merged = merge_three_way(&base, &left, &PatchSet::new()).unwrap();
    let ops = &merged.patches[0].operations;
    // Nodes in increasing identifier order, then edges.
    assert_eq!(ops.len(), 3);
    assert!(matches!(ops[0], Operation::RemoveNode(3)));
    assert!(matches!(&ops[1], Operation::AddNode(n) if n.id == 5));
    assert!(matches!(ops[2], Operation::RemoveEdge(9)));
    assert!(merged.patches[0].verify_hash());
    let swapped = merge_three_way(&base, &PatchSet::new(), &left).unwrap();
    assert_eq!(swapped.patches[0].operations.len(), 3);
}

#[test]
fn merge_config_conflict_reports_least_key() {
    let mut l = StrMap::new();
    l.insert("b".to_string(), ConfigChange { old: None, new: Some(ConfigValue::Int(1)) });
    l.insert("z".to_string(), ConfigChange { old: None, new: Some(ConfigValue::Int(1)) });
    let mut r = StrMap::new();
    r.insert("z".to_string(), ConfigChange { old: None, new: Some(ConfigValue::Int(2)) });
    r.insert("b".to_string(), ConfigChange { old: None, new: Some(ConfigValue::Int(2)) });
    r.insert("c".to_string(), ConfigChange { old: None, new: Some(ConfigValue::Int(3)) });
    let left = PatchSet::single(Patch::from_operations(vec![Operation::ModifyConfig { node_id: 1, delta: l }]));
    let right = PatchSet::single(Patch::from_operations(vec![Operation::ModifyConfig { node_id: 1, delta: r }]));
    let err = merge_three_way(&PatchSet::new(), &left, &right).unwrap_err();
    assert_eq!(err, MergeError::ConfigConflict { node_id: 1, key: "b".to_string() });
}

#[test]
fn merge_combines_disjoint_config_changes() {
    let mut l = StrMap::new();
    l.insert("gain".to_string(), ConfigChange { old: None, new: Some(ConfigValue::Int(1)) });
    let mut r = StrMap::new();
    r.insert("mix".to_string(), ConfigChange { old: None, new: Some(ConfigValue::Bool(true)) });
    let left = PatchSet::single(Patch::from_operations(vec![Operation::ModifyConfig { node_id: 4, delta: l }]));
    let right = PatchSet::single(Patch::from_operations(vec![Operation::ModifyConfig { node_id: 4, delta: r }]));
    let merged = merge_three_way(&PatchSet::new(), &left, &right).unwrap();
    let ops = &merged.patches[0].operations;
    assert_eq!(ops.len(), 1);
    match &ops[0] {
        Operation::ModifyConfig { node_id, delta } => {
            assert_eq!(*node_id, 4);
            assert_eq!(delta.len(), 2);
            assert!(delta.contains_key("gain"));
            assert!(delta.contains_key("mix"));
        }
        _ => panic!("expected a configuration change"),
    }
}

#[test]
fn merge_edge_changes_must_agree() {
    let d1 = EdgeDelta { source: None, target: None, kind: Some(EdgeKind::Feedback) };
    let d2 = EdgeDelta { source: None, target: None, kind: Some(EdgeKind::Normal) };
    let left = PatchSet::single(Patch::from_operations(vec![Operation::ModifyEdge { edge_id: 8, delta: d1 }]));
    let right = PatchSet::single(Patch::from_operations(vec![Operation::ModifyEdge { edge_id: 8, delta: d2 }]));
    let err = merge_three_way(&PatchSet::new(), &left, &right).unwrap_err();
    assert_eq!(err, MergeError::EdgeConflict { edge_id: 8 });
}

#[test]
fn merge_conflicts_read_as_sentences() {
    assert_eq!(
        MergeError::ConfigConflict { node_id: 16, key: "gain".to_string() }.message(),
        "Conflict on node 00000000000000000000000000000010: key 'gain' modified by both sides"
    );
    assert_eq!(
        MergeError::AddEdgeConflict { edge_id: 1 }.message(),
        "Conflict: both sides added edge 00000000000000000000000000000001 with different content"
    );
    assert_eq!(
        MergeError::RemoveModifyConflict { node_id: 2 }.message(),
        "Conflict on node 00000000000000000000000000000002: one side removed, other side modified"
    );
}

#[test]
fn identical_removals_merge_into_one() {
    let n: StableId = 0x42;
    let base = PatchSet::new();
    let left = PatchSet::single(Patch::from_operations(vec![Operation::RemoveNode(n)]));
    let right = PatchSet::single(Patch::from_operations(vec![Operation::RemoveNode(n)]));
    let r = merge_three_way(&base, &left, &right).unwrap();
    assert_eq!(r.patches.len(), 1);
    assert_eq!(r.patches[0].operations.len(), 1);
    assert!(matches!(r.patches[0].operations[0], Operation::RemoveNode(x) if x == n));
    let e: StableId = 0x77;
    let left = PatchSet::single(Patch::from_operations(vec![Operation::RemoveEdge(e)]));
    let right = PatchSet::single(Patch::from_operations(vec![Operation::RemoveEdge(e)]));
    let r = merge_three_way(&base, &left, &right).unwrap();
    assert_eq!(r.patches[0].operations.len(), 1);
    assert!(matches!(r.patches[0].operations[0], Operation::RemoveEdge(x) if x == e));
}
