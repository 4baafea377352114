use std::collections::HashSet;

use dirtydata::freeze::{freeze_patch, freeze_render_graph, DifferentialCache};
use dirtydata::hash::hash_topology;
use dirtydata::host::{has_nan, process_frame, set_parameter_frame, AuditReport, HostCommand, Workspace};
use dirtydata::intent::{get_param_value, BoundKind, IntentState};
use dirtydata::ir::{Edge, EdgeKind, Graph, Node};
use dirtydata::patch::{encode, Operation, Patch};
use dirtydata::sdk::{NodeFactory, SemanticMerge, SemanticMergeError};
use dirtydata::strmap::StrMap;
use dirtydata::text::{id_string, parse_id_text};
use dirtydata::types::{
    ConfidenceScore, ConfigValue, IntentConstraint, IntentStatus, MetadataRef, NodeKind, ParamBound, PortRef, StableId,
};

fn named_node(id: StableId, name: &str) -> Node {
    let mut n = Node {
        id,
        kind: NodeKind::Processor,
        ports: Vec::new(),
        config: StrMap::new(),
        metadata: MetadataRef(None),
        confidence: ConfidenceScore::Verified,
    };
    n.config.insert("name".to_string(), ConfigValue::String(name.to_string()));
    n
}

fn link(id: StableId, from: StableId, to: StableId) -> Edge {
    Edge {
        id,
        source: PortRef { node_id: from, port_name: "out".to_string() },
        target: PortRef { node_id: to, port_name: "in".to_string() },
        kind: EdgeKind::Normal,
    }
}

fn filter_graph() -> Graph {
    let mut filt = named_node(1, "filter");
    filt.config.insert("cutoff".to_string(), ConfigValue::Float(1000.0f64.to_bits()));
    filt.config.insert("mode".to_string(), ConfigValue::String("lp".to_string()));
    let mut g = Graph::new();
    g.apply_patch(&Patch::from_operations(vec![Operation::AddNode(filt), Operation::AddNode(named_node(2, "out"))]))
        .unwrap();
    g
}

#[test]
fn param_value_reads_a_float_parameter_by_path() {
    let g = filter_graph();
    assert_eq!(get_param_value(&g, "filter.cutoff"), Some(1000.0f64.to_bits()));
    assert_eq!(get_param_value(&g, "filter.mode"), None);
    assert_eq!(get_param_value(&g, "filter.q"), None);
    assert_eq!(get_param_value(&g, "cutoff"), None);
    assert_eq!(get_param_value(&g, "a.b.c"), None);
    assert_eq!(get_param_value(&g, "missing.cutoff"), None);
}

#[test]
fn intents_are_added_attached_and_probed() {
    let g = filter_graph();
    let mut st = IntentState::default();
    let bound = |t: &str| ParamBound { target: t.to_string(), range_start: 20.0f32.to_bits(), range_end: 2000.0f32.to_bits() };
    let id = st.add(
        "keep the cutoff audible".to_string(),
        vec![
            IntentConstraint::Must(bound("filter.cutoff")),
            IntentConstraint::Prefer(bound("filter.cutoff")),
            IntentConstraint::Never(bound("missing.cutoff")),
        ],
    );
    assert_eq!(st.intents[&id].status, IntentStatus::Proposal);
    assert!(st.attach(id, 77).is_ok());
    assert!(st.attach(id, 77).is_ok());
    assert_eq!(st.intents[&id].attached_patches, vec![77]);
    assert_eq!(st.intents[&id].status, IntentStatus::Attached);

    let probes = st.constraint_probes(id, &g).unwrap();
    assert_eq!(probes.len(), 1);
    assert_eq!(probes[0].kind, BoundKind::Must);
    assert_eq!(probes[0].target, "filter.cutoff");
    assert_eq!(probes[0].value, 1000.0f64.to_bits());
}

#[test]
fn unknown_intents_are_reported_by_identifier() {
    let mut st = IntentState::default();
    let msg = st.attach(5, 1).unwrap_err();
    assert_eq!(msg, format!("Intent {} not found", id_string(5)));
    assert!(st.constraint_probes(5, &Graph::new()).is_err());
}

#[test]
fn identifiers_are_32_hex_digits_and_read_back() {
    let id: StableId = 0x0123_4567_89ab_cdef_0011_2233_4455_6677;
    let s = id_string(id);
    assert_eq!(s, "0123456789abcdef0011223344556677");
    assert_eq!(parse_id_text(&s), Some(id));
    assert_eq!(parse_id_text("0123456789ABCDEF0011223344556677"), None);
    assert_eq!(parse_id_text("123"), None);
    assert_eq!(parse_id_text(&id_string(u128::MAX)), Some(u128::MAX));
}

#[test]
fn audit_of_a_clean_workspace_is_healthy() {
    let g = filter_graph();
    let ws = Workspace::new("/tmp/project".to_string(), g, IntentState::default());
    let root = ws.calculate_root_hash(b"topology", b"lineage", b"intents");
    let text = encode(&root);
    let report = ws.audit(Some(&text), &root);
    assert!(report.root_hash_valid);
    assert!(report.lineage_intact);
    assert!(report.is_healthy());
    assert!(report.issues.is_empty());
    assert_eq!(ws.root(), "/tmp/project");
}

#[test]
fn audit_reports_a_root_mismatch_and_corrupted_patches() {
    let mut g = filter_graph();
    let id = g.lineage.applied_patches[0];
    g.lineage.history.get_mut(&id).unwrap().deterministic_hash = [9u8; 32];
    let ws = Workspace::new("p".to_string(), g, IntentState::default());
    let root = ws.calculate_root_hash(b"t", b"l", b"i");
    let report = ws.audit(Some("abc"), &root);
    assert!(!report.root_hash_valid);
    assert!(!report.lineage_intact);
    assert!(!report.is_healthy());
    assert_eq!(report.issues.len(), 2);
    assert_eq!(report.issues[0], format!("Root hash mismatch! Manifest: abc, Actual: {}", encode(&root)));
    assert_eq!(report.issues[1], format!("Patch {} has corrupted hash", id_string(id)));
}

#[test]
fn audit_without_a_manifest_does_not_trust_the_root() {
    let ws = Workspace::new("p".to_string(), Graph::new(), IntentState::default());
    let root = ws.calculate_root_hash(b"", b"", b"");
    let report = ws.audit(None, &root);
    assert!(!report.root_hash_valid);
    assert!(report.issues.is_empty());
}

#[test]
fn root_hash_depends_on_the_parts() {
    let ws = Workspace::new("p".to_string(), Graph::new(), IntentState::default());
    assert_ne!(ws.calculate_root_hash(b"a", b"", b""), ws.calculate_root_hash(b"", b"a", b"b"));
    assert_eq!(ws.calculate_root_hash(b"a", b"b", b"c"), ws.calculate_root_hash(b"a", b"b", b"c"));
}

#[test]
fn audit_report_health_needs_root_lineage_and_store() {
    let r = AuditReport {
        root_hash_valid: true,
        manifest_valid: true,
        lineage_intact: false,
        cas_complete: true,
        determinism_verified: false,
        issues: Vec::new(),
    };
    assert!(!r.is_healthy());
    assert_eq!(HostCommand::SetState.code(), 3);
    assert_eq!(HostCommand::Process.code(), 0);
}

#[test]
fn semantic_merge_refuses_conflicts_and_applies_the_rest() {
    let mut ws = Workspace::new("p".to_string(), filter_graph(), IntentState::default());
    let dup = Patch::from_operations(vec![Operation::AddNode(named_node(1, "again"))]);
    assert!(matches!(SemanticMerge::run(&mut ws, dup, &vec![]), Err(SemanticMergeError::NodeAlreadyExists(1))));
    let gone = Patch::from_operations(vec![Operation::RemoveNode(42)]);
    let err = SemanticMerge::run(&mut ws, gone, &vec![]).unwrap_err();
    assert!(matches!(err, SemanticMergeError::NodeNotFound(42)));
    assert_eq!(err.message(), "Merge Conflict: Node 0000000000000000000000000000002a not found for removal");
    assert_eq!(ws.graph().revision.0, 1);
    let ok = Patch::from_operations(vec![Operation::AddNode(named_node(3, "new")), Operation::AddEdge(link(9, 1, 3))]);
    assert!(SemanticMerge::run(&mut ws, ok, &vec![]).is_ok());
    let bad = Patch::from_operations(vec![Operation::RemoveEdge(77)]);
    let err = SemanticMerge::run(&mut ws, bad, &vec![]).unwrap_err();
    assert_eq!(err.message(), "Failed to apply patch: edge 0000000000000000000000000000004d not found");
    assert_eq!(ws.graph().revision.0, 2);
    assert_eq!(ws.graph().topology.nodes.len(), 3);
}

#[test]
fn semantic_merge_refuses_a_patch_that_breaks_an_intent() {
    let mut ws = Workspace::new("p".to_string(), filter_graph(), IntentState::default());
    let patch = Patch::from_operations(vec![Operation::AddNode(named_node(3, "new"))]);
    let preview = SemanticMerge::preview(&ws, &patch).unwrap();
    assert_eq!(preview.topology.nodes.len(), ws.graph().topology.nodes.len() + 1);
    assert_eq!(preview.nodes.len(), preview.topology.nodes.len());
    assert_eq!(ws.graph().revision.0, 1);
    let violations = vec!["gain is 2, but must be in range 0..=1".to_string(), "second".to_string()];
    let err = SemanticMerge::run(&mut ws, patch, &violations).unwrap_err();
    assert!(matches!(&err, SemanticMergeError::IntentViolation(v) if v == &violations));
    assert_eq!(err.message(), "Intent constraints violated: gain is 2, but must be in range 0..=1; second");
    assert_eq!(ws.graph().revision.0, 1);
    assert!(!ws.graph().topology.nodes.contains_key(&3));
    let dup = Patch::from_operations(vec![Operation::AddNode(named_node(1, "again"))]);
    assert!(matches!(SemanticMerge::preview(&ws, &dup), Err(SemanticMergeError::NodeAlreadyExists(1))));
}

#[test]
fn factory_nodes_are_named_processors() {
    let n = NodeFactory::tape_machine();
    assert!(matches!(n.kind, NodeKind::Processor));
    assert!(matches!(n.config.get("name"), Some(ConfigValue::String(s)) if s == "TapeMachine"));
    assert_eq!(n.ports.len(), 2);
}

#[test]
fn cache_gives_back_what_was_written_for_a_revision() {
    let g = filter_graph();
    let mut cache = DifferentialCache::new();
    assert_eq!(cache.get_cached_asset(&g), None);
    cache.insert(&g, "a.wav".to_string());
    cache.insert(&g, "b.wav".to_string());
    assert_eq!(cache.get_cached_asset(&g), Some("b.wav".to_string()));
    assert_eq!(cache.get_cached_asset(&Graph::new()), None);
}

#[test]
fn cache_tells_apart_graphs_at_the_same_revision() {
    let mut g1 = Graph::new();
    g1.apply_patch(&Patch::from_operations(vec![Operation::AddNode(named_node(1, "osc"))])).unwrap();
    let mut g2 = Graph::new();
    g2.apply_patch(&Patch::from_operations(vec![Operation::AddNode(named_node(2, "fx"))])).unwrap();
    assert_eq!(g1.revision.0, g2.revision.0);
    let mut cache = DifferentialCache::new();
    cache.insert(&g1, "one.wav".to_string());
    assert_eq!(cache.get_cached_asset(&g1), Some("one.wav".to_string()));
    assert_eq!(cache.get_cached_asset(&g2), None);
}

#[test]
fn freeze_patch_replaces_the_frozen_nodes_by_an_asset() {
    let mut g = Graph::new();
    g.apply_patch(&Patch::from_operations(vec![
        Operation::AddNode(named_node(1, "osc")),
        Operation::AddNode(named_node(2, "fx")),
        Operation::AddNode(named_node(3, "out")),
        Operation::AddEdge(link(10, 1, 2)),
        Operation::AddEdge(link(11, 2, 3)),
    ]))
    .unwrap();
    let frozen: HashSet<StableId> = [1, 2].into_iter().collect();
    let p = freeze_patch(&g, 2, &frozen, "assets/fx.wav");
    assert_eq!(p.operations.len(), 4);
    assert!(matches!(p.operations[0], Operation::RemoveNode(_)));
    assert!(matches!(p.operations[1], Operation::RemoveNode(_)));
    let asset_id = match &p.operations[2] {
        Operation::AddNode(n) => {
            assert!(matches!(n.kind, NodeKind::Source));
            assert!(matches!(n.config.get("path"), Some(ConfigValue::String(s)) if s == "assets/fx.wav"));
            n.id
        }
        _ => panic!("expected the asset node"),
    };
    let src = match &p.operations[3] {
        Operation::AddEdge(e) => {
            assert_eq!(e.source.port_name, "out");
            assert_eq!(e.target.node_id, 3);
            assert_eq!(e.target.port_name, "in");
            e.source.node_id
        }
        _ => panic!("expected the redirected edge"),
    };
    assert_eq!(src, asset_id);
    let mut applied = g;
    assert!(applied.apply_patch(&p).is_ok());
    assert_eq!(applied.topology.nodes.len(), 2);
    assert_eq!(applied.topology.edges.len(), 1);
    assert!(applied.topology.nodes.contains_key(&asset_id));
    assert!(applied.topology.nodes.contains_key(&3));
}

#[test]
fn freeze_render_graph_keeps_the_ancestors() {
    let mut g = Graph::new();
    g.apply_patch(&Patch::from_operations(vec![
        Operation::AddNode(named_node(1, "osc")),
        Operation::AddNode(named_node(2, "fx")),
        Operation::AddEdge(link(10, 1, 2)),
    ]))
    .unwrap();
    let keep: HashSet<StableId> = [1].into_iter().collect();
    let r = freeze_render_graph(&g, 2, &keep);
    assert!(r.nodes.contains_key(&1));
    assert_eq!(r.nodes.len(), 2);
    assert_eq!(r.edges.len(), 1);
    let _ = hash_topology(&r.topology);
}

#[test]
fn plugin_frames_are_little_endian() {
    assert_eq!(set_parameter_frame(3, 1.0f32.to_bits()), vec![1, 3, 0, 0, 0, 0, 0, 0x80, 0x3f]);
    assert_eq!(
        process_frame(&vec![1.0f32.to_bits(), (-2.0f32).to_bits()]),
        vec![0, 2, 0, 0, 0, 0, 0, 0x80, 0x3f, 0, 0, 0, 0xc0]
    );
    assert_eq!(process_frame(&vec![]), vec![0, 0, 0, 0, 0]);
}

#[test]
fn nan_blocks_are_recognised() {
    assert!(has_nan(&vec![0.5f32.to_bits(), f32::NAN.to_bits()]));
    assert!(!has_nan(&vec![0.5f32.to_bits(), f32::INFINITY.to_bits(), (-0.0f32).to_bits()]));
    assert!(!has_nan(&vec![]));
}
