use dirtydata::ir::{Edge, EdgeKind, Graph, Node};
use dirtydata::ir::Modulation;
use dirtydata::osc::parse_node_address;
use dirtydata::text::id_string;
use dirtydata::jit::{JitCompiler, Lowering, DEFAULT_FREQUENCY};
use dirtydata::runner::{dsp_kind, layout_graph, runner_layout, DspKind};
use dirtydata::types::{DataType, ExecutionDomain, PortDirection, PortPolarity, PortSemantic, TypedPort};
use dirtydata::patch::{Operation, Patch};
use dirtydata::strmap::StrMap;
use dirtydata::types::{ConfidenceScore, ConfigValue, MetadataRef, NodeKind, PortRef, StableId};

fn node(id: StableId, kind: NodeKind, name: &str, settings: &[(&str, f64)]) -> Node {
    let mut config = StrMap::new();
    config.insert("name".to_string(), ConfigValue::String(name.to_string()));
    for (k, v) in settings {
        config.insert(k.to_string(), ConfigValue::Float(v.to_bits()));
    }
    Node { id, kind, ports: Vec::new(), config, metadata: MetadataRef(None), confidence: ConfidenceScore::Verified }
}

fn link(id: StableId, from: StableId, to: StableId) -> Edge {
    Edge {
        id,
        source: PortRef { node_id: from, port_name: "out".to_string() },
        target: PortRef { node_id: to, port_name: "in".to_string() },
        kind: EdgeKind::Normal,
    }
}

fn chain() -> Graph {
    let mut g = Graph::new();
    g.apply_patch(&Patch::from_operations(vec![
        Operation::AddNode(node(1, NodeKind::Source, "Oscillator", &[("frequency", 220.0)])),
        Operation::AddNode(node(2, NodeKind::Processor, "Gain", &[("gain", 0.5)])),
        Operation::AddNode(node(3, NodeKind::Sink, "out", &[])),
        Operation::AddNode(node(4, NodeKind::Processor, "Reverb", &[])),
        Operation::AddNode(node(5, NodeKind::Processor, "CircuitModule", &[])),
        Operation::AddEdge(link(10, 1, 2)),
        Operation::AddEdge(link(11, 2, 3)),
        Operation::AddEdge(link(12, 2, 4)),
        Operation::AddEdge(link(13, 4, 5)),
        Operation::AddEdge(link(14, 1, 5)),
    ]))
    .unwrap();
    g
}

#[test]
fn plan_assigns_registers_and_lowers_each_node() {
    let g = chain();
    let mut c = JitCompiler::new();
    let plan = c.plan_runner(&g, &vec![1, 2, 4, 5, 3]);
    assert_eq!(c.next_local, 7);
    assert_eq!(c.next_state_offset, 4);
    assert_eq!(plan.output, Some(6));
    let regs: Vec<u32> = plan.nodes.iter().map(|n| n.register).collect();
    assert_eq!(regs, vec![2, 3, 4, 5, 6]);
    assert!(matches!(plan.nodes[0].lowering, Lowering::Oscillator { state_offset: 0, frequency } if frequency == 220.0f64.to_bits()));
    assert!(matches!(plan.nodes[1].lowering, Lowering::Gain { input: 2, gain } if gain == 0.5f64.to_bits()));
    assert!(matches!(&plan.nodes[2].lowering, Lowering::Legacy { index: 0, inputs, circuit: false } if *inputs == vec![3]));
    assert!(matches!(&plan.nodes[3].lowering, Lowering::Legacy { index: 1, inputs, circuit: true } if *inputs == vec![4, 2]));
    assert!(matches!(plan.nodes[4].lowering, Lowering::Sink { input: 3 }));
}

#[test]
fn plan_of_nothing_returns_silence_and_defaults_apply() {
    let mut c = JitCompiler::new();
    let plan = c.plan_runner(&Graph::new(), &vec![]);
    assert!(plan.nodes.is_empty());
    assert_eq!(plan.output, None);

    let mut g = Graph::new();
    g.apply_patch(&Patch::from_operations(vec![Operation::AddNode(node(7, NodeKind::Source, "Oscillator", &[]))])).unwrap();
    let plan = c.plan_runner(&g, &vec![7]);
    assert!(matches!(plan.nodes[0].lowering, Lowering::Oscillator { state_offset: 0, frequency } if frequency == DEFAULT_FREQUENCY));
    assert_eq!(plan.nodes[0].register, 2);
}

#[test]
fn allocation_carries_over_between_plans() {
    let g = chain();
    let mut c = JitCompiler::new();
    c.plan_runner(&g, &vec![1]);
    let plan = c.plan_runner(&g, &vec![1, 2]);
    assert_eq!(plan.nodes[0].register, 3);
    assert!(matches!(plan.nodes[0].lowering, Lowering::Oscillator { state_offset: 4, .. }));
    assert!(matches!(plan.nodes[1].lowering, Lowering::Gain { input: 3, .. }));
    assert_eq!(DEFAULT_FREQUENCY, 440.0f64.to_bits());
}

fn feedback(id: StableId, from: StableId, to: StableId) -> Edge {
    Edge { kind: EdgeKind::Feedback, ..link(id, from, to) }
}

#[test]
fn layout_wires_feedback_latches_and_modulations() {
    let mut g = Graph::new();
    let mut split = Node::new_processor("split");
    split.id = 2;
    split.ports.push(TypedPort {
        name: "out2".to_string(),
        direction: PortDirection::Output,
        domain: ExecutionDomain::Sample,
        data_type: DataType::Audio { channels: 2 },
        semantic: PortSemantic::Signal,
        polarity: PortPolarity::Bipolar,
    });
    let mut src = Node::new_source("osc");
    src.id = 1;
    let mut out = Node::new_sink("out");
    out.id = 3;
    g.apply_patch(&Patch::from_operations(vec![
        Operation::AddNode(src),
        Operation::AddNode(split),
        Operation::AddNode(out),
        Operation::AddEdge(link(10, 1, 2)),
        Operation::AddEdge(link(11, 2, 3)),
        Operation::AddEdge(feedback(12, 3, 2)),
        Operation::AddEdge(feedback(13, 2, 1)),
        Operation::AddModulation(Modulation {
            id: 20,
            source: PortRef { node_id: 1, port_name: "out".to_string() },
            target_node: 2,
            target_param: "time".to_string(),
            amount: 0.5f32.to_bits(),
        }),
    ]))
    .unwrap();
    let l = layout_graph(&g);
    assert_eq!(l.order, vec![1, 2, 3]);
    assert_eq!(l.buffer_counts, vec![1, 2, 1]);
    assert_eq!(l.latch_count, 2);
    assert_eq!(l.feedback_writes, vec![vec![], vec![(0, 1)], vec![(0, 0)]]);
    assert_eq!(l.feedback_reads, vec![vec![(0, 1)], vec![(0, 0)], vec![]]);
    assert_eq!(l.modulation_mappings.len(), 1);
    let m = &l.modulation_mappings[0];
    assert_eq!((m.source_node_id, m.source_port_idx, m.target_node_idx), (1, 0, 1));
    assert_eq!(m.target_param, "time");
    assert_eq!(m.amount, 0.5f32.to_bits());
}

#[test]
fn layout_skips_nodes_the_graph_lacks() {
    let g = chain();
    let l = runner_layout(&g, &vec![9, 1, 2]);
    assert_eq!(l.order, vec![1, 2]);
    assert_eq!(l.latch_count, 0);
    assert!(l.feedback_writes.iter().all(|w| w.is_empty()));
}

#[test]
fn osc_addresses_name_a_node_and_a_parameter() {
    let id: StableId = 0xabc;
    let hex = id_string(id);
    assert_eq!(parse_node_address(&format!("/node/{}/cutoff", hex)), Some((id, "cutoff".to_string())));
    assert_eq!(parse_node_address(&format!("//node//{}//q/", hex)), Some((id, "q".to_string())));
    assert_eq!(parse_node_address("/node/xyz/cutoff"), None);
    assert_eq!(parse_node_address(&format!("/nodes/{}/cutoff", hex)), None);
    assert_eq!(parse_node_address(&format!("/node/{}", hex)), None);
    assert_eq!(parse_node_address(&format!("/node/{}/a/b", hex)), None);
    assert_eq!(parse_node_address(""), None);
}

#[test]
fn nodes_run_as_the_element_their_name_calls_for() {
    let p = |name: &str| node(1, NodeKind::Processor, name, &[]);
    assert_eq!(dsp_kind(&p("Sine"), false), DspKind::Oscillator);
    assert_eq!(dsp_kind(&p("Biquad"), false), DspKind::BiquadFilter);
    assert_eq!(dsp_kind(&p("S&H"), false), DspKind::SampleHold);
    assert_eq!(dsp_kind(&p("TB303Ladder"), false), DspKind::ZdfLadder);
    assert_eq!(dsp_kind(&p("AssetReader"), false), DspKind::AssetReader);
    assert_eq!(dsp_kind(&p("MidiIn"), true), DspKind::MidiIn);
    assert_eq!(dsp_kind(&p("MidiIn"), false), DspKind::Gain);
    assert_eq!(dsp_kind(&p("Whatever"), false), DspKind::Gain);
    assert_eq!(dsp_kind(&node(2, NodeKind::Foreign("reverb".to_string()), "Sine", &[]), false), DspKind::Foreign);
    let mut unnamed = p("Sine");
    unnamed.config = StrMap::new();
    assert_eq!(dsp_kind(&unnamed, false), DspKind::Gain);
}

#[test]
fn layout_runs_what_a_cycle_feeds_but_not_the_cycle() {
    let mut ops = Vec::new();
    for id in [1, 2, 3] {
        ops.push(Operation::AddNode(node(id, NodeKind::Processor, "Gain", &[])));
    }
    ops.push(Operation::AddEdge(link(10, 1, 2)));
    ops.push(Operation::AddEdge(link(11, 2, 1)));
    ops.push(Operation::AddEdge(link(12, 2, 3)));
    let mut g = Graph::new();
    g.apply_patch(&Patch::from_operations(ops)).unwrap();
    let l = layout_graph(&g);
    assert_eq!(l.order, vec![3]);
}
