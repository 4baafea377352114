//! How the interpreted runner lays out a graph: the nodes in processing
//! order, an output buffer per output port, a latch per feedback edge with
//! the node that writes it and the node that reads it, and the modulations
//! with the position of the node they modulate; and which processing
//! element runs each node. Building the elements themselves is left to the
//! caller.
use vstd::prelude::*;
use crate::types::{StableId, PortDirection, PortView, NodeKind};
use crate::strmap::{chars_of, chars_order};
use crate::ir::{Edge, EdgeKind, Graph, Modulation, Node, NodeView};
use crate::keyorder::{key_order, enumerates, sorted_keys};
use crate::graph_utils::{topological_sort, normal_edges_connect_nodes, ff_ordered, on_ff_cycle};

verus! {

broadcast use vstd::std_specs::btree::group_btree_axioms;

/// The first position of `id` in the order.
pub open spec fn pos(order: Seq<StableId>, id: StableId) -> Option<int>
    decreases order.len(),
{
    if order.len() == 0 {
        None
    } else if order[0] == id {
        Some(0)
    } else {
        match pos(order.drop_first(), id) {
            Some(p) => Some(p + 1),
            None => None,
        }
    }
}

/// The number of output ports, or one when there is none.
pub open spec fn output_count(ports: Seq<PortView>) -> nat
    decreases ports.len(),
{
    if ports.len() == 0 {
        0
    } else {
        output_count(ports.drop_last()) + if ports.last().direction == PortDirection::Output {
            1nat
        } else {
            0nat
        }
    }
}

/// The output buffers a node gets: one per output port, at least one.
pub open spec fn buffer_count(n: NodeView) -> nat {
    if output_count(n.ports) == 0 {
        1
    } else {
        output_count(n.ports)
    }
}

/// The feedback edges among the listed ones, in order.
pub open spec fn feedback_keys(ek: Seq<StableId>, edges: Map<StableId, Edge>) -> Seq<StableId>
    decreases ek.len(),
{
    if ek.len() == 0 {
        Seq::empty()
    } else {
        feedback_keys(ek.drop_last(), edges) + if edges[ek.last()].kind == EdgeKind::Feedback {
            seq![ek.last()]
        } else {
            Seq::<StableId>::empty()
        }
    }
}

/// For each feedback edge (each latch), the positions of its source and of
/// its target in the order.
pub open spec fn latch_ends(fk: Seq<StableId>, edges: Map<StableId, Edge>, order: Seq<StableId>) -> Seq<(Option<int>, Option<int>)> {
    fk.map_values(|k: StableId| (pos(order, edges[k].source.node_id), pos(order, edges[k].target.node_id)))
}

/// The latches that the node at position `p` writes (`writes`) or reads,
/// each as `(port, latch)`.
pub open spec fn latches_at(ends: Seq<(Option<int>, Option<int>)>, p: int, writes: bool) -> Seq<(usize, usize)>
    decreases ends.len(),
{
    if ends.len() == 0 {
        Seq::empty()
    } else {
        let e = ends.last();
        latches_at(ends.drop_last(), p, writes) + if (if writes { e.0 } else { e.1 }) == Some(p) {
            seq![(0usize, (ends.len() - 1) as usize)]
        } else {
            Seq::<(usize, usize)>::empty()
        }
    }
}

/// A modulation routed to the node at a position of the order.
pub struct ModulationMapping {
    pub source_node_id: StableId,
    pub source_port_idx: usize,
    pub target_node_idx: usize,
    pub target_param: String,
    pub amount: u32,
}

/// The mathematical value of a `ModulationMapping`.
pub open spec fn mapping_view(m: ModulationMapping) -> (StableId, usize, usize, Seq<char>, u32) {
    (m.source_node_id, m.source_port_idx, m.target_node_idx, m.target_param@, m.amount)
}

/// The modulations whose target is in the order, in identifier order, with
/// the target's position.
pub open spec fn mappings_of(mk: Seq<StableId>, mods: Map<StableId, Modulation>, order: Seq<StableId>) -> Seq<(StableId, usize, usize, Seq<char>, u32)>
    decreases mk.len(),
{
    if mk.len() == 0 {
        Seq::empty()
    } else {
        let m = mods[mk.last()];
        mappings_of(mk.drop_last(), mods, order) + match pos(order, m.target_node) {
            Some(t) => seq![(m.source.node_id, 0usize, t as usize, m.target_param@, m.amount)],
            None => Seq::empty(),
        }
    }
}

/// The layout of a graph for the interpreted runner.
pub struct RunnerLayout {
    pub order: Vec<StableId>,
    pub buffer_counts: Vec<usize>,
    pub latch_count: usize,
    pub feedback_reads: Vec<Vec<(usize, usize)>>,
    pub feedback_writes: Vec<Vec<(usize, usize)>>,
    pub modulation_mappings: Vec<ModulationMapping>,
}

proof fn lemma_pos_bound(s: Seq<StableId>, id: StableId)
    ensures
        pos(s, id) matches Some(p) ==> 0 <= p < s.len() && s[p] == id,
    decreases s.len(),
{
    if s.len() > 0 {
        lemma_pos_bound(s.drop_first(), id);
    }
}

/// The first position of an identifier in the order.
fn position(order: &Vec<StableId>, id: StableId) -> (r: Option<usize>)
    ensures
        opt_int(r) == pos(order@, id),
        pos(order@, id) matches Some(p) ==> 0 <= p < order@.len(),
{
    let mut i: usize = 0;
    proof {
        assert(order@.skip(0) =~= order@);
        lemma_pos_bound(order@, id);
    }
    while i < order.len()
        invariant
            i <= order@.len(),
            pos(order@, id) == match pos(order@.skip(i as int), id) {
                Some(p) => Some(p + i),
                None => None::<int>,
            },
        decreases order@.len() - i,
    {
        proof {
            assert(order@.skip(i as int)[0] == order@[i as int]);
            assert(order@.skip(i as int).drop_first() =~= order@.skip(i + 1));
        }
        if order[i] == id {
            return Some(i);
        }
        i = i + 1;
    }
    proof {
        assert(order@.skip(i as int).len() == 0);
    }
    None
}


/// Whether a node is in the table.
pub open spec fn in_table(nodes: Map<StableId, Node>) -> spec_fn(StableId) -> bool {
    |id: StableId| nodes.contains_key(id)
}

/// A position as an integer.
pub open spec fn opt_int(o: Option<usize>) -> Option<int> {
    match o {
        Some(p) => Some(p as int),
        None => None,
    }
}

/// The output buffers of a node.
fn buffers_of(n: &Node) -> (c: usize)
    ensures
        c == buffer_count(n@),
{
    let mut c: usize = 0;
    let mut j: usize = 0;
    let ghost ps = n@.ports;
    proof {
        assert(ps.take(0) =~= Seq::<PortView>::empty());
    }
    while j < n.ports.len()
        invariant
            ps == n@.ports,
            ps.len() == n.ports@.len(),
            j <= ps.len(),
            c == output_count(ps.take(j as int)),
            c <= j,
        decreases ps.len() - j,
    {
        proof {
            assert(ps.take(j + 1).drop_last() =~= ps.take(j as int));
            assert(ps.take(j + 1).last() == n.ports@[j as int]@);
        }
        if n.ports[j].direction == PortDirection::Output {
            c = c + 1;
        }
        j = j + 1;
    }
    proof {
        assert(ps.take(ps.len() as int) =~= ps);
    }
    if c == 0 {
        1
    } else {
        c
    }
}

/// The latches that the node at position `p` writes or reads.
fn latches_for(ends: &Vec<(Option<usize>, Option<usize>)>, p: usize, writes: bool) -> (r: Vec<(usize, usize)>)
    ensures
        r@ == latches_at(ends@.map_values(|e: (Option<usize>, Option<usize>)| (opt_int(e.0), opt_int(e.1))), p as int, writes),
{
    let ghost ev = ends@.map_values(|e: (Option<usize>, Option<usize>)| (opt_int(e.0), opt_int(e.1)));
    let mut r: Vec<(usize, usize)> = Vec::new();
    let mut j: usize = 0;
    proof {
        assert(ev.take(0) =~= Seq::<(Option<int>, Option<int>)>::empty());
    }
    while j < ends.len()
        invariant
            ev == ends@.map_values(|e: (Option<usize>, Option<usize>)| (opt_int(e.0), opt_int(e.1))),
            j <= ends@.len(),
            r@ == latches_at(ev.take(j as int), p as int, writes),
        decreases ends@.len() - j,
    {
        proof {
            assert(ev.take(j + 1).drop_last() =~= ev.take(j as int));
            assert(ev.take(j + 1).last() == ev[j as int]);
        }
        let end = if writes {
            ends[j].0
        } else {
            ends[j].1
        };
        if end == Some(p) {
            r.push((0, j));
        }
        proof {
            assert(r@ =~= latches_at(ev.take(j + 1), p as int, writes));
        }
        j = j + 1;
    }
    proof {
        assert(ev.take(ends@.len() as int) =~= ev);
    }
    r
}

/// Lays out the graph for nodes run in the given order: the nodes of the
/// order that are in the graph, their output buffers, the feedback latches
/// (one per feedback edge, in identifier order) with the nodes that write
/// and read them, and the modulations whose target is laid out.
#[verifier::spinoff_prover]
#[verifier::rlimit(40)]
pub fn runner_layout(graph: &Graph, order: &Vec<StableId>) -> (l: RunnerLayout)
    ensures
        l.order@ == order@.filter(in_table(graph.nodes@)),
        l.buffer_counts@.len() == l.order@.len(),
        forall|i: int| 0 <= i < l.order@.len() ==> #[trigger] l.buffer_counts@[i] == buffer_count(graph.nodes@[l.order@[i]]@),
        l.latch_count == feedback_keys(key_order(graph.edges@.dom()), graph.edges@).len(),
        l.feedback_writes@.len() == l.order@.len(),
        l.feedback_reads@.len() == l.order@.len(),
        forall|p: int|
            0 <= p < l.order@.len() ==> (#[trigger] l.feedback_writes@[p])@ == latches_at(
                latch_ends(feedback_keys(key_order(graph.edges@.dom()), graph.edges@), graph.edges@, l.order@),
                p,
                true,
            ),
        forall|p: int|
            0 <= p < l.order@.len() ==> (#[trigger] l.feedback_reads@[p])@ == latches_at(
                latch_ends(feedback_keys(key_order(graph.edges@.dom()), graph.edges@), graph.edges@, l.order@),
                p,
                false,
            ),
        l.modulation_mappings@.map_values(|m: ModulationMapping| mapping_view(m)) == mappings_of(
            key_order(graph.modulations@.dom()),
            graph.modulations@,
            l.order@,
        ),
{
    let ghost keep = in_table(graph.nodes@);
    // the nodes of the order that the graph holds
    let mut kept: Vec<StableId> = Vec::new();
    let mut buffer_counts: Vec<usize> = Vec::new();
    let mut i: usize = 0;
    proof {
        assert(order@.take(0) =~= Seq::<StableId>::empty());
        reveal(Seq::filter);
    }
    while i < order.len()
        invariant
            keep == in_table(graph.nodes@),
            i <= order@.len(),
            kept@ == order@.take(i as int).filter(keep),
            buffer_counts@.len() == kept@.len(),
            forall|q: int| 0 <= q < kept@.len() ==> #[trigger] buffer_counts@[q] == buffer_count(graph.nodes@[kept@[q]]@),
        decreases order@.len() - i,
    {
        let id = order[i];
        proof {
            assert(order@.take(i + 1) =~= order@.take(i as int).push(id));
            order@.take(i as int).lemma_filter_push(id, keep);
        }
        match graph.nodes.get(&id) {
            Some(n) => {
                kept.push(id);
                buffer_counts.push(buffers_of(n));
            },
            None => {},
        }
        i = i + 1;
    }
    proof {
        assert(order@.take(order@.len() as int) =~= order@);
    }
    let ghost kv = kept@;
    // one latch per feedback edge, with the positions of its ends
    let ek = sorted_keys(&graph.edges);
    let mut ends: Vec<(Option<usize>, Option<usize>)> = Vec::new();
    let ghost fk = feedback_keys(ek@, graph.edges@);
    let mut e: usize = 0;
    proof {
        assert(ek@.take(0) =~= Seq::<StableId>::empty());
    }
    while e < ek.len()
        invariant
            kv == kept@,
            ek@ == key_order(graph.edges@.dom()),
            enumerates(ek@, graph.edges@.dom()),
            e <= ek@.len(),
            ends@.map_values(|x: (Option<usize>, Option<usize>)| (opt_int(x.0), opt_int(x.1))) == latch_ends(
                feedback_keys(ek@.take(e as int), graph.edges@),
                graph.edges@,
                kv,
            ),
        decreases ek@.len() - e,
    {
        let k = ek[e];
        proof {
            assert(ek@.contains(k));
            assert(ek@.take(e + 1).drop_last() =~= ek@.take(e as int));
            assert(ek@.take(e + 1).last() == k);
        }
        let ghost before = ends@;
        let ghost fa = feedback_keys(ek@.take(e as int), graph.edges@);
        match graph.edges.get(&k) {
            Some(edge) => {
                if edge.kind == EdgeKind::Feedback {
                    let src = position(&kept, edge.source.node_id);
                    let tgt = position(&kept, edge.target.node_id);
                    ends.push((src, tgt));
                    proof {
                        assert(ends@.map_values(|x: (Option<usize>, Option<usize>)| (opt_int(x.0), opt_int(x.1))) =~= before.map_values(
                            |x: (Option<usize>, Option<usize>)| (opt_int(x.0), opt_int(x.1)),
                        ).push((opt_int(src), opt_int(tgt))));
                        assert(feedback_keys(ek@.take(e + 1), graph.edges@) =~= fa.push(k));
                        assert(latch_ends(fa.push(k), graph.edges@, kv) =~= latch_ends(fa, graph.edges@, kv).push(
                            (pos(kv, edge.source.node_id), pos(kv, edge.target.node_id)),
                        ));
                        assert(opt_int(src) == pos(kv, edge.source.node_id));
                        assert(opt_int(tgt) == pos(kv, edge.target.node_id));
                        assert(before.map_values(|x: (Option<usize>, Option<usize>)| (opt_int(x.0), opt_int(x.1))) == latch_ends(fa, graph.edges@, kv));
                    }
                } else {
                    proof {
                        assert(feedback_keys(ek@.take(e + 1), graph.edges@) =~= fa);
                    }
                }
            },
            None => {},
        }
        proof {
            assert(ends@.map_values(|x: (Option<usize>, Option<usize>)| (opt_int(x.0), opt_int(x.1))) =~= latch_ends(
                feedback_keys(ek@.take(e + 1), graph.edges@),
                graph.edges@,
                kv,
            ));
        }
        e = e + 1;
    }
    proof {
        assert(ek@.take(ek@.len() as int) =~= ek@);
    }
    let latch_count = ends.len();
    // each node's latches
    let mut writes: Vec<Vec<(usize, usize)>> = Vec::new();
    let mut reads: Vec<Vec<(usize, usize)>> = Vec::new();
    let ghost ev = ends@.map_values(|x: (Option<usize>, Option<usize>)| (opt_int(x.0), opt_int(x.1)));
    let mut p: usize = 0;
    while p < kept.len()
        invariant
            kv == kept@,
            ev == ends@.map_values(|x: (Option<usize>, Option<usize>)| (opt_int(x.0), opt_int(x.1))),
            p <= kv.len(),
            writes@.len() == p,
            reads@.len() == p,
            forall|q: int| 0 <= q < p ==> (#[trigger] writes@[q])@ == latches_at(ev, q, true),
            forall|q: int| 0 <= q < p ==> (#[trigger] reads@[q])@ == latches_at(ev, q, false),
        decreases kv.len() - p,
    {
        writes.push(latches_for(&ends, p, true));
        reads.push(latches_for(&ends, p, false));
        p = p + 1;
    }
    // the modulations whose target is laid out
    let mk = sorted_keys(&graph.modulations);
    let mut mappings: Vec<ModulationMapping> = Vec::new();
    let mut m: usize = 0;
    proof {
        assert(mk@.take(0) =~= Seq::<StableId>::empty());
    }
    while m < mk.len()
        invariant
            kv == kept@,
            mk@ == key_order(graph.modulations@.dom()),
            enumerates(mk@, graph.modulations@.dom()),
            m <= mk@.len(),
            mappings@.map_values(|x: ModulationMapping| mapping_view(x)) == mappings_of(
                mk@.take(m as int),
                graph.modulations@,
                kv,
            ),
        decreases mk@.len() - m,
    {
        let k = mk[m];
        proof {
            assert(mk@.contains(k));
            assert(mk@.take(m + 1).drop_last() =~= mk@.take(m as int));
            assert(mk@.take(m + 1).last() == k);
        }
        let ghost before = mappings@;
        match graph.modulations.get(&k) {
            Some(md) => {
                match position(&kept, md.target_node) {
                    Some(t) => {
                        let mapping = ModulationMapping {
                            source_node_id: md.source.node_id,
                            source_port_idx: 0,
                            target_node_idx: t,
                            target_param: md.target_param.clone(),
                            amount: md.amount,
                        };
                        mappings.push(mapping);
                        proof {
                            assert(mappings@.map_values(|x: ModulationMapping| mapping_view(x)) =~= before.map_values(
                                |x: ModulationMapping| mapping_view(x),
                            ).push(mapping_view(mapping)));
                        }
                    },
                    None => {},
                }
            },
            None => {},
        }
        proof {
            assert(mappings@.map_values(|x: ModulationMapping| mapping_view(x)) =~= mappings_of(
                mk@.take(m + 1),
                graph.modulations@,
                kv,
            ));
        }
        m = m + 1;
    }
    proof {
        assert(mk@.take(mk@.len() as int) =~= mk@);
        assert(latch_ends(fk, graph.edges@, kv).len() == fk.len());
    }
    RunnerLayout {
        order: kept,
        buffer_counts,
        latch_count,
        feedback_reads: reads,
        feedback_writes: writes,
        modulation_mappings: mappings,
    }
}

proof fn lemma_filter_keeps_all(s: Seq<StableId>, keep: spec_fn(StableId) -> bool)
    requires
        forall|i: int| 0 <= i < s.len() ==> keep(#[trigger] s[i]),
    ensures
        s.filter(keep) == s,
    decreases s.len(),
{
    reveal(Seq::filter);
    if s.len() > 0 {
        lemma_filter_keeps_all(s.drop_last(), keep);
        assert(s.drop_last().push(s.last()) =~= s);
    }
}

/// The processing element that runs a node.
#[derive(Clone, Copy, PartialEq, Eq, Structural, Debug)]
pub enum DspKind {
    Foreign,
    Oscillator,
    Noise,
    Gain,
    Add,
    Multiply,
    Clip,
    BiquadFilter,
    Compressor,
    Delay,
    AssetReader,
    Trigger,
    Envelope,
    Automation,
    MidiIn,
    Sequencer,
    Wavefolder,
    Lorenz,
    MackeyGlass,
    GrayScott,
    BitCrush,
    WaveShaper,
    Pll,
    SlewLimiter,
    SampleHold,
    Clock,
    ProbabilityGate,
    Reverb,
    SpringReverb,
    Granular,
    Logic,
    SpectralFreeze,
    FftConvolve,
    ZdfLadder,
    Svf,
    DiodeClipper,
    BbdDelay,
    KarplusStrong,
    ModalResonator,
    ChuaCircuit,
    TapeMachine,
    MatrixMixer,
    EuclideanSequencer,
}

/// The element that runs a node of the given name (`MidiIn` only when a
/// MIDI input is at hand); any other name runs as a gain stage.
pub open spec fn dsp_kind_for_name(name: Seq<char>, has_midi: bool) -> DspKind {
    if name == "Oscillator"@ || name == "Sine"@ {
        DspKind::Oscillator
    } else if name == "Noise"@ {
        DspKind::Noise
    } else if name == "Gain"@ {
        DspKind::Gain
    } else if name == "Add"@ {
        DspKind::Add
    } else if name == "Multiply"@ {
        DspKind::Multiply
    } else if name == "Clip"@ {
        DspKind::Clip
    } else if name == "Filter"@ || name == "Biquad"@ {
        DspKind::BiquadFilter
    } else if name == "Compressor"@ || name == "Dynamics"@ {
        DspKind::Compressor
    } else if name == "Delay"@ {
        DspKind::Delay
    } else if name == "Sampler"@ || name == "AssetReader"@ {
        DspKind::AssetReader
    } else if name == "Trigger"@ {
        DspKind::Trigger
    } else if name == "Envelope"@ || name == "ADSR"@ {
        DspKind::Envelope
    } else if name == "Automation"@ {
        DspKind::Automation
    } else if name == "MidiIn"@ {
        if has_midi {
        DspKind::MidiIn
    } else {
        DspKind::Gain
    }
    } else if name == "Sequencer"@ {
        DspKind::Sequencer
    } else if name == "Wavefolder"@ {
        DspKind::Wavefolder
    } else if name == "Lorenz"@ {
        DspKind::Lorenz
    } else if name == "MackeyGlass"@ {
        DspKind::MackeyGlass
    } else if name == "GrayScott"@ || name == "ReactionDiffusion"@ {
        DspKind::GrayScott
    } else if name == "BitCrush"@ {
        DspKind::BitCrush
    } else if name == "WaveShaper"@ {
        DspKind::WaveShaper
    } else if name == "Pll"@ {
        DspKind::Pll
    } else if name == "SlewLimiter"@ || name == "Slew"@ {
        DspKind::SlewLimiter
    } else if name == "SampleHold"@ || name == "S&H"@ {
        DspKind::SampleHold
    } else if name == "Clock"@ {
        DspKind::Clock
    } else if name == "ProbabilityGate"@ {
        DspKind::ProbabilityGate
    } else if name == "Reverb"@ {
        DspKind::Reverb
    } else if name == "SpringReverb"@ {
        DspKind::SpringReverb
    } else if name == "Granular"@ {
        DspKind::Granular
    } else if name == "Logic"@ {
        DspKind::Logic
    } else if name == "SpectralFreeze"@ {
        DspKind::SpectralFreeze
    } else if name == "FFTConvolve"@ {
        DspKind::FftConvolve
    } else if name == "ZdfLadder"@ || name == "TB303Ladder"@ || name == "Ladder"@ {
        DspKind::ZdfLadder
    } else if name == "Svf"@ || name == "SVFFilter"@ {
        DspKind::Svf
    } else if name == "DiodeClipper"@ {
        DspKind::DiodeClipper
    } else if name == "BbdDelay"@ {
        DspKind::BbdDelay
    } else if name == "KarplusStrong"@ {
        DspKind::KarplusStrong
    } else if name == "ModalResonator"@ {
        DspKind::ModalResonator
    } else if name == "ChuaCircuit"@ || name == "Chua"@ {
        DspKind::ChuaCircuit
    } else if name == "TapeMachine"@ || name == "Tape"@ {
        DspKind::TapeMachine
    } else if name == "MatrixMixer"@ {
        DspKind::MatrixMixer
    } else if name == "Euclidean"@ || name == "EuclideanSequencer"@ {
        DspKind::EuclideanSequencer
    } else {
        DspKind::Gain
    }
}

/// The element that runs a node: a foreign plug-in for a foreign node, else
/// the element its `name` setting calls for (a gain stage when it has no
/// string `name`).
pub open spec fn dsp_kind_spec(n: Node, has_midi: bool) -> DspKind {
    match n.kind {
        NodeKind::Foreign(_) => DspKind::Foreign,
        _ => if n.config@.contains_key("name"@) && n.config@["name"@] is String {
            dsp_kind_for_name(n.config@["name"@]->String_0@, has_midi)
        } else {
            DspKind::Gain
        },
    }
}

proof fn lemma_name_oscillator(has_midi: bool)
    ensures
        dsp_kind_for_name("Oscillator"@, has_midi) == DspKind::Oscillator,
{
}

proof fn lemma_name_sine(has_midi: bool)
    ensures
        dsp_kind_for_name("Sine"@, has_midi) == DspKind::Oscillator,
{
        assert("Sine"@ != "Oscillator"@) by { reveal_strlit("Sine"); reveal_strlit("Oscillator"); if "Sine"@ == "Oscillator"@ { assert("Sine"@.len() == "Oscillator"@.len()); } }
}

proof fn lemma_name_noise(has_midi: bool)
    ensures
        dsp_kind_for_name("Noise"@, has_midi) == DspKind::Noise,
{
        assert("Noise"@ != "Oscillator"@) by { reveal_strlit("Noise"); reveal_strlit("Oscillator"); if "Noise"@ == "Oscillator"@ { assert("Noise"@.len() == "Oscillator"@.len()); } }
        assert("Noise"@ != "Sine"@) by { reveal_strlit("Noise"); reveal_strlit("Sine"); if "Noise"@ == "Sine"@ { assert("Noise"@.len() == "Sine"@.len()); } }
}

proof fn lemma_name_gain(has_midi: bool)
    ensures
        dsp_kind_for_name("Gain"@, has_midi) == DspKind::Gain,
{
        assert("Gain"@ != "Oscillator"@) by { reveal_strlit("Gain"); reveal_strlit("Oscillator"); if "Gain"@ == "Oscillator"@ { assert("Gain"@.len() == "Oscillator"@.len()); } }
        assert("Gain"@ != "Sine"@) by { reveal_strlit("Gain"); reveal_strlit("Sine"); if "Gain"@ == "Sine"@ { assert("Gain"@[0] == "Sine"@[0]); } }
        assert("Gain"@ != "Noise"@) by { reveal_strlit("Gain"); reveal_strlit("Noise"); if "Gain"@ == "Noise"@ { assert("Gain"@.len() == "Noise"@.len()); } }
}

proof fn lemma_name_add(has_midi: bool)
    ensures
        dsp_kind_for_name("Add"@, has_midi) == DspKind::Add,
{
        assert("Add"@ != "Oscillator"@) by { reveal_strlit("Add"); reveal_strlit("Oscillator"); if "Add"@ == "Oscillator"@ { assert("Add"@.len() == "Oscillator"@.len()); } }
        assert("Add"@ != "Sine"@) by { reveal_strlit("Add"); reveal_strlit("Sine"); if "Add"@ == "Sine"@ { assert("Add"@.len() == "Sine"@.len()); } }
        assert("Add"@ != "Noise"@) by { reveal_strlit("Add"); reveal_strlit("Noise"); if "Add"@ == "Noise"@ { assert("Add"@.len() == "Noise"@.len()); } }
        assert("Add"@ != "Gain"@) by { reveal_strlit("Add"); reveal_strlit("Gain"); if "Add"@ == "Gain"@ { assert("Add"@.len() == "Gain"@.len()); } }
}

proof fn lemma_name_multiply(has_midi: bool)
    ensures
        dsp_kind_for_name("Multiply"@, has_midi) == DspKind::Multiply,
{
        assert("Multiply"@ != "Oscillator"@) by { reveal_strlit("Multiply"); reveal_strlit("Oscillator"); if "Multiply"@ == "Oscillator"@ { assert("Multiply"@.len() == "Oscillator"@.len()); } }
        assert("Multiply"@ != "Sine"@) by { reveal_strlit("Multiply"); reveal_strlit("Sine"); if "Multiply"@ == "Sine"@ { assert("Multiply"@.len() == "Sine"@.len()); } }
        assert("Multiply"@ != "Noise"@) by { reveal_strlit("Multiply"); reveal_strlit("Noise"); if "Multiply"@ == "Noise"@ { assert("Multiply"@.len() == "Noise"@.len()); } }
        assert("Multiply"@ != "Gain"@) by { reveal_strlit("Multiply"); reveal_strlit("Gain"); if "Multiply"@ == "Gain"@ { assert("Multiply"@.len() == "Gain"@.len()); } }
        assert("Multiply"@ != "Add"@) by { reveal_strlit("Multiply"); reveal_strlit("Add"); if "Multiply"@ == "Add"@ { assert("Multiply"@.len() == "Add"@.len()); } }
}

proof fn lemma_name_clip(has_midi: bool)
    ensures
        dsp_kind_for_name("Clip"@, has_midi) == DspKind::Clip,
{
        assert("Clip"@ != "Oscillator"@) by { reveal_strlit("Clip"); reveal_strlit("Oscillator"); if "Clip"@ == "Oscillator"@ { assert("Clip"@.len() == "Oscillator"@.len()); } }
        assert("Clip"@ != "Sine"@) by { reveal_strlit("Clip"); reveal_strlit("Sine"); if "Clip"@ == "Sine"@ { assert("Clip"@[0] == "Sine"@[0]); } }
        assert("Clip"@ != "Noise"@) by { reveal_strlit("Clip"); reveal_strlit("Noise"); if "Clip"@ == "Noise"@ { assert("Clip"@.len() == "Noise"@.len()); } }
        assert("Clip"@ != "Gain"@) by { reveal_strlit("Clip"); reveal_strlit("Gain"); if "Clip"@ == "Gain"@ { assert("Clip"@[0] == "Gain"@[0]); } }
        assert("Clip"@ != "Add"@) by { reveal_strlit("Clip"); reveal_strlit("Add"); if "Clip"@ == "Add"@ { assert("Clip"@.len() == "Add"@.len()); } }
        assert("Clip"@ != "Multiply"@) by { reveal_strlit("Clip"); reveal_strlit("Multiply"); if "Clip"@ == "Multiply"@ { assert("Clip"@.len() == "Multiply"@.len()); } }
}

proof fn lemma_name_filter(has_midi: bool)
    ensures
        dsp_kind_for_name("Filter"@, has_midi) == DspKind::BiquadFilter,
{
        assert("Filter"@ != "Oscillator"@) by { reveal_strlit("Filter"); reveal_strlit("Oscillator"); if "Filter"@ == "Oscillator"@ { assert("Filter"@.len() == "Oscillator"@.len()); } }
        assert("Filter"@ != "Sine"@) by { reveal_strlit("Filter"); reveal_strlit("Sine"); if "Filter"@ == "Sine"@ { assert("Filter"@.len() == "Sine"@.len()); } }
        assert("Filter"@ != "Noise"@) by { reveal_strlit("Filter"); reveal_strlit("Noise"); if "Filter"@ == "Noise"@ { assert("Filter"@.len() == "Noise"@.len()); } }
        assert("Filter"@ != "Gain"@) by { reveal_strlit("Filter"); reveal_strlit("Gain"); if "Filter"@ == "Gain"@ { assert("Filter"@.len() == "Gain"@.len()); } }
        assert("Filter"@ != "Add"@) by { reveal_strlit("Filter"); reveal_strlit("Add"); if "Filter"@ == "Add"@ { assert("Filter"@.len() == "Add"@.len()); } }
        assert("Filter"@ != "Multiply"@) by { reveal_strlit("Filter"); reveal_strlit("Multiply"); if "Filter"@ == "Multiply"@ { assert("Filter"@.len() == "Multiply"@.len()); } }
        assert("Filter"@ != "Clip"@) by { reveal_strlit("Filter"); reveal_strlit("Clip"); if "Filter"@ == "Clip"@ { assert("Filter"@.len() == "Clip"@.len()); } }
}

proof fn lemma_name_biquad(has_midi: bool)
    ensures
        dsp_kind_for_name("Biquad"@, has_midi) == DspKind::BiquadFilter,
{
        assert("Biquad"@ != "Oscillator"@) by { reveal_strlit("Biquad"); reveal_strlit("Oscillator"); if "Biquad"@ == "Oscillator"@ { assert("Biquad"@.len() == "Oscillator"@.len()); } }
        assert("Biquad"@ != "Sine"@) by { reveal_strlit("Biquad"); reveal_strlit("Sine"); if "Biquad"@ == "Sine"@ { assert("Biquad"@.len() == "Sine"@.len()); } }
        assert("Biquad"@ != "Noise"@) by { reveal_strlit("Biquad"); reveal_strlit("Noise"); if "Biquad"@ == "Noise"@ { assert("Biquad"@.len() == "Noise"@.len()); } }
        assert("Biquad"@ != "Gain"@) by { reveal_strlit("Biquad"); reveal_strlit("Gain"); if "Biquad"@ == "Gain"@ { assert("Biquad"@.len() == "Gain"@.len()); } }
        assert("Biquad"@ != "Add"@) by { reveal_strlit("Biquad"); reveal_strlit("Add"); if "Biquad"@ == "Add"@ { assert("Biquad"@.len() == "Add"@.len()); } }
        assert("Biquad"@ != "Multiply"@) by { reveal_strlit("Biquad"); reveal_strlit("Multiply"); if "Biquad"@ == "Multiply"@ { assert("Biquad"@.len() == "Multiply"@.len()); } }
        assert("Biquad"@ != "Clip"@) by { reveal_strlit("Biquad"); reveal_strlit("Clip"); if "Biquad"@ == "Clip"@ { assert("Biquad"@.len() == "Clip"@.len()); } }
        assert("Biquad"@ != "Filter"@) by { reveal_strlit("Biquad"); reveal_strlit("Filter"); if "Biquad"@ == "Filter"@ { assert("Biquad"@[0] == "Filter"@[0]); } }
}

proof fn lemma_name_compressor(has_midi: bool)
    ensures
        dsp_kind_for_name("Compressor"@, has_midi) == DspKind::Compressor,
{
        assert("Compressor"@ != "Oscillator"@) by { reveal_strlit("Compressor"); reveal_strlit("Oscillator"); if "Compressor"@ == "Oscillator"@ { assert("Compressor"@[0] == "Oscillator"@[0]); } }
        assert("Compressor"@ != "Sine"@) by { reveal_strlit("Compressor"); reveal_strlit("Sine"); if "Compressor"@ == "Sine"@ { assert("Compressor"@.len() == "Sine"@.len()); } }
        assert("Compressor"@ != "Noise"@) by { reveal_strlit("Compressor"); reveal_strlit("Noise"); if "Compressor"@ == "Noise"@ { assert("Compressor"@.len() == "Noise"@.len()); } }
        assert("Compressor"@ != "Gain"@) by { reveal_strlit("Compressor"); reveal_strlit("Gain"); if "Compressor"@ == "Gain"@ { assert("Compressor"@.len() == "Gain"@.len()); } }
        assert("Compressor"@ != "Add"@) by { reveal_strlit("Compressor"); reveal_strlit("Add"); if "Compressor"@ == "Add"@ { assert("Compressor"@.len() == "Add"@.len()); } }
        assert("Compressor"@ != "Multiply"@) by { reveal_strlit("Compressor"); reveal_strlit("Multiply"); if "Compressor"@ == "Multiply"@ { assert("Compressor"@.len() == "Multiply"@.len()); } }
        assert("Compressor"@ != "Clip"@) by { reveal_strlit("Compressor"); reveal_strlit("Clip"); if "Compressor"@ == "Clip"@ { assert("Compressor"@.len() == "Clip"@.len()); } }
        assert("Compressor"@ != "Filter"@) by { reveal_strlit("Compressor"); reveal_strlit("Filter"); if "Compressor"@ == "Filter"@ { assert("Compressor"@.len() == "Filter"@.len()); } }
        assert("Compressor"@ != "Biquad"@) by { reveal_strlit("Compressor"); reveal_strlit("Biquad"); if "Compressor"@ == "Biquad"@ { assert("Compressor"@.len() == "Biquad"@.len()); } }
}

proof fn lemma_name_dynamics(has_midi: bool)
    ensures
        dsp_kind_for_name("Dynamics"@, has_midi) == DspKind::Compressor,
{
        assert("Dynamics"@ != "Oscillator"@) by { reveal_strlit("Dynamics"); reveal_strlit("Oscillator"); if "Dynamics"@ == "Oscillator"@ { assert("Dynamics"@.len() == "Oscillator"@.len()); } }
        assert("Dynamics"@ != "Sine"@) by { reveal_strlit("Dynamics"); reveal_strlit("Sine"); if "Dynamics"@ == "Sine"@ { assert("Dynamics"@.len() == "Sine"@.len()); } }
        assert("Dynamics"@ != "Noise"@) by { reveal_strlit("Dynamics"); reveal_strlit("Noise"); if "Dynamics"@ == "Noise"@ { assert("Dynamics"@.len() == "Noise"@.len()); } }
        assert("Dynamics"@ != "Gain"@) by { reveal_strlit("Dynamics"); reveal_strlit("Gain"); if "Dynamics"@ == "Gain"@ { assert("Dynamics"@.len() == "Gain"@.len()); } }
        assert("Dynamics"@ != "Add"@) by { reveal_strlit("Dynamics"); reveal_strlit("Add"); if "Dynamics"@ == "Add"@ { assert("Dynamics"@.len() == "Add"@.len()); } }
        assert("Dynamics"@ != "Multiply"@) by { reveal_strlit("Dynamics"); reveal_strlit("Multiply"); if "Dynamics"@ == "Multiply"@ { assert("Dynamics"@[0] == "Multiply"@[0]); } }
        assert("Dynamics"@ != "Clip"@) by { reveal_strlit("Dynamics"); reveal_strlit("Clip"); if "Dynamics"@ == "Clip"@ { assert("Dynamics"@.len() == "Clip"@.len()); } }
        assert("Dynamics"@ != "Filter"@) by { reveal_strlit("Dynamics"); reveal_strlit("Filter"); if "Dynamics"@ == "Filter"@ { assert("Dynamics"@.len() == "Filter"@.len()); } }
        assert("Dynamics"@ != "Biquad"@) by { reveal_strlit("Dynamics"); reveal_strlit("Biquad"); if "Dynamics"@ == "Biquad"@ { assert("Dynamics"@.len() == "Biquad"@.len()); } }
        assert("Dynamics"@ != "Compressor"@) by { reveal_strlit("Dynamics"); reveal_strlit("Compressor"); if "Dynamics"@ == "Compressor"@ { assert("Dynamics"@.len() == "Compressor"@.len()); } }
}

proof fn lemma_name_delay(has_midi: bool)
    ensures
        dsp_kind_for_name("Delay"@, has_midi) == DspKind::Delay,
{
        assert("Delay"@ != "Oscillator"@) by { reveal_strlit("Delay"); reveal_strlit("Oscillator"); if "Delay"@ == "Oscillator"@ { assert("Delay"@.len() == "Oscillator"@.len()); } }
        assert("Delay"@ != "Sine"@) by { reveal_strlit("Delay"); reveal_strlit("Sine"); if "Delay"@ == "Sine"@ { assert("Delay"@.len() == "Sine"@.len()); } }
        assert("Delay"@ != "Noise"@) by { reveal_strlit("Delay"); reveal_strlit("Noise"); if "Delay"@ == "Noise"@ { assert("Delay"@[0] == "Noise"@[0]); } }
        assert("Delay"@ != "Gain"@) by { reveal_strlit("Delay"); reveal_strlit("Gain"); if "Delay"@ == "Gain"@ { assert("Delay"@.len() == "Gain"@.len()); } }
        assert("Delay"@ != "Add"@) by { reveal_strlit("Delay"); reveal_strlit("Add"); if "Delay"@ == "Add"@ { assert("Delay"@.len() == "Add"@.len()); } }
        assert("Delay"@ != "Multiply"@) by { reveal_strlit("Delay"); reveal_strlit("Multiply"); if "Delay"@ == "Multiply"@ { assert("Delay"@.len() == "Multiply"@.len()); } }
        assert("Delay"@ != "Clip"@) by { reveal_strlit("Delay"); reveal_strlit("Clip"); if "Delay"@ == "Clip"@ { assert("Delay"@.len() == "Clip"@.len()); } }
        assert("Delay"@ != "Filter"@) by { reveal_strlit("Delay"); reveal_strlit("Filter"); if "Delay"@ == "Filter"@ { assert("Delay"@.len() == "Filter"@.len()); } }
        assert("Delay"@ != "Biquad"@) by { reveal_strlit("Delay"); reveal_strlit("Biquad"); if "Delay"@ == "Biquad"@ { assert("Delay"@.len() == "Biquad"@.len()); } }
        assert("Delay"@ != "Compressor"@) by { reveal_strlit("Delay"); reveal_strlit("Compressor"); if "Delay"@ == "Compressor"@ { assert("Delay"@.len() == "Compressor"@.len()); } }
        assert("Delay"@ != "Dynamics"@) by { reveal_strlit("Delay"); reveal_strlit("Dynamics"); if "Delay"@ == "Dynamics"@ { assert("Delay"@.len() == "Dynamics"@.len()); } }
}

proof fn lemma_name_sampler(has_midi: bool)
    ensures
        dsp_kind_for_name("Sampler"@, has_midi) == DspKind::AssetReader,
{
        assert("Sampler"@ != "Oscillator"@) by { reveal_strlit("Sampler"); reveal_strlit("Oscillator"); if "Sampler"@ == "Oscillator"@ { assert("Sampler"@.len() == "Oscillator"@.len()); } }
        assert("Sampler"@ != "Sine"@) by { reveal_strlit("Sampler"); reveal_strlit("Sine"); if "Sampler"@ == "Sine"@ { assert("Sampler"@.len() == "Sine"@.len()); } }
        assert("Sampler"@ != "Noise"@) by { reveal_strlit("Sampler"); reveal_strlit("Noise"); if "Sampler"@ == "Noise"@ { assert("Sampler"@.len() == "Noise"@.len()); } }
        assert("Sampler"@ != "Gain"@) by { reveal_strlit("Sampler"); reveal_strlit("Gain"); if "Sampler"@ == "Gain"@ { assert("Sampler"@.len() == "Gain"@.len()); } }
        assert("Sampler"@ != "Add"@) by { reveal_strlit("Sampler"); reveal_strlit("Add"); if "Sampler"@ == "Add"@ { assert("Sampler"@.len() == "Add"@.len()); } }
        assert("Sampler"@ != "Multiply"@) by { reveal_strlit("Sampler"); reveal_strlit("Multiply"); if "Sampler"@ == "Multiply"@ { assert("Sampler"@.len() == "Multiply"@.len()); } }
        assert("Sampler"@ != "Clip"@) by { reveal_strlit("Sampler"); reveal_strlit("Clip"); if "Sampler"@ == "Clip"@ { assert("Sampler"@.len() == "Clip"@.len()); } }
        assert("Sampler"@ != "Filter"@) by { reveal_strlit("Sampler"); reveal_strlit("Filter"); if "Sampler"@ == "Filter"@ { assert("Sampler"@.len() == "Filter"@.len()); } }
        assert("Sampler"@ != "Biquad"@) by { reveal_strlit("Sampler"); reveal_strlit("Biquad"); if "Sampler"@ == "Biquad"@ { assert("Sampler"@.len() == "Biquad"@.len()); } }
        assert("Sampler"@ != "Compressor"@) by { reveal_strlit("Sampler"); reveal_strlit("Compressor"); if "Sampler"@ == "Compressor"@ { assert("Sampler"@.len() == "Compressor"@.len()); } }
        assert("Sampler"@ != "Dynamics"@) by { reveal_strlit("Sampler"); reveal_strlit("Dynamics"); if "Sampler"@ == "Dynamics"@ { assert("Sampler"@.len() == "Dynamics"@.len()); } }
        assert("Sampler"@ != "Delay"@) by { reveal_strlit("Sampler"); reveal_strlit("Delay"); if "Sampler"@ == "Delay"@ { assert("Sampler"@.len() == "Delay"@.len()); } }
}

proof fn lemma_name_assetreader(has_midi: bool)
    ensures
        dsp_kind_for_name("AssetReader"@, has_midi) == DspKind::AssetReader,
{
        assert("AssetReader"@ != "Oscillator"@) by { reveal_strlit("AssetReader"); reveal_strlit("Oscillator"); if "AssetReader"@ == "Oscillator"@ { assert("AssetReader"@.len() == "Oscillator"@.len()); } }
        assert("AssetReader"@ != "Sine"@) by { reveal_strlit("AssetReader"); reveal_strlit("Sine"); if "AssetReader"@ == "Sine"@ { assert("AssetReader"@.len() == "Sine"@.len()); } }
        assert("AssetReader"@ != "Noise"@) by { reveal_strlit("AssetReader"); reveal_strlit("Noise"); if "AssetReader"@ == "Noise"@ { assert("AssetReader"@.len() == "Noise"@.len()); } }
        assert("AssetReader"@ != "Gain"@) by { reveal_strlit("AssetReader"); reveal_strlit("Gain"); if "AssetReader"@ == "Gain"@ { assert("AssetReader"@.len() == "Gain"@.len()); } }
        assert("AssetReader"@ != "Add"@) by { reveal_strlit("AssetReader"); reveal_strlit("Add"); if "AssetReader"@ == "Add"@ { assert("AssetReader"@.len() == "Add"@.len()); } }
        assert("AssetReader"@ != "Multiply"@) by { reveal_strlit("AssetReader"); reveal_strlit("Multiply"); if "AssetReader"@ == "Multiply"@ { assert("AssetReader"@.len() == "Multiply"@.len()); } }
        assert("AssetReader"@ != "Clip"@) by { reveal_strlit("AssetReader"); reveal_strlit("Clip"); if "AssetReader"@ == "Clip"@ { assert("AssetReader"@.len() == "Clip"@.len()); } }
        assert("AssetReader"@ != "Filter"@) by { reveal_strlit("AssetReader"); reveal_strlit("Filter"); if "AssetReader"@ == "Filter"@ { assert("AssetReader"@.len() == "Filter"@.len()); } }
        assert("AssetReader"@ != "Biquad"@) by { reveal_strlit("AssetReader"); reveal_strlit("Biquad"); if "AssetReader"@ == "Biquad"@ { assert("AssetReader"@.len() == "Biquad"@.len()); } }
        assert("AssetReader"@ != "Compressor"@) by { reveal_strlit("AssetReader"); reveal_strlit("Compressor"); if "AssetReader"@ == "Compressor"@ { assert("AssetReader"@.len() == "Compressor"@.len()); } }
        assert("AssetReader"@ != "Dynamics"@) by { reveal_strlit("AssetReader"); reveal_strlit("Dynamics"); if "AssetReader"@ == "Dynamics"@ { assert("AssetReader"@.len() == "Dynamics"@.len()); } }
        assert("AssetReader"@ != "Delay"@) by { reveal_strlit("AssetReader"); reveal_strlit("Delay"); if "AssetReader"@ == "Delay"@ { assert("AssetReader"@.len() == "Delay"@.len()); } }
        assert("AssetReader"@ != "Sampler"@) by { reveal_strlit("AssetReader"); reveal_strlit("Sampler"); if "AssetReader"@ == "Sampler"@ { assert("AssetReader"@.len() == "Sampler"@.len()); } }
}

proof fn lemma_name_trigger(has_midi: bool)
    ensures
        dsp_kind_for_name("Trigger"@, has_midi) == DspKind::Trigger,
{
        assert("Trigger"@ != "Oscillator"@) by { reveal_strlit("Trigger"); reveal_strlit("Oscillator"); if "Trigger"@ == "Oscillator"@ { assert("Trigger"@.len() == "Oscillator"@.len()); } }
        assert("Trigger"@ != "Sine"@) by { reveal_strlit("Trigger"); reveal_strlit("Sine"); if "Trigger"@ == "Sine"@ { assert("Trigger"@.len() == "Sine"@.len()); } }
        assert("Trigger"@ != "Noise"@) by { reveal_strlit("Trigger"); reveal_strlit("Noise"); if "Trigger"@ == "Noise"@ { assert("Trigger"@.len() == "Noise"@.len()); } }
        assert("Trigger"@ != "Gain"@) by { reveal_strlit("Trigger"); reveal_strlit("Gain"); if "Trigger"@ == "Gain"@ { assert("Trigger"@.len() == "Gain"@.len()); } }
        assert("Trigger"@ != "Add"@) by { reveal_strlit("Trigger"); reveal_strlit("Add"); if "Trigger"@ == "Add"@ { assert("Trigger"@.len() == "Add"@.len()); } }
        assert("Trigger"@ != "Multiply"@) by { reveal_strlit("Trigger"); reveal_strlit("Multiply"); if "Trigger"@ == "Multiply"@ { assert("Trigger"@.len() == "Multiply"@.len()); } }
        assert("Trigger"@ != "Clip"@) by { reveal_strlit("Trigger"); reveal_strlit("Clip"); if "Trigger"@ == "Clip"@ { assert("Trigger"@.len() == "Clip"@.len()); } }
        assert("Trigger"@ != "Filter"@) by { reveal_strlit("Trigger"); reveal_strlit("Filter"); if "Trigger"@ == "Filter"@ { assert("Trigger"@.len() == "Filter"@.len()); } }
        assert("Trigger"@ != "Biquad"@) by { reveal_strlit("Trigger"); reveal_strlit("Biquad"); if "Trigger"@ == "Biquad"@ { assert("Trigger"@.len() == "Biquad"@.len()); } }
        assert("Trigger"@ != "Compressor"@) by { reveal_strlit("Trigger"); reveal_strlit("Compressor"); if "Trigger"@ == "Compressor"@ { assert("Trigger"@.len() == "Compressor"@.len()); } }
        assert("Trigger"@ != "Dynamics"@) by { reveal_strlit("Trigger"); reveal_strlit("Dynamics"); if "Trigger"@ == "Dynamics"@ { assert("Trigger"@.len() == "Dynamics"@.len()); } }
        assert("Trigger"@ != "Delay"@) by { reveal_strlit("Trigger"); reveal_strlit("Delay"); if "Trigger"@ == "Delay"@ { assert("Trigger"@.len() == "Delay"@.len()); } }
        assert("Trigger"@ != "Sampler"@) by { reveal_strlit("Trigger"); reveal_strlit("Sampler"); if "Trigger"@ == "Sampler"@ { assert("Trigger"@[0] == "Sampler"@[0]); } }
        assert("Trigger"@ != "AssetReader"@) by { reveal_strlit("Trigger"); reveal_strlit("AssetReader"); if "Trigger"@ == "AssetReader"@ { assert("Trigger"@.len() == "AssetReader"@.len()); } }
}

proof fn lemma_name_envelope(has_midi: bool)
    ensures
        dsp_kind_for_name("Envelope"@, has_midi) == DspKind::Envelope,
{
        assert("Envelope"@ != "Oscillator"@) by { reveal_strlit("Envelope"); reveal_strlit("Oscillator"); if "Envelope"@ == "Oscillator"@ { assert("Envelope"@.len() == "Oscillator"@.len()); } }
        assert("Envelope"@ != "Sine"@) by { reveal_strlit("Envelope"); reveal_strlit("Sine"); if "Envelope"@ == "Sine"@ { assert("Envelope"@.len() == "Sine"@.len()); } }
        assert("Envelope"@ != "Noise"@) by { reveal_strlit("Envelope"); reveal_strlit("Noise"); if "Envelope"@ == "Noise"@ { assert("Envelope"@.len() == "Noise"@.len()); } }
        assert("Envelope"@ != "Gain"@) by { reveal_strlit("Envelope"); reveal_strlit("Gain"); if "Envelope"@ == "Gain"@ { assert("Envelope"@.len() == "Gain"@.len()); } }
        assert("Envelope"@ != "Add"@) by { reveal_strlit("Envelope"); reveal_strlit("Add"); if "Envelope"@ == "Add"@ { assert("Envelope"@.len() == "Add"@.len()); } }
        assert("Envelope"@ != "Multiply"@) by { reveal_strlit("Envelope"); reveal_strlit("Multiply"); if "Envelope"@ == "Multiply"@ { assert("Envelope"@[0] == "Multiply"@[0]); } }
        assert("Envelope"@ != "Clip"@) by { reveal_strlit("Envelope"); reveal_strlit("Clip"); if "Envelope"@ == "Clip"@ { assert("Envelope"@.len() == "Clip"@.len()); } }
        assert("Envelope"@ != "Filter"@) by { reveal_strlit("Envelope"); reveal_strlit("Filter"); if "Envelope"@ == "Filter"@ { assert("Envelope"@.len() == "Filter"@.len()); } }
        assert("Envelope"@ != "Biquad"@) by { reveal_strlit("Envelope"); reveal_strlit("Biquad"); if "Envelope"@ == "Biquad"@ { assert("Envelope"@.len() == "Biquad"@.len()); } }
        assert("Envelope"@ != "Compressor"@) by { reveal_strlit("Envelope"); reveal_strlit("Compressor"); if "Envelope"@ == "Compressor"@ { assert("Envelope"@.len() == "Compressor"@.len()); } }
        assert("Envelope"@ != "Dynamics"@) by { reveal_strlit("Envelope"); reveal_strlit("Dynamics"); if "Envelope"@ == "Dynamics"@ { assert("Envelope"@[0] == "Dynamics"@[0]); } }
        assert("Envelope"@ != "Delay"@) by { reveal_strlit("Envelope"); reveal_strlit("Delay"); if "Envelope"@ == "Delay"@ { assert("Envelope"@.len() == "Delay"@.len()); } }
        assert("Envelope"@ != "Sampler"@) by { reveal_strlit("Envelope"); reveal_strlit("Sampler"); if "Envelope"@ == "Sampler"@ { assert("Envelope"@.len() == "Sampler"@.len()); } }
        assert("Envelope"@ != "AssetReader"@) by { reveal_strlit("Envelope"); reveal_strlit("AssetReader"); if "Envelope"@ == "AssetReader"@ { assert("Envelope"@.len() == "AssetReader"@.len()); } }
        assert("Envelope"@ != "Trigger"@) by { reveal_strlit("Envelope"); reveal_strlit("Trigger"); if "Envelope"@ == "Trigger"@ { assert("Envelope"@.len() == "Trigger"@.len()); } }
}

proof fn lemma_name_adsr(has_midi: bool)
    ensures
        dsp_kind_for_name("ADSR"@, has_midi) == DspKind::Envelope,
{
        assert("ADSR"@ != "Oscillator"@) by { reveal_strlit("ADSR"); reveal_strlit("Oscillator"); if "ADSR"@ == "Oscillator"@ { assert("ADSR"@.len() == "Oscillator"@.len()); } }
        assert("ADSR"@ != "Sine"@) by { reveal_strlit("ADSR"); reveal_strlit("Sine"); if "ADSR"@ == "Sine"@ { assert("ADSR"@[0] == "Sine"@[0]); } }
        assert("ADSR"@ != "Noise"@) by { reveal_strlit("ADSR"); reveal_strlit("Noise"); if "ADSR"@ == "Noise"@ { assert("ADSR"@.len() == "Noise"@.len()); } }
        assert("ADSR"@ != "Gain"@) by { reveal_strlit("ADSR"); reveal_strlit("Gain"); if "ADSR"@ == "Gain"@ { assert("ADSR"@[0] == "Gain"@[0]); } }
        assert("ADSR"@ != "Add"@) by { reveal_strlit("ADSR"); reveal_strlit("Add"); if "ADSR"@ == "Add"@ { assert("ADSR"@.len() == "Add"@.len()); } }
        assert("ADSR"@ != "Multiply"@) by { reveal_strlit("ADSR"); reveal_strlit("Multiply"); if "ADSR"@ == "Multiply"@ { assert("ADSR"@.len() == "Multiply"@.len()); } }
        assert("ADSR"@ != "Clip"@) by { reveal_strlit("ADSR"); reveal_strlit("Clip"); if "ADSR"@ == "Clip"@ { assert("ADSR"@[0] == "Clip"@[0]); } }
        assert("ADSR"@ != "Filter"@) by { reveal_strlit("ADSR"); reveal_strlit("Filter"); if "ADSR"@ == "Filter"@ { assert("ADSR"@.len() == "Filter"@.len()); } }
        assert("ADSR"@ != "Biquad"@) by { reveal_strlit("ADSR"); reveal_strlit("Biquad"); if "ADSR"@ == "Biquad"@ { assert("ADSR"@.len() == "Biquad"@.len()); } }
        assert("ADSR"@ != "Compressor"@) by { reveal_strlit("ADSR"); reveal_strlit("Compressor"); if "ADSR"@ == "Compressor"@ { assert("ADSR"@.len() == "Compressor"@.len()); } }
        assert("ADSR"@ != "Dynamics"@) by { reveal_strlit("ADSR"); reveal_strlit("Dynamics"); if "ADSR"@ == "Dynamics"@ { assert("ADSR"@.len() == "Dynamics"@.len()); } }
        assert("ADSR"@ != "Delay"@) by { reveal_strlit("ADSR"); reveal_strlit("Delay"); if "ADSR"@ == "Delay"@ { assert("ADSR"@.len() == "Delay"@.len()); } }
        assert("ADSR"@ != "Sampler"@) by { reveal_strlit("ADSR"); reveal_strlit("Sampler"); if "ADSR"@ == "Sampler"@ { assert("ADSR"@.len() == "Sampler"@.len()); } }
        assert("ADSR"@ != "AssetReader"@) by { reveal_strlit("ADSR"); reveal_strlit("AssetReader"); if "ADSR"@ == "AssetReader"@ { assert("ADSR"@.len() == "AssetReader"@.len()); } }
        assert("ADSR"@ != "Trigger"@) by { reveal_strlit("ADSR"); reveal_strlit("Trigger"); if "ADSR"@ == "Trigger"@ { assert("ADSR"@.len() == "Trigger"@.len()); } }
        assert("ADSR"@ != "Envelope"@) by { reveal_strlit("ADSR"); reveal_strlit("Envelope"); if "ADSR"@ == "Envelope"@ { assert("ADSR"@.len() == "Envelope"@.len()); } }
}

proof fn lemma_name_automation(has_midi: bool)
    ensures
        dsp_kind_for_name("Automation"@, has_midi) == DspKind::Automation,
{
        assert("Automation"@ != "Oscillator"@) by { reveal_strlit("Automation"); reveal_strlit("Oscillator"); if "Automation"@ == "Oscillator"@ { assert("Automation"@[0] == "Oscillator"@[0]); } }
        assert("Automation"@ != "Sine"@) by { reveal_strlit("Automation"); reveal_strlit("Sine"); if "Automation"@ == "Sine"@ { assert("Automation"@.len() == "Sine"@.len()); } }
        assert("Automation"@ != "Noise"@) by { reveal_strlit("Automation"); reveal_strlit("Noise"); if "Automation"@ == "Noise"@ { assert("Automation"@.len() == "Noise"@.len()); } }
        assert("Automation"@ != "Gain"@) by { reveal_strlit("Automation"); reveal_strlit("Gain"); if "Automation"@ == "Gain"@ { assert("Automation"@.len() == "Gain"@.len()); } }
        assert("Automation"@ != "Add"@) by { reveal_strlit("Automation"); reveal_strlit("Add"); if "Automation"@ == "Add"@ { assert("Automation"@.len() == "Add"@.len()); } }
        assert("Automation"@ != "Multiply"@) by { reveal_strlit("Automation"); reveal_strlit("Multiply"); if "Automation"@ == "Multiply"@ { assert("Automation"@.len() == "Multiply"@.len()); } }
        assert("Automation"@ != "Clip"@) by { reveal_strlit("Automation"); reveal_strlit("Clip"); if "Automation"@ == "Clip"@ { assert("Automation"@.len() == "Clip"@.len()); } }
        assert("Automation"@ != "Filter"@) by { reveal_strlit("Automation"); reveal_strlit("Filter"); if "Automation"@ == "Filter"@ { assert("Automation"@.len() == "Filter"@.len()); } }
        assert("Automation"@ != "Biquad"@) by { reveal_strlit("Automation"); reveal_strlit("Biquad"); if "Automation"@ == "Biquad"@ { assert("Automation"@.len() == "Biquad"@.len()); } }
        assert("Automation"@ != "Compressor"@) by { reveal_strlit("Automation"); reveal_strlit("Compressor"); if "Automation"@ == "Compressor"@ { assert("Automation"@[0] == "Compressor"@[0]); } }
        assert("Automation"@ != "Dynamics"@) by { reveal_strlit("Automation"); reveal_strlit("Dynamics"); if "Automation"@ == "Dynamics"@ { assert("Automation"@.len() == "Dynamics"@.len()); } }
        assert("Automation"@ != "Delay"@) by { reveal_strlit("Automation"); reveal_strlit("Delay"); if "Automation"@ == "Delay"@ { assert("Automation"@.len() == "Delay"@.len()); } }
        assert("Automation"@ != "Sampler"@) by { reveal_strlit("Automation"); reveal_strlit("Sampler"); if "Automation"@ == "Sampler"@ { assert("Automation"@.len() == "Sampler"@.len()); } }
        assert("Automation"@ != "AssetReader"@) by { reveal_strlit("Automation"); reveal_strlit("AssetReader"); if "Automation"@ == "AssetReader"@ { assert("Automation"@.len() == "AssetReader"@.len()); } }
        assert("Automation"@ != "Trigger"@) by { reveal_strlit("Automation"); reveal_strlit("Trigger"); if "Automation"@ == "Trigger"@ { assert("Automation"@.len() == "Trigger"@.len()); } }
        assert("Automation"@ != "Envelope"@) by { reveal_strlit("Automation"); reveal_strlit("Envelope"); if "Automation"@ == "Envelope"@ { assert("Automation"@.len() == "Envelope"@.len()); } }
        assert("Automation"@ != "ADSR"@) by { reveal_strlit("Automation"); reveal_strlit("ADSR"); if "Automation"@ == "ADSR"@ { assert("Automation"@.len() == "ADSR"@.len()); } }
}

proof fn lemma_name_midiin(has_midi: bool)
    ensures
        dsp_kind_for_name("MidiIn"@, true) == DspKind::MidiIn,
        dsp_kind_for_name("MidiIn"@, false) == DspKind::Gain,
{
        assert("MidiIn"@ != "Oscillator"@) by { reveal_strlit("MidiIn"); reveal_strlit("Oscillator"); if "MidiIn"@ == "Oscillator"@ { assert("MidiIn"@.len() == "Oscillator"@.len()); } }
        assert("MidiIn"@ != "Sine"@) by { reveal_strlit("MidiIn"); reveal_strlit("Sine"); if "MidiIn"@ == "Sine"@ { assert("MidiIn"@.len() == "Sine"@.len()); } }
        assert("MidiIn"@ != "Noise"@) by { reveal_strlit("MidiIn"); reveal_strlit("Noise"); if "MidiIn"@ == "Noise"@ { assert("MidiIn"@.len() == "Noise"@.len()); } }
        assert("MidiIn"@ != "Gain"@) by { reveal_strlit("MidiIn"); reveal_strlit("Gain"); if "MidiIn"@ == "Gain"@ { assert("MidiIn"@.len() == "Gain"@.len()); } }
        assert("MidiIn"@ != "Add"@) by { reveal_strlit("MidiIn"); reveal_strlit("Add"); if "MidiIn"@ == "Add"@ { assert("MidiIn"@.len() == "Add"@.len()); } }
        assert("MidiIn"@ != "Multiply"@) by { reveal_strlit("MidiIn"); reveal_strlit("Multiply"); if "MidiIn"@ == "Multiply"@ { assert("MidiIn"@.len() == "Multiply"@.len()); } }
        assert("MidiIn"@ != "Clip"@) by { reveal_strlit("MidiIn"); reveal_strlit("Clip"); if "MidiIn"@ == "Clip"@ { assert("MidiIn"@.len() == "Clip"@.len()); } }
        assert("MidiIn"@ != "Filter"@) by { reveal_strlit("MidiIn"); reveal_strlit("Filter"); if "MidiIn"@ == "Filter"@ { assert("MidiIn"@[0] == "Filter"@[0]); } }
        assert("MidiIn"@ != "Biquad"@) by { reveal_strlit("MidiIn"); reveal_strlit("Biquad"); if "MidiIn"@ == "Biquad"@ { assert("MidiIn"@[0] == "Biquad"@[0]); } }
        assert("MidiIn"@ != "Compressor"@) by { reveal_strlit("MidiIn"); reveal_strlit("Compressor"); if "MidiIn"@ == "Compressor"@ { assert("MidiIn"@.len() == "Compressor"@.len()); } }
        assert("MidiIn"@ != "Dynamics"@) by { reveal_strlit("MidiIn"); reveal_strlit("Dynamics"); if "MidiIn"@ == "Dynamics"@ { assert("MidiIn"@.len() == "Dynamics"@.len()); } }
        assert("MidiIn"@ != "Delay"@) by { reveal_strlit("MidiIn"); reveal_strlit("Delay"); if "MidiIn"@ == "Delay"@ { assert("MidiIn"@.len() == "Delay"@.len()); } }
        assert("MidiIn"@ != "Sampler"@) by { reveal_strlit("MidiIn"); reveal_strlit("Sampler"); if "MidiIn"@ == "Sampler"@ { assert("MidiIn"@.len() == "Sampler"@.len()); } }
        assert("MidiIn"@ != "AssetReader"@) by { reveal_strlit("MidiIn"); reveal_strlit("AssetReader"); if "MidiIn"@ == "AssetReader"@ { assert("MidiIn"@.len() == "AssetReader"@.len()); } }
        assert("MidiIn"@ != "Trigger"@) by { reveal_strlit("MidiIn"); reveal_strlit("Trigger"); if "MidiIn"@ == "Trigger"@ { assert("MidiIn"@.len() == "Trigger"@.len()); } }
        assert("MidiIn"@ != "Envelope"@) by { reveal_strlit("MidiIn"); reveal_strlit("Envelope"); if "MidiIn"@ == "Envelope"@ { assert("MidiIn"@.len() == "Envelope"@.len()); } }
        assert("MidiIn"@ != "ADSR"@) by { reveal_strlit("MidiIn"); reveal_strlit("ADSR"); if "MidiIn"@ == "ADSR"@ { assert("MidiIn"@.len() == "ADSR"@.len()); } }
        assert("MidiIn"@ != "Automation"@) by { reveal_strlit("MidiIn"); reveal_strlit("Automation"); if "MidiIn"@ == "Automation"@ { assert("MidiIn"@.len() == "Automation"@.len()); } }
}

proof fn lemma_name_sequencer(has_midi: bool)
    ensures
        dsp_kind_for_name("Sequencer"@, has_midi) == DspKind::Sequencer,
{
        assert("Sequencer"@ != "Oscillator"@) by { reveal_strlit("Sequencer"); reveal_strlit("Oscillator"); if "Sequencer"@ == "Oscillator"@ { assert("Sequencer"@.len() == "Oscillator"@.len()); } }
        assert("Sequencer"@ != "Sine"@) by { reveal_strlit("Sequencer"); reveal_strlit("Sine"); if "Sequencer"@ == "Sine"@ { assert("Sequencer"@.len() == "Sine"@.len()); } }
        assert("Sequencer"@ != "Noise"@) by { reveal_strlit("Sequencer"); reveal_strlit("Noise"); if "Sequencer"@ == "Noise"@ { assert("Sequencer"@.len() == "Noise"@.len()); } }
        assert("Sequencer"@ != "Gain"@) by { reveal_strlit("Sequencer"); reveal_strlit("Gain"); if "Sequencer"@ == "Gain"@ { assert("Sequencer"@.len() == "Gain"@.len()); } }
        assert("Sequencer"@ != "Add"@) by { reveal_strlit("Sequencer"); reveal_strlit("Add"); if "Sequencer"@ == "Add"@ { assert("Sequencer"@.len() == "Add"@.len()); } }
        assert("Sequencer"@ != "Multiply"@) by { reveal_strlit("Sequencer"); reveal_strlit("Multiply"); if "Sequencer"@ == "Multiply"@ { assert("Sequencer"@.len() == "Multiply"@.len()); } }
        assert("Sequencer"@ != "Clip"@) by { reveal_strlit("Sequencer"); reveal_strlit("Clip"); if "Sequencer"@ == "Clip"@ { assert("Sequencer"@.len() == "Clip"@.len()); } }
        assert("Sequencer"@ != "Filter"@) by { reveal_strlit("Sequencer"); reveal_strlit("Filter"); if "Sequencer"@ == "Filter"@ { assert("Sequencer"@.len() == "Filter"@.len()); } }
        assert("Sequencer"@ != "Biquad"@) by { reveal_strlit("Sequencer"); reveal_strlit("Biquad"); if "Sequencer"@ == "Biquad"@ { assert("Sequencer"@.len() == "Biquad"@.len()); } }
        assert("Sequencer"@ != "Compressor"@) by { reveal_strlit("Sequencer"); reveal_strlit("Compressor"); if "Sequencer"@ == "Compressor"@ { assert("Sequencer"@.len() == "Compressor"@.len()); } }
        assert("Sequencer"@ != "Dynamics"@) by { reveal_strlit("Sequencer"); reveal_strlit("Dynamics"); if "Sequencer"@ == "Dynamics"@ { assert("Sequencer"@.len() == "Dynamics"@.len()); } }
        assert("Sequencer"@ != "Delay"@) by { reveal_strlit("Sequencer"); reveal_strlit("Delay"); if "Sequencer"@ == "Delay"@ { assert("Sequencer"@.len() == "Delay"@.len()); } }
        assert("Sequencer"@ != "Sampler"@) by { reveal_strlit("Sequencer"); reveal_strlit("Sampler"); if "Sequencer"@ == "Sampler"@ { assert("Sequencer"@.len() == "Sampler"@.len()); } }
        assert("Sequencer"@ != "AssetReader"@) by { reveal_strlit("Sequencer"); reveal_strlit("AssetReader"); if "Sequencer"@ == "AssetReader"@ { assert("Sequencer"@.len() == "AssetReader"@.len()); } }
        assert("Sequencer"@ != "Trigger"@) by { reveal_strlit("Sequencer"); reveal_strlit("Trigger"); if "Sequencer"@ == "Trigger"@ { assert("Sequencer"@.len() == "Trigger"@.len()); } }
        assert("Sequencer"@ != "Envelope"@) by { reveal_strlit("Sequencer"); reveal_strlit("Envelope"); if "Sequencer"@ == "Envelope"@ { assert("Sequencer"@.len() == "Envelope"@.len()); } }
        assert("Sequencer"@ != "ADSR"@) by { reveal_strlit("Sequencer"); reveal_strlit("ADSR"); if "Sequencer"@ == "ADSR"@ { assert("Sequencer"@.len() == "ADSR"@.len()); } }
        assert("Sequencer"@ != "Automation"@) by { reveal_strlit("Sequencer"); reveal_strlit("Automation"); if "Sequencer"@ == "Automation"@ { assert("Sequencer"@.len() == "Automation"@.len()); } }
        assert("Sequencer"@ != "MidiIn"@) by { reveal_strlit("Sequencer"); reveal_strlit("MidiIn"); if "Sequencer"@ == "MidiIn"@ { assert("Sequencer"@.len() == "MidiIn"@.len()); } }
}

proof fn lemma_name_wavefolder(has_midi: bool)
    ensures
        dsp_kind_for_name("Wavefolder"@, has_midi) == DspKind::Wavefolder,
{
        assert("Wavefolder"@ != "Oscillator"@) by { reveal_strlit("Wavefolder"); reveal_strlit("Oscillator"); if "Wavefolder"@ == "Oscillator"@ { assert("Wavefolder"@[0] == "Oscillator"@[0]); } }
        assert("Wavefolder"@ != "Sine"@) by { reveal_strlit("Wavefolder"); reveal_strlit("Sine"); if "Wavefolder"@ == "Sine"@ { assert("Wavefolder"@.len() == "Sine"@.len()); } }
        assert("Wavefolder"@ != "Noise"@) by { reveal_strlit("Wavefolder"); reveal_strlit("Noise"); if "Wavefolder"@ == "Noise"@ { assert("Wavefolder"@.len() == "Noise"@.len()); } }
        assert("Wavefolder"@ != "Gain"@) by { reveal_strlit("Wavefolder"); reveal_strlit("Gain"); if "Wavefolder"@ == "Gain"@ { assert("Wavefolder"@.len() == "Gain"@.len()); } }
        assert("Wavefolder"@ != "Add"@) by { reveal_strlit("Wavefolder"); reveal_strlit("Add"); if "Wavefolder"@ == "Add"@ { assert("Wavefolder"@.len() == "Add"@.len()); } }
        assert("Wavefolder"@ != "Multiply"@) by { reveal_strlit("Wavefolder"); reveal_strlit("Multiply"); if "Wavefolder"@ == "Multiply"@ { assert("Wavefolder"@.len() == "Multiply"@.len()); } }
        assert("Wavefolder"@ != "Clip"@) by { reveal_strlit("Wavefolder"); reveal_strlit("Clip"); if "Wavefolder"@ == "Clip"@ { assert("Wavefolder"@.len() == "Clip"@.len()); } }
        assert("Wavefolder"@ != "Filter"@) by { reveal_strlit("Wavefolder"); reveal_strlit("Filter"); if "Wavefolder"@ == "Filter"@ { assert("Wavefolder"@.len() == "Filter"@.len()); } }
        assert("Wavefolder"@ != "Biquad"@) by { reveal_strlit("Wavefolder"); reveal_strlit("Biquad"); if "Wavefolder"@ == "Biquad"@ { assert("Wavefolder"@.len() == "Biquad"@.len()); } }
        assert("Wavefolder"@ != "Compressor"@) by { reveal_strlit("Wavefolder"); reveal_strlit("Compressor"); if "Wavefolder"@ == "Compressor"@ { assert("Wavefolder"@[0] == "Compressor"@[0]); } }
        assert("Wavefolder"@ != "Dynamics"@) by { reveal_strlit("Wavefolder"); reveal_strlit("Dynamics"); if "Wavefolder"@ == "Dynamics"@ { assert("Wavefolder"@.len() == "Dynamics"@.len()); } }
        assert("Wavefolder"@ != "Delay"@) by { reveal_strlit("Wavefolder"); reveal_strlit("Delay"); if "Wavefolder"@ == "Delay"@ { assert("Wavefolder"@.len() == "Delay"@.len()); } }
        assert("Wavefolder"@ != "Sampler"@) by { reveal_strlit("Wavefolder"); reveal_strlit("Sampler"); if "Wavefolder"@ == "Sampler"@ { assert("Wavefolder"@.len() == "Sampler"@.len()); } }
        assert("Wavefolder"@ != "AssetReader"@) by { reveal_strlit("Wavefolder"); reveal_strlit("AssetReader"); if "Wavefolder"@ == "AssetReader"@ { assert("Wavefolder"@.len() == "AssetReader"@.len()); } }
        assert("Wavefolder"@ != "Trigger"@) by { reveal_strlit("Wavefolder"); reveal_strlit("Trigger"); if "Wavefolder"@ == "Trigger"@ { assert("Wavefolder"@.len() == "Trigger"@.len()); } }
        assert("Wavefolder"@ != "Envelope"@) by { reveal_strlit("Wavefolder"); reveal_strlit("Envelope"); if "Wavefolder"@ == "Envelope"@ { assert("Wavefolder"@.len() == "Envelope"@.len()); } }
        assert("Wavefolder"@ != "ADSR"@) by { reveal_strlit("Wavefolder"); reveal_strlit("ADSR"); if "Wavefolder"@ == "ADSR"@ { assert("Wavefolder"@.len() == "ADSR"@.len()); } }
        assert("Wavefolder"@ != "Automation"@) by { reveal_strlit("Wavefolder"); reveal_strlit("Automation"); if "Wavefolder"@ == "Automation"@ { assert("Wavefolder"@[0] == "Automation"@[0]); } }
        assert("Wavefolder"@ != "MidiIn"@) by { reveal_strlit("Wavefolder"); reveal_strlit("MidiIn"); if "Wavefolder"@ == "MidiIn"@ { assert("Wavefolder"@.len() == "MidiIn"@.len()); } }
        assert("Wavefolder"@ != "Sequencer"@) by { reveal_strlit("Wavefolder"); reveal_strlit("Sequencer"); if "Wavefolder"@ == "Sequencer"@ { assert("Wavefolder"@.len() == "Sequencer"@.len()); } }
}

proof fn lemma_name_lorenz(has_midi: bool)
    ensures
        dsp_kind_for_name("Lorenz"@, has_midi) == DspKind::Lorenz,
{
        assert("Lorenz"@ != "Oscillator"@) by { reveal_strlit("Lorenz"); reveal_strlit("Oscillator"); if "Lorenz"@ == "Oscillator"@ { assert("Lorenz"@.len() == "Oscillator"@.len()); } }
        assert("Lorenz"@ != "Sine"@) by { reveal_strlit("Lorenz"); reveal_strlit("Sine"); if "Lorenz"@ == "Sine"@ { assert("Lorenz"@.len() == "Sine"@.len()); } }
        assert("Lorenz"@ != "Noise"@) by { reveal_strlit("Lorenz"); reveal_strlit("Noise"); if "Lorenz"@ == "Noise"@ { assert("Lorenz"@.len() == "Noise"@.len()); } }
        assert("Lorenz"@ != "Gain"@) by { reveal_strlit("Lorenz"); reveal_strlit("Gain"); if "Lorenz"@ == "Gain"@ { assert("Lorenz"@.len() == "Gain"@.len()); } }
        assert("Lorenz"@ != "Add"@) by { reveal_strlit("Lorenz"); reveal_strlit("Add"); if "Lorenz"@ == "Add"@ { assert("Lorenz"@.len() == "Add"@.len()); } }
        assert("Lorenz"@ != "Multiply"@) by { reveal_strlit("Lorenz"); reveal_strlit("Multiply"); if "Lorenz"@ == "Multiply"@ { assert("Lorenz"@.len() == "Multiply"@.len()); } }
        assert("Lorenz"@ != "Clip"@) by { reveal_strlit("Lorenz"); reveal_strlit("Clip"); if "Lorenz"@ == "Clip"@ { assert("Lorenz"@.len() == "Clip"@.len()); } }
        assert("Lorenz"@ != "Filter"@) by { reveal_strlit("Lorenz"); reveal_strlit("Filter"); if "Lorenz"@ == "Filter"@ { assert("Lorenz"@[0] == "Filter"@[0]); } }
        assert("Lorenz"@ != "Biquad"@) by { reveal_strlit("Lorenz"); reveal_strlit("Biquad"); if "Lorenz"@ == "Biquad"@ { assert("Lorenz"@[0] == "Biquad"@[0]); } }
        assert("Lorenz"@ != "Compressor"@) by { reveal_strlit("Lorenz"); reveal_strlit("Compressor"); if "Lorenz"@ == "Compressor"@ { assert("Lorenz"@.len() == "Compressor"@.len()); } }
        assert("Lorenz"@ != "Dynamics"@) by { reveal_strlit("Lorenz"); reveal_strlit("Dynamics"); if "Lorenz"@ == "Dynamics"@ { assert("Lorenz"@.len() == "Dynamics"@.len()); } }
        assert("Lorenz"@ != "Delay"@) by { reveal_strlit("Lorenz"); reveal_strlit("Delay"); if "Lorenz"@ == "Delay"@ { assert("Lorenz"@.len() == "Delay"@.len()); } }
        assert("Lorenz"@ != "Sampler"@) by { reveal_strlit("Lorenz"); reveal_strlit("Sampler"); if "Lorenz"@ == "Sampler"@ { assert("Lorenz"@.len() == "Sampler"@.len()); } }
        assert("Lorenz"@ != "AssetReader"@) by { reveal_strlit("Lorenz"); reveal_strlit("AssetReader"); if "Lorenz"@ == "AssetReader"@ { assert("Lorenz"@.len() == "AssetReader"@.len()); } }
        assert("Lorenz"@ != "Trigger"@) by { reveal_strlit("Lorenz"); reveal_strlit("Trigger"); if "Lorenz"@ == "Trigger"@ { assert("Lorenz"@.len() == "Trigger"@.len()); } }
        assert("Lorenz"@ != "Envelope"@) by { reveal_strlit("Lorenz"); reveal_strlit("Envelope"); if "Lorenz"@ == "Envelope"@ { assert("Lorenz"@.len() == "Envelope"@.len()); } }
        assert("Lorenz"@ != "ADSR"@) by { reveal_strlit("Lorenz"); reveal_strlit("ADSR"); if "Lorenz"@ == "ADSR"@ { assert("Lorenz"@.len() == "ADSR"@.len()); } }
        assert("Lorenz"@ != "Automation"@) by { reveal_strlit("Lorenz"); reveal_strlit("Automation"); if "Lorenz"@ == "Automation"@ { assert("Lorenz"@.len() == "Automation"@.len()); } }
        assert("Lorenz"@ != "MidiIn"@) by { reveal_strlit("Lorenz"); reveal_strlit("MidiIn"); if "Lorenz"@ == "MidiIn"@ { assert("Lorenz"@[0] == "MidiIn"@[0]); } }
        assert("Lorenz"@ != "Sequencer"@) by { reveal_strlit("Lorenz"); reveal_strlit("Sequencer"); if "Lorenz"@ == "Sequencer"@ { assert("Lorenz"@.len() == "Sequencer"@.len()); } }
        assert("Lorenz"@ != "Wavefolder"@) by { reveal_strlit("Lorenz"); reveal_strlit("Wavefolder"); if "Lorenz"@ == "Wavefolder"@ { assert("Lorenz"@.len() == "Wavefolder"@.len()); } }
}

proof fn lemma_name_mackeyglass(has_midi: bool)
    ensures
        dsp_kind_for_name("MackeyGlass"@, has_midi) == DspKind::MackeyGlass,
{
        assert("MackeyGlass"@ != "Oscillator"@) by { reveal_strlit("MackeyGlass"); reveal_strlit("Oscillator"); if "MackeyGlass"@ == "Oscillator"@ { assert("MackeyGlass"@.len() == "Oscillator"@.len()); } }
        assert("MackeyGlass"@ != "Sine"@) by { reveal_strlit("MackeyGlass"); reveal_strlit("Sine"); if "MackeyGlass"@ == "Sine"@ { assert("MackeyGlass"@.len() == "Sine"@.len()); } }
        assert("MackeyGlass"@ != "Noise"@) by { reveal_strlit("MackeyGlass"); reveal_strlit("Noise"); if "MackeyGlass"@ == "Noise"@ { assert("MackeyGlass"@.len() == "Noise"@.len()); } }
        assert("MackeyGlass"@ != "Gain"@) by { reveal_strlit("MackeyGlass"); reveal_strlit("Gain"); if "MackeyGlass"@ == "Gain"@ { assert("MackeyGlass"@.len() == "Gain"@.len()); } }
        assert("MackeyGlass"@ != "Add"@) by { reveal_strlit("MackeyGlass"); reveal_strlit("Add"); if "MackeyGlass"@ == "Add"@ { assert("MackeyGlass"@.len() == "Add"@.len()); } }
        assert("MackeyGlass"@ != "Multiply"@) by { reveal_strlit("MackeyGlass"); reveal_strlit("Multiply"); if "MackeyGlass"@ == "Multiply"@ { assert("MackeyGlass"@.len() == "Multiply"@.len()); } }
        assert("MackeyGlass"@ != "Clip"@) by { reveal_strlit("MackeyGlass"); reveal_strlit("Clip"); if "MackeyGlass"@ == "Clip"@ { assert("MackeyGlass"@.len() == "Clip"@.len()); } }
        assert("MackeyGlass"@ != "Filter"@) by { reveal_strlit("MackeyGlass"); reveal_strlit("Filter"); if "MackeyGlass"@ == "Filter"@ { assert("MackeyGlass"@.len() == "Filter"@.len()); } }
        assert("MackeyGlass"@ != "Biquad"@) by { reveal_strlit("MackeyGlass"); reveal_strlit("Biquad"); if "MackeyGlass"@ == "Biquad"@ { assert("MackeyGlass"@.len() == "Biquad"@.len()); } }
        assert("MackeyGlass"@ != "Compressor"@) by { reveal_strlit("MackeyGlass"); reveal_strlit("Compressor"); if "MackeyGlass"@ == "Compressor"@ { assert("MackeyGlass"@.len() == "Compressor"@.len()); } }
        assert("MackeyGlass"@ != "Dynamics"@) by { reveal_strlit("MackeyGlass"); reveal_strlit("Dynamics"); if "MackeyGlass"@ == "Dynamics"@ { assert("MackeyGlass"@.len() == "Dynamics"@.len()); } }
        assert("MackeyGlass"@ != "Delay"@) by { reveal_strlit("MackeyGlass"); reveal_strlit("Delay"); if "MackeyGlass"@ == "Delay"@ { assert("MackeyGlass"@.len() == "Delay"@.len()); } }
        assert("MackeyGlass"@ != "Sampler"@) by { reveal_strlit("MackeyGlass"); reveal_strlit("Sampler"); if "MackeyGlass"@ == "Sampler"@ { assert("MackeyGlass"@.len() == "Sampler"@.len()); } }
        assert("MackeyGlass"@ != "AssetReader"@) by { reveal_strlit("MackeyGlass"); reveal_strlit("AssetReader"); if "MackeyGlass"@ == "AssetReader"@ { assert("MackeyGlass"@[0] == "AssetReader"@[0]); } }
        assert("MackeyGlass"@ != "Trigger"@) by { reveal_strlit("MackeyGlass"); reveal_strlit("Trigger"); if "MackeyGlass"@ == "Trigger"@ { assert("MackeyGlass"@.len() == "Trigger"@.len()); } }
        assert("MackeyGlass"@ != "Envelope"@) by { reveal_strlit("MackeyGlass"); reveal_strlit("Envelope"); if "MackeyGlass"@ == "Envelope"@ { assert("MackeyGlass"@.len() == "Envelope"@.len()); } }
        assert("MackeyGlass"@ != "ADSR"@) by { reveal_strlit("MackeyGlass"); reveal_strlit("ADSR"); if "MackeyGlass"@ == "ADSR"@ { assert("MackeyGlass"@.len() == "ADSR"@.len()); } }
        assert("MackeyGlass"@ != "Automation"@) by { reveal_strlit("MackeyGlass"); reveal_strlit("Automation"); if "MackeyGlass"@ == "Automation"@ { assert("MackeyGlass"@.len() == "Automation"@.len()); } }
        assert("MackeyGlass"@ != "MidiIn"@) by { reveal_strlit("MackeyGlass"); reveal_strlit("MidiIn"); if "MackeyGlass"@ == "MidiIn"@ { assert("MackeyGlass"@.len() == "MidiIn"@.len()); } }
        assert("MackeyGlass"@ != "Sequencer"@) by { reveal_strlit("MackeyGlass"); reveal_strlit("Sequencer"); if "MackeyGlass"@ == "Sequencer"@ { assert("MackeyGlass"@.len() == "Sequencer"@.len()); } }
        assert("MackeyGlass"@ != "Wavefolder"@) by { reveal_strlit("MackeyGlass"); reveal_strlit("Wavefolder"); if "MackeyGlass"@ == "Wavefolder"@ { assert("MackeyGlass"@.len() == "Wavefolder"@.len()); } }
        assert("MackeyGlass"@ != "Lorenz"@) by { reveal_strlit("MackeyGlass"); reveal_strlit("Lorenz"); if "MackeyGlass"@ == "Lorenz"@ { assert("MackeyGlass"@.len() == "Lorenz"@.len()); } }
}

proof fn lemma_name_grayscott(has_midi: bool)
    ensures
        dsp_kind_for_name("GrayScott"@, has_midi) == DspKind::GrayScott,
{
        assert("GrayScott"@ != "Oscillator"@) by { reveal_strlit("GrayScott"); reveal_strlit("Oscillator"); if "GrayScott"@ == "Oscillator"@ { assert("GrayScott"@.len() == "Oscillator"@.len()); } }
        assert("GrayScott"@ != "Sine"@) by { reveal_strlit("GrayScott"); reveal_strlit("Sine"); if "GrayScott"@ == "Sine"@ { assert("GrayScott"@.len() == "Sine"@.len()); } }
        assert("GrayScott"@ != "Noise"@) by { reveal_strlit("GrayScott"); reveal_strlit("Noise"); if "GrayScott"@ == "Noise"@ { assert("GrayScott"@.len() == "Noise"@.len()); } }
        assert("GrayScott"@ != "Gain"@) by { reveal_strlit("GrayScott"); reveal_strlit("Gain"); if "GrayScott"@ == "Gain"@ { assert("GrayScott"@.len() == "Gain"@.len()); } }
        assert("GrayScott"@ != "Add"@) by { reveal_strlit("GrayScott"); reveal_strlit("Add"); if "GrayScott"@ == "Add"@ { assert("GrayScott"@.len() == "Add"@.len()); } }
        assert("GrayScott"@ != "Multiply"@) by { reveal_strlit("GrayScott"); reveal_strlit("Multiply"); if "GrayScott"@ == "Multiply"@ { assert("GrayScott"@.len() == "Multiply"@.len()); } }
        assert("GrayScott"@ != "Clip"@) by { reveal_strlit("GrayScott"); reveal_strlit("Clip"); if "GrayScott"@ == "Clip"@ { assert("GrayScott"@.len() == "Clip"@.len()); } }
        assert("GrayScott"@ != "Filter"@) by { reveal_strlit("GrayScott"); reveal_strlit("Filter"); if "GrayScott"@ == "Filter"@ { assert("GrayScott"@.len() == "Filter"@.len()); } }
        assert("GrayScott"@ != "Biquad"@) by { reveal_strlit("GrayScott"); reveal_strlit("Biquad"); if "GrayScott"@ == "Biquad"@ { assert("GrayScott"@.len() == "Biquad"@.len()); } }
        assert("GrayScott"@ != "Compressor"@) by { reveal_strlit("GrayScott"); reveal_strlit("Compressor"); if "GrayScott"@ == "Compressor"@ { assert("GrayScott"@.len() == "Compressor"@.len()); } }
        assert("GrayScott"@ != "Dynamics"@) by { reveal_strlit("GrayScott"); reveal_strlit("Dynamics"); if "GrayScott"@ == "Dynamics"@ { assert("GrayScott"@.len() == "Dynamics"@.len()); } }
        assert("GrayScott"@ != "Delay"@) by { reveal_strlit("GrayScott"); reveal_strlit("Delay"); if "GrayScott"@ == "Delay"@ { assert("GrayScott"@.len() == "Delay"@.len()); } }
        assert("GrayScott"@ != "Sampler"@) by { reveal_strlit("GrayScott"); reveal_strlit("Sampler"); if "GrayScott"@ == "Sampler"@ { assert("GrayScott"@.len() == "Sampler"@.len()); } }
        assert("GrayScott"@ != "AssetReader"@) by { reveal_strlit("GrayScott"); reveal_strlit("AssetReader"); if "GrayScott"@ == "AssetReader"@ { assert("GrayScott"@.len() == "AssetReader"@.len()); } }
        assert("GrayScott"@ != "Trigger"@) by { reveal_strlit("GrayScott"); reveal_strlit("Trigger"); if "GrayScott"@ == "Trigger"@ { assert("GrayScott"@.len() == "Trigger"@.len()); } }
        assert("GrayScott"@ != "Envelope"@) by { reveal_strlit("GrayScott"); reveal_strlit("Envelope"); if "GrayScott"@ == "Envelope"@ { assert("GrayScott"@.len() == "Envelope"@.len()); } }
        assert("GrayScott"@ != "ADSR"@) by { reveal_strlit("GrayScott"); reveal_strlit("ADSR"); if "GrayScott"@ == "ADSR"@ { assert("GrayScott"@.len() == "ADSR"@.len()); } }
        assert("GrayScott"@ != "Automation"@) by { reveal_strlit("GrayScott"); reveal_strlit("Automation"); if "GrayScott"@ == "Automation"@ { assert("GrayScott"@.len() == "Automation"@.len()); } }
        assert("GrayScott"@ != "MidiIn"@) by { reveal_strlit("GrayScott"); reveal_strlit("MidiIn"); if "GrayScott"@ == "MidiIn"@ { assert("GrayScott"@.len() == "MidiIn"@.len()); } }
        assert("GrayScott"@ != "Sequencer"@) by { reveal_strlit("GrayScott"); reveal_strlit("Sequencer"); if "GrayScott"@ == "Sequencer"@ { assert("GrayScott"@[0] == "Sequencer"@[0]); } }
        assert("GrayScott"@ != "Wavefolder"@) by { reveal_strlit("GrayScott"); reveal_strlit("Wavefolder"); if "GrayScott"@ == "Wavefolder"@ { assert("GrayScott"@.len() == "Wavefolder"@.len()); } }
        assert("GrayScott"@ != "Lorenz"@) by { reveal_strlit("GrayScott"); reveal_strlit("Lorenz"); if "GrayScott"@ == "Lorenz"@ { assert("GrayScott"@.len() == "Lorenz"@.len()); } }
        assert("GrayScott"@ != "MackeyGlass"@) by { reveal_strlit("GrayScott"); reveal_strlit("MackeyGlass"); if "GrayScott"@ == "MackeyGlass"@ { assert("GrayScott"@.len() == "MackeyGlass"@.len()); } }
}

proof fn lemma_name_reactiondiffusion(has_midi: bool)
    ensures
        dsp_kind_for_name("ReactionDiffusion"@, has_midi) == DspKind::GrayScott,
{
        assert("ReactionDiffusion"@ != "Oscillator"@) by { reveal_strlit("ReactionDiffusion"); reveal_strlit("Oscillator"); if "ReactionDiffusion"@ == "Oscillator"@ { assert("ReactionDiffusion"@.len() == "Oscillator"@.len()); } }
        assert("ReactionDiffusion"@ != "Sine"@) by { reveal_strlit("ReactionDiffusion"); reveal_strlit("Sine"); if "ReactionDiffusion"@ == "Sine"@ { assert("ReactionDiffusion"@.len() == "Sine"@.len()); } }
        assert("ReactionDiffusion"@ != "Noise"@) by { reveal_strlit("ReactionDiffusion"); reveal_strlit("Noise"); if "ReactionDiffusion"@ == "Noise"@ { assert("ReactionDiffusion"@.len() == "Noise"@.len()); } }
        assert("ReactionDiffusion"@ != "Gain"@) by { reveal_strlit("ReactionDiffusion"); reveal_strlit("Gain"); if "ReactionDiffusion"@ == "Gain"@ { assert("ReactionDiffusion"@.len() == "Gain"@.len()); } }
        assert("ReactionDiffusion"@ != "Add"@) by { reveal_strlit("ReactionDiffusion"); reveal_strlit("Add"); if "ReactionDiffusion"@ == "Add"@ { assert("ReactionDiffusion"@.len() == "Add"@.len()); } }
        assert("ReactionDiffusion"@ != "Multiply"@) by { reveal_strlit("ReactionDiffusion"); reveal_strlit("Multiply"); if "ReactionDiffusion"@ == "Multiply"@ { assert("ReactionDiffusion"@.len() == "Multiply"@.len()); } }
        assert("ReactionDiffusion"@ != "Clip"@) by { reveal_strlit("ReactionDiffusion"); reveal_strlit("Clip"); if "ReactionDiffusion"@ == "Clip"@ { assert("ReactionDiffusion"@.len() == "Clip"@.len()); } }
        assert("ReactionDiffusion"@ != "Filter"@) by { reveal_strlit("ReactionDiffusion"); reveal_strlit("Filter"); if "ReactionDiffusion"@ == "Filter"@ { assert("ReactionDiffusion"@.len() == "Filter"@.len()); } }
        assert("ReactionDiffusion"@ != "Biquad"@) by { reveal_strlit("ReactionDiffusion"); reveal_strlit("Biquad"); if "ReactionDiffusion"@ == "Biquad"@ { assert("ReactionDiffusion"@.len() == "Biquad"@.len()); } }
        assert("ReactionDiffusion"@ != "Compressor"@) by { reveal_strlit("ReactionDiffusion"); reveal_strlit("Compressor"); if "ReactionDiffusion"@ == "Compressor"@ { assert("ReactionDiffusion"@.len() == "Compressor"@.len()); } }
        assert("ReactionDiffusion"@ != "Dynamics"@) by { reveal_strlit("ReactionDiffusion"); reveal_strlit("Dynamics"); if "ReactionDiffusion"@ == "Dynamics"@ { assert("ReactionDiffusion"@.len() == "Dynamics"@.len()); } }
        assert("ReactionDiffusion"@ != "Delay"@) by { reveal_strlit("ReactionDiffusion"); reveal_strlit("Delay"); if "ReactionDiffusion"@ == "Delay"@ { assert("ReactionDiffusion"@.len() == "Delay"@.len()); } }
        assert("ReactionDiffusion"@ != "Sampler"@) by { reveal_strlit("ReactionDiffusion"); reveal_strlit("Sampler"); if "ReactionDiffusion"@ == "Sampler"@ { assert("ReactionDiffusion"@.len() == "Sampler"@.len()); } }
        assert("ReactionDiffusion"@ != "AssetReader"@) by { reveal_strlit("ReactionDiffusion"); reveal_strlit("AssetReader"); if "ReactionDiffusion"@ == "AssetReader"@ { assert("ReactionDiffusion"@.len() == "AssetReader"@.len()); } }
        assert("ReactionDiffusion"@ != "Trigger"@) by { reveal_strlit("ReactionDiffusion"); reveal_strlit("Trigger"); if "ReactionDiffusion"@ == "Trigger"@ { assert("ReactionDiffusion"@.len() == "Trigger"@.len()); } }
        assert("ReactionDiffusion"@ != "Envelope"@) by { reveal_strlit("ReactionDiffusion"); reveal_strlit("Envelope"); if "ReactionDiffusion"@ == "Envelope"@ { assert("ReactionDiffusion"@.len() == "Envelope"@.len()); } }
        assert("ReactionDiffusion"@ != "ADSR"@) by { reveal_strlit("ReactionDiffusion"); reveal_strlit("ADSR"); if "ReactionDiffusion"@ == "ADSR"@ { assert("ReactionDiffusion"@.len() == "ADSR"@.len()); } }
        assert("ReactionDiffusion"@ != "Automation"@) by { reveal_strlit("ReactionDiffusion"); reveal_strlit("Automation"); if "ReactionDiffusion"@ == "Automation"@ { assert("ReactionDiffusion"@.len() == "Automation"@.len()); } }
        assert("ReactionDiffusion"@ != "MidiIn"@) by { reveal_strlit("ReactionDiffusion"); reveal_strlit("MidiIn"); if "ReactionDiffusion"@ == "MidiIn"@ { assert("ReactionDiffusion"@.len() == "MidiIn"@.len()); } }
        assert("ReactionDiffusion"@ != "Sequencer"@) by { reveal_strlit("ReactionDiffusion"); reveal_strlit("Sequencer"); if "ReactionDiffusion"@ == "Sequencer"@ { assert("ReactionDiffusion"@.len() == "Sequencer"@.len()); } }
        assert("ReactionDiffusion"@ != "Wavefolder"@) by { reveal_strlit("ReactionDiffusion"); reveal_strlit("Wavefolder"); if "ReactionDiffusion"@ == "Wavefolder"@ { assert("ReactionDiffusion"@.len() == "Wavefolder"@.len()); } }
        assert("ReactionDiffusion"@ != "Lorenz"@) by { reveal_strlit("ReactionDiffusion"); reveal_strlit("Lorenz"); if "ReactionDiffusion"@ == "Lorenz"@ { assert("ReactionDiffusion"@.len() == "Lorenz"@.len()); } }
        assert("ReactionDiffusion"@ != "MackeyGlass"@) by { reveal_strlit("ReactionDiffusion"); reveal_strlit("MackeyGlass"); if "ReactionDiffusion"@ == "MackeyGlass"@ { assert("ReactionDiffusion"@.len() == "MackeyGlass"@.len()); } }
        assert("ReactionDiffusion"@ != "GrayScott"@) by { reveal_strlit("ReactionDiffusion"); reveal_strlit("GrayScott"); if "ReactionDiffusion"@ == "GrayScott"@ { assert("ReactionDiffusion"@.len() == "GrayScott"@.len()); } }
}

proof fn lemma_name_bitcrush(has_midi: bool)
    ensures
        dsp_kind_for_name("BitCrush"@, has_midi) == DspKind::BitCrush,
{
        assert("BitCrush"@ != "Oscillator"@) by { reveal_strlit("BitCrush"); reveal_strlit("Oscillator"); if "BitCrush"@ == "Oscillator"@ { assert("BitCrush"@.len() == "Oscillator"@.len()); } }
        assert("BitCrush"@ != "Sine"@) by { reveal_strlit("BitCrush"); reveal_strlit("Sine"); if "BitCrush"@ == "Sine"@ { assert("BitCrush"@.len() == "Sine"@.len()); } }
        assert("BitCrush"@ != "Noise"@) by { reveal_strlit("BitCrush"); reveal_strlit("Noise"); if "BitCrush"@ == "Noise"@ { assert("BitCrush"@.len() == "Noise"@.len()); } }
        assert("BitCrush"@ != "Gain"@) by { reveal_strlit("BitCrush"); reveal_strlit("Gain"); if "BitCrush"@ == "Gain"@ { assert("BitCrush"@.len() == "Gain"@.len()); } }
        assert("BitCrush"@ != "Add"@) by { reveal_strlit("BitCrush"); reveal_strlit("Add"); if "BitCrush"@ == "Add"@ { assert("BitCrush"@.len() == "Add"@.len()); } }
        assert("BitCrush"@ != "Multiply"@) by { reveal_strlit("BitCrush"); reveal_strlit("Multiply"); if "BitCrush"@ == "Multiply"@ { assert("BitCrush"@[0] == "Multiply"@[0]); } }
        assert("BitCrush"@ != "Clip"@) by { reveal_strlit("BitCrush"); reveal_strlit("Clip"); if "BitCrush"@ == "Clip"@ { assert("BitCrush"@.len() == "Clip"@.len()); } }
        assert("BitCrush"@ != "Filter"@) by { reveal_strlit("BitCrush"); reveal_strlit("Filter"); if "BitCrush"@ == "Filter"@ { assert("BitCrush"@.len() == "Filter"@.len()); } }
        assert("BitCrush"@ != "Biquad"@) by { reveal_strlit("BitCrush"); reveal_strlit("Biquad"); if "BitCrush"@ == "Biquad"@ { assert("BitCrush"@.len() == "Biquad"@.len()); } }
        assert("BitCrush"@ != "Compressor"@) by { reveal_strlit("BitCrush"); reveal_strlit("Compressor"); if "BitCrush"@ == "Compressor"@ { assert("BitCrush"@.len() == "Compressor"@.len()); } }
        assert("BitCrush"@ != "Dynamics"@) by { reveal_strlit("BitCrush"); reveal_strlit("Dynamics"); if "BitCrush"@ == "Dynamics"@ { assert("BitCrush"@[0] == "Dynamics"@[0]); } }
        assert("BitCrush"@ != "Delay"@) by { reveal_strlit("BitCrush"); reveal_strlit("Delay"); if "BitCrush"@ == "Delay"@ { assert("BitCrush"@.len() == "Delay"@.len()); } }
        assert("BitCrush"@ != "Sampler"@) by { reveal_strlit("BitCrush"); reveal_strlit("Sampler"); if "BitCrush"@ == "Sampler"@ { assert("BitCrush"@.len() == "Sampler"@.len()); } }
        assert("BitCrush"@ != "AssetReader"@) by { reveal_strlit("BitCrush"); reveal_strlit("AssetReader"); if "BitCrush"@ == "AssetReader"@ { assert("BitCrush"@.len() == "AssetReader"@.len()); } }
        assert("BitCrush"@ != "Trigger"@) by { reveal_strlit("BitCrush"); reveal_strlit("Trigger"); if "BitCrush"@ == "Trigger"@ { assert("BitCrush"@.len() == "Trigger"@.len()); } }
        assert("BitCrush"@ != "Envelope"@) by { reveal_strlit("BitCrush"); reveal_strlit("Envelope"); if "BitCrush"@ == "Envelope"@ { assert("BitCrush"@[0] == "Envelope"@[0]); } }
        assert("BitCrush"@ != "ADSR"@) by { reveal_strlit("BitCrush"); reveal_strlit("ADSR"); if "BitCrush"@ == "ADSR"@ { assert("BitCrush"@.len() == "ADSR"@.len()); } }
        assert("BitCrush"@ != "Automation"@) by { reveal_strlit("BitCrush"); reveal_strlit("Automation"); if "BitCrush"@ == "Automation"@ { assert("BitCrush"@.len() == "Automation"@.len()); } }
        assert("BitCrush"@ != "MidiIn"@) by { reveal_strlit("BitCrush"); reveal_strlit("MidiIn"); if "BitCrush"@ == "MidiIn"@ { assert("BitCrush"@.len() == "MidiIn"@.len()); } }
        assert("BitCrush"@ != "Sequencer"@) by { reveal_strlit("BitCrush"); reveal_strlit("Sequencer"); if "BitCrush"@ == "Sequencer"@ { assert("BitCrush"@.len() == "Sequencer"@.len()); } }
        assert("BitCrush"@ != "Wavefolder"@) by { reveal_strlit("BitCrush"); reveal_strlit("Wavefolder"); if "BitCrush"@ == "Wavefolder"@ { assert("BitCrush"@.len() == "Wavefolder"@.len()); } }
        assert("BitCrush"@ != "Lorenz"@) by { reveal_strlit("BitCrush"); reveal_strlit("Lorenz"); if "BitCrush"@ == "Lorenz"@ { assert("BitCrush"@.len() == "Lorenz"@.len()); } }
        assert("BitCrush"@ != "MackeyGlass"@) by { reveal_strlit("BitCrush"); reveal_strlit("MackeyGlass"); if "BitCrush"@ == "MackeyGlass"@ { assert("BitCrush"@.len() == "MackeyGlass"@.len()); } }
        assert("BitCrush"@ != "GrayScott"@) by { reveal_strlit("BitCrush"); reveal_strlit("GrayScott"); if "BitCrush"@ == "GrayScott"@ { assert("BitCrush"@.len() == "GrayScott"@.len()); } }
        assert("BitCrush"@ != "ReactionDiffusion"@) by { reveal_strlit("BitCrush"); reveal_strlit("ReactionDiffusion"); if "BitCrush"@ == "ReactionDiffusion"@ { assert("BitCrush"@.len() == "ReactionDiffusion"@.len()); } }
}

proof fn lemma_name_waveshaper(has_midi: bool)
    ensures
        dsp_kind_for_name("WaveShaper"@, has_midi) == DspKind::WaveShaper,
{
        assert("WaveShaper"@ != "Oscillator"@) by { reveal_strlit("WaveShaper"); reveal_strlit("Oscillator"); if "WaveShaper"@ == "Oscillator"@ { assert("WaveShaper"@[0] == "Oscillator"@[0]); } }
        assert("WaveShaper"@ != "Sine"@) by { reveal_strlit("WaveShaper"); reveal_strlit("Sine"); if "WaveShaper"@ == "Sine"@ { assert("WaveShaper"@.len() == "Sine"@.len()); } }
        assert("WaveShaper"@ != "Noise"@) by { reveal_strlit("WaveShaper"); reveal_strlit("Noise"); if "WaveShaper"@ == "Noise"@ { assert("WaveShaper"@.len() == "Noise"@.len()); } }
        assert("WaveShaper"@ != "Gain"@) by { reveal_strlit("WaveShaper"); reveal_strlit("Gain"); if "WaveShaper"@ == "Gain"@ { assert("WaveShaper"@.len() == "Gain"@.len()); } }
        assert("WaveShaper"@ != "Add"@) by { reveal_strlit("WaveShaper"); reveal_strlit("Add"); if "WaveShaper"@ == "Add"@ { assert("WaveShaper"@.len() == "Add"@.len()); } }
        assert("WaveShaper"@ != "Multiply"@) by { reveal_strlit("WaveShaper"); reveal_strlit("Multiply"); if "WaveShaper"@ == "Multiply"@ { assert("WaveShaper"@.len() == "Multiply"@.len()); } }
        assert("WaveShaper"@ != "Clip"@) by { reveal_strlit("WaveShaper"); reveal_strlit("Clip"); if "WaveShaper"@ == "Clip"@ { assert("WaveShaper"@.len() == "Clip"@.len()); } }
        assert("WaveShaper"@ != "Filter"@) by { reveal_strlit("WaveShaper"); reveal_strlit("Filter"); if "WaveShaper"@ == "Filter"@ { assert("WaveShaper"@.len() == "Filter"@.len()); } }
        assert("WaveShaper"@ != "Biquad"@) by { reveal_strlit("WaveShaper"); reveal_strlit("Biquad"); if "WaveShaper"@ == "Biquad"@ { assert("WaveShaper"@.len() == "Biquad"@.len()); } }
        assert("WaveShaper"@ != "Compressor"@) by { reveal_strlit("WaveShaper"); reveal_strlit("Compressor"); if "WaveShaper"@ == "Compressor"@ { assert("WaveShaper"@[0] == "Compressor"@[0]); } }
        assert("WaveShaper"@ != "Dynamics"@) by { reveal_strlit("WaveShaper"); reveal_strlit("Dynamics"); if "WaveShaper"@ == "Dynamics"@ { assert("WaveShaper"@.len() == "Dynamics"@.len()); } }
        assert("WaveShaper"@ != "Delay"@) by { reveal_strlit("WaveShaper"); reveal_strlit("Delay"); if "WaveShaper"@ == "Delay"@ { assert("WaveShaper"@.len() == "Delay"@.len()); } }
        assert("WaveShaper"@ != "Sampler"@) by { reveal_strlit("WaveShaper"); reveal_strlit("Sampler"); if "WaveShaper"@ == "Sampler"@ { assert("WaveShaper"@.len() == "Sampler"@.len()); } }
        assert("WaveShaper"@ != "AssetReader"@) by { reveal_strlit("WaveShaper"); reveal_strlit("AssetReader"); if "WaveShaper"@ == "AssetReader"@ { assert("WaveShaper"@.len() == "AssetReader"@.len()); } }
        assert("WaveShaper"@ != "Trigger"@) by { reveal_strlit("WaveShaper"); reveal_strlit("Trigger"); if "WaveShaper"@ == "Trigger"@ { assert("WaveShaper"@.len() == "Trigger"@.len()); } }
        assert("WaveShaper"@ != "Envelope"@) by { reveal_strlit("WaveShaper"); reveal_strlit("Envelope"); if "WaveShaper"@ == "Envelope"@ { assert("WaveShaper"@.len() == "Envelope"@.len()); } }
        assert("WaveShaper"@ != "ADSR"@) by { reveal_strlit("WaveShaper"); reveal_strlit("ADSR"); if "WaveShaper"@ == "ADSR"@ { assert("WaveShaper"@.len() == "ADSR"@.len()); } }
        assert("WaveShaper"@ != "Automation"@) by { reveal_strlit("WaveShaper"); reveal_strlit("Automation"); if "WaveShaper"@ == "Automation"@ { assert("WaveShaper"@[0] == "Automation"@[0]); } }
        assert("WaveShaper"@ != "MidiIn"@) by { reveal_strlit("WaveShaper"); reveal_strlit("MidiIn"); if "WaveShaper"@ == "MidiIn"@ { assert("WaveShaper"@.len() == "MidiIn"@.len()); } }
        assert("WaveShaper"@ != "Sequencer"@) by { reveal_strlit("WaveShaper"); reveal_strlit("Sequencer"); if "WaveShaper"@ == "Sequencer"@ { assert("WaveShaper"@.len() == "Sequencer"@.len()); } }
        assert("WaveShaper"@ != "Wavefolder"@) by { reveal_strlit("WaveShaper"); reveal_strlit("Wavefolder"); if "WaveShaper"@ == "Wavefolder"@ { assert("WaveShaper"@[4] == "Wavefolder"@[4]); } }
        assert("WaveShaper"@ != "Lorenz"@) by { reveal_strlit("WaveShaper"); reveal_strlit("Lorenz"); if "WaveShaper"@ == "Lorenz"@ { assert("WaveShaper"@.len() == "Lorenz"@.len()); } }
        assert("WaveShaper"@ != "MackeyGlass"@) by { reveal_strlit("WaveShaper"); reveal_strlit("MackeyGlass"); if "WaveShaper"@ == "MackeyGlass"@ { assert("WaveShaper"@.len() == "MackeyGlass"@.len()); } }
        assert("WaveShaper"@ != "GrayScott"@) by { reveal_strlit("WaveShaper"); reveal_strlit("GrayScott"); if "WaveShaper"@ == "GrayScott"@ { assert("WaveShaper"@.len() == "GrayScott"@.len()); } }
        assert("WaveShaper"@ != "ReactionDiffusion"@) by { reveal_strlit("WaveShaper"); reveal_strlit("ReactionDiffusion"); if "WaveShaper"@ == "ReactionDiffusion"@ { assert("WaveShaper"@.len() == "ReactionDiffusion"@.len()); } }
        assert("WaveShaper"@ != "BitCrush"@) by { reveal_strlit("WaveShaper"); reveal_strlit("BitCrush"); if "WaveShaper"@ == "BitCrush"@ { assert("WaveShaper"@.len() == "BitCrush"@.len()); } }
}

proof fn lemma_name_pll(has_midi: bool)
    ensures
        dsp_kind_for_name("Pll"@, has_midi) == DspKind::Pll,
{
        assert("Pll"@ != "Oscillator"@) by { reveal_strlit("Pll"); reveal_strlit("Oscillator"); if "Pll"@ == "Oscillator"@ { assert("Pll"@.len() == "Oscillator"@.len()); } }
        assert("Pll"@ != "Sine"@) by { reveal_strlit("Pll"); reveal_strlit("Sine"); if "Pll"@ == "Sine"@ { assert("Pll"@.len() == "Sine"@.len()); } }
        assert("Pll"@ != "Noise"@) by { reveal_strlit("Pll"); reveal_strlit("Noise"); if "Pll"@ == "Noise"@ { assert("Pll"@.len() == "Noise"@.len()); } }
        assert("Pll"@ != "Gain"@) by { reveal_strlit("Pll"); reveal_strlit("Gain"); if "Pll"@ == "Gain"@ { assert("Pll"@.len() == "Gain"@.len()); } }
        assert("Pll"@ != "Add"@) by { reveal_strlit("Pll"); reveal_strlit("Add"); if "Pll"@ == "Add"@ { assert("Pll"@[0] == "Add"@[0]); } }
        assert("Pll"@ != "Multiply"@) by { reveal_strlit("Pll"); reveal_strlit("Multiply"); if "Pll"@ == "Multiply"@ { assert("Pll"@.len() == "Multiply"@.len()); } }
        assert("Pll"@ != "Clip"@) by { reveal_strlit("Pll"); reveal_strlit("Clip"); if "Pll"@ == "Clip"@ { assert("Pll"@.len() == "Clip"@.len()); } }
        assert("Pll"@ != "Filter"@) by { reveal_strlit("Pll"); reveal_strlit("Filter"); if "Pll"@ == "Filter"@ { assert("Pll"@.len() == "Filter"@.len()); } }
        assert("Pll"@ != "Biquad"@) by { reveal_strlit("Pll"); reveal_strlit("Biquad"); if "Pll"@ == "Biquad"@ { assert("Pll"@.len() == "Biquad"@.len()); } }
        assert("Pll"@ != "Compressor"@) by { reveal_strlit("Pll"); reveal_strlit("Compressor"); if "Pll"@ == "Compressor"@ { assert("Pll"@.len() == "Compressor"@.len()); } }
        assert("Pll"@ != "Dynamics"@) by { reveal_strlit("Pll"); reveal_strlit("Dynamics"); if "Pll"@ == "Dynamics"@ { assert("Pll"@.len() == "Dynamics"@.len()); } }
        assert("Pll"@ != "Delay"@) by { reveal_strlit("Pll"); reveal_strlit("Delay"); if "Pll"@ == "Delay"@ { assert("Pll"@.len() == "Delay"@.len()); } }
        assert("Pll"@ != "Sampler"@) by { reveal_strlit("Pll"); reveal_strlit("Sampler"); if "Pll"@ == "Sampler"@ { assert("Pll"@.len() == "Sampler"@.len()); } }
        assert("Pll"@ != "AssetReader"@) by { reveal_strlit("Pll"); reveal_strlit("AssetReader"); if "Pll"@ == "AssetReader"@ { assert("Pll"@.len() == "AssetReader"@.len()); } }
        assert("Pll"@ != "Trigger"@) by { reveal_strlit("Pll"); reveal_strlit("Trigger"); if "Pll"@ == "Trigger"@ { assert("Pll"@.len() == "Trigger"@.len()); } }
        assert("Pll"@ != "Envelope"@) by { reveal_strlit("Pll"); reveal_strlit("Envelope"); if "Pll"@ == "Envelope"@ { assert("Pll"@.len() == "Envelope"@.len()); } }
        assert("Pll"@ != "ADSR"@) by { reveal_strlit("Pll"); reveal_strlit("ADSR"); if "Pll"@ == "ADSR"@ { assert("Pll"@.len() == "ADSR"@.len()); } }
        assert("Pll"@ != "Automation"@) by { reveal_strlit("Pll"); reveal_strlit("Automation"); if "Pll"@ == "Automation"@ { assert("Pll"@.len() == "Automation"@.len()); } }
        assert("Pll"@ != "MidiIn"@) by { reveal_strlit("Pll"); reveal_strlit("MidiIn"); if "Pll"@ == "MidiIn"@ { assert("Pll"@.len() == "MidiIn"@.len()); } }
        assert("Pll"@ != "Sequencer"@) by { reveal_strlit("Pll"); reveal_strlit("Sequencer"); if "Pll"@ == "Sequencer"@ { assert("Pll"@.len() == "Sequencer"@.len()); } }
        assert("Pll"@ != "Wavefolder"@) by { reveal_strlit("Pll"); reveal_strlit("Wavefolder"); if "Pll"@ == "Wavefolder"@ { assert("Pll"@.len() == "Wavefolder"@.len()); } }
        assert("Pll"@ != "Lorenz"@) by { reveal_strlit("Pll"); reveal_strlit("Lorenz"); if "Pll"@ == "Lorenz"@ { assert("Pll"@.len() == "Lorenz"@.len()); } }
        assert("Pll"@ != "MackeyGlass"@) by { reveal_strlit("Pll"); reveal_strlit("MackeyGlass"); if "Pll"@ == "MackeyGlass"@ { assert("Pll"@.len() == "MackeyGlass"@.len()); } }
        assert("Pll"@ != "GrayScott"@) by { reveal_strlit("Pll"); reveal_strlit("GrayScott"); if "Pll"@ == "GrayScott"@ { assert("Pll"@.len() == "GrayScott"@.len()); } }
        assert("Pll"@ != "ReactionDiffusion"@) by { reveal_strlit("Pll"); reveal_strlit("ReactionDiffusion"); if "Pll"@ == "ReactionDiffusion"@ { assert("Pll"@.len() == "ReactionDiffusion"@.len()); } }
        assert("Pll"@ != "BitCrush"@) by { reveal_strlit("Pll"); reveal_strlit("BitCrush"); if "Pll"@ == "BitCrush"@ { assert("Pll"@.len() == "BitCrush"@.len()); } }
        assert("Pll"@ != "WaveShaper"@) by { reveal_strlit("Pll"); reveal_strlit("WaveShaper"); if "Pll"@ == "WaveShaper"@ { assert("Pll"@.len() == "WaveShaper"@.len()); } }
}

proof fn lemma_name_slewlimiter(has_midi: bool)
    ensures
        dsp_kind_for_name("SlewLimiter"@, has_midi) == DspKind::SlewLimiter,
{
        assert("SlewLimiter"@ != "Oscillator"@) by { reveal_strlit("SlewLimiter"); reveal_strlit("Oscillator"); if "SlewLimiter"@ == "Oscillator"@ { assert("SlewLimiter"@.len() == "Oscillator"@.len()); } }
        assert("SlewLimiter"@ != "Sine"@) by { reveal_strlit("SlewLimiter"); reveal_strlit("Sine"); if "SlewLimiter"@ == "Sine"@ { assert("SlewLimiter"@.len() == "Sine"@.len()); } }
        assert("SlewLimiter"@ != "Noise"@) by { reveal_strlit("SlewLimiter"); reveal_strlit("Noise"); if "SlewLimiter"@ == "Noise"@ { assert("SlewLimiter"@.len() == "Noise"@.len()); } }
        assert("SlewLimiter"@ != "Gain"@) by { reveal_strlit("SlewLimiter"); reveal_strlit("Gain"); if "SlewLimiter"@ == "Gain"@ { assert("SlewLimiter"@.len() == "Gain"@.len()); } }
        assert("SlewLimiter"@ != "Add"@) by { reveal_strlit("SlewLimiter"); reveal_strlit("Add"); if "SlewLimiter"@ == "Add"@ { assert("SlewLimiter"@.len() == "Add"@.len()); } }
        assert("SlewLimiter"@ != "Multiply"@) by { reveal_strlit("SlewLimiter"); reveal_strlit("Multiply"); if "SlewLimiter"@ == "Multiply"@ { assert("SlewLimiter"@.len() == "Multiply"@.len()); } }
        assert("SlewLimiter"@ != "Clip"@) by { reveal_strlit("SlewLimiter"); reveal_strlit("Clip"); if "SlewLimiter"@ == "Clip"@ { assert("SlewLimiter"@.len() == "Clip"@.len()); } }
        assert("SlewLimiter"@ != "Filter"@) by { reveal_strlit("SlewLimiter"); reveal_strlit("Filter"); if "SlewLimiter"@ == "Filter"@ { assert("SlewLimiter"@.len() == "Filter"@.len()); } }
        assert("SlewLimiter"@ != "Biquad"@) by { reveal_strlit("SlewLimiter"); reveal_strlit("Biquad"); if "SlewLimiter"@ == "Biquad"@ { assert("SlewLimiter"@.len() == "Biquad"@.len()); } }
        assert("SlewLimiter"@ != "Compressor"@) by { reveal_strlit("SlewLimiter"); reveal_strlit("Compressor"); if "SlewLimiter"@ == "Compressor"@ { assert("SlewLimiter"@.len() == "Compressor"@.len()); } }
        assert("SlewLimiter"@ != "Dynamics"@) by { reveal_strlit("SlewLimiter"); reveal_strlit("Dynamics"); if "SlewLimiter"@ == "Dynamics"@ { assert("SlewLimiter"@.len() == "Dynamics"@.len()); } }
        assert("SlewLimiter"@ != "Delay"@) by { reveal_strlit("SlewLimiter"); reveal_strlit("Delay"); if "SlewLimiter"@ == "Delay"@ { assert("SlewLimiter"@.len() == "Delay"@.len()); } }
        assert("SlewLimiter"@ != "Sampler"@) by { reveal_strlit("SlewLimiter"); reveal_strlit("Sampler"); if "SlewLimiter"@ == "Sampler"@ { assert("SlewLimiter"@.len() == "Sampler"@.len()); } }
        assert("SlewLimiter"@ != "AssetReader"@) by { reveal_strlit("SlewLimiter"); reveal_strlit("AssetReader"); if "SlewLimiter"@ == "AssetReader"@ { assert("SlewLimiter"@[0] == "AssetReader"@[0]); } }
        assert("SlewLimiter"@ != "Trigger"@) by { reveal_strlit("SlewLimiter"); reveal_strlit("Trigger"); if "SlewLimiter"@ == "Trigger"@ { assert("SlewLimiter"@.len() == "Trigger"@.len()); } }
        assert("SlewLimiter"@ != "Envelope"@) by { reveal_strlit("SlewLimiter"); reveal_strlit("Envelope"); if "SlewLimiter"@ == "Envelope"@ { assert("SlewLimiter"@.len() == "Envelope"@.len()); } }
        assert("SlewLimiter"@ != "ADSR"@) by { reveal_strlit("SlewLimiter"); reveal_strlit("ADSR"); if "SlewLimiter"@ == "ADSR"@ { assert("SlewLimiter"@.len() == "ADSR"@.len()); } }
        assert("SlewLimiter"@ != "Automation"@) by { reveal_strlit("SlewLimiter"); reveal_strlit("Automation"); if "SlewLimiter"@ == "Automation"@ { assert("SlewLimiter"@.len() == "Automation"@.len()); } }
        assert("SlewLimiter"@ != "MidiIn"@) by { reveal_strlit("SlewLimiter"); reveal_strlit("MidiIn"); if "SlewLimiter"@ == "MidiIn"@ { assert("SlewLimiter"@.len() == "MidiIn"@.len()); } }
        assert("SlewLimiter"@ != "Sequencer"@) by { reveal_strlit("SlewLimiter"); reveal_strlit("Sequencer"); if "SlewLimiter"@ == "Sequencer"@ { assert("SlewLimiter"@.len() == "Sequencer"@.len()); } }
        assert("SlewLimiter"@ != "Wavefolder"@) by { reveal_strlit("SlewLimiter"); reveal_strlit("Wavefolder"); if "SlewLimiter"@ == "Wavefolder"@ { assert("SlewLimiter"@.len() == "Wavefolder"@.len()); } }
        assert("SlewLimiter"@ != "Lorenz"@) by { reveal_strlit("SlewLimiter"); reveal_strlit("Lorenz"); if "SlewLimiter"@ == "Lorenz"@ { assert("SlewLimiter"@.len() == "Lorenz"@.len()); } }
        assert("SlewLimiter"@ != "MackeyGlass"@) by { reveal_strlit("SlewLimiter"); reveal_strlit("MackeyGlass"); if "SlewLimiter"@ == "MackeyGlass"@ { assert("SlewLimiter"@[0] == "MackeyGlass"@[0]); } }
        assert("SlewLimiter"@ != "GrayScott"@) by { reveal_strlit("SlewLimiter"); reveal_strlit("GrayScott"); if "SlewLimiter"@ == "GrayScott"@ { assert("SlewLimiter"@.len() == "GrayScott"@.len()); } }
        assert("SlewLimiter"@ != "ReactionDiffusion"@) by { reveal_strlit("SlewLimiter"); reveal_strlit("ReactionDiffusion"); if "SlewLimiter"@ == "ReactionDiffusion"@ { assert("SlewLimiter"@.len() == "ReactionDiffusion"@.len()); } }
        assert("SlewLimiter"@ != "BitCrush"@) by { reveal_strlit("SlewLimiter"); reveal_strlit("BitCrush"); if "SlewLimiter"@ == "BitCrush"@ { assert("SlewLimiter"@.len() == "BitCrush"@.len()); } }
        assert("SlewLimiter"@ != "WaveShaper"@) by { reveal_strlit("SlewLimiter"); reveal_strlit("WaveShaper"); if "SlewLimiter"@ == "WaveShaper"@ { assert("SlewLimiter"@.len() == "WaveShaper"@.len()); } }
        assert("SlewLimiter"@ != "Pll"@) by { reveal_strlit("SlewLimiter"); reveal_strlit("Pll"); if "SlewLimiter"@ == "Pll"@ { assert("SlewLimiter"@.len() == "Pll"@.len()); } }
}

proof fn lemma_name_slew(has_midi: bool)
    ensures
        dsp_kind_for_name("Slew"@, has_midi) == DspKind::SlewLimiter,
{
        assert("Slew"@ != "Oscillator"@) by { reveal_strlit("Slew"); reveal_strlit("Oscillator"); if "Slew"@ == "Oscillator"@ { assert("Slew"@.len() == "Oscillator"@.len()); } }
        assert("Slew"@ != "Sine"@) by { reveal_strlit("Slew"); reveal_strlit("Sine"); if "Slew"@ == "Sine"@ { assert("Slew"@[1] == "Sine"@[1]); } }
        assert("Slew"@ != "Noise"@) by { reveal_strlit("Slew"); reveal_strlit("Noise"); if "Slew"@ == "Noise"@ { assert("Slew"@.len() == "Noise"@.len()); } }
        assert("Slew"@ != "Gain"@) by { reveal_strlit("Slew"); reveal_strlit("Gain"); if "Slew"@ == "Gain"@ { assert("Slew"@[0] == "Gain"@[0]); } }
        assert("Slew"@ != "Add"@) by { reveal_strlit("Slew"); reveal_strlit("Add"); if "Slew"@ == "Add"@ { assert("Slew"@.len() == "Add"@.len()); } }
        assert("Slew"@ != "Multiply"@) by { reveal_strlit("Slew"); reveal_strlit("Multiply"); if "Slew"@ == "Multiply"@ { assert("Slew"@.len() == "Multiply"@.len()); } }
        assert("Slew"@ != "Clip"@) by { reveal_strlit("Slew"); reveal_strlit("Clip"); if "Slew"@ == "Clip"@ { assert("Slew"@[0] == "Clip"@[0]); } }
        assert("Slew"@ != "Filter"@) by { reveal_strlit("Slew"); reveal_strlit("Filter"); if "Slew"@ == "Filter"@ { assert("Slew"@.len() == "Filter"@.len()); } }
        assert("Slew"@ != "Biquad"@) by { reveal_strlit("Slew"); reveal_strlit("Biquad"); if "Slew"@ == "Biquad"@ { assert("Slew"@.len() == "Biquad"@.len()); } }
        assert("Slew"@ != "Compressor"@) by { reveal_strlit("Slew"); reveal_strlit("Compressor"); if "Slew"@ == "Compressor"@ { assert("Slew"@.len() == "Compressor"@.len()); } }
        assert("Slew"@ != "Dynamics"@) by { reveal_strlit("Slew"); reveal_strlit("Dynamics"); if "Slew"@ == "Dynamics"@ { assert("Slew"@.len() == "Dynamics"@.len()); } }
        assert("Slew"@ != "Delay"@) by { reveal_strlit("Slew"); reveal_strlit("Delay"); if "Slew"@ == "Delay"@ { assert("Slew"@.len() == "Delay"@.len()); } }
        assert("Slew"@ != "Sampler"@) by { reveal_strlit("Slew"); reveal_strlit("Sampler"); if "Slew"@ == "Sampler"@ { assert("Slew"@.len() == "Sampler"@.len()); } }
        assert("Slew"@ != "AssetReader"@) by { reveal_strlit("Slew"); reveal_strlit("AssetReader"); if "Slew"@ == "AssetReader"@ { assert("Slew"@.len() == "AssetReader"@.len()); } }
        assert("Slew"@ != "Trigger"@) by { reveal_strlit("Slew"); reveal_strlit("Trigger"); if "Slew"@ == "Trigger"@ { assert("Slew"@.len() == "Trigger"@.len()); } }
        assert("Slew"@ != "Envelope"@) by { reveal_strlit("Slew"); reveal_strlit("Envelope"); if "Slew"@ == "Envelope"@ { assert("Slew"@.len() == "Envelope"@.len()); } }
        assert("Slew"@ != "ADSR"@) by { reveal_strlit("Slew"); reveal_strlit("ADSR"); if "Slew"@ == "ADSR"@ { assert("Slew"@[0] == "ADSR"@[0]); } }
        assert("Slew"@ != "Automation"@) by { reveal_strlit("Slew"); reveal_strlit("Automation"); if "Slew"@ == "Automation"@ { assert("Slew"@.len() == "Automation"@.len()); } }
        assert("Slew"@ != "MidiIn"@) by { reveal_strlit("Slew"); reveal_strlit("MidiIn"); if "Slew"@ == "MidiIn"@ { assert("Slew"@.len() == "MidiIn"@.len()); } }
        assert("Slew"@ != "Sequencer"@) by { reveal_strlit("Slew"); reveal_strlit("Sequencer"); if "Slew"@ == "Sequencer"@ { assert("Slew"@.len() == "Sequencer"@.len()); } }
        assert("Slew"@ != "Wavefolder"@) by { reveal_strlit("Slew"); reveal_strlit("Wavefolder"); if "Slew"@ == "Wavefolder"@ { assert("Slew"@.len() == "Wavefolder"@.len()); } }
        assert("Slew"@ != "Lorenz"@) by { reveal_strlit("Slew"); reveal_strlit("Lorenz"); if "Slew"@ == "Lorenz"@ { assert("Slew"@.len() == "Lorenz"@.len()); } }
        assert("Slew"@ != "MackeyGlass"@) by { reveal_strlit("Slew"); reveal_strlit("MackeyGlass"); if "Slew"@ == "MackeyGlass"@ { assert("Slew"@.len() == "MackeyGlass"@.len()); } }
        assert("Slew"@ != "GrayScott"@) by { reveal_strlit("Slew"); reveal_strlit("GrayScott"); if "Slew"@ == "GrayScott"@ { assert("Slew"@.len() == "GrayScott"@.len()); } }
        assert("Slew"@ != "ReactionDiffusion"@) by { reveal_strlit("Slew"); reveal_strlit("ReactionDiffusion"); if "Slew"@ == "ReactionDiffusion"@ { assert("Slew"@.len() == "ReactionDiffusion"@.len()); } }
        assert("Slew"@ != "BitCrush"@) by { reveal_strlit("Slew"); reveal_strlit("BitCrush"); if "Slew"@ == "BitCrush"@ { assert("Slew"@.len() == "BitCrush"@.len()); } }
        assert("Slew"@ != "WaveShaper"@) by { reveal_strlit("Slew"); reveal_strlit("WaveShaper"); if "Slew"@ == "WaveShaper"@ { assert("Slew"@.len() == "WaveShaper"@.len()); } }
        assert("Slew"@ != "Pll"@) by { reveal_strlit("Slew"); reveal_strlit("Pll"); if "Slew"@ == "Pll"@ { assert("Slew"@.len() == "Pll"@.len()); } }
        assert("Slew"@ != "SlewLimiter"@) by { reveal_strlit("Slew"); reveal_strlit("SlewLimiter"); if "Slew"@ == "SlewLimiter"@ { assert("Slew"@.len() == "SlewLimiter"@.len()); } }
}

proof fn lemma_name_samplehold(has_midi: bool)
    ensures
        dsp_kind_for_name("SampleHold"@, has_midi) == DspKind::SampleHold,
{
        assert("SampleHold"@ != "Oscillator"@) by { reveal_strlit("SampleHold"); reveal_strlit("Oscillator"); if "SampleHold"@ == "Oscillator"@ { assert("SampleHold"@[0] == "Oscillator"@[0]); } }
        assert("SampleHold"@ != "Sine"@) by { reveal_strlit("SampleHold"); reveal_strlit("Sine"); if "SampleHold"@ == "Sine"@ { assert("SampleHold"@.len() == "Sine"@.len()); } }
        assert("SampleHold"@ != "Noise"@) by { reveal_strlit("SampleHold"); reveal_strlit("Noise"); if "SampleHold"@ == "Noise"@ { assert("SampleHold"@.len() == "Noise"@.len()); } }
        assert("SampleHold"@ != "Gain"@) by { reveal_strlit("SampleHold"); reveal_strlit("Gain"); if "SampleHold"@ == "Gain"@ { assert("SampleHold"@.len() == "Gain"@.len()); } }
        assert("SampleHold"@ != "Add"@) by { reveal_strlit("SampleHold"); reveal_strlit("Add"); if "SampleHold"@ == "Add"@ { assert("SampleHold"@.len() == "Add"@.len()); } }
        assert("SampleHold"@ != "Multiply"@) by { reveal_strlit("SampleHold"); reveal_strlit("Multiply"); if "SampleHold"@ == "Multiply"@ { assert("SampleHold"@.len() == "Multiply"@.len()); } }
        assert("SampleHold"@ != "Clip"@) by { reveal_strlit("SampleHold"); reveal_strlit("Clip"); if "SampleHold"@ == "Clip"@ { assert("SampleHold"@.len() == "Clip"@.len()); } }
        assert("SampleHold"@ != "Filter"@) by { reveal_strlit("SampleHold"); reveal_strlit("Filter"); if "SampleHold"@ == "Filter"@ { assert("SampleHold"@.len() == "Filter"@.len()); } }
        assert("SampleHold"@ != "Biquad"@) by { reveal_strlit("SampleHold"); reveal_strlit("Biquad"); if "SampleHold"@ == "Biquad"@ { assert("SampleHold"@.len() == "Biquad"@.len()); } }
        assert("SampleHold"@ != "Compressor"@) by { reveal_strlit("SampleHold"); reveal_strlit("Compressor"); if "SampleHold"@ == "Compressor"@ { assert("SampleHold"@[0] == "Compressor"@[0]); } }
        assert("SampleHold"@ != "Dynamics"@) by { reveal_strlit("SampleHold"); reveal_strlit("Dynamics"); if "SampleHold"@ == "Dynamics"@ { assert("SampleHold"@.len() == "Dynamics"@.len()); } }
        assert("SampleHold"@ != "Delay"@) by { reveal_strlit("SampleHold"); reveal_strlit("Delay"); if "SampleHold"@ == "Delay"@ { assert("SampleHold"@.len() == "Delay"@.len()); } }
        assert("SampleHold"@ != "Sampler"@) by { reveal_strlit("SampleHold"); reveal_strlit("Sampler"); if "SampleHold"@ == "Sampler"@ { assert("SampleHold"@.len() == "Sampler"@.len()); } }
        assert("SampleHold"@ != "AssetReader"@) by { reveal_strlit("SampleHold"); reveal_strlit("AssetReader"); if "SampleHold"@ == "AssetReader"@ { assert("SampleHold"@.len() == "AssetReader"@.len()); } }
        assert("SampleHold"@ != "Trigger"@) by { reveal_strlit("SampleHold"); reveal_strlit("Trigger"); if "SampleHold"@ == "Trigger"@ { assert("SampleHold"@.len() == "Trigger"@.len()); } }
        assert("SampleHold"@ != "Envelope"@) by { reveal_strlit("SampleHold"); reveal_strlit("Envelope"); if "SampleHold"@ == "Envelope"@ { assert("SampleHold"@.len() == "Envelope"@.len()); } }
        assert("SampleHold"@ != "ADSR"@) by { reveal_strlit("SampleHold"); reveal_strlit("ADSR"); if "SampleHold"@ == "ADSR"@ { assert("SampleHold"@.len() == "ADSR"@.len()); } }
        assert("SampleHold"@ != "Automation"@) by { reveal_strlit("SampleHold"); reveal_strlit("Automation"); if "SampleHold"@ == "Automation"@ { assert("SampleHold"@[0] == "Automation"@[0]); } }
        assert("SampleHold"@ != "MidiIn"@) by { reveal_strlit("SampleHold"); reveal_strlit("MidiIn"); if "SampleHold"@ == "MidiIn"@ { assert("SampleHold"@.len() == "MidiIn"@.len()); } }
        assert("SampleHold"@ != "Sequencer"@) by { reveal_strlit("SampleHold"); reveal_strlit("Sequencer"); if "SampleHold"@ == "Sequencer"@ { assert("SampleHold"@.len() == "Sequencer"@.len()); } }
        assert("SampleHold"@ != "Wavefolder"@) by { reveal_strlit("SampleHold"); reveal_strlit("Wavefolder"); if "SampleHold"@ == "Wavefolder"@ { assert("SampleHold"@[0] == "Wavefolder"@[0]); } }
        assert("SampleHold"@ != "Lorenz"@) by { reveal_strlit("SampleHold"); reveal_strlit("Lorenz"); if "SampleHold"@ == "Lorenz"@ { assert("SampleHold"@.len() == "Lorenz"@.len()); } }
        assert("SampleHold"@ != "MackeyGlass"@) by { reveal_strlit("SampleHold"); reveal_strlit("MackeyGlass"); if "SampleHold"@ == "MackeyGlass"@ { assert("SampleHold"@.len() == "MackeyGlass"@.len()); } }
        assert("SampleHold"@ != "GrayScott"@) by { reveal_strlit("SampleHold"); reveal_strlit("GrayScott"); if "SampleHold"@ == "GrayScott"@ { assert("SampleHold"@.len() == "GrayScott"@.len()); } }
        assert("SampleHold"@ != "ReactionDiffusion"@) by { reveal_strlit("SampleHold"); reveal_strlit("ReactionDiffusion"); if "SampleHold"@ == "ReactionDiffusion"@ { assert("SampleHold"@.len() == "ReactionDiffusion"@.len()); } }
        assert("SampleHold"@ != "BitCrush"@) by { reveal_strlit("SampleHold"); reveal_strlit("BitCrush"); if "SampleHold"@ == "BitCrush"@ { assert("SampleHold"@.len() == "BitCrush"@.len()); } }
        assert("SampleHold"@ != "WaveShaper"@) by { reveal_strlit("SampleHold"); reveal_strlit("WaveShaper"); if "SampleHold"@ == "WaveShaper"@ { assert("SampleHold"@[0] == "WaveShaper"@[0]); } }
        assert("SampleHold"@ != "Pll"@) by { reveal_strlit("SampleHold"); reveal_strlit("Pll"); if "SampleHold"@ == "Pll"@ { assert("SampleHold"@.len() == "Pll"@.len()); } }
        assert("SampleHold"@ != "SlewLimiter"@) by { reveal_strlit("SampleHold"); reveal_strlit("SlewLimiter"); if "SampleHold"@ == "SlewLimiter"@ { assert("SampleHold"@.len() == "SlewLimiter"@.len()); } }
        assert("SampleHold"@ != "Slew"@) by { reveal_strlit("SampleHold"); reveal_strlit("Slew"); if "SampleHold"@ == "Slew"@ { assert("SampleHold"@.len() == "Slew"@.len()); } }
}

proof fn lemma_name_s_h(has_midi: bool)
    ensures
        dsp_kind_for_name("S&H"@, has_midi) == DspKind::SampleHold,
{
        assert("S&H"@ != "Oscillator"@) by { reveal_strlit("S&H"); reveal_strlit("Oscillator"); if "S&H"@ == "Oscillator"@ { assert("S&H"@.len() == "Oscillator"@.len()); } }
        assert("S&H"@ != "Sine"@) by { reveal_strlit("S&H"); reveal_strlit("Sine"); if "S&H"@ == "Sine"@ { assert("S&H"@.len() == "Sine"@.len()); } }
        assert("S&H"@ != "Noise"@) by { reveal_strlit("S&H"); reveal_strlit("Noise"); if "S&H"@ == "Noise"@ { assert("S&H"@.len() == "Noise"@.len()); } }
        assert("S&H"@ != "Gain"@) by { reveal_strlit("S&H"); reveal_strlit("Gain"); if "S&H"@ == "Gain"@ { assert("S&H"@.len() == "Gain"@.len()); } }
        assert("S&H"@ != "Add"@) by { reveal_strlit("S&H"); reveal_strlit("Add"); if "S&H"@ == "Add"@ { assert("S&H"@[0] == "Add"@[0]); } }
        assert("S&H"@ != "Multiply"@) by { reveal_strlit("S&H"); reveal_strlit("Multiply"); if "S&H"@ == "Multiply"@ { assert("S&H"@.len() == "Multiply"@.len()); } }
        assert("S&H"@ != "Clip"@) by { reveal_strlit("S&H"); reveal_strlit("Clip"); if "S&H"@ == "Clip"@ { assert("S&H"@.len() == "Clip"@.len()); } }
        assert("S&H"@ != "Filter"@) by { reveal_strlit("S&H"); reveal_strlit("Filter"); if "S&H"@ == "Filter"@ { assert("S&H"@.len() == "Filter"@.len()); } }
        assert("S&H"@ != "Biquad"@) by { reveal_strlit("S&H"); reveal_strlit("Biquad"); if "S&H"@ == "Biquad"@ { assert("S&H"@.len() == "Biquad"@.len()); } }
        assert("S&H"@ != "Compressor"@) by { reveal_strlit("S&H"); reveal_strlit("Compressor"); if "S&H"@ == "Compressor"@ { assert("S&H"@.len() == "Compressor"@.len()); } }
        assert("S&H"@ != "Dynamics"@) by { reveal_strlit("S&H"); reveal_strlit("Dynamics"); if "S&H"@ == "Dynamics"@ { assert("S&H"@.len() == "Dynamics"@.len()); } }
        assert("S&H"@ != "Delay"@) by { reveal_strlit("S&H"); reveal_strlit("Delay"); if "S&H"@ == "Delay"@ { assert("S&H"@.len() == "Delay"@.len()); } }
        assert("S&H"@ != "Sampler"@) by { reveal_strlit("S&H"); reveal_strlit("Sampler"); if "S&H"@ == "Sampler"@ { assert("S&H"@.len() == "Sampler"@.len()); } }
        assert("S&H"@ != "AssetReader"@) by { reveal_strlit("S&H"); reveal_strlit("AssetReader"); if "S&H"@ == "AssetReader"@ { assert("S&H"@.len() == "AssetReader"@.len()); } }
        assert("S&H"@ != "Trigger"@) by { reveal_strlit("S&H"); reveal_strlit("Trigger"); if "S&H"@ == "Trigger"@ { assert("S&H"@.len() == "Trigger"@.len()); } }
        assert("S&H"@ != "Envelope"@) by { reveal_strlit("S&H"); reveal_strlit("Envelope"); if "S&H"@ == "Envelope"@ { assert("S&H"@.len() == "Envelope"@.len()); } }
        assert("S&H"@ != "ADSR"@) by { reveal_strlit("S&H"); reveal_strlit("ADSR"); if "S&H"@ == "ADSR"@ { assert("S&H"@.len() == "ADSR"@.len()); } }
        assert("S&H"@ != "Automation"@) by { reveal_strlit("S&H"); reveal_strlit("Automation"); if "S&H"@ == "Automation"@ { assert("S&H"@.len() == "Automation"@.len()); } }
        assert("S&H"@ != "MidiIn"@) by { reveal_strlit("S&H"); reveal_strlit("MidiIn"); if "S&H"@ == "MidiIn"@ { assert("S&H"@.len() == "MidiIn"@.len()); } }
        assert("S&H"@ != "Sequencer"@) by { reveal_strlit("S&H"); reveal_strlit("Sequencer"); if "S&H"@ == "Sequencer"@ { assert("S&H"@.len() == "Sequencer"@.len()); } }
        assert("S&H"@ != "Wavefolder"@) by { reveal_strlit("S&H"); reveal_strlit("Wavefolder"); if "S&H"@ == "Wavefolder"@ { assert("S&H"@.len() == "Wavefolder"@.len()); } }
        assert("S&H"@ != "Lorenz"@) by { reveal_strlit("S&H"); reveal_strlit("Lorenz"); if "S&H"@ == "Lorenz"@ { assert("S&H"@.len() == "Lorenz"@.len()); } }
        assert("S&H"@ != "MackeyGlass"@) by { reveal_strlit("S&H"); reveal_strlit("MackeyGlass"); if "S&H"@ == "MackeyGlass"@ { assert("S&H"@.len() == "MackeyGlass"@.len()); } }
        assert("S&H"@ != "GrayScott"@) by { reveal_strlit("S&H"); reveal_strlit("GrayScott"); if "S&H"@ == "GrayScott"@ { assert("S&H"@.len() == "GrayScott"@.len()); } }
        assert("S&H"@ != "ReactionDiffusion"@) by { reveal_strlit("S&H"); reveal_strlit("ReactionDiffusion"); if "S&H"@ == "ReactionDiffusion"@ { assert("S&H"@.len() == "ReactionDiffusion"@.len()); } }
        assert("S&H"@ != "BitCrush"@) by { reveal_strlit("S&H"); reveal_strlit("BitCrush"); if "S&H"@ == "BitCrush"@ { assert("S&H"@.len() == "BitCrush"@.len()); } }
        assert("S&H"@ != "WaveShaper"@) by { reveal_strlit("S&H"); reveal_strlit("WaveShaper"); if "S&H"@ == "WaveShaper"@ { assert("S&H"@.len() == "WaveShaper"@.len()); } }
        assert("S&H"@ != "Pll"@) by { reveal_strlit("S&H"); reveal_strlit("Pll"); if "S&H"@ == "Pll"@ { assert("S&H"@[0] == "Pll"@[0]); } }
        assert("S&H"@ != "SlewLimiter"@) by { reveal_strlit("S&H"); reveal_strlit("SlewLimiter"); if "S&H"@ == "SlewLimiter"@ { assert("S&H"@.len() == "SlewLimiter"@.len()); } }
        assert("S&H"@ != "Slew"@) by { reveal_strlit("S&H"); reveal_strlit("Slew"); if "S&H"@ == "Slew"@ { assert("S&H"@.len() == "Slew"@.len()); } }
        assert("S&H"@ != "SampleHold"@) by { reveal_strlit("S&H"); reveal_strlit("SampleHold"); if "S&H"@ == "SampleHold"@ { assert("S&H"@.len() == "SampleHold"@.len()); } }
}

proof fn lemma_name_clock(has_midi: bool)
    ensures
        dsp_kind_for_name("Clock"@, has_midi) == DspKind::Clock,
{
        assert("Clock"@ != "Oscillator"@) by { reveal_strlit("Clock"); reveal_strlit("Oscillator"); if "Clock"@ == "Oscillator"@ { assert("Clock"@.len() == "Oscillator"@.len()); } }
        assert("Clock"@ != "Sine"@) by { reveal_strlit("Clock"); reveal_strlit("Sine"); if "Clock"@ == "Sine"@ { assert("Clock"@.len() == "Sine"@.len()); } }
        assert("Clock"@ != "Noise"@) by { reveal_strlit("Clock"); reveal_strlit("Noise"); if "Clock"@ == "Noise"@ { assert("Clock"@[0] == "Noise"@[0]); } }
        assert("Clock"@ != "Gain"@) by { reveal_strlit("Clock"); reveal_strlit("Gain"); if "Clock"@ == "Gain"@ { assert("Clock"@.len() == "Gain"@.len()); } }
        assert("Clock"@ != "Add"@) by { reveal_strlit("Clock"); reveal_strlit("Add"); if "Clock"@ == "Add"@ { assert("Clock"@.len() == "Add"@.len()); } }
        assert("Clock"@ != "Multiply"@) by { reveal_strlit("Clock"); reveal_strlit("Multiply"); if "Clock"@ == "Multiply"@ { assert("Clock"@.len() == "Multiply"@.len()); } }
        assert("Clock"@ != "Clip"@) by { reveal_strlit("Clock"); reveal_strlit("Clip"); if "Clock"@ == "Clip"@ { assert("Clock"@.len() == "Clip"@.len()); } }
        assert("Clock"@ != "Filter"@) by { reveal_strlit("Clock"); reveal_strlit("Filter"); if "Clock"@ == "Filter"@ { assert("Clock"@.len() == "Filter"@.len()); } }
        assert("Clock"@ != "Biquad"@) by { reveal_strlit("Clock"); reveal_strlit("Biquad"); if "Clock"@ == "Biquad"@ { assert("Clock"@.len() == "Biquad"@.len()); } }
        assert("Clock"@ != "Compressor"@) by { reveal_strlit("Clock"); reveal_strlit("Compressor"); if "Clock"@ == "Compressor"@ { assert("Clock"@.len() == "Compressor"@.len()); } }
        assert("Clock"@ != "Dynamics"@) by { reveal_strlit("Clock"); reveal_strlit("Dynamics"); if "Clock"@ == "Dynamics"@ { assert("Clock"@.len() == "Dynamics"@.len()); } }
        assert("Clock"@ != "Delay"@) by { reveal_strlit("Clock"); reveal_strlit("Delay"); if "Clock"@ == "Delay"@ { assert("Clock"@[0] == "Delay"@[0]); } }
        assert("Clock"@ != "Sampler"@) by { reveal_strlit("Clock"); reveal_strlit("Sampler"); if "Clock"@ == "Sampler"@ { assert("Clock"@.len() == "Sampler"@.len()); } }
        assert("Clock"@ != "AssetReader"@) by { reveal_strlit("Clock"); reveal_strlit("AssetReader"); if "Clock"@ == "AssetReader"@ { assert("Clock"@.len() == "AssetReader"@.len()); } }
        assert("Clock"@ != "Trigger"@) by { reveal_strlit("Clock"); reveal_strlit("Trigger"); if "Clock"@ == "Trigger"@ { assert("Clock"@.len() == "Trigger"@.len()); } }
        assert("Clock"@ != "Envelope"@) by { reveal_strlit("Clock"); reveal_strlit("Envelope"); if "Clock"@ == "Envelope"@ { assert("Clock"@.len() == "Envelope"@.len()); } }
        assert("Clock"@ != "ADSR"@) by { reveal_strlit("Clock"); reveal_strlit("ADSR"); if "Clock"@ == "ADSR"@ { assert("Clock"@.len() == "ADSR"@.len()); } }
        assert("Clock"@ != "Automation"@) by { reveal_strlit("Clock"); reveal_strlit("Automation"); if "Clock"@ == "Automation"@ { assert("Clock"@.len() == "Automation"@.len()); } }
        assert("Clock"@ != "MidiIn"@) by { reveal_strlit("Clock"); reveal_strlit("MidiIn"); if "Clock"@ == "MidiIn"@ { assert("Clock"@.len() == "MidiIn"@.len()); } }
        assert("Clock"@ != "Sequencer"@) by { reveal_strlit("Clock"); reveal_strlit("Sequencer"); if "Clock"@ == "Sequencer"@ { assert("Clock"@.len() == "Sequencer"@.len()); } }
        assert("Clock"@ != "Wavefolder"@) by { reveal_strlit("Clock"); reveal_strlit("Wavefolder"); if "Clock"@ == "Wavefolder"@ { assert("Clock"@.len() == "Wavefolder"@.len()); } }
        assert("Clock"@ != "Lorenz"@) by { reveal_strlit("Clock"); reveal_strlit("Lorenz"); if "Clock"@ == "Lorenz"@ { assert("Clock"@.len() == "Lorenz"@.len()); } }
        assert("Clock"@ != "MackeyGlass"@) by { reveal_strlit("Clock"); reveal_strlit("MackeyGlass"); if "Clock"@ == "MackeyGlass"@ { assert("Clock"@.len() == "MackeyGlass"@.len()); } }
        assert("Clock"@ != "GrayScott"@) by { reveal_strlit("Clock"); reveal_strlit("GrayScott"); if "Clock"@ == "GrayScott"@ { assert("Clock"@.len() == "GrayScott"@.len()); } }
        assert("Clock"@ != "ReactionDiffusion"@) by { reveal_strlit("Clock"); reveal_strlit("ReactionDiffusion"); if "Clock"@ == "ReactionDiffusion"@ { assert("Clock"@.len() == "ReactionDiffusion"@.len()); } }
        assert("Clock"@ != "BitCrush"@) by { reveal_strlit("Clock"); reveal_strlit("BitCrush"); if "Clock"@ == "BitCrush"@ { assert("Clock"@.len() == "BitCrush"@.len()); } }
        assert("Clock"@ != "WaveShaper"@) by { reveal_strlit("Clock"); reveal_strlit("WaveShaper"); if "Clock"@ == "WaveShaper"@ { assert("Clock"@.len() == "WaveShaper"@.len()); } }
        assert("Clock"@ != "Pll"@) by { reveal_strlit("Clock"); reveal_strlit("Pll"); if "Clock"@ == "Pll"@ { assert("Clock"@.len() == "Pll"@.len()); } }
        assert("Clock"@ != "SlewLimiter"@) by { reveal_strlit("Clock"); reveal_strlit("SlewLimiter"); if "Clock"@ == "SlewLimiter"@ { assert("Clock"@.len() == "SlewLimiter"@.len()); } }
        assert("Clock"@ != "Slew"@) by { reveal_strlit("Clock"); reveal_strlit("Slew"); if "Clock"@ == "Slew"@ { assert("Clock"@.len() == "Slew"@.len()); } }
        assert("Clock"@ != "SampleHold"@) by { reveal_strlit("Clock"); reveal_strlit("SampleHold"); if "Clock"@ == "SampleHold"@ { assert("Clock"@.len() == "SampleHold"@.len()); } }
        assert("Clock"@ != "S&H"@) by { reveal_strlit("Clock"); reveal_strlit("S&H"); if "Clock"@ == "S&H"@ { assert("Clock"@.len() == "S&H"@.len()); } }
}

proof fn lemma_name_probabilitygate(has_midi: bool)
    ensures
        dsp_kind_for_name("ProbabilityGate"@, has_midi) == DspKind::ProbabilityGate,
{
        assert("ProbabilityGate"@ != "Oscillator"@) by { reveal_strlit("ProbabilityGate"); reveal_strlit("Oscillator"); if "ProbabilityGate"@ == "Oscillator"@ { assert("ProbabilityGate"@.len() == "Oscillator"@.len()); } }
        assert("ProbabilityGate"@ != "Sine"@) by { reveal_strlit("ProbabilityGate"); reveal_strlit("Sine"); if "ProbabilityGate"@ == "Sine"@ { assert("ProbabilityGate"@.len() == "Sine"@.len()); } }
        assert("ProbabilityGate"@ != "Noise"@) by { reveal_strlit("ProbabilityGate"); reveal_strlit("Noise"); if "ProbabilityGate"@ == "Noise"@ { assert("ProbabilityGate"@.len() == "Noise"@.len()); } }
        assert("ProbabilityGate"@ != "Gain"@) by { reveal_strlit("ProbabilityGate"); reveal_strlit("Gain"); if "ProbabilityGate"@ == "Gain"@ { assert("ProbabilityGate"@.len() == "Gain"@.len()); } }
        assert("ProbabilityGate"@ != "Add"@) by { reveal_strlit("ProbabilityGate"); reveal_strlit("Add"); if "ProbabilityGate"@ == "Add"@ { assert("ProbabilityGate"@.len() == "Add"@.len()); } }
        assert("ProbabilityGate"@ != "Multiply"@) by { reveal_strlit("ProbabilityGate"); reveal_strlit("Multiply"); if "ProbabilityGate"@ == "Multiply"@ { assert("ProbabilityGate"@.len() == "Multiply"@.len()); } }
        assert("ProbabilityGate"@ != "Clip"@) by { reveal_strlit("ProbabilityGate"); reveal_strlit("Clip"); if "ProbabilityGate"@ == "Clip"@ { assert("ProbabilityGate"@.len() == "Clip"@.len()); } }
        assert("ProbabilityGate"@ != "Filter"@) by { reveal_strlit("ProbabilityGate"); reveal_strlit("Filter"); if "ProbabilityGate"@ == "Filter"@ { assert("ProbabilityGate"@.len() == "Filter"@.len()); } }
        assert("ProbabilityGate"@ != "Biquad"@) by { reveal_strlit("ProbabilityGate"); reveal_strlit("Biquad"); if "ProbabilityGate"@ == "Biquad"@ { assert("ProbabilityGate"@.len() == "Biquad"@.len()); } }
        assert("ProbabilityGate"@ != "Compressor"@) by { reveal_strlit("ProbabilityGate"); reveal_strlit("Compressor"); if "ProbabilityGate"@ == "Compressor"@ { assert("ProbabilityGate"@.len() == "Compressor"@.len()); } }
        assert("ProbabilityGate"@ != "Dynamics"@) by { reveal_strlit("ProbabilityGate"); reveal_strlit("Dynamics"); if "ProbabilityGate"@ == "Dynamics"@ { assert("ProbabilityGate"@.len() == "Dynamics"@.len()); } }
        assert("ProbabilityGate"@ != "Delay"@) by { reveal_strlit("ProbabilityGate"); reveal_strlit("Delay"); if "ProbabilityGate"@ == "Delay"@ { assert("ProbabilityGate"@.len() == "Delay"@.len()); } }
        assert("ProbabilityGate"@ != "Sampler"@) by { reveal_strlit("ProbabilityGate"); reveal_strlit("Sampler"); if "ProbabilityGate"@ == "Sampler"@ { assert("ProbabilityGate"@.len() == "Sampler"@.len()); } }
        assert("ProbabilityGate"@ != "AssetReader"@) by { reveal_strlit("ProbabilityGate"); reveal_strlit("AssetReader"); if "ProbabilityGate"@ == "AssetReader"@ { assert("ProbabilityGate"@.len() == "AssetReader"@.len()); } }
        assert("ProbabilityGate"@ != "Trigger"@) by { reveal_strlit("ProbabilityGate"); reveal_strlit("Trigger"); if "ProbabilityGate"@ == "Trigger"@ { assert("ProbabilityGate"@.len() == "Trigger"@.len()); } }
        assert("ProbabilityGate"@ != "Envelope"@) by { reveal_strlit("ProbabilityGate"); reveal_strlit("Envelope"); if "ProbabilityGate"@ == "Envelope"@ { assert("ProbabilityGate"@.len() == "Envelope"@.len()); } }
        assert("ProbabilityGate"@ != "ADSR"@) by { reveal_strlit("ProbabilityGate"); reveal_strlit("ADSR"); if "ProbabilityGate"@ == "ADSR"@ { assert("ProbabilityGate"@.len() == "ADSR"@.len()); } }
        assert("ProbabilityGate"@ != "Automation"@) by { reveal_strlit("ProbabilityGate"); reveal_strlit("Automation"); if "ProbabilityGate"@ == "Automation"@ { assert("ProbabilityGate"@.len() == "Automation"@.len()); } }
        assert("ProbabilityGate"@ != "MidiIn"@) by { reveal_strlit("ProbabilityGate"); reveal_strlit("MidiIn"); if "ProbabilityGate"@ == "MidiIn"@ { assert("ProbabilityGate"@.len() == "MidiIn"@.len()); } }
        assert("ProbabilityGate"@ != "Sequencer"@) by { reveal_strlit("ProbabilityGate"); reveal_strlit("Sequencer"); if "ProbabilityGate"@ == "Sequencer"@ { assert("ProbabilityGate"@.len() == "Sequencer"@.len()); } }
        assert("ProbabilityGate"@ != "Wavefolder"@) by { reveal_strlit("ProbabilityGate"); reveal_strlit("Wavefolder"); if "ProbabilityGate"@ == "Wavefolder"@ { assert("ProbabilityGate"@.len() == "Wavefolder"@.len()); } }
        assert("ProbabilityGate"@ != "Lorenz"@) by { reveal_strlit("ProbabilityGate"); reveal_strlit("Lorenz"); if "ProbabilityGate"@ == "Lorenz"@ { assert("ProbabilityGate"@.len() == "Lorenz"@.len()); } }
        assert("ProbabilityGate"@ != "MackeyGlass"@) by { reveal_strlit("ProbabilityGate"); reveal_strlit("MackeyGlass"); if "ProbabilityGate"@ == "MackeyGlass"@ { assert("ProbabilityGate"@.len() == "MackeyGlass"@.len()); } }
        assert("ProbabilityGate"@ != "GrayScott"@) by { reveal_strlit("ProbabilityGate"); reveal_strlit("GrayScott"); if "ProbabilityGate"@ == "GrayScott"@ { assert("ProbabilityGate"@.len() == "GrayScott"@.len()); } }
        assert("ProbabilityGate"@ != "ReactionDiffusion"@) by { reveal_strlit("ProbabilityGate"); reveal_strlit("ReactionDiffusion"); if "ProbabilityGate"@ == "ReactionDiffusion"@ { assert("ProbabilityGate"@.len() == "ReactionDiffusion"@.len()); } }
        assert("ProbabilityGate"@ != "BitCrush"@) by { reveal_strlit("ProbabilityGate"); reveal_strlit("BitCrush"); if "ProbabilityGate"@ == "BitCrush"@ { assert("ProbabilityGate"@.len() == "BitCrush"@.len()); } }
        assert("ProbabilityGate"@ != "WaveShaper"@) by { reveal_strlit("ProbabilityGate"); reveal_strlit("WaveShaper"); if "ProbabilityGate"@ == "WaveShaper"@ { assert("ProbabilityGate"@.len() == "WaveShaper"@.len()); } }
        assert("ProbabilityGate"@ != "Pll"@) by { reveal_strlit("ProbabilityGate"); reveal_strlit("Pll"); if "ProbabilityGate"@ == "Pll"@ { assert("ProbabilityGate"@.len() == "Pll"@.len()); } }
        assert("ProbabilityGate"@ != "SlewLimiter"@) by { reveal_strlit("ProbabilityGate"); reveal_strlit("SlewLimiter"); if "ProbabilityGate"@ == "SlewLimiter"@ { assert("ProbabilityGate"@.len() == "SlewLimiter"@.len()); } }
        assert("ProbabilityGate"@ != "Slew"@) by { reveal_strlit("ProbabilityGate"); reveal_strlit("Slew"); if "ProbabilityGate"@ == "Slew"@ { assert("ProbabilityGate"@.len() == "Slew"@.len()); } }
        assert("ProbabilityGate"@ != "SampleHold"@) by { reveal_strlit("ProbabilityGate"); reveal_strlit("SampleHold"); if "ProbabilityGate"@ == "SampleHold"@ { assert("ProbabilityGate"@.len() == "SampleHold"@.len()); } }
        assert("ProbabilityGate"@ != "S&H"@) by { reveal_strlit("ProbabilityGate"); reveal_strlit("S&H"); if "ProbabilityGate"@ == "S&H"@ { assert("ProbabilityGate"@.len() == "S&H"@.len()); } }
        assert("ProbabilityGate"@ != "Clock"@) by { reveal_strlit("ProbabilityGate"); reveal_strlit("Clock"); if "ProbabilityGate"@ == "Clock"@ { assert("ProbabilityGate"@.len() == "Clock"@.len()); } }
}

proof fn lemma_name_reverb(has_midi: bool)
    ensures
        dsp_kind_for_name("Reverb"@, has_midi) == DspKind::Reverb,
{
        assert("Reverb"@ != "Oscillator"@) by { reveal_strlit("Reverb"); reveal_strlit("Oscillator"); if "Reverb"@ == "Oscillator"@ { assert("Reverb"@.len() == "Oscillator"@.len()); } }
        assert("Reverb"@ != "Sine"@) by { reveal_strlit("Reverb"); reveal_strlit("Sine"); if "Reverb"@ == "Sine"@ { assert("Reverb"@.len() == "Sine"@.len()); } }
        assert("Reverb"@ != "Noise"@) by { reveal_strlit("Reverb"); reveal_strlit("Noise"); if "Reverb"@ == "Noise"@ { assert("Reverb"@.len() == "Noise"@.len()); } }
        assert("Reverb"@ != "Gain"@) by { reveal_strlit("Reverb"); reveal_strlit("Gain"); if "Reverb"@ == "Gain"@ { assert("Reverb"@.len() == "Gain"@.len()); } }
        assert("Reverb"@ != "Add"@) by { reveal_strlit("Reverb"); reveal_strlit("Add"); if "Reverb"@ == "Add"@ { assert("Reverb"@.len() == "Add"@.len()); } }
        assert("Reverb"@ != "Multiply"@) by { reveal_strlit("Reverb"); reveal_strlit("Multiply"); if "Reverb"@ == "Multiply"@ { assert("Reverb"@.len() == "Multiply"@.len()); } }
        assert("Reverb"@ != "Clip"@) by { reveal_strlit("Reverb"); reveal_strlit("Clip"); if "Reverb"@ == "Clip"@ { assert("Reverb"@.len() == "Clip"@.len()); } }
        assert("Reverb"@ != "Filter"@) by { reveal_strlit("Reverb"); reveal_strlit("Filter"); if "Reverb"@ == "Filter"@ { assert("Reverb"@[0] == "Filter"@[0]); } }
        assert("Reverb"@ != "Biquad"@) by { reveal_strlit("Reverb"); reveal_strlit("Biquad"); if "Reverb"@ == "Biquad"@ { assert("Reverb"@[0] == "Biquad"@[0]); } }
        assert("Reverb"@ != "Compressor"@) by { reveal_strlit("Reverb"); reveal_strlit("Compressor"); if "Reverb"@ == "Compressor"@ { assert("Reverb"@.len() == "Compressor"@.len()); } }
        assert("Reverb"@ != "Dynamics"@) by { reveal_strlit("Reverb"); reveal_strlit("Dynamics"); if "Reverb"@ == "Dynamics"@ { assert("Reverb"@.len() == "Dynamics"@.len()); } }
        assert("Reverb"@ != "Delay"@) by { reveal_strlit("Reverb"); reveal_strlit("Delay"); if "Reverb"@ == "Delay"@ { assert("Reverb"@.len() == "Delay"@.len()); } }
        assert("Reverb"@ != "Sampler"@) by { reveal_strlit("Reverb"); reveal_strlit("Sampler"); if "Reverb"@ == "Sampler"@ { assert("Reverb"@.len() == "Sampler"@.len()); } }
        assert("Reverb"@ != "AssetReader"@) by { reveal_strlit("Reverb"); reveal_strlit("AssetReader"); if "Reverb"@ == "AssetReader"@ { assert("Reverb"@.len() == "AssetReader"@.len()); } }
        assert("Reverb"@ != "Trigger"@) by { reveal_strlit("Reverb"); reveal_strlit("Trigger"); if "Reverb"@ == "Trigger"@ { assert("Reverb"@.len() == "Trigger"@.len()); } }
        assert("Reverb"@ != "Envelope"@) by { reveal_strlit("Reverb"); reveal_strlit("Envelope"); if "Reverb"@ == "Envelope"@ { assert("Reverb"@.len() == "Envelope"@.len()); } }
        assert("Reverb"@ != "ADSR"@) by { reveal_strlit("Reverb"); reveal_strlit("ADSR"); if "Reverb"@ == "ADSR"@ { assert("Reverb"@.len() == "ADSR"@.len()); } }
        assert("Reverb"@ != "Automation"@) by { reveal_strlit("Reverb"); reveal_strlit("Automation"); if "Reverb"@ == "Automation"@ { assert("Reverb"@.len() == "Automation"@.len()); } }
        assert("Reverb"@ != "MidiIn"@) by { reveal_strlit("Reverb"); reveal_strlit("MidiIn"); if "Reverb"@ == "MidiIn"@ { assert("Reverb"@[0] == "MidiIn"@[0]); } }
        assert("Reverb"@ != "Sequencer"@) by { reveal_strlit("Reverb"); reveal_strlit("Sequencer"); if "Reverb"@ == "Sequencer"@ { assert("Reverb"@.len() == "Sequencer"@.len()); } }
        assert("Reverb"@ != "Wavefolder"@) by { reveal_strlit("Reverb"); reveal_strlit("Wavefolder"); if "Reverb"@ == "Wavefolder"@ { assert("Reverb"@.len() == "Wavefolder"@.len()); } }
        assert("Reverb"@ != "Lorenz"@) by { reveal_strlit("Reverb"); reveal_strlit("Lorenz"); if "Reverb"@ == "Lorenz"@ { assert("Reverb"@[0] == "Lorenz"@[0]); } }
        assert("Reverb"@ != "MackeyGlass"@) by { reveal_strlit("Reverb"); reveal_strlit("MackeyGlass"); if "Reverb"@ == "MackeyGlass"@ { assert("Reverb"@.len() == "MackeyGlass"@.len()); } }
        assert("Reverb"@ != "GrayScott"@) by { reveal_strlit("Reverb"); reveal_strlit("GrayScott"); if "Reverb"@ == "GrayScott"@ { assert("Reverb"@.len() == "GrayScott"@.len()); } }
        assert("Reverb"@ != "ReactionDiffusion"@) by { reveal_strlit("Reverb"); reveal_strlit("ReactionDiffusion"); if "Reverb"@ == "ReactionDiffusion"@ { assert("Reverb"@.len() == "ReactionDiffusion"@.len()); } }
        assert("Reverb"@ != "BitCrush"@) by { reveal_strlit("Reverb"); reveal_strlit("BitCrush"); if "Reverb"@ == "BitCrush"@ { assert("Reverb"@.len() == "BitCrush"@.len()); } }
        assert("Reverb"@ != "WaveShaper"@) by { reveal_strlit("Reverb"); reveal_strlit("WaveShaper"); if "Reverb"@ == "WaveShaper"@ { assert("Reverb"@.len() == "WaveShaper"@.len()); } }
        assert("Reverb"@ != "Pll"@) by { reveal_strlit("Reverb"); reveal_strlit("Pll"); if "Reverb"@ == "Pll"@ { assert("Reverb"@.len() == "Pll"@.len()); } }
        assert("Reverb"@ != "SlewLimiter"@) by { reveal_strlit("Reverb"); reveal_strlit("SlewLimiter"); if "Reverb"@ == "SlewLimiter"@ { assert("Reverb"@.len() == "SlewLimiter"@.len()); } }
        assert("Reverb"@ != "Slew"@) by { reveal_strlit("Reverb"); reveal_strlit("Slew"); if "Reverb"@ == "Slew"@ { assert("Reverb"@.len() == "Slew"@.len()); } }
        assert("Reverb"@ != "SampleHold"@) by { reveal_strlit("Reverb"); reveal_strlit("SampleHold"); if "Reverb"@ == "SampleHold"@ { assert("Reverb"@.len() == "SampleHold"@.len()); } }
        assert("Reverb"@ != "S&H"@) by { reveal_strlit("Reverb"); reveal_strlit("S&H"); if "Reverb"@ == "S&H"@ { assert("Reverb"@.len() == "S&H"@.len()); } }
        assert("Reverb"@ != "Clock"@) by { reveal_strlit("Reverb"); reveal_strlit("Clock"); if "Reverb"@ == "Clock"@ { assert("Reverb"@.len() == "Clock"@.len()); } }
        assert("Reverb"@ != "ProbabilityGate"@) by { reveal_strlit("Reverb"); reveal_strlit("ProbabilityGate"); if "Reverb"@ == "ProbabilityGate"@ { assert("Reverb"@.len() == "ProbabilityGate"@.len()); } }
}

proof fn lemma_name_springreverb(has_midi: bool)
    ensures
        dsp_kind_for_name("SpringReverb"@, has_midi) == DspKind::SpringReverb,
{
        assert("SpringReverb"@ != "Oscillator"@) by { reveal_strlit("SpringReverb"); reveal_strlit("Oscillator"); if "SpringReverb"@ == "Oscillator"@ { assert("SpringReverb"@.len() == "Oscillator"@.len()); } }
        assert("SpringReverb"@ != "Sine"@) by { reveal_strlit("SpringReverb"); reveal_strlit("Sine"); if "SpringReverb"@ == "Sine"@ { assert("SpringReverb"@.len() == "Sine"@.len()); } }
        assert("SpringReverb"@ != "Noise"@) by { reveal_strlit("SpringReverb"); reveal_strlit("Noise"); if "SpringReverb"@ == "Noise"@ { assert("SpringReverb"@.len() == "Noise"@.len()); } }
        assert("SpringReverb"@ != "Gain"@) by { reveal_strlit("SpringReverb"); reveal_strlit("Gain"); if "SpringReverb"@ == "Gain"@ { assert("SpringReverb"@.len() == "Gain"@.len()); } }
        assert("SpringReverb"@ != "Add"@) by { reveal_strlit("SpringReverb"); reveal_strlit("Add"); if "SpringReverb"@ == "Add"@ { assert("SpringReverb"@.len() == "Add"@.len()); } }
        assert("SpringReverb"@ != "Multiply"@) by { reveal_strlit("SpringReverb"); reveal_strlit("Multiply"); if "SpringReverb"@ == "Multiply"@ { assert("SpringReverb"@.len() == "Multiply"@.len()); } }
        assert("SpringReverb"@ != "Clip"@) by { reveal_strlit("SpringReverb"); reveal_strlit("Clip"); if "SpringReverb"@ == "Clip"@ { assert("SpringReverb"@.len() == "Clip"@.len()); } }
        assert("SpringReverb"@ != "Filter"@) by { reveal_strlit("SpringReverb"); reveal_strlit("Filter"); if "SpringReverb"@ == "Filter"@ { assert("SpringReverb"@.len() == "Filter"@.len()); } }
        assert("SpringReverb"@ != "Biquad"@) by { reveal_strlit("SpringReverb"); reveal_strlit("Biquad"); if "SpringReverb"@ == "Biquad"@ { assert("SpringReverb"@.len() == "Biquad"@.len()); } }
        assert("SpringReverb"@ != "Compressor"@) by { reveal_strlit("SpringReverb"); reveal_strlit("Compressor"); if "SpringReverb"@ == "Compressor"@ { assert("SpringReverb"@.len() == "Compressor"@.len()); } }
        assert("SpringReverb"@ != "Dynamics"@) by { reveal_strlit("SpringReverb"); reveal_strlit("Dynamics"); if "SpringReverb"@ == "Dynamics"@ { assert("SpringReverb"@.len() == "Dynamics"@.len()); } }
        assert("SpringReverb"@ != "Delay"@) by { reveal_strlit("SpringReverb"); reveal_strlit("Delay"); if "SpringReverb"@ == "Delay"@ { assert("SpringReverb"@.len() == "Delay"@.len()); } }
        assert("SpringReverb"@ != "Sampler"@) by { reveal_strlit("SpringReverb"); reveal_strlit("Sampler"); if "SpringReverb"@ == "Sampler"@ { assert("SpringReverb"@.len() == "Sampler"@.len()); } }
        assert("SpringReverb"@ != "AssetReader"@) by { reveal_strlit("SpringReverb"); reveal_strlit("AssetReader"); if "SpringReverb"@ == "AssetReader"@ { assert("SpringReverb"@.len() == "AssetReader"@.len()); } }
        assert("SpringReverb"@ != "Trigger"@) by { reveal_strlit("SpringReverb"); reveal_strlit("Trigger"); if "SpringReverb"@ == "Trigger"@ { assert("SpringReverb"@.len() == "Trigger"@.len()); } }
        assert("SpringReverb"@ != "Envelope"@) by { reveal_strlit("SpringReverb"); reveal_strlit("Envelope"); if "SpringReverb"@ == "Envelope"@ { assert("SpringReverb"@.len() == "Envelope"@.len()); } }
        assert("SpringReverb"@ != "ADSR"@) by { reveal_strlit("SpringReverb"); reveal_strlit("ADSR"); if "SpringReverb"@ == "ADSR"@ { assert("SpringReverb"@.len() == "ADSR"@.len()); } }
        assert("SpringReverb"@ != "Automation"@) by { reveal_strlit("SpringReverb"); reveal_strlit("Automation"); if "SpringReverb"@ == "Automation"@ { assert("SpringReverb"@.len() == "Automation"@.len()); } }
        assert("SpringReverb"@ != "MidiIn"@) by { reveal_strlit("SpringReverb"); reveal_strlit("MidiIn"); if "SpringReverb"@ == "MidiIn"@ { assert("SpringReverb"@.len() == "MidiIn"@.len()); } }
        assert("SpringReverb"@ != "Sequencer"@) by { reveal_strlit("SpringReverb"); reveal_strlit("Sequencer"); if "SpringReverb"@ == "Sequencer"@ { assert("SpringReverb"@.len() == "Sequencer"@.len()); } }
        assert("SpringReverb"@ != "Wavefolder"@) by { reveal_strlit("SpringReverb"); reveal_strlit("Wavefolder"); if "SpringReverb"@ == "Wavefolder"@ { assert("SpringReverb"@.len() == "Wavefolder"@.len()); } }
        assert("SpringReverb"@ != "Lorenz"@) by { reveal_strlit("SpringReverb"); reveal_strlit("Lorenz"); if "SpringReverb"@ == "Lorenz"@ { assert("SpringReverb"@.len() == "Lorenz"@.len()); } }
        assert("SpringReverb"@ != "MackeyGlass"@) by { reveal_strlit("SpringReverb"); reveal_strlit("MackeyGlass"); if "SpringReverb"@ == "MackeyGlass"@ { assert("SpringReverb"@.len() == "MackeyGlass"@.len()); } }
        assert("SpringReverb"@ != "GrayScott"@) by { reveal_strlit("SpringReverb"); reveal_strlit("GrayScott"); if "SpringReverb"@ == "GrayScott"@ { assert("SpringReverb"@.len() == "GrayScott"@.len()); } }
        assert("SpringReverb"@ != "ReactionDiffusion"@) by { reveal_strlit("SpringReverb"); reveal_strlit("ReactionDiffusion"); if "SpringReverb"@ == "ReactionDiffusion"@ { assert("SpringReverb"@.len() == "ReactionDiffusion"@.len()); } }
        assert("SpringReverb"@ != "BitCrush"@) by { reveal_strlit("SpringReverb"); reveal_strlit("BitCrush"); if "SpringReverb"@ == "BitCrush"@ { assert("SpringReverb"@.len() == "BitCrush"@.len()); } }
        assert("SpringReverb"@ != "WaveShaper"@) by { reveal_strlit("SpringReverb"); reveal_strlit("WaveShaper"); if "SpringReverb"@ == "WaveShaper"@ { assert("SpringReverb"@.len() == "WaveShaper"@.len()); } }
        assert("SpringReverb"@ != "Pll"@) by { reveal_strlit("SpringReverb"); reveal_strlit("Pll"); if "SpringReverb"@ == "Pll"@ { assert("SpringReverb"@.len() == "Pll"@.len()); } }
        assert("SpringReverb"@ != "SlewLimiter"@) by { reveal_strlit("SpringReverb"); reveal_strlit("SlewLimiter"); if "SpringReverb"@ == "SlewLimiter"@ { assert("SpringReverb"@.len() == "SlewLimiter"@.len()); } }
        assert("SpringReverb"@ != "Slew"@) by { reveal_strlit("SpringReverb"); reveal_strlit("Slew"); if "SpringReverb"@ == "Slew"@ { assert("SpringReverb"@.len() == "Slew"@.len()); } }
        assert("SpringReverb"@ != "SampleHold"@) by { reveal_strlit("SpringReverb"); reveal_strlit("SampleHold"); if "SpringReverb"@ == "SampleHold"@ { assert("SpringReverb"@.len() == "SampleHold"@.len()); } }
        assert("SpringReverb"@ != "S&H"@) by { reveal_strlit("SpringReverb"); reveal_strlit("S&H"); if "SpringReverb"@ == "S&H"@ { assert("SpringReverb"@.len() == "S&H"@.len()); } }
        assert("SpringReverb"@ != "Clock"@) by { reveal_strlit("SpringReverb"); reveal_strlit("Clock"); if "SpringReverb"@ == "Clock"@ { assert("SpringReverb"@.len() == "Clock"@.len()); } }
        assert("SpringReverb"@ != "ProbabilityGate"@) by { reveal_strlit("SpringReverb"); reveal_strlit("ProbabilityGate"); if "SpringReverb"@ == "ProbabilityGate"@ { assert("SpringReverb"@.len() == "ProbabilityGate"@.len()); } }
        assert("SpringReverb"@ != "Reverb"@) by { reveal_strlit("SpringReverb"); reveal_strlit("Reverb"); if "SpringReverb"@ == "Reverb"@ { assert("SpringReverb"@.len() == "Reverb"@.len()); } }
}

proof fn lemma_name_granular(has_midi: bool)
    ensures
        dsp_kind_for_name("Granular"@, has_midi) == DspKind::Granular,
{
        assert("Granular"@ != "Oscillator"@) by { reveal_strlit("Granular"); reveal_strlit("Oscillator"); if "Granular"@ == "Oscillator"@ { assert("Granular"@.len() == "Oscillator"@.len()); } }
        assert("Granular"@ != "Sine"@) by { reveal_strlit("Granular"); reveal_strlit("Sine"); if "Granular"@ == "Sine"@ { assert("Granular"@.len() == "Sine"@.len()); } }
        assert("Granular"@ != "Noise"@) by { reveal_strlit("Granular"); reveal_strlit("Noise"); if "Granular"@ == "Noise"@ { assert("Granular"@.len() == "Noise"@.len()); } }
        assert("Granular"@ != "Gain"@) by { reveal_strlit("Granular"); reveal_strlit("Gain"); if "Granular"@ == "Gain"@ { assert("Granular"@.len() == "Gain"@.len()); } }
        assert("Granular"@ != "Add"@) by { reveal_strlit("Granular"); reveal_strlit("Add"); if "Granular"@ == "Add"@ { assert("Granular"@.len() == "Add"@.len()); } }
        assert("Granular"@ != "Multiply"@) by { reveal_strlit("Granular"); reveal_strlit("Multiply"); if "Granular"@ == "Multiply"@ { assert("Granular"@[0] == "Multiply"@[0]); } }
        assert("Granular"@ != "Clip"@) by { reveal_strlit("Granular"); reveal_strlit("Clip"); if "Granular"@ == "Clip"@ { assert("Granular"@.len() == "Clip"@.len()); } }
        assert("Granular"@ != "Filter"@) by { reveal_strlit("Granular"); reveal_strlit("Filter"); if "Granular"@ == "Filter"@ { assert("Granular"@.len() == "Filter"@.len()); } }
        assert("Granular"@ != "Biquad"@) by { reveal_strlit("Granular"); reveal_strlit("Biquad"); if "Granular"@ == "Biquad"@ { assert("Granular"@.len() == "Biquad"@.len()); } }
        assert("Granular"@ != "Compressor"@) by { reveal_strlit("Granular"); reveal_strlit("Compressor"); if "Granular"@ == "Compressor"@ { assert("Granular"@.len() == "Compressor"@.len()); } }
        assert("Granular"@ != "Dynamics"@) by { reveal_strlit("Granular"); reveal_strlit("Dynamics"); if "Granular"@ == "Dynamics"@ { assert("Granular"@[0] == "Dynamics"@[0]); } }
        assert("Granular"@ != "Delay"@) by { reveal_strlit("Granular"); reveal_strlit("Delay"); if "Granular"@ == "Delay"@ { assert("Granular"@.len() == "Delay"@.len()); } }
        assert("Granular"@ != "Sampler"@) by { reveal_strlit("Granular"); reveal_strlit("Sampler"); if "Granular"@ == "Sampler"@ { assert("Granular"@.len() == "Sampler"@.len()); } }
        assert("Granular"@ != "AssetReader"@) by { reveal_strlit("Granular"); reveal_strlit("AssetReader"); if "Granular"@ == "AssetReader"@ { assert("Granular"@.len() == "AssetReader"@.len()); } }
        assert("Granular"@ != "Trigger"@) by { reveal_strlit("Granular"); reveal_strlit("Trigger"); if "Granular"@ == "Trigger"@ { assert("Granular"@.len() == "Trigger"@.len()); } }
        assert("Granular"@ != "Envelope"@) by { reveal_strlit("Granular"); reveal_strlit("Envelope"); if "Granular"@ == "Envelope"@ { assert("Granular"@[0] == "Envelope"@[0]); } }
        assert("Granular"@ != "ADSR"@) by { reveal_strlit("Granular"); reveal_strlit("ADSR"); if "Granular"@ == "ADSR"@ { assert("Granular"@.len() == "ADSR"@.len()); } }
        assert("Granular"@ != "Automation"@) by { reveal_strlit("Granular"); reveal_strlit("Automation"); if "Granular"@ == "Automation"@ { assert("Granular"@.len() == "Automation"@.len()); } }
        assert("Granular"@ != "MidiIn"@) by { reveal_strlit("Granular"); reveal_strlit("MidiIn"); if "Granular"@ == "MidiIn"@ { assert("Granular"@.len() == "MidiIn"@.len()); } }
        assert("Granular"@ != "Sequencer"@) by { reveal_strlit("Granular"); reveal_strlit("Sequencer"); if "Granular"@ == "Sequencer"@ { assert("Granular"@.len() == "Sequencer"@.len()); } }
        assert("Granular"@ != "Wavefolder"@) by { reveal_strlit("Granular"); reveal_strlit("Wavefolder"); if "Granular"@ == "Wavefolder"@ { assert("Granular"@.len() == "Wavefolder"@.len()); } }
        assert("Granular"@ != "Lorenz"@) by { reveal_strlit("Granular"); reveal_strlit("Lorenz"); if "Granular"@ == "Lorenz"@ { assert("Granular"@.len() == "Lorenz"@.len()); } }
        assert("Granular"@ != "MackeyGlass"@) by { reveal_strlit("Granular"); reveal_strlit("MackeyGlass"); if "Granular"@ == "MackeyGlass"@ { assert("Granular"@.len() == "MackeyGlass"@.len()); } }
        assert("Granular"@ != "GrayScott"@) by { reveal_strlit("Granular"); reveal_strlit("GrayScott"); if "Granular"@ == "GrayScott"@ { assert("Granular"@.len() == "GrayScott"@.len()); } }
        assert("Granular"@ != "ReactionDiffusion"@) by { reveal_strlit("Granular"); reveal_strlit("ReactionDiffusion"); if "Granular"@ == "ReactionDiffusion"@ { assert("Granular"@.len() == "ReactionDiffusion"@.len()); } }
        assert("Granular"@ != "BitCrush"@) by { reveal_strlit("Granular"); reveal_strlit("BitCrush"); if "Granular"@ == "BitCrush"@ { assert("Granular"@[0] == "BitCrush"@[0]); } }
        assert("Granular"@ != "WaveShaper"@) by { reveal_strlit("Granular"); reveal_strlit("WaveShaper"); if "Granular"@ == "WaveShaper"@ { assert("Granular"@.len() == "WaveShaper"@.len()); } }
        assert("Granular"@ != "Pll"@) by { reveal_strlit("Granular"); reveal_strlit("Pll"); if "Granular"@ == "Pll"@ { assert("Granular"@.len() == "Pll"@.len()); } }
        assert("Granular"@ != "SlewLimiter"@) by { reveal_strlit("Granular"); reveal_strlit("SlewLimiter"); if "Granular"@ == "SlewLimiter"@ { assert("Granular"@.len() == "SlewLimiter"@.len()); } }
        assert("Granular"@ != "Slew"@) by { reveal_strlit("Granular"); reveal_strlit("Slew"); if "Granular"@ == "Slew"@ { assert("Granular"@.len() == "Slew"@.len()); } }
        assert("Granular"@ != "SampleHold"@) by { reveal_strlit("Granular"); reveal_strlit("SampleHold"); if "Granular"@ == "SampleHold"@ { assert("Granular"@.len() == "SampleHold"@.len()); } }
        assert("Granular"@ != "S&H"@) by { reveal_strlit("Granular"); reveal_strlit("S&H"); if "Granular"@ == "S&H"@ { assert("Granular"@.len() == "S&H"@.len()); } }
        assert("Granular"@ != "Clock"@) by { reveal_strlit("Granular"); reveal_strlit("Clock"); if "Granular"@ == "Clock"@ { assert("Granular"@.len() == "Clock"@.len()); } }
        assert("Granular"@ != "ProbabilityGate"@) by { reveal_strlit("Granular"); reveal_strlit("ProbabilityGate"); if "Granular"@ == "ProbabilityGate"@ { assert("Granular"@.len() == "ProbabilityGate"@.len()); } }
        assert("Granular"@ != "Reverb"@) by { reveal_strlit("Granular"); reveal_strlit("Reverb"); if "Granular"@ == "Reverb"@ { assert("Granular"@.len() == "Reverb"@.len()); } }
        assert("Granular"@ != "SpringReverb"@) by { reveal_strlit("Granular"); reveal_strlit("SpringReverb"); if "Granular"@ == "SpringReverb"@ { assert("Granular"@.len() == "SpringReverb"@.len()); } }
}

proof fn lemma_name_logic(has_midi: bool)
    ensures
        dsp_kind_for_name("Logic"@, has_midi) == DspKind::Logic,
{
        assert("Logic"@ != "Oscillator"@) by { reveal_strlit("Logic"); reveal_strlit("Oscillator"); if "Logic"@ == "Oscillator"@ { assert("Logic"@.len() == "Oscillator"@.len()); } }
        assert("Logic"@ != "Sine"@) by { reveal_strlit("Logic"); reveal_strlit("Sine"); if "Logic"@ == "Sine"@ { assert("Logic"@.len() == "Sine"@.len()); } }
        assert("Logic"@ != "Noise"@) by { reveal_strlit("Logic"); reveal_strlit("Noise"); if "Logic"@ == "Noise"@ { assert("Logic"@[0] == "Noise"@[0]); } }
        assert("Logic"@ != "Gain"@) by { reveal_strlit("Logic"); reveal_strlit("Gain"); if "Logic"@ == "Gain"@ { assert("Logic"@.len() == "Gain"@.len()); } }
        assert("Logic"@ != "Add"@) by { reveal_strlit("Logic"); reveal_strlit("Add"); if "Logic"@ == "Add"@ { assert("Logic"@.len() == "Add"@.len()); } }
        assert("Logic"@ != "Multiply"@) by { reveal_strlit("Logic"); reveal_strlit("Multiply"); if "Logic"@ == "Multiply"@ { assert("Logic"@.len() == "Multiply"@.len()); } }
        assert("Logic"@ != "Clip"@) by { reveal_strlit("Logic"); reveal_strlit("Clip"); if "Logic"@ == "Clip"@ { assert("Logic"@.len() == "Clip"@.len()); } }
        assert("Logic"@ != "Filter"@) by { reveal_strlit("Logic"); reveal_strlit("Filter"); if "Logic"@ == "Filter"@ { assert("Logic"@.len() == "Filter"@.len()); } }
        assert("Logic"@ != "Biquad"@) by { reveal_strlit("Logic"); reveal_strlit("Biquad"); if "Logic"@ == "Biquad"@ { assert("Logic"@.len() == "Biquad"@.len()); } }
        assert("Logic"@ != "Compressor"@) by { reveal_strlit("Logic"); reveal_strlit("Compressor"); if "Logic"@ == "Compressor"@ { assert("Logic"@.len() == "Compressor"@.len()); } }
        assert("Logic"@ != "Dynamics"@) by { reveal_strlit("Logic"); reveal_strlit("Dynamics"); if "Logic"@ == "Dynamics"@ { assert("Logic"@.len() == "Dynamics"@.len()); } }
        assert("Logic"@ != "Delay"@) by { reveal_strlit("Logic"); reveal_strlit("Delay"); if "Logic"@ == "Delay"@ { assert("Logic"@[0] == "Delay"@[0]); } }
        assert("Logic"@ != "Sampler"@) by { reveal_strlit("Logic"); reveal_strlit("Sampler"); if "Logic"@ == "Sampler"@ { assert("Logic"@.len() == "Sampler"@.len()); } }
        assert("Logic"@ != "AssetReader"@) by { reveal_strlit("Logic"); reveal_strlit("AssetReader"); if "Logic"@ == "AssetReader"@ { assert("Logic"@.len() == "AssetReader"@.len()); } }
        assert("Logic"@ != "Trigger"@) by { reveal_strlit("Logic"); reveal_strlit("Trigger"); if "Logic"@ == "Trigger"@ { assert("Logic"@.len() == "Trigger"@.len()); } }
        assert("Logic"@ != "Envelope"@) by { reveal_strlit("Logic"); reveal_strlit("Envelope"); if "Logic"@ == "Envelope"@ { assert("Logic"@.len() == "Envelope"@.len()); } }
        assert("Logic"@ != "ADSR"@) by { reveal_strlit("Logic"); reveal_strlit("ADSR"); if "Logic"@ == "ADSR"@ { assert("Logic"@.len() == "ADSR"@.len()); } }
        assert("Logic"@ != "Automation"@) by { reveal_strlit("Logic"); reveal_strlit("Automation"); if "Logic"@ == "Automation"@ { assert("Logic"@.len() == "Automation"@.len()); } }
        assert("Logic"@ != "MidiIn"@) by { reveal_strlit("Logic"); reveal_strlit("MidiIn"); if "Logic"@ == "MidiIn"@ { assert("Logic"@.len() == "MidiIn"@.len()); } }
        assert("Logic"@ != "Sequencer"@) by { reveal_strlit("Logic"); reveal_strlit("Sequencer"); if "Logic"@ == "Sequencer"@ { assert("Logic"@.len() == "Sequencer"@.len()); } }
        assert("Logic"@ != "Wavefolder"@) by { reveal_strlit("Logic"); reveal_strlit("Wavefolder"); if "Logic"@ == "Wavefolder"@ { assert("Logic"@.len() == "Wavefolder"@.len()); } }
        assert("Logic"@ != "Lorenz"@) by { reveal_strlit("Logic"); reveal_strlit("Lorenz"); if "Logic"@ == "Lorenz"@ { assert("Logic"@.len() == "Lorenz"@.len()); } }
        assert("Logic"@ != "MackeyGlass"@) by { reveal_strlit("Logic"); reveal_strlit("MackeyGlass"); if "Logic"@ == "MackeyGlass"@ { assert("Logic"@.len() == "MackeyGlass"@.len()); } }
        assert("Logic"@ != "GrayScott"@) by { reveal_strlit("Logic"); reveal_strlit("GrayScott"); if "Logic"@ == "GrayScott"@ { assert("Logic"@.len() == "GrayScott"@.len()); } }
        assert("Logic"@ != "ReactionDiffusion"@) by { reveal_strlit("Logic"); reveal_strlit("ReactionDiffusion"); if "Logic"@ == "ReactionDiffusion"@ { assert("Logic"@.len() == "ReactionDiffusion"@.len()); } }
        assert("Logic"@ != "BitCrush"@) by { reveal_strlit("Logic"); reveal_strlit("BitCrush"); if "Logic"@ == "BitCrush"@ { assert("Logic"@.len() == "BitCrush"@.len()); } }
        assert("Logic"@ != "WaveShaper"@) by { reveal_strlit("Logic"); reveal_strlit("WaveShaper"); if "Logic"@ == "WaveShaper"@ { assert("Logic"@.len() == "WaveShaper"@.len()); } }
        assert("Logic"@ != "Pll"@) by { reveal_strlit("Logic"); reveal_strlit("Pll"); if "Logic"@ == "Pll"@ { assert("Logic"@.len() == "Pll"@.len()); } }
        assert("Logic"@ != "SlewLimiter"@) by { reveal_strlit("Logic"); reveal_strlit("SlewLimiter"); if "Logic"@ == "SlewLimiter"@ { assert("Logic"@.len() == "SlewLimiter"@.len()); } }
        assert("Logic"@ != "Slew"@) by { reveal_strlit("Logic"); reveal_strlit("Slew"); if "Logic"@ == "Slew"@ { assert("Logic"@.len() == "Slew"@.len()); } }
        assert("Logic"@ != "SampleHold"@) by { reveal_strlit("Logic"); reveal_strlit("SampleHold"); if "Logic"@ == "SampleHold"@ { assert("Logic"@.len() == "SampleHold"@.len()); } }
        assert("Logic"@ != "S&H"@) by { reveal_strlit("Logic"); reveal_strlit("S&H"); if "Logic"@ == "S&H"@ { assert("Logic"@.len() == "S&H"@.len()); } }
        assert("Logic"@ != "Clock"@) by { reveal_strlit("Logic"); reveal_strlit("Clock"); if "Logic"@ == "Clock"@ { assert("Logic"@[0] == "Clock"@[0]); } }
        assert("Logic"@ != "ProbabilityGate"@) by { reveal_strlit("Logic"); reveal_strlit("ProbabilityGate"); if "Logic"@ == "ProbabilityGate"@ { assert("Logic"@.len() == "ProbabilityGate"@.len()); } }
        assert("Logic"@ != "Reverb"@) by { reveal_strlit("Logic"); reveal_strlit("Reverb"); if "Logic"@ == "Reverb"@ { assert("Logic"@.len() == "Reverb"@.len()); } }
        assert("Logic"@ != "SpringReverb"@) by { reveal_strlit("Logic"); reveal_strlit("SpringReverb"); if "Logic"@ == "SpringReverb"@ { assert("Logic"@.len() == "SpringReverb"@.len()); } }
        assert("Logic"@ != "Granular"@) by { reveal_strlit("Logic"); reveal_strlit("Granular"); if "Logic"@ == "Granular"@ { assert("Logic"@.len() == "Granular"@.len()); } }
}

proof fn lemma_name_spectralfreeze(has_midi: bool)
    ensures
        dsp_kind_for_name("SpectralFreeze"@, has_midi) == DspKind::SpectralFreeze,
{
        assert("SpectralFreeze"@ != "Oscillator"@) by { reveal_strlit("SpectralFreeze"); reveal_strlit("Oscillator"); if "SpectralFreeze"@ == "Oscillator"@ { assert("SpectralFreeze"@.len() == "Oscillator"@.len()); } }
        assert("SpectralFreeze"@ != "Sine"@) by { reveal_strlit("SpectralFreeze"); reveal_strlit("Sine"); if "SpectralFreeze"@ == "Sine"@ { assert("SpectralFreeze"@.len() == "Sine"@.len()); } }
        assert("SpectralFreeze"@ != "Noise"@) by { reveal_strlit("SpectralFreeze"); reveal_strlit("Noise"); if "SpectralFreeze"@ == "Noise"@ { assert("SpectralFreeze"@.len() == "Noise"@.len()); } }
        assert("SpectralFreeze"@ != "Gain"@) by { reveal_strlit("SpectralFreeze"); reveal_strlit("Gain"); if "SpectralFreeze"@ == "Gain"@ { assert("SpectralFreeze"@.len() == "Gain"@.len()); } }
        assert("SpectralFreeze"@ != "Add"@) by { reveal_strlit("SpectralFreeze"); reveal_strlit("Add"); if "SpectralFreeze"@ == "Add"@ { assert("SpectralFreeze"@.len() == "Add"@.len()); } }
        assert("SpectralFreeze"@ != "Multiply"@) by { reveal_strlit("SpectralFreeze"); reveal_strlit("Multiply"); if "SpectralFreeze"@ == "Multiply"@ { assert("SpectralFreeze"@.len() == "Multiply"@.len()); } }
        assert("SpectralFreeze"@ != "Clip"@) by { reveal_strlit("SpectralFreeze"); reveal_strlit("Clip"); if "SpectralFreeze"@ == "Clip"@ { assert("SpectralFreeze"@.len() == "Clip"@.len()); } }
        assert("SpectralFreeze"@ != "Filter"@) by { reveal_strlit("SpectralFreeze"); reveal_strlit("Filter"); if "SpectralFreeze"@ == "Filter"@ { assert("SpectralFreeze"@.len() == "Filter"@.len()); } }
        assert("SpectralFreeze"@ != "Biquad"@) by { reveal_strlit("SpectralFreeze"); reveal_strlit("Biquad"); if "SpectralFreeze"@ == "Biquad"@ { assert("SpectralFreeze"@.len() == "Biquad"@.len()); } }
        assert("SpectralFreeze"@ != "Compressor"@) by { reveal_strlit("SpectralFreeze"); reveal_strlit("Compressor"); if "SpectralFreeze"@ == "Compressor"@ { assert("SpectralFreeze"@.len() == "Compressor"@.len()); } }
        assert("SpectralFreeze"@ != "Dynamics"@) by { reveal_strlit("SpectralFreeze"); reveal_strlit("Dynamics"); if "SpectralFreeze"@ == "Dynamics"@ { assert("SpectralFreeze"@.len() == "Dynamics"@.len()); } }
        assert("SpectralFreeze"@ != "Delay"@) by { reveal_strlit("SpectralFreeze"); reveal_strlit("Delay"); if "SpectralFreeze"@ == "Delay"@ { assert("SpectralFreeze"@.len() == "Delay"@.len()); } }
        assert("SpectralFreeze"@ != "Sampler"@) by { reveal_strlit("SpectralFreeze"); reveal_strlit("Sampler"); if "SpectralFreeze"@ == "Sampler"@ { assert("SpectralFreeze"@.len() == "Sampler"@.len()); } }
        assert("SpectralFreeze"@ != "AssetReader"@) by { reveal_strlit("SpectralFreeze"); reveal_strlit("AssetReader"); if "SpectralFreeze"@ == "AssetReader"@ { assert("SpectralFreeze"@.len() == "AssetReader"@.len()); } }
        assert("SpectralFreeze"@ != "Trigger"@) by { reveal_strlit("SpectralFreeze"); reveal_strlit("Trigger"); if "SpectralFreeze"@ == "Trigger"@ { assert("SpectralFreeze"@.len() == "Trigger"@.len()); } }
        assert("SpectralFreeze"@ != "Envelope"@) by { reveal_strlit("SpectralFreeze"); reveal_strlit("Envelope"); if "SpectralFreeze"@ == "Envelope"@ { assert("SpectralFreeze"@.len() == "Envelope"@.len()); } }
        assert("SpectralFreeze"@ != "ADSR"@) by { reveal_strlit("SpectralFreeze"); reveal_strlit("ADSR"); if "SpectralFreeze"@ == "ADSR"@ { assert("SpectralFreeze"@.len() == "ADSR"@.len()); } }
        assert("SpectralFreeze"@ != "Automation"@) by { reveal_strlit("SpectralFreeze"); reveal_strlit("Automation"); if "SpectralFreeze"@ == "Automation"@ { assert("SpectralFreeze"@.len() == "Automation"@.len()); } }
        assert("SpectralFreeze"@ != "MidiIn"@) by { reveal_strlit("SpectralFreeze"); reveal_strlit("MidiIn"); if "SpectralFreeze"@ == "MidiIn"@ { assert("SpectralFreeze"@.len() == "MidiIn"@.len()); } }
        assert("SpectralFreeze"@ != "Sequencer"@) by { reveal_strlit("SpectralFreeze"); reveal_strlit("Sequencer"); if "SpectralFreeze"@ == "Sequencer"@ { assert("SpectralFreeze"@.len() == "Sequencer"@.len()); } }
        assert("SpectralFreeze"@ != "Wavefolder"@) by { reveal_strlit("SpectralFreeze"); reveal_strlit("Wavefolder"); if "SpectralFreeze"@ == "Wavefolder"@ { assert("SpectralFreeze"@.len() == "Wavefolder"@.len()); } }
        assert("SpectralFreeze"@ != "Lorenz"@) by { reveal_strlit("SpectralFreeze"); reveal_strlit("Lorenz"); if "SpectralFreeze"@ == "Lorenz"@ { assert("SpectralFreeze"@.len() == "Lorenz"@.len()); } }
        assert("SpectralFreeze"@ != "MackeyGlass"@) by { reveal_strlit("SpectralFreeze"); reveal_strlit("MackeyGlass"); if "SpectralFreeze"@ == "MackeyGlass"@ { assert("SpectralFreeze"@.len() == "MackeyGlass"@.len()); } }
        assert("SpectralFreeze"@ != "GrayScott"@) by { reveal_strlit("SpectralFreeze"); reveal_strlit("GrayScott"); if "SpectralFreeze"@ == "GrayScott"@ { assert("SpectralFreeze"@.len() == "GrayScott"@.len()); } }
        assert("SpectralFreeze"@ != "ReactionDiffusion"@) by { reveal_strlit("SpectralFreeze"); reveal_strlit("ReactionDiffusion"); if "SpectralFreeze"@ == "ReactionDiffusion"@ { assert("SpectralFreeze"@.len() == "ReactionDiffusion"@.len()); } }
        assert("SpectralFreeze"@ != "BitCrush"@) by { reveal_strlit("SpectralFreeze"); reveal_strlit("BitCrush"); if "SpectralFreeze"@ == "BitCrush"@ { assert("SpectralFreeze"@.len() == "BitCrush"@.len()); } }
        assert("SpectralFreeze"@ != "WaveShaper"@) by { reveal_strlit("SpectralFreeze"); reveal_strlit("WaveShaper"); if "SpectralFreeze"@ == "WaveShaper"@ { assert("SpectralFreeze"@.len() == "WaveShaper"@.len()); } }
        assert("SpectralFreeze"@ != "Pll"@) by { reveal_strlit("SpectralFreeze"); reveal_strlit("Pll"); if "SpectralFreeze"@ == "Pll"@ { assert("SpectralFreeze"@.len() == "Pll"@.len()); } }
        assert("SpectralFreeze"@ != "SlewLimiter"@) by { reveal_strlit("SpectralFreeze"); reveal_strlit("SlewLimiter"); if "SpectralFreeze"@ == "SlewLimiter"@ { assert("SpectralFreeze"@.len() == "SlewLimiter"@.len()); } }
        assert("SpectralFreeze"@ != "Slew"@) by { reveal_strlit("SpectralFreeze"); reveal_strlit("Slew"); if "SpectralFreeze"@ == "Slew"@ { assert("SpectralFreeze"@.len() == "Slew"@.len()); } }
        assert("SpectralFreeze"@ != "SampleHold"@) by { reveal_strlit("SpectralFreeze"); reveal_strlit("SampleHold"); if "SpectralFreeze"@ == "SampleHold"@ { assert("SpectralFreeze"@.len() == "SampleHold"@.len()); } }
        assert("SpectralFreeze"@ != "S&H"@) by { reveal_strlit("SpectralFreeze"); reveal_strlit("S&H"); if "SpectralFreeze"@ == "S&H"@ { assert("SpectralFreeze"@.len() == "S&H"@.len()); } }
        assert("SpectralFreeze"@ != "Clock"@) by { reveal_strlit("SpectralFreeze"); reveal_strlit("Clock"); if "SpectralFreeze"@ == "Clock"@ { assert("SpectralFreeze"@.len() == "Clock"@.len()); } }
        assert("SpectralFreeze"@ != "ProbabilityGate"@) by { reveal_strlit("SpectralFreeze"); reveal_strlit("ProbabilityGate"); if "SpectralFreeze"@ == "ProbabilityGate"@ { assert("SpectralFreeze"@.len() == "ProbabilityGate"@.len()); } }
        assert("SpectralFreeze"@ != "Reverb"@) by { reveal_strlit("SpectralFreeze"); reveal_strlit("Reverb"); if "SpectralFreeze"@ == "Reverb"@ { assert("SpectralFreeze"@.len() == "Reverb"@.len()); } }
        assert("SpectralFreeze"@ != "SpringReverb"@) by { reveal_strlit("SpectralFreeze"); reveal_strlit("SpringReverb"); if "SpectralFreeze"@ == "SpringReverb"@ { assert("SpectralFreeze"@.len() == "SpringReverb"@.len()); } }
        assert("SpectralFreeze"@ != "Granular"@) by { reveal_strlit("SpectralFreeze"); reveal_strlit("Granular"); if "SpectralFreeze"@ == "Granular"@ { assert("SpectralFreeze"@.len() == "Granular"@.len()); } }
        assert("SpectralFreeze"@ != "Logic"@) by { reveal_strlit("SpectralFreeze"); reveal_strlit("Logic"); if "SpectralFreeze"@ == "Logic"@ { assert("SpectralFreeze"@.len() == "Logic"@.len()); } }
}

proof fn lemma_name_fftconvolve(has_midi: bool)
    ensures
        dsp_kind_for_name("FFTConvolve"@, has_midi) == DspKind::FftConvolve,
{
        assert("FFTConvolve"@ != "Oscillator"@) by { reveal_strlit("FFTConvolve"); reveal_strlit("Oscillator"); if "FFTConvolve"@ == "Oscillator"@ { assert("FFTConvolve"@.len() == "Oscillator"@.len()); } }
        assert("FFTConvolve"@ != "Sine"@) by { reveal_strlit("FFTConvolve"); reveal_strlit("Sine"); if "FFTConvolve"@ == "Sine"@ { assert("FFTConvolve"@.len() == "Sine"@.len()); } }
        assert("FFTConvolve"@ != "Noise"@) by { reveal_strlit("FFTConvolve"); reveal_strlit("Noise"); if "FFTConvolve"@ == "Noise"@ { assert("FFTConvolve"@.len() == "Noise"@.len()); } }
        assert("FFTConvolve"@ != "Gain"@) by { reveal_strlit("FFTConvolve"); reveal_strlit("Gain"); if "FFTConvolve"@ == "Gain"@ { assert("FFTConvolve"@.len() == "Gain"@.len()); } }
        assert("FFTConvolve"@ != "Add"@) by { reveal_strlit("FFTConvolve"); reveal_strlit("Add"); if "FFTConvolve"@ == "Add"@ { assert("FFTConvolve"@.len() == "Add"@.len()); } }
        assert("FFTConvolve"@ != "Multiply"@) by { reveal_strlit("FFTConvolve"); reveal_strlit("Multiply"); if "FFTConvolve"@ == "Multiply"@ { assert("FFTConvolve"@.len() == "Multiply"@.len()); } }
        assert("FFTConvolve"@ != "Clip"@) by { reveal_strlit("FFTConvolve"); reveal_strlit("Clip"); if "FFTConvolve"@ == "Clip"@ { assert("FFTConvolve"@.len() == "Clip"@.len()); } }
        assert("FFTConvolve"@ != "Filter"@) by { reveal_strlit("FFTConvolve"); reveal_strlit("Filter"); if "FFTConvolve"@ == "Filter"@ { assert("FFTConvolve"@.len() == "Filter"@.len()); } }
        assert("FFTConvolve"@ != "Biquad"@) by { reveal_strlit("FFTConvolve"); reveal_strlit("Biquad"); if "FFTConvolve"@ == "Biquad"@ { assert("FFTConvolve"@.len() == "Biquad"@.len()); } }
        assert("FFTConvolve"@ != "Compressor"@) by { reveal_strlit("FFTConvolve"); reveal_strlit("Compressor"); if "FFTConvolve"@ == "Compressor"@ { assert("FFTConvolve"@.len() == "Compressor"@.len()); } }
        assert("FFTConvolve"@ != "Dynamics"@) by { reveal_strlit("FFTConvolve"); reveal_strlit("Dynamics"); if "FFTConvolve"@ == "Dynamics"@ { assert("FFTConvolve"@.len() == "Dynamics"@.len()); } }
        assert("FFTConvolve"@ != "Delay"@) by { reveal_strlit("FFTConvolve"); reveal_strlit("Delay"); if "FFTConvolve"@ == "Delay"@ { assert("FFTConvolve"@.len() == "Delay"@.len()); } }
        assert("FFTConvolve"@ != "Sampler"@) by { reveal_strlit("FFTConvolve"); reveal_strlit("Sampler"); if "FFTConvolve"@ == "Sampler"@ { assert("FFTConvolve"@.len() == "Sampler"@.len()); } }
        assert("FFTConvolve"@ != "AssetReader"@) by { reveal_strlit("FFTConvolve"); reveal_strlit("AssetReader"); if "FFTConvolve"@ == "AssetReader"@ { assert("FFTConvolve"@[0] == "AssetReader"@[0]); } }
        assert("FFTConvolve"@ != "Trigger"@) by { reveal_strlit("FFTConvolve"); reveal_strlit("Trigger"); if "FFTConvolve"@ == "Trigger"@ { assert("FFTConvolve"@.len() == "Trigger"@.len()); } }
        assert("FFTConvolve"@ != "Envelope"@) by { reveal_strlit("FFTConvolve"); reveal_strlit("Envelope"); if "FFTConvolve"@ == "Envelope"@ { assert("FFTConvolve"@.len() == "Envelope"@.len()); } }
        assert("FFTConvolve"@ != "ADSR"@) by { reveal_strlit("FFTConvolve"); reveal_strlit("ADSR"); if "FFTConvolve"@ == "ADSR"@ { assert("FFTConvolve"@.len() == "ADSR"@.len()); } }
        assert("FFTConvolve"@ != "Automation"@) by { reveal_strlit("FFTConvolve"); reveal_strlit("Automation"); if "FFTConvolve"@ == "Automation"@ { assert("FFTConvolve"@.len() == "Automation"@.len()); } }
        assert("FFTConvolve"@ != "MidiIn"@) by { reveal_strlit("FFTConvolve"); reveal_strlit("MidiIn"); if "FFTConvolve"@ == "MidiIn"@ { assert("FFTConvolve"@.len() == "MidiIn"@.len()); } }
        assert("FFTConvolve"@ != "Sequencer"@) by { reveal_strlit("FFTConvolve"); reveal_strlit("Sequencer"); if "FFTConvolve"@ == "Sequencer"@ { assert("FFTConvolve"@.len() == "Sequencer"@.len()); } }
        assert("FFTConvolve"@ != "Wavefolder"@) by { reveal_strlit("FFTConvolve"); reveal_strlit("Wavefolder"); if "FFTConvolve"@ == "Wavefolder"@ { assert("FFTConvolve"@.len() == "Wavefolder"@.len()); } }
        assert("FFTConvolve"@ != "Lorenz"@) by { reveal_strlit("FFTConvolve"); reveal_strlit("Lorenz"); if "FFTConvolve"@ == "Lorenz"@ { assert("FFTConvolve"@.len() == "Lorenz"@.len()); } }
        assert("FFTConvolve"@ != "MackeyGlass"@) by { reveal_strlit("FFTConvolve"); reveal_strlit("MackeyGlass"); if "FFTConvolve"@ == "MackeyGlass"@ { assert("FFTConvolve"@[0] == "MackeyGlass"@[0]); } }
        assert("FFTConvolve"@ != "GrayScott"@) by { reveal_strlit("FFTConvolve"); reveal_strlit("GrayScott"); if "FFTConvolve"@ == "GrayScott"@ { assert("FFTConvolve"@.len() == "GrayScott"@.len()); } }
        assert("FFTConvolve"@ != "ReactionDiffusion"@) by { reveal_strlit("FFTConvolve"); reveal_strlit("ReactionDiffusion"); if "FFTConvolve"@ == "ReactionDiffusion"@ { assert("FFTConvolve"@.len() == "ReactionDiffusion"@.len()); } }
        assert("FFTConvolve"@ != "BitCrush"@) by { reveal_strlit("FFTConvolve"); reveal_strlit("BitCrush"); if "FFTConvolve"@ == "BitCrush"@ { assert("FFTConvolve"@.len() == "BitCrush"@.len()); } }
        assert("FFTConvolve"@ != "WaveShaper"@) by { reveal_strlit("FFTConvolve"); reveal_strlit("WaveShaper"); if "FFTConvolve"@ == "WaveShaper"@ { assert("FFTConvolve"@.len() == "WaveShaper"@.len()); } }
        assert("FFTConvolve"@ != "Pll"@) by { reveal_strlit("FFTConvolve"); reveal_strlit("Pll"); if "FFTConvolve"@ == "Pll"@ { assert("FFTConvolve"@.len() == "Pll"@.len()); } }
        assert("FFTConvolve"@ != "SlewLimiter"@) by { reveal_strlit("FFTConvolve"); reveal_strlit("SlewLimiter"); if "FFTConvolve"@ == "SlewLimiter"@ { assert("FFTConvolve"@[0] == "SlewLimiter"@[0]); } }
        assert("FFTConvolve"@ != "Slew"@) by { reveal_strlit("FFTConvolve"); reveal_strlit("Slew"); if "FFTConvolve"@ == "Slew"@ { assert("FFTConvolve"@.len() == "Slew"@.len()); } }
        assert("FFTConvolve"@ != "SampleHold"@) by { reveal_strlit("FFTConvolve"); reveal_strlit("SampleHold"); if "FFTConvolve"@ == "SampleHold"@ { assert("FFTConvolve"@.len() == "SampleHold"@.len()); } }
        assert("FFTConvolve"@ != "S&H"@) by { reveal_strlit("FFTConvolve"); reveal_strlit("S&H"); if "FFTConvolve"@ == "S&H"@ { assert("FFTConvolve"@.len() == "S&H"@.len()); } }
        assert("FFTConvolve"@ != "Clock"@) by { reveal_strlit("FFTConvolve"); reveal_strlit("Clock"); if "FFTConvolve"@ == "Clock"@ { assert("FFTConvolve"@.len() == "Clock"@.len()); } }
        assert("FFTConvolve"@ != "ProbabilityGate"@) by { reveal_strlit("FFTConvolve"); reveal_strlit("ProbabilityGate"); if "FFTConvolve"@ == "ProbabilityGate"@ { assert("FFTConvolve"@.len() == "ProbabilityGate"@.len()); } }
        assert("FFTConvolve"@ != "Reverb"@) by { reveal_strlit("FFTConvolve"); reveal_strlit("Reverb"); if "FFTConvolve"@ == "Reverb"@ { assert("FFTConvolve"@.len() == "Reverb"@.len()); } }
        assert("FFTConvolve"@ != "SpringReverb"@) by { reveal_strlit("FFTConvolve"); reveal_strlit("SpringReverb"); if "FFTConvolve"@ == "SpringReverb"@ { assert("FFTConvolve"@.len() == "SpringReverb"@.len()); } }
        assert("FFTConvolve"@ != "Granular"@) by { reveal_strlit("FFTConvolve"); reveal_strlit("Granular"); if "FFTConvolve"@ == "Granular"@ { assert("FFTConvolve"@.len() == "Granular"@.len()); } }
        assert("FFTConvolve"@ != "Logic"@) by { reveal_strlit("FFTConvolve"); reveal_strlit("Logic"); if "FFTConvolve"@ == "Logic"@ { assert("FFTConvolve"@.len() == "Logic"@.len()); } }
        assert("FFTConvolve"@ != "SpectralFreeze"@) by { reveal_strlit("FFTConvolve"); reveal_strlit("SpectralFreeze"); if "FFTConvolve"@ == "SpectralFreeze"@ { assert("FFTConvolve"@.len() == "SpectralFreeze"@.len()); } }
}

proof fn lemma_name_zdfladder(has_midi: bool)
    ensures
        dsp_kind_for_name("ZdfLadder"@, has_midi) == DspKind::ZdfLadder,
{
        assert("ZdfLadder"@ != "Oscillator"@) by { reveal_strlit("ZdfLadder"); reveal_strlit("Oscillator"); if "ZdfLadder"@ == "Oscillator"@ { assert("ZdfLadder"@.len() == "Oscillator"@.len()); } }
        assert("ZdfLadder"@ != "Sine"@) by { reveal_strlit("ZdfLadder"); reveal_strlit("Sine"); if "ZdfLadder"@ == "Sine"@ { assert("ZdfLadder"@.len() == "Sine"@.len()); } }
        assert("ZdfLadder"@ != "Noise"@) by { reveal_strlit("ZdfLadder"); reveal_strlit("Noise"); if "ZdfLadder"@ == "Noise"@ { assert("ZdfLadder"@.len() == "Noise"@.len()); } }
        assert("ZdfLadder"@ != "Gain"@) by { reveal_strlit("ZdfLadder"); reveal_strlit("Gain"); if "ZdfLadder"@ == "Gain"@ { assert("ZdfLadder"@.len() == "Gain"@.len()); } }
        assert("ZdfLadder"@ != "Add"@) by { reveal_strlit("ZdfLadder"); reveal_strlit("Add"); if "ZdfLadder"@ == "Add"@ { assert("ZdfLadder"@.len() == "Add"@.len()); } }
        assert("ZdfLadder"@ != "Multiply"@) by { reveal_strlit("ZdfLadder"); reveal_strlit("Multiply"); if "ZdfLadder"@ == "Multiply"@ { assert("ZdfLadder"@.len() == "Multiply"@.len()); } }
        assert("ZdfLadder"@ != "Clip"@) by { reveal_strlit("ZdfLadder"); reveal_strlit("Clip"); if "ZdfLadder"@ == "Clip"@ { assert("ZdfLadder"@.len() == "Clip"@.len()); } }
        assert("ZdfLadder"@ != "Filter"@) by { reveal_strlit("ZdfLadder"); reveal_strlit("Filter"); if "ZdfLadder"@ == "Filter"@ { assert("ZdfLadder"@.len() == "Filter"@.len()); } }
        assert("ZdfLadder"@ != "Biquad"@) by { reveal_strlit("ZdfLadder"); reveal_strlit("Biquad"); if "ZdfLadder"@ == "Biquad"@ { assert("ZdfLadder"@.len() == "Biquad"@.len()); } }
        assert("ZdfLadder"@ != "Compressor"@) by { reveal_strlit("ZdfLadder"); reveal_strlit("Compressor"); if "ZdfLadder"@ == "Compressor"@ { assert("ZdfLadder"@.len() == "Compressor"@.len()); } }
        assert("ZdfLadder"@ != "Dynamics"@) by { reveal_strlit("ZdfLadder"); reveal_strlit("Dynamics"); if "ZdfLadder"@ == "Dynamics"@ { assert("ZdfLadder"@.len() == "Dynamics"@.len()); } }
        assert("ZdfLadder"@ != "Delay"@) by { reveal_strlit("ZdfLadder"); reveal_strlit("Delay"); if "ZdfLadder"@ == "Delay"@ { assert("ZdfLadder"@.len() == "Delay"@.len()); } }
        assert("ZdfLadder"@ != "Sampler"@) by { reveal_strlit("ZdfLadder"); reveal_strlit("Sampler"); if "ZdfLadder"@ == "Sampler"@ { assert("ZdfLadder"@.len() == "Sampler"@.len()); } }
        assert("ZdfLadder"@ != "AssetReader"@) by { reveal_strlit("ZdfLadder"); reveal_strlit("AssetReader"); if "ZdfLadder"@ == "AssetReader"@ { assert("ZdfLadder"@.len() == "AssetReader"@.len()); } }
        assert("ZdfLadder"@ != "Trigger"@) by { reveal_strlit("ZdfLadder"); reveal_strlit("Trigger"); if "ZdfLadder"@ == "Trigger"@ { assert("ZdfLadder"@.len() == "Trigger"@.len()); } }
        assert("ZdfLadder"@ != "Envelope"@) by { reveal_strlit("ZdfLadder"); reveal_strlit("Envelope"); if "ZdfLadder"@ == "Envelope"@ { assert("ZdfLadder"@.len() == "Envelope"@.len()); } }
        assert("ZdfLadder"@ != "ADSR"@) by { reveal_strlit("ZdfLadder"); reveal_strlit("ADSR"); if "ZdfLadder"@ == "ADSR"@ { assert("ZdfLadder"@.len() == "ADSR"@.len()); } }
        assert("ZdfLadder"@ != "Automation"@) by { reveal_strlit("ZdfLadder"); reveal_strlit("Automation"); if "ZdfLadder"@ == "Automation"@ { assert("ZdfLadder"@.len() == "Automation"@.len()); } }
        assert("ZdfLadder"@ != "MidiIn"@) by { reveal_strlit("ZdfLadder"); reveal_strlit("MidiIn"); if "ZdfLadder"@ == "MidiIn"@ { assert("ZdfLadder"@.len() == "MidiIn"@.len()); } }
        assert("ZdfLadder"@ != "Sequencer"@) by { reveal_strlit("ZdfLadder"); reveal_strlit("Sequencer"); if "ZdfLadder"@ == "Sequencer"@ { assert("ZdfLadder"@[0] == "Sequencer"@[0]); } }
        assert("ZdfLadder"@ != "Wavefolder"@) by { reveal_strlit("ZdfLadder"); reveal_strlit("Wavefolder"); if "ZdfLadder"@ == "Wavefolder"@ { assert("ZdfLadder"@.len() == "Wavefolder"@.len()); } }
        assert("ZdfLadder"@ != "Lorenz"@) by { reveal_strlit("ZdfLadder"); reveal_strlit("Lorenz"); if "ZdfLadder"@ == "Lorenz"@ { assert("ZdfLadder"@.len() == "Lorenz"@.len()); } }
        assert("ZdfLadder"@ != "MackeyGlass"@) by { reveal_strlit("ZdfLadder"); reveal_strlit("MackeyGlass"); if "ZdfLadder"@ == "MackeyGlass"@ { assert("ZdfLadder"@.len() == "MackeyGlass"@.len()); } }
        assert("ZdfLadder"@ != "GrayScott"@) by { reveal_strlit("ZdfLadder"); reveal_strlit("GrayScott"); if "ZdfLadder"@ == "GrayScott"@ { assert("ZdfLadder"@[0] == "GrayScott"@[0]); } }
        assert("ZdfLadder"@ != "ReactionDiffusion"@) by { reveal_strlit("ZdfLadder"); reveal_strlit("ReactionDiffusion"); if "ZdfLadder"@ == "ReactionDiffusion"@ { assert("ZdfLadder"@.len() == "ReactionDiffusion"@.len()); } }
        assert("ZdfLadder"@ != "BitCrush"@) by { reveal_strlit("ZdfLadder"); reveal_strlit("BitCrush"); if "ZdfLadder"@ == "BitCrush"@ { assert("ZdfLadder"@.len() == "BitCrush"@.len()); } }
        assert("ZdfLadder"@ != "WaveShaper"@) by { reveal_strlit("ZdfLadder"); reveal_strlit("WaveShaper"); if "ZdfLadder"@ == "WaveShaper"@ { assert("ZdfLadder"@.len() == "WaveShaper"@.len()); } }
        assert("ZdfLadder"@ != "Pll"@) by { reveal_strlit("ZdfLadder"); reveal_strlit("Pll"); if "ZdfLadder"@ == "Pll"@ { assert("ZdfLadder"@.len() == "Pll"@.len()); } }
        assert("ZdfLadder"@ != "SlewLimiter"@) by { reveal_strlit("ZdfLadder"); reveal_strlit("SlewLimiter"); if "ZdfLadder"@ == "SlewLimiter"@ { assert("ZdfLadder"@.len() == "SlewLimiter"@.len()); } }
        assert("ZdfLadder"@ != "Slew"@) by { reveal_strlit("ZdfLadder"); reveal_strlit("Slew"); if "ZdfLadder"@ == "Slew"@ { assert("ZdfLadder"@.len() == "Slew"@.len()); } }
        assert("ZdfLadder"@ != "SampleHold"@) by { reveal_strlit("ZdfLadder"); reveal_strlit("SampleHold"); if "ZdfLadder"@ == "SampleHold"@ { assert("ZdfLadder"@.len() == "SampleHold"@.len()); } }
        assert("ZdfLadder"@ != "S&H"@) by { reveal_strlit("ZdfLadder"); reveal_strlit("S&H"); if "ZdfLadder"@ == "S&H"@ { assert("ZdfLadder"@.len() == "S&H"@.len()); } }
        assert("ZdfLadder"@ != "Clock"@) by { reveal_strlit("ZdfLadder"); reveal_strlit("Clock"); if "ZdfLadder"@ == "Clock"@ { assert("ZdfLadder"@.len() == "Clock"@.len()); } }
        assert("ZdfLadder"@ != "ProbabilityGate"@) by { reveal_strlit("ZdfLadder"); reveal_strlit("ProbabilityGate"); if "ZdfLadder"@ == "ProbabilityGate"@ { assert("ZdfLadder"@.len() == "ProbabilityGate"@.len()); } }
        assert("ZdfLadder"@ != "Reverb"@) by { reveal_strlit("ZdfLadder"); reveal_strlit("Reverb"); if "ZdfLadder"@ == "Reverb"@ { assert("ZdfLadder"@.len() == "Reverb"@.len()); } }
        assert("ZdfLadder"@ != "SpringReverb"@) by { reveal_strlit("ZdfLadder"); reveal_strlit("SpringReverb"); if "ZdfLadder"@ == "SpringReverb"@ { assert("ZdfLadder"@.len() == "SpringReverb"@.len()); } }
        assert("ZdfLadder"@ != "Granular"@) by { reveal_strlit("ZdfLadder"); reveal_strlit("Granular"); if "ZdfLadder"@ == "Granular"@ { assert("ZdfLadder"@.len() == "Granular"@.len()); } }
        assert("ZdfLadder"@ != "Logic"@) by { reveal_strlit("ZdfLadder"); reveal_strlit("Logic"); if "ZdfLadder"@ == "Logic"@ { assert("ZdfLadder"@.len() == "Logic"@.len()); } }
        assert("ZdfLadder"@ != "SpectralFreeze"@) by { reveal_strlit("ZdfLadder"); reveal_strlit("SpectralFreeze"); if "ZdfLadder"@ == "SpectralFreeze"@ { assert("ZdfLadder"@.len() == "SpectralFreeze"@.len()); } }
        assert("ZdfLadder"@ != "FFTConvolve"@) by { reveal_strlit("ZdfLadder"); reveal_strlit("FFTConvolve"); if "ZdfLadder"@ == "FFTConvolve"@ { assert("ZdfLadder"@.len() == "FFTConvolve"@.len()); } }
}

proof fn lemma_name_tb303ladder(has_midi: bool)
    ensures
        dsp_kind_for_name("TB303Ladder"@, has_midi) == DspKind::ZdfLadder,
{
        assert("TB303Ladder"@ != "Oscillator"@) by { reveal_strlit("TB303Ladder"); reveal_strlit("Oscillator"); if "TB303Ladder"@ == "Oscillator"@ { assert("TB303Ladder"@.len() == "Oscillator"@.len()); } }
        assert("TB303Ladder"@ != "Sine"@) by { reveal_strlit("TB303Ladder"); reveal_strlit("Sine"); if "TB303Ladder"@ == "Sine"@ { assert("TB303Ladder"@.len() == "Sine"@.len()); } }
        assert("TB303Ladder"@ != "Noise"@) by { reveal_strlit("TB303Ladder"); reveal_strlit("Noise"); if "TB303Ladder"@ == "Noise"@ { assert("TB303Ladder"@.len() == "Noise"@.len()); } }
        assert("TB303Ladder"@ != "Gain"@) by { reveal_strlit("TB303Ladder"); reveal_strlit("Gain"); if "TB303Ladder"@ == "Gain"@ { assert("TB303Ladder"@.len() == "Gain"@.len()); } }
        assert("TB303Ladder"@ != "Add"@) by { reveal_strlit("TB303Ladder"); reveal_strlit("Add"); if "TB303Ladder"@ == "Add"@ { assert("TB303Ladder"@.len() == "Add"@.len()); } }
        assert("TB303Ladder"@ != "Multiply"@) by { reveal_strlit("TB303Ladder"); reveal_strlit("Multiply"); if "TB303Ladder"@ == "Multiply"@ { assert("TB303Ladder"@.len() == "Multiply"@.len()); } }
        assert("TB303Ladder"@ != "Clip"@) by { reveal_strlit("TB303Ladder"); reveal_strlit("Clip"); if "TB303Ladder"@ == "Clip"@ { assert("TB303Ladder"@.len() == "Clip"@.len()); } }
        assert("TB303Ladder"@ != "Filter"@) by { reveal_strlit("TB303Ladder"); reveal_strlit("Filter"); if "TB303Ladder"@ == "Filter"@ { assert("TB303Ladder"@.len() == "Filter"@.len()); } }
        assert("TB303Ladder"@ != "Biquad"@) by { reveal_strlit("TB303Ladder"); reveal_strlit("Biquad"); if "TB303Ladder"@ == "Biquad"@ { assert("TB303Ladder"@.len() == "Biquad"@.len()); } }
        assert("TB303Ladder"@ != "Compressor"@) by { reveal_strlit("TB303Ladder"); reveal_strlit("Compressor"); if "TB303Ladder"@ == "Compressor"@ { assert("TB303Ladder"@.len() == "Compressor"@.len()); } }
        assert("TB303Ladder"@ != "Dynamics"@) by { reveal_strlit("TB303Ladder"); reveal_strlit("Dynamics"); if "TB303Ladder"@ == "Dynamics"@ { assert("TB303Ladder"@.len() == "Dynamics"@.len()); } }
        assert("TB303Ladder"@ != "Delay"@) by { reveal_strlit("TB303Ladder"); reveal_strlit("Delay"); if "TB303Ladder"@ == "Delay"@ { assert("TB303Ladder"@.len() == "Delay"@.len()); } }
        assert("TB303Ladder"@ != "Sampler"@) by { reveal_strlit("TB303Ladder"); reveal_strlit("Sampler"); if "TB303Ladder"@ == "Sampler"@ { assert("TB303Ladder"@.len() == "Sampler"@.len()); } }
        assert("TB303Ladder"@ != "AssetReader"@) by { reveal_strlit("TB303Ladder"); reveal_strlit("AssetReader"); if "TB303Ladder"@ == "AssetReader"@ { assert("TB303Ladder"@[0] == "AssetReader"@[0]); } }
        assert("TB303Ladder"@ != "Trigger"@) by { reveal_strlit("TB303Ladder"); reveal_strlit("Trigger"); if "TB303Ladder"@ == "Trigger"@ { assert("TB303Ladder"@.len() == "Trigger"@.len()); } }
        assert("TB303Ladder"@ != "Envelope"@) by { reveal_strlit("TB303Ladder"); reveal_strlit("Envelope"); if "TB303Ladder"@ == "Envelope"@ { assert("TB303Ladder"@.len() == "Envelope"@.len()); } }
        assert("TB303Ladder"@ != "ADSR"@) by { reveal_strlit("TB303Ladder"); reveal_strlit("ADSR"); if "TB303Ladder"@ == "ADSR"@ { assert("TB303Ladder"@.len() == "ADSR"@.len()); } }
        assert("TB303Ladder"@ != "Automation"@) by { reveal_strlit("TB303Ladder"); reveal_strlit("Automation"); if "TB303Ladder"@ == "Automation"@ { assert("TB303Ladder"@.len() == "Automation"@.len()); } }
        assert("TB303Ladder"@ != "MidiIn"@) by { reveal_strlit("TB303Ladder"); reveal_strlit("MidiIn"); if "TB303Ladder"@ == "MidiIn"@ { assert("TB303Ladder"@.len() == "MidiIn"@.len()); } }
        assert("TB303Ladder"@ != "Sequencer"@) by { reveal_strlit("TB303Ladder"); reveal_strlit("Sequencer"); if "TB303Ladder"@ == "Sequencer"@ { assert("TB303Ladder"@.len() == "Sequencer"@.len()); } }
        assert("TB303Ladder"@ != "Wavefolder"@) by { reveal_strlit("TB303Ladder"); reveal_strlit("Wavefolder"); if "TB303Ladder"@ == "Wavefolder"@ { assert("TB303Ladder"@.len() == "Wavefolder"@.len()); } }
        assert("TB303Ladder"@ != "Lorenz"@) by { reveal_strlit("TB303Ladder"); reveal_strlit("Lorenz"); if "TB303Ladder"@ == "Lorenz"@ { assert("TB303Ladder"@.len() == "Lorenz"@.len()); } }
        assert("TB303Ladder"@ != "MackeyGlass"@) by { reveal_strlit("TB303Ladder"); reveal_strlit("MackeyGlass"); if "TB303Ladder"@ == "MackeyGlass"@ { assert("TB303Ladder"@[0] == "MackeyGlass"@[0]); } }
        assert("TB303Ladder"@ != "GrayScott"@) by { reveal_strlit("TB303Ladder"); reveal_strlit("GrayScott"); if "TB303Ladder"@ == "GrayScott"@ { assert("TB303Ladder"@.len() == "GrayScott"@.len()); } }
        assert("TB303Ladder"@ != "ReactionDiffusion"@) by { reveal_strlit("TB303Ladder"); reveal_strlit("ReactionDiffusion"); if "TB303Ladder"@ == "ReactionDiffusion"@ { assert("TB303Ladder"@.len() == "ReactionDiffusion"@.len()); } }
        assert("TB303Ladder"@ != "BitCrush"@) by { reveal_strlit("TB303Ladder"); reveal_strlit("BitCrush"); if "TB303Ladder"@ == "BitCrush"@ { assert("TB303Ladder"@.len() == "BitCrush"@.len()); } }
        assert("TB303Ladder"@ != "WaveShaper"@) by { reveal_strlit("TB303Ladder"); reveal_strlit("WaveShaper"); if "TB303Ladder"@ == "WaveShaper"@ { assert("TB303Ladder"@.len() == "WaveShaper"@.len()); } }
        assert("TB303Ladder"@ != "Pll"@) by { reveal_strlit("TB303Ladder"); reveal_strlit("Pll"); if "TB303Ladder"@ == "Pll"@ { assert("TB303Ladder"@.len() == "Pll"@.len()); } }
        assert("TB303Ladder"@ != "SlewLimiter"@) by { reveal_strlit("TB303Ladder"); reveal_strlit("SlewLimiter"); if "TB303Ladder"@ == "SlewLimiter"@ { assert("TB303Ladder"@[0] == "SlewLimiter"@[0]); } }
        assert("TB303Ladder"@ != "Slew"@) by { reveal_strlit("TB303Ladder"); reveal_strlit("Slew"); if "TB303Ladder"@ == "Slew"@ { assert("TB303Ladder"@.len() == "Slew"@.len()); } }
        assert("TB303Ladder"@ != "SampleHold"@) by { reveal_strlit("TB303Ladder"); reveal_strlit("SampleHold"); if "TB303Ladder"@ == "SampleHold"@ { assert("TB303Ladder"@.len() == "SampleHold"@.len()); } }
        assert("TB303Ladder"@ != "S&H"@) by { reveal_strlit("TB303Ladder"); reveal_strlit("S&H"); if "TB303Ladder"@ == "S&H"@ { assert("TB303Ladder"@.len() == "S&H"@.len()); } }
        assert("TB303Ladder"@ != "Clock"@) by { reveal_strlit("TB303Ladder"); reveal_strlit("Clock"); if "TB303Ladder"@ == "Clock"@ { assert("TB303Ladder"@.len() == "Clock"@.len()); } }
        assert("TB303Ladder"@ != "ProbabilityGate"@) by { reveal_strlit("TB303Ladder"); reveal_strlit("ProbabilityGate"); if "TB303Ladder"@ == "ProbabilityGate"@ { assert("TB303Ladder"@.len() == "ProbabilityGate"@.len()); } }
        assert("TB303Ladder"@ != "Reverb"@) by { reveal_strlit("TB303Ladder"); reveal_strlit("Reverb"); if "TB303Ladder"@ == "Reverb"@ { assert("TB303Ladder"@.len() == "Reverb"@.len()); } }
        assert("TB303Ladder"@ != "SpringReverb"@) by { reveal_strlit("TB303Ladder"); reveal_strlit("SpringReverb"); if "TB303Ladder"@ == "SpringReverb"@ { assert("TB303Ladder"@.len() == "SpringReverb"@.len()); } }
        assert("TB303Ladder"@ != "Granular"@) by { reveal_strlit("TB303Ladder"); reveal_strlit("Granular"); if "TB303Ladder"@ == "Granular"@ { assert("TB303Ladder"@.len() == "Granular"@.len()); } }
        assert("TB303Ladder"@ != "Logic"@) by { reveal_strlit("TB303Ladder"); reveal_strlit("Logic"); if "TB303Ladder"@ == "Logic"@ { assert("TB303Ladder"@.len() == "Logic"@.len()); } }
        assert("TB303Ladder"@ != "SpectralFreeze"@) by { reveal_strlit("TB303Ladder"); reveal_strlit("SpectralFreeze"); if "TB303Ladder"@ == "SpectralFreeze"@ { assert("TB303Ladder"@.len() == "SpectralFreeze"@.len()); } }
        assert("TB303Ladder"@ != "FFTConvolve"@) by { reveal_strlit("TB303Ladder"); reveal_strlit("FFTConvolve"); if "TB303Ladder"@ == "FFTConvolve"@ { assert("TB303Ladder"@[0] == "FFTConvolve"@[0]); } }
        assert("TB303Ladder"@ != "ZdfLadder"@) by { reveal_strlit("TB303Ladder"); reveal_strlit("ZdfLadder"); if "TB303Ladder"@ == "ZdfLadder"@ { assert("TB303Ladder"@.len() == "ZdfLadder"@.len()); } }
}

proof fn lemma_name_ladder(has_midi: bool)
    ensures
        dsp_kind_for_name("Ladder"@, has_midi) == DspKind::ZdfLadder,
{
        assert("Ladder"@ != "Oscillator"@) by { reveal_strlit("Ladder"); reveal_strlit("Oscillator"); if "Ladder"@ == "Oscillator"@ { assert("Ladder"@.len() == "Oscillator"@.len()); } }
        assert("Ladder"@ != "Sine"@) by { reveal_strlit("Ladder"); reveal_strlit("Sine"); if "Ladder"@ == "Sine"@ { assert("Ladder"@.len() == "Sine"@.len()); } }
        assert("Ladder"@ != "Noise"@) by { reveal_strlit("Ladder"); reveal_strlit("Noise"); if "Ladder"@ == "Noise"@ { assert("Ladder"@.len() == "Noise"@.len()); } }
        assert("Ladder"@ != "Gain"@) by { reveal_strlit("Ladder"); reveal_strlit("Gain"); if "Ladder"@ == "Gain"@ { assert("Ladder"@.len() == "Gain"@.len()); } }
        assert("Ladder"@ != "Add"@) by { reveal_strlit("Ladder"); reveal_strlit("Add"); if "Ladder"@ == "Add"@ { assert("Ladder"@.len() == "Add"@.len()); } }
        assert("Ladder"@ != "Multiply"@) by { reveal_strlit("Ladder"); reveal_strlit("Multiply"); if "Ladder"@ == "Multiply"@ { assert("Ladder"@.len() == "Multiply"@.len()); } }
        assert("Ladder"@ != "Clip"@) by { reveal_strlit("Ladder"); reveal_strlit("Clip"); if "Ladder"@ == "Clip"@ { assert("Ladder"@.len() == "Clip"@.len()); } }
        assert("Ladder"@ != "Filter"@) by { reveal_strlit("Ladder"); reveal_strlit("Filter"); if "Ladder"@ == "Filter"@ { assert("Ladder"@[0] == "Filter"@[0]); } }
        assert("Ladder"@ != "Biquad"@) by { reveal_strlit("Ladder"); reveal_strlit("Biquad"); if "Ladder"@ == "Biquad"@ { assert("Ladder"@[0] == "Biquad"@[0]); } }
        assert("Ladder"@ != "Compressor"@) by { reveal_strlit("Ladder"); reveal_strlit("Compressor"); if "Ladder"@ == "Compressor"@ { assert("Ladder"@.len() == "Compressor"@.len()); } }
        assert("Ladder"@ != "Dynamics"@) by { reveal_strlit("Ladder"); reveal_strlit("Dynamics"); if "Ladder"@ == "Dynamics"@ { assert("Ladder"@.len() == "Dynamics"@.len()); } }
        assert("Ladder"@ != "Delay"@) by { reveal_strlit("Ladder"); reveal_strlit("Delay"); if "Ladder"@ == "Delay"@ { assert("Ladder"@.len() == "Delay"@.len()); } }
        assert("Ladder"@ != "Sampler"@) by { reveal_strlit("Ladder"); reveal_strlit("Sampler"); if "Ladder"@ == "Sampler"@ { assert("Ladder"@.len() == "Sampler"@.len()); } }
        assert("Ladder"@ != "AssetReader"@) by { reveal_strlit("Ladder"); reveal_strlit("AssetReader"); if "Ladder"@ == "AssetReader"@ { assert("Ladder"@.len() == "AssetReader"@.len()); } }
        assert("Ladder"@ != "Trigger"@) by { reveal_strlit("Ladder"); reveal_strlit("Trigger"); if "Ladder"@ == "Trigger"@ { assert("Ladder"@.len() == "Trigger"@.len()); } }
        assert("Ladder"@ != "Envelope"@) by { reveal_strlit("Ladder"); reveal_strlit("Envelope"); if "Ladder"@ == "Envelope"@ { assert("Ladder"@.len() == "Envelope"@.len()); } }
        assert("Ladder"@ != "ADSR"@) by { reveal_strlit("Ladder"); reveal_strlit("ADSR"); if "Ladder"@ == "ADSR"@ { assert("Ladder"@.len() == "ADSR"@.len()); } }
        assert("Ladder"@ != "Automation"@) by { reveal_strlit("Ladder"); reveal_strlit("Automation"); if "Ladder"@ == "Automation"@ { assert("Ladder"@.len() == "Automation"@.len()); } }
        assert("Ladder"@ != "MidiIn"@) by { reveal_strlit("Ladder"); reveal_strlit("MidiIn"); if "Ladder"@ == "MidiIn"@ { assert("Ladder"@[0] == "MidiIn"@[0]); } }
        assert("Ladder"@ != "Sequencer"@) by { reveal_strlit("Ladder"); reveal_strlit("Sequencer"); if "Ladder"@ == "Sequencer"@ { assert("Ladder"@.len() == "Sequencer"@.len()); } }
        assert("Ladder"@ != "Wavefolder"@) by { reveal_strlit("Ladder"); reveal_strlit("Wavefolder"); if "Ladder"@ == "Wavefolder"@ { assert("Ladder"@.len() == "Wavefolder"@.len()); } }
        assert("Ladder"@ != "Lorenz"@) by { reveal_strlit("Ladder"); reveal_strlit("Lorenz"); if "Ladder"@ == "Lorenz"@ { assert("Ladder"@[1] == "Lorenz"@[1]); } }
        assert("Ladder"@ != "MackeyGlass"@) by { reveal_strlit("Ladder"); reveal_strlit("MackeyGlass"); if "Ladder"@ == "MackeyGlass"@ { assert("Ladder"@.len() == "MackeyGlass"@.len()); } }
        assert("Ladder"@ != "GrayScott"@) by { reveal_strlit("Ladder"); reveal_strlit("GrayScott"); if "Ladder"@ == "GrayScott"@ { assert("Ladder"@.len() == "GrayScott"@.len()); } }
        assert("Ladder"@ != "ReactionDiffusion"@) by { reveal_strlit("Ladder"); reveal_strlit("ReactionDiffusion"); if "Ladder"@ == "ReactionDiffusion"@ { assert("Ladder"@.len() == "ReactionDiffusion"@.len()); } }
        assert("Ladder"@ != "BitCrush"@) by { reveal_strlit("Ladder"); reveal_strlit("BitCrush"); if "Ladder"@ == "BitCrush"@ { assert("Ladder"@.len() == "BitCrush"@.len()); } }
        assert("Ladder"@ != "WaveShaper"@) by { reveal_strlit("Ladder"); reveal_strlit("WaveShaper"); if "Ladder"@ == "WaveShaper"@ { assert("Ladder"@.len() == "WaveShaper"@.len()); } }
        assert("Ladder"@ != "Pll"@) by { reveal_strlit("Ladder"); reveal_strlit("Pll"); if "Ladder"@ == "Pll"@ { assert("Ladder"@.len() == "Pll"@.len()); } }
        assert("Ladder"@ != "SlewLimiter"@) by { reveal_strlit("Ladder"); reveal_strlit("SlewLimiter"); if "Ladder"@ == "SlewLimiter"@ { assert("Ladder"@.len() == "SlewLimiter"@.len()); } }
        assert("Ladder"@ != "Slew"@) by { reveal_strlit("Ladder"); reveal_strlit("Slew"); if "Ladder"@ == "Slew"@ { assert("Ladder"@.len() == "Slew"@.len()); } }
        assert("Ladder"@ != "SampleHold"@) by { reveal_strlit("Ladder"); reveal_strlit("SampleHold"); if "Ladder"@ == "SampleHold"@ { assert("Ladder"@.len() == "SampleHold"@.len()); } }
        assert("Ladder"@ != "S&H"@) by { reveal_strlit("Ladder"); reveal_strlit("S&H"); if "Ladder"@ == "S&H"@ { assert("Ladder"@.len() == "S&H"@.len()); } }
        assert("Ladder"@ != "Clock"@) by { reveal_strlit("Ladder"); reveal_strlit("Clock"); if "Ladder"@ == "Clock"@ { assert("Ladder"@.len() == "Clock"@.len()); } }
        assert("Ladder"@ != "ProbabilityGate"@) by { reveal_strlit("Ladder"); reveal_strlit("ProbabilityGate"); if "Ladder"@ == "ProbabilityGate"@ { assert("Ladder"@.len() == "ProbabilityGate"@.len()); } }
        assert("Ladder"@ != "Reverb"@) by { reveal_strlit("Ladder"); reveal_strlit("Reverb"); if "Ladder"@ == "Reverb"@ { assert("Ladder"@[0] == "Reverb"@[0]); } }
        assert("Ladder"@ != "SpringReverb"@) by { reveal_strlit("Ladder"); reveal_strlit("SpringReverb"); if "Ladder"@ == "SpringReverb"@ { assert("Ladder"@.len() == "SpringReverb"@.len()); } }
        assert("Ladder"@ != "Granular"@) by { reveal_strlit("Ladder"); reveal_strlit("Granular"); if "Ladder"@ == "Granular"@ { assert("Ladder"@.len() == "Granular"@.len()); } }
        assert("Ladder"@ != "Logic"@) by { reveal_strlit("Ladder"); reveal_strlit("Logic"); if "Ladder"@ == "Logic"@ { assert("Ladder"@.len() == "Logic"@.len()); } }
        assert("Ladder"@ != "SpectralFreeze"@) by { reveal_strlit("Ladder"); reveal_strlit("SpectralFreeze"); if "Ladder"@ == "SpectralFreeze"@ { assert("Ladder"@.len() == "SpectralFreeze"@.len()); } }
        assert("Ladder"@ != "FFTConvolve"@) by { reveal_strlit("Ladder"); reveal_strlit("FFTConvolve"); if "Ladder"@ == "FFTConvolve"@ { assert("Ladder"@.len() == "FFTConvolve"@.len()); } }
        assert("Ladder"@ != "ZdfLadder"@) by { reveal_strlit("Ladder"); reveal_strlit("ZdfLadder"); if "Ladder"@ == "ZdfLadder"@ { assert("Ladder"@.len() == "ZdfLadder"@.len()); } }
        assert("Ladder"@ != "TB303Ladder"@) by { reveal_strlit("Ladder"); reveal_strlit("TB303Ladder"); if "Ladder"@ == "TB303Ladder"@ { assert("Ladder"@.len() == "TB303Ladder"@.len()); } }
}

proof fn lemma_name_svf(has_midi: bool)
    ensures
        dsp_kind_for_name("Svf"@, has_midi) == DspKind::Svf,
{
        assert("Svf"@ != "Oscillator"@) by { reveal_strlit("Svf"); reveal_strlit("Oscillator"); if "Svf"@ == "Oscillator"@ { assert("Svf"@.len() == "Oscillator"@.len()); } }
        assert("Svf"@ != "Sine"@) by { reveal_strlit("Svf"); reveal_strlit("Sine"); if "Svf"@ == "Sine"@ { assert("Svf"@.len() == "Sine"@.len()); } }
        assert("Svf"@ != "Noise"@) by { reveal_strlit("Svf"); reveal_strlit("Noise"); if "Svf"@ == "Noise"@ { assert("Svf"@.len() == "Noise"@.len()); } }
        assert("Svf"@ != "Gain"@) by { reveal_strlit("Svf"); reveal_strlit("Gain"); if "Svf"@ == "Gain"@ { assert("Svf"@.len() == "Gain"@.len()); } }
        assert("Svf"@ != "Add"@) by { reveal_strlit("Svf"); reveal_strlit("Add"); if "Svf"@ == "Add"@ { assert("Svf"@[0] == "Add"@[0]); } }
        assert("Svf"@ != "Multiply"@) by { reveal_strlit("Svf"); reveal_strlit("Multiply"); if "Svf"@ == "Multiply"@ { assert("Svf"@.len() == "Multiply"@.len()); } }
        assert("Svf"@ != "Clip"@) by { reveal_strlit("Svf"); reveal_strlit("Clip"); if "Svf"@ == "Clip"@ { assert("Svf"@.len() == "Clip"@.len()); } }
        assert("Svf"@ != "Filter"@) by { reveal_strlit("Svf"); reveal_strlit("Filter"); if "Svf"@ == "Filter"@ { assert("Svf"@.len() == "Filter"@.len()); } }
        assert("Svf"@ != "Biquad"@) by { reveal_strlit("Svf"); reveal_strlit("Biquad"); if "Svf"@ == "Biquad"@ { assert("Svf"@.len() == "Biquad"@.len()); } }
        assert("Svf"@ != "Compressor"@) by { reveal_strlit("Svf"); reveal_strlit("Compressor"); if "Svf"@ == "Compressor"@ { assert("Svf"@.len() == "Compressor"@.len()); } }
        assert("Svf"@ != "Dynamics"@) by { reveal_strlit("Svf"); reveal_strlit("Dynamics"); if "Svf"@ == "Dynamics"@ { assert("Svf"@.len() == "Dynamics"@.len()); } }
        assert("Svf"@ != "Delay"@) by { reveal_strlit("Svf"); reveal_strlit("Delay"); if "Svf"@ == "Delay"@ { assert("Svf"@.len() == "Delay"@.len()); } }
        assert("Svf"@ != "Sampler"@) by { reveal_strlit("Svf"); reveal_strlit("Sampler"); if "Svf"@ == "Sampler"@ { assert("Svf"@.len() == "Sampler"@.len()); } }
        assert("Svf"@ != "AssetReader"@) by { reveal_strlit("Svf"); reveal_strlit("AssetReader"); if "Svf"@ == "AssetReader"@ { assert("Svf"@.len() == "AssetReader"@.len()); } }
        assert("Svf"@ != "Trigger"@) by { reveal_strlit("Svf"); reveal_strlit("Trigger"); if "Svf"@ == "Trigger"@ { assert("Svf"@.len() == "Trigger"@.len()); } }
        assert("Svf"@ != "Envelope"@) by { reveal_strlit("Svf"); reveal_strlit("Envelope"); if "Svf"@ == "Envelope"@ { assert("Svf"@.len() == "Envelope"@.len()); } }
        assert("Svf"@ != "ADSR"@) by { reveal_strlit("Svf"); reveal_strlit("ADSR"); if "Svf"@ == "ADSR"@ { assert("Svf"@.len() == "ADSR"@.len()); } }
        assert("Svf"@ != "Automation"@) by { reveal_strlit("Svf"); reveal_strlit("Automation"); if "Svf"@ == "Automation"@ { assert("Svf"@.len() == "Automation"@.len()); } }
        assert("Svf"@ != "MidiIn"@) by { reveal_strlit("Svf"); reveal_strlit("MidiIn"); if "Svf"@ == "MidiIn"@ { assert("Svf"@.len() == "MidiIn"@.len()); } }
        assert("Svf"@ != "Sequencer"@) by { reveal_strlit("Svf"); reveal_strlit("Sequencer"); if "Svf"@ == "Sequencer"@ { assert("Svf"@.len() == "Sequencer"@.len()); } }
        assert("Svf"@ != "Wavefolder"@) by { reveal_strlit("Svf"); reveal_strlit("Wavefolder"); if "Svf"@ == "Wavefolder"@ { assert("Svf"@.len() == "Wavefolder"@.len()); } }
        assert("Svf"@ != "Lorenz"@) by { reveal_strlit("Svf"); reveal_strlit("Lorenz"); if "Svf"@ == "Lorenz"@ { assert("Svf"@.len() == "Lorenz"@.len()); } }
        assert("Svf"@ != "MackeyGlass"@) by { reveal_strlit("Svf"); reveal_strlit("MackeyGlass"); if "Svf"@ == "MackeyGlass"@ { assert("Svf"@.len() == "MackeyGlass"@.len()); } }
        assert("Svf"@ != "GrayScott"@) by { reveal_strlit("Svf"); reveal_strlit("GrayScott"); if "Svf"@ == "GrayScott"@ { assert("Svf"@.len() == "GrayScott"@.len()); } }
        assert("Svf"@ != "ReactionDiffusion"@) by { reveal_strlit("Svf"); reveal_strlit("ReactionDiffusion"); if "Svf"@ == "ReactionDiffusion"@ { assert("Svf"@.len() == "ReactionDiffusion"@.len()); } }
        assert("Svf"@ != "BitCrush"@) by { reveal_strlit("Svf"); reveal_strlit("BitCrush"); if "Svf"@ == "BitCrush"@ { assert("Svf"@.len() == "BitCrush"@.len()); } }
        assert("Svf"@ != "WaveShaper"@) by { reveal_strlit("Svf"); reveal_strlit("WaveShaper"); if "Svf"@ == "WaveShaper"@ { assert("Svf"@.len() == "WaveShaper"@.len()); } }
        assert("Svf"@ != "Pll"@) by { reveal_strlit("Svf"); reveal_strlit("Pll"); if "Svf"@ == "Pll"@ { assert("Svf"@[0] == "Pll"@[0]); } }
        assert("Svf"@ != "SlewLimiter"@) by { reveal_strlit("Svf"); reveal_strlit("SlewLimiter"); if "Svf"@ == "SlewLimiter"@ { assert("Svf"@.len() == "SlewLimiter"@.len()); } }
        assert("Svf"@ != "Slew"@) by { reveal_strlit("Svf"); reveal_strlit("Slew"); if "Svf"@ == "Slew"@ { assert("Svf"@.len() == "Slew"@.len()); } }
        assert("Svf"@ != "SampleHold"@) by { reveal_strlit("Svf"); reveal_strlit("SampleHold"); if "Svf"@ == "SampleHold"@ { assert("Svf"@.len() == "SampleHold"@.len()); } }
        assert("Svf"@ != "S&H"@) by { reveal_strlit("Svf"); reveal_strlit("S&H"); if "Svf"@ == "S&H"@ { assert("Svf"@[1] == "S&H"@[1]); } }
        assert("Svf"@ != "Clock"@) by { reveal_strlit("Svf"); reveal_strlit("Clock"); if "Svf"@ == "Clock"@ { assert("Svf"@.len() == "Clock"@.len()); } }
        assert("Svf"@ != "ProbabilityGate"@) by { reveal_strlit("Svf"); reveal_strlit("ProbabilityGate"); if "Svf"@ == "ProbabilityGate"@ { assert("Svf"@.len() == "ProbabilityGate"@.len()); } }
        assert("Svf"@ != "Reverb"@) by { reveal_strlit("Svf"); reveal_strlit("Reverb"); if "Svf"@ == "Reverb"@ { assert("Svf"@.len() == "Reverb"@.len()); } }
        assert("Svf"@ != "SpringReverb"@) by { reveal_strlit("Svf"); reveal_strlit("SpringReverb"); if "Svf"@ == "SpringReverb"@ { assert("Svf"@.len() == "SpringReverb"@.len()); } }
        assert("Svf"@ != "Granular"@) by { reveal_strlit("Svf"); reveal_strlit("Granular"); if "Svf"@ == "Granular"@ { assert("Svf"@.len() == "Granular"@.len()); } }
        assert("Svf"@ != "Logic"@) by { reveal_strlit("Svf"); reveal_strlit("Logic"); if "Svf"@ == "Logic"@ { assert("Svf"@.len() == "Logic"@.len()); } }
        assert("Svf"@ != "SpectralFreeze"@) by { reveal_strlit("Svf"); reveal_strlit("SpectralFreeze"); if "Svf"@ == "SpectralFreeze"@ { assert("Svf"@.len() == "SpectralFreeze"@.len()); } }
        assert("Svf"@ != "FFTConvolve"@) by { reveal_strlit("Svf"); reveal_strlit("FFTConvolve"); if "Svf"@ == "FFTConvolve"@ { assert("Svf"@.len() == "FFTConvolve"@.len()); } }
        assert("Svf"@ != "ZdfLadder"@) by { reveal_strlit("Svf"); reveal_strlit("ZdfLadder"); if "Svf"@ == "ZdfLadder"@ { assert("Svf"@.len() == "ZdfLadder"@.len()); } }
        assert("Svf"@ != "TB303Ladder"@) by { reveal_strlit("Svf"); reveal_strlit("TB303Ladder"); if "Svf"@ == "TB303Ladder"@ { assert("Svf"@.len() == "TB303Ladder"@.len()); } }
        assert("Svf"@ != "Ladder"@) by { reveal_strlit("Svf"); reveal_strlit("Ladder"); if "Svf"@ == "Ladder"@ { assert("Svf"@.len() == "Ladder"@.len()); } }
}

proof fn lemma_name_svffilter(has_midi: bool)
    ensures
        dsp_kind_for_name("SVFFilter"@, has_midi) == DspKind::Svf,
{
        assert("SVFFilter"@ != "Oscillator"@) by { reveal_strlit("SVFFilter"); reveal_strlit("Oscillator"); if "SVFFilter"@ == "Oscillator"@ { assert("SVFFilter"@.len() == "Oscillator"@.len()); } }
        assert("SVFFilter"@ != "Sine"@) by { reveal_strlit("SVFFilter"); reveal_strlit("Sine"); if "SVFFilter"@ == "Sine"@ { assert("SVFFilter"@.len() == "Sine"@.len()); } }
        assert("SVFFilter"@ != "Noise"@) by { reveal_strlit("SVFFilter"); reveal_strlit("Noise"); if "SVFFilter"@ == "Noise"@ { assert("SVFFilter"@.len() == "Noise"@.len()); } }
        assert("SVFFilter"@ != "Gain"@) by { reveal_strlit("SVFFilter"); reveal_strlit("Gain"); if "SVFFilter"@ == "Gain"@ { assert("SVFFilter"@.len() == "Gain"@.len()); } }
        assert("SVFFilter"@ != "Add"@) by { reveal_strlit("SVFFilter"); reveal_strlit("Add"); if "SVFFilter"@ == "Add"@ { assert("SVFFilter"@.len() == "Add"@.len()); } }
        assert("SVFFilter"@ != "Multiply"@) by { reveal_strlit("SVFFilter"); reveal_strlit("Multiply"); if "SVFFilter"@ == "Multiply"@ { assert("SVFFilter"@.len() == "Multiply"@.len()); } }
        assert("SVFFilter"@ != "Clip"@) by { reveal_strlit("SVFFilter"); reveal_strlit("Clip"); if "SVFFilter"@ == "Clip"@ { assert("SVFFilter"@.len() == "Clip"@.len()); } }
        assert("SVFFilter"@ != "Filter"@) by { reveal_strlit("SVFFilter"); reveal_strlit("Filter"); if "SVFFilter"@ == "Filter"@ { assert("SVFFilter"@.len() == "Filter"@.len()); } }
        assert("SVFFilter"@ != "Biquad"@) by { reveal_strlit("SVFFilter"); reveal_strlit("Biquad"); if "SVFFilter"@ == "Biquad"@ { assert("SVFFilter"@.len() == "Biquad"@.len()); } }
        assert("SVFFilter"@ != "Compressor"@) by { reveal_strlit("SVFFilter"); reveal_strlit("Compressor"); if "SVFFilter"@ == "Compressor"@ { assert("SVFFilter"@.len() == "Compressor"@.len()); } }
        assert("SVFFilter"@ != "Dynamics"@) by { reveal_strlit("SVFFilter"); reveal_strlit("Dynamics"); if "SVFFilter"@ == "Dynamics"@ { assert("SVFFilter"@.len() == "Dynamics"@.len()); } }
        assert("SVFFilter"@ != "Delay"@) by { reveal_strlit("SVFFilter"); reveal_strlit("Delay"); if "SVFFilter"@ == "Delay"@ { assert("SVFFilter"@.len() == "Delay"@.len()); } }
        assert("SVFFilter"@ != "Sampler"@) by { reveal_strlit("SVFFilter"); reveal_strlit("Sampler"); if "SVFFilter"@ == "Sampler"@ { assert("SVFFilter"@.len() == "Sampler"@.len()); } }
        assert("SVFFilter"@ != "AssetReader"@) by { reveal_strlit("SVFFilter"); reveal_strlit("AssetReader"); if "SVFFilter"@ == "AssetReader"@ { assert("SVFFilter"@.len() == "AssetReader"@.len()); } }
        assert("SVFFilter"@ != "Trigger"@) by { reveal_strlit("SVFFilter"); reveal_strlit("Trigger"); if "SVFFilter"@ == "Trigger"@ { assert("SVFFilter"@.len() == "Trigger"@.len()); } }
        assert("SVFFilter"@ != "Envelope"@) by { reveal_strlit("SVFFilter"); reveal_strlit("Envelope"); if "SVFFilter"@ == "Envelope"@ { assert("SVFFilter"@.len() == "Envelope"@.len()); } }
        assert("SVFFilter"@ != "ADSR"@) by { reveal_strlit("SVFFilter"); reveal_strlit("ADSR"); if "SVFFilter"@ == "ADSR"@ { assert("SVFFilter"@.len() == "ADSR"@.len()); } }
        assert("SVFFilter"@ != "Automation"@) by { reveal_strlit("SVFFilter"); reveal_strlit("Automation"); if "SVFFilter"@ == "Automation"@ { assert("SVFFilter"@.len() == "Automation"@.len()); } }
        assert("SVFFilter"@ != "MidiIn"@) by { reveal_strlit("SVFFilter"); reveal_strlit("MidiIn"); if "SVFFilter"@ == "MidiIn"@ { assert("SVFFilter"@.len() == "MidiIn"@.len()); } }
        assert("SVFFilter"@ != "Sequencer"@) by { reveal_strlit("SVFFilter"); reveal_strlit("Sequencer"); if "SVFFilter"@ == "Sequencer"@ { assert("SVFFilter"@[1] == "Sequencer"@[1]); } }
        assert("SVFFilter"@ != "Wavefolder"@) by { reveal_strlit("SVFFilter"); reveal_strlit("Wavefolder"); if "SVFFilter"@ == "Wavefolder"@ { assert("SVFFilter"@.len() == "Wavefolder"@.len()); } }
        assert("SVFFilter"@ != "Lorenz"@) by { reveal_strlit("SVFFilter"); reveal_strlit("Lorenz"); if "SVFFilter"@ == "Lorenz"@ { assert("SVFFilter"@.len() == "Lorenz"@.len()); } }
        assert("SVFFilter"@ != "MackeyGlass"@) by { reveal_strlit("SVFFilter"); reveal_strlit("MackeyGlass"); if "SVFFilter"@ == "MackeyGlass"@ { assert("SVFFilter"@.len() == "MackeyGlass"@.len()); } }
        assert("SVFFilter"@ != "GrayScott"@) by { reveal_strlit("SVFFilter"); reveal_strlit("GrayScott"); if "SVFFilter"@ == "GrayScott"@ { assert("SVFFilter"@[0] == "GrayScott"@[0]); } }
        assert("SVFFilter"@ != "ReactionDiffusion"@) by { reveal_strlit("SVFFilter"); reveal_strlit("ReactionDiffusion"); if "SVFFilter"@ == "ReactionDiffusion"@ { assert("SVFFilter"@.len() == "ReactionDiffusion"@.len()); } }
        assert("SVFFilter"@ != "BitCrush"@) by { reveal_strlit("SVFFilter"); reveal_strlit("BitCrush"); if "SVFFilter"@ == "BitCrush"@ { assert("SVFFilter"@.len() == "BitCrush"@.len()); } }
        assert("SVFFilter"@ != "WaveShaper"@) by { reveal_strlit("SVFFilter"); reveal_strlit("WaveShaper"); if "SVFFilter"@ == "WaveShaper"@ { assert("SVFFilter"@.len() == "WaveShaper"@.len()); } }
        assert("SVFFilter"@ != "Pll"@) by { reveal_strlit("SVFFilter"); reveal_strlit("Pll"); if "SVFFilter"@ == "Pll"@ { assert("SVFFilter"@.len() == "Pll"@.len()); } }
        assert("SVFFilter"@ != "SlewLimiter"@) by { reveal_strlit("SVFFilter"); reveal_strlit("SlewLimiter"); if "SVFFilter"@ == "SlewLimiter"@ { assert("SVFFilter"@.len() == "SlewLimiter"@.len()); } }
        assert("SVFFilter"@ != "Slew"@) by { reveal_strlit("SVFFilter"); reveal_strlit("Slew"); if "SVFFilter"@ == "Slew"@ { assert("SVFFilter"@.len() == "Slew"@.len()); } }
        assert("SVFFilter"@ != "SampleHold"@) by { reveal_strlit("SVFFilter"); reveal_strlit("SampleHold"); if "SVFFilter"@ == "SampleHold"@ { assert("SVFFilter"@.len() == "SampleHold"@.len()); } }
        assert("SVFFilter"@ != "S&H"@) by { reveal_strlit("SVFFilter"); reveal_strlit("S&H"); if "SVFFilter"@ == "S&H"@ { assert("SVFFilter"@.len() == "S&H"@.len()); } }
        assert("SVFFilter"@ != "Clock"@) by { reveal_strlit("SVFFilter"); reveal_strlit("Clock"); if "SVFFilter"@ == "Clock"@ { assert("SVFFilter"@.len() == "Clock"@.len()); } }
        assert("SVFFilter"@ != "ProbabilityGate"@) by { reveal_strlit("SVFFilter"); reveal_strlit("ProbabilityGate"); if "SVFFilter"@ == "ProbabilityGate"@ { assert("SVFFilter"@.len() == "ProbabilityGate"@.len()); } }
        assert("SVFFilter"@ != "Reverb"@) by { reveal_strlit("SVFFilter"); reveal_strlit("Reverb"); if "SVFFilter"@ == "Reverb"@ { assert("SVFFilter"@.len() == "Reverb"@.len()); } }
        assert("SVFFilter"@ != "SpringReverb"@) by { reveal_strlit("SVFFilter"); reveal_strlit("SpringReverb"); if "SVFFilter"@ == "SpringReverb"@ { assert("SVFFilter"@.len() == "SpringReverb"@.len()); } }
        assert("SVFFilter"@ != "Granular"@) by { reveal_strlit("SVFFilter"); reveal_strlit("Granular"); if "SVFFilter"@ == "Granular"@ { assert("SVFFilter"@.len() == "Granular"@.len()); } }
        assert("SVFFilter"@ != "Logic"@) by { reveal_strlit("SVFFilter"); reveal_strlit("Logic"); if "SVFFilter"@ == "Logic"@ { assert("SVFFilter"@.len() == "Logic"@.len()); } }
        assert("SVFFilter"@ != "SpectralFreeze"@) by { reveal_strlit("SVFFilter"); reveal_strlit("SpectralFreeze"); if "SVFFilter"@ == "SpectralFreeze"@ { assert("SVFFilter"@.len() == "SpectralFreeze"@.len()); } }
        assert("SVFFilter"@ != "FFTConvolve"@) by { reveal_strlit("SVFFilter"); reveal_strlit("FFTConvolve"); if "SVFFilter"@ == "FFTConvolve"@ { assert("SVFFilter"@.len() == "FFTConvolve"@.len()); } }
        assert("SVFFilter"@ != "ZdfLadder"@) by { reveal_strlit("SVFFilter"); reveal_strlit("ZdfLadder"); if "SVFFilter"@ == "ZdfLadder"@ { assert("SVFFilter"@[0] == "ZdfLadder"@[0]); } }
        assert("SVFFilter"@ != "TB303Ladder"@) by { reveal_strlit("SVFFilter"); reveal_strlit("TB303Ladder"); if "SVFFilter"@ == "TB303Ladder"@ { assert("SVFFilter"@.len() == "TB303Ladder"@.len()); } }
        assert("SVFFilter"@ != "Ladder"@) by { reveal_strlit("SVFFilter"); reveal_strlit("Ladder"); if "SVFFilter"@ == "Ladder"@ { assert("SVFFilter"@.len() == "Ladder"@.len()); } }
        assert("SVFFilter"@ != "Svf"@) by { reveal_strlit("SVFFilter"); reveal_strlit("Svf"); if "SVFFilter"@ == "Svf"@ { assert("SVFFilter"@.len() == "Svf"@.len()); } }
}

proof fn lemma_name_diodeclipper(has_midi: bool)
    ensures
        dsp_kind_for_name("DiodeClipper"@, has_midi) == DspKind::DiodeClipper,
{
        assert("DiodeClipper"@ != "Oscillator"@) by { reveal_strlit("DiodeClipper"); reveal_strlit("Oscillator"); if "DiodeClipper"@ == "Oscillator"@ { assert("DiodeClipper"@.len() == "Oscillator"@.len()); } }
        assert("DiodeClipper"@ != "Sine"@) by { reveal_strlit("DiodeClipper"); reveal_strlit("Sine"); if "DiodeClipper"@ == "Sine"@ { assert("DiodeClipper"@.len() == "Sine"@.len()); } }
        assert("DiodeClipper"@ != "Noise"@) by { reveal_strlit("DiodeClipper"); reveal_strlit("Noise"); if "DiodeClipper"@ == "Noise"@ { assert("DiodeClipper"@.len() == "Noise"@.len()); } }
        assert("DiodeClipper"@ != "Gain"@) by { reveal_strlit("DiodeClipper"); reveal_strlit("Gain"); if "DiodeClipper"@ == "Gain"@ { assert("DiodeClipper"@.len() == "Gain"@.len()); } }
        assert("DiodeClipper"@ != "Add"@) by { reveal_strlit("DiodeClipper"); reveal_strlit("Add"); if "DiodeClipper"@ == "Add"@ { assert("DiodeClipper"@.len() == "Add"@.len()); } }
        assert("DiodeClipper"@ != "Multiply"@) by { reveal_strlit("DiodeClipper"); reveal_strlit("Multiply"); if "DiodeClipper"@ == "Multiply"@ { assert("DiodeClipper"@.len() == "Multiply"@.len()); } }
        assert("DiodeClipper"@ != "Clip"@) by { reveal_strlit("DiodeClipper"); reveal_strlit("Clip"); if "DiodeClipper"@ == "Clip"@ { assert("DiodeClipper"@.len() == "Clip"@.len()); } }
        assert("DiodeClipper"@ != "Filter"@) by { reveal_strlit("DiodeClipper"); reveal_strlit("Filter"); if "DiodeClipper"@ == "Filter"@ { assert("DiodeClipper"@.len() == "Filter"@.len()); } }
        assert("DiodeClipper"@ != "Biquad"@) by { reveal_strlit("DiodeClipper"); reveal_strlit("Biquad"); if "DiodeClipper"@ == "Biquad"@ { assert("DiodeClipper"@.len() == "Biquad"@.len()); } }
        assert("DiodeClipper"@ != "Compressor"@) by { reveal_strlit("DiodeClipper"); reveal_strlit("Compressor"); if "DiodeClipper"@ == "Compressor"@ { assert("DiodeClipper"@.len() == "Compressor"@.len()); } }
        assert("DiodeClipper"@ != "Dynamics"@) by { reveal_strlit("DiodeClipper"); reveal_strlit("Dynamics"); if "DiodeClipper"@ == "Dynamics"@ { assert("DiodeClipper"@.len() == "Dynamics"@.len()); } }
        assert("DiodeClipper"@ != "Delay"@) by { reveal_strlit("DiodeClipper"); reveal_strlit("Delay"); if "DiodeClipper"@ == "Delay"@ { assert("DiodeClipper"@.len() == "Delay"@.len()); } }
        assert("DiodeClipper"@ != "Sampler"@) by { reveal_strlit("DiodeClipper"); reveal_strlit("Sampler"); if "DiodeClipper"@ == "Sampler"@ { assert("DiodeClipper"@.len() == "Sampler"@.len()); } }
        assert("DiodeClipper"@ != "AssetReader"@) by { reveal_strlit("DiodeClipper"); reveal_strlit("AssetReader"); if "DiodeClipper"@ == "AssetReader"@ { assert("DiodeClipper"@.len() == "AssetReader"@.len()); } }
        assert("DiodeClipper"@ != "Trigger"@) by { reveal_strlit("DiodeClipper"); reveal_strlit("Trigger"); if "DiodeClipper"@ == "Trigger"@ { assert("DiodeClipper"@.len() == "Trigger"@.len()); } }
        assert("DiodeClipper"@ != "Envelope"@) by { reveal_strlit("DiodeClipper"); reveal_strlit("Envelope"); if "DiodeClipper"@ == "Envelope"@ { assert("DiodeClipper"@.len() == "Envelope"@.len()); } }
        assert("DiodeClipper"@ != "ADSR"@) by { reveal_strlit("DiodeClipper"); reveal_strlit("ADSR"); if "DiodeClipper"@ == "ADSR"@ { assert("DiodeClipper"@.len() == "ADSR"@.len()); } }
        assert("DiodeClipper"@ != "Automation"@) by { reveal_strlit("DiodeClipper"); reveal_strlit("Automation"); if "DiodeClipper"@ == "Automation"@ { assert("DiodeClipper"@.len() == "Automation"@.len()); } }
        assert("DiodeClipper"@ != "MidiIn"@) by { reveal_strlit("DiodeClipper"); reveal_strlit("MidiIn"); if "DiodeClipper"@ == "MidiIn"@ { assert("DiodeClipper"@.len() == "MidiIn"@.len()); } }
        assert("DiodeClipper"@ != "Sequencer"@) by { reveal_strlit("DiodeClipper"); reveal_strlit("Sequencer"); if "DiodeClipper"@ == "Sequencer"@ { assert("DiodeClipper"@.len() == "Sequencer"@.len()); } }
        assert("DiodeClipper"@ != "Wavefolder"@) by { reveal_strlit("DiodeClipper"); reveal_strlit("Wavefolder"); if "DiodeClipper"@ == "Wavefolder"@ { assert("DiodeClipper"@.len() == "Wavefolder"@.len()); } }
        assert("DiodeClipper"@ != "Lorenz"@) by { reveal_strlit("DiodeClipper"); reveal_strlit("Lorenz"); if "DiodeClipper"@ == "Lorenz"@ { assert("DiodeClipper"@.len() == "Lorenz"@.len()); } }
        assert("DiodeClipper"@ != "MackeyGlass"@) by { reveal_strlit("DiodeClipper"); reveal_strlit("MackeyGlass"); if "DiodeClipper"@ == "MackeyGlass"@ { assert("DiodeClipper"@.len() == "MackeyGlass"@.len()); } }
        assert("DiodeClipper"@ != "GrayScott"@) by { reveal_strlit("DiodeClipper"); reveal_strlit("GrayScott"); if "DiodeClipper"@ == "GrayScott"@ { assert("DiodeClipper"@.len() == "GrayScott"@.len()); } }
        assert("DiodeClipper"@ != "ReactionDiffusion"@) by { reveal_strlit("DiodeClipper"); reveal_strlit("ReactionDiffusion"); if "DiodeClipper"@ == "ReactionDiffusion"@ { assert("DiodeClipper"@.len() == "ReactionDiffusion"@.len()); } }
        assert("DiodeClipper"@ != "BitCrush"@) by { reveal_strlit("DiodeClipper"); reveal_strlit("BitCrush"); if "DiodeClipper"@ == "BitCrush"@ { assert("DiodeClipper"@.len() == "BitCrush"@.len()); } }
        assert("DiodeClipper"@ != "WaveShaper"@) by { reveal_strlit("DiodeClipper"); reveal_strlit("WaveShaper"); if "DiodeClipper"@ == "WaveShaper"@ { assert("DiodeClipper"@.len() == "WaveShaper"@.len()); } }
        assert("DiodeClipper"@ != "Pll"@) by { reveal_strlit("DiodeClipper"); reveal_strlit("Pll"); if "DiodeClipper"@ == "Pll"@ { assert("DiodeClipper"@.len() == "Pll"@.len()); } }
        assert("DiodeClipper"@ != "SlewLimiter"@) by { reveal_strlit("DiodeClipper"); reveal_strlit("SlewLimiter"); if "DiodeClipper"@ == "SlewLimiter"@ { assert("DiodeClipper"@.len() == "SlewLimiter"@.len()); } }
        assert("DiodeClipper"@ != "Slew"@) by { reveal_strlit("DiodeClipper"); reveal_strlit("Slew"); if "DiodeClipper"@ == "Slew"@ { assert("DiodeClipper"@.len() == "Slew"@.len()); } }
        assert("DiodeClipper"@ != "SampleHold"@) by { reveal_strlit("DiodeClipper"); reveal_strlit("SampleHold"); if "DiodeClipper"@ == "SampleHold"@ { assert("DiodeClipper"@.len() == "SampleHold"@.len()); } }
        assert("DiodeClipper"@ != "S&H"@) by { reveal_strlit("DiodeClipper"); reveal_strlit("S&H"); if "DiodeClipper"@ == "S&H"@ { assert("DiodeClipper"@.len() == "S&H"@.len()); } }
        assert("DiodeClipper"@ != "Clock"@) by { reveal_strlit("DiodeClipper"); reveal_strlit("Clock"); if "DiodeClipper"@ == "Clock"@ { assert("DiodeClipper"@.len() == "Clock"@.len()); } }
        assert("DiodeClipper"@ != "ProbabilityGate"@) by { reveal_strlit("DiodeClipper"); reveal_strlit("ProbabilityGate"); if "DiodeClipper"@ == "ProbabilityGate"@ { assert("DiodeClipper"@.len() == "ProbabilityGate"@.len()); } }
        assert("DiodeClipper"@ != "Reverb"@) by { reveal_strlit("DiodeClipper"); reveal_strlit("Reverb"); if "DiodeClipper"@ == "Reverb"@ { assert("DiodeClipper"@.len() == "Reverb"@.len()); } }
        assert("DiodeClipper"@ != "SpringReverb"@) by { reveal_strlit("DiodeClipper"); reveal_strlit("SpringReverb"); if "DiodeClipper"@ == "SpringReverb"@ { assert("DiodeClipper"@[0] == "SpringReverb"@[0]); } }
        assert("DiodeClipper"@ != "Granular"@) by { reveal_strlit("DiodeClipper"); reveal_strlit("Granular"); if "DiodeClipper"@ == "Granular"@ { assert("DiodeClipper"@.len() == "Granular"@.len()); } }
        assert("DiodeClipper"@ != "Logic"@) by { reveal_strlit("DiodeClipper"); reveal_strlit("Logic"); if "DiodeClipper"@ == "Logic"@ { assert("DiodeClipper"@.len() == "Logic"@.len()); } }
        assert("DiodeClipper"@ != "SpectralFreeze"@) by { reveal_strlit("DiodeClipper"); reveal_strlit("SpectralFreeze"); if "DiodeClipper"@ == "SpectralFreeze"@ { assert("DiodeClipper"@.len() == "SpectralFreeze"@.len()); } }
        assert("DiodeClipper"@ != "FFTConvolve"@) by { reveal_strlit("DiodeClipper"); reveal_strlit("FFTConvolve"); if "DiodeClipper"@ == "FFTConvolve"@ { assert("DiodeClipper"@.len() == "FFTConvolve"@.len()); } }
        assert("DiodeClipper"@ != "ZdfLadder"@) by { reveal_strlit("DiodeClipper"); reveal_strlit("ZdfLadder"); if "DiodeClipper"@ == "ZdfLadder"@ { assert("DiodeClipper"@.len() == "ZdfLadder"@.len()); } }
        assert("DiodeClipper"@ != "TB303Ladder"@) by { reveal_strlit("DiodeClipper"); reveal_strlit("TB303Ladder"); if "DiodeClipper"@ == "TB303Ladder"@ { assert("DiodeClipper"@.len() == "TB303Ladder"@.len()); } }
        assert("DiodeClipper"@ != "Ladder"@) by { reveal_strlit("DiodeClipper"); reveal_strlit("Ladder"); if "DiodeClipper"@ == "Ladder"@ { assert("DiodeClipper"@.len() == "Ladder"@.len()); } }
        assert("DiodeClipper"@ != "Svf"@) by { reveal_strlit("DiodeClipper"); reveal_strlit("Svf"); if "DiodeClipper"@ == "Svf"@ { assert("DiodeClipper"@.len() == "Svf"@.len()); } }
        assert("DiodeClipper"@ != "SVFFilter"@) by { reveal_strlit("DiodeClipper"); reveal_strlit("SVFFilter"); if "DiodeClipper"@ == "SVFFilter"@ { assert("DiodeClipper"@.len() == "SVFFilter"@.len()); } }
}

proof fn lemma_name_bbddelay(has_midi: bool)
    ensures
        dsp_kind_for_name("BbdDelay"@, has_midi) == DspKind::BbdDelay,
{
        assert("BbdDelay"@ != "Oscillator"@) by { reveal_strlit("BbdDelay"); reveal_strlit("Oscillator"); if "BbdDelay"@ == "Oscillator"@ { assert("BbdDelay"@.len() == "Oscillator"@.len()); } }
        assert("BbdDelay"@ != "Sine"@) by { reveal_strlit("BbdDelay"); reveal_strlit("Sine"); if "BbdDelay"@ == "Sine"@ { assert("BbdDelay"@.len() == "Sine"@.len()); } }
        assert("BbdDelay"@ != "Noise"@) by { reveal_strlit("BbdDelay"); reveal_strlit("Noise"); if "BbdDelay"@ == "Noise"@ { assert("BbdDelay"@.len() == "Noise"@.len()); } }
        assert("BbdDelay"@ != "Gain"@) by { reveal_strlit("BbdDelay"); reveal_strlit("Gain"); if "BbdDelay"@ == "Gain"@ { assert("BbdDelay"@.len() == "Gain"@.len()); } }
        assert("BbdDelay"@ != "Add"@) by { reveal_strlit("BbdDelay"); reveal_strlit("Add"); if "BbdDelay"@ == "Add"@ { assert("BbdDelay"@.len() == "Add"@.len()); } }
        assert("BbdDelay"@ != "Multiply"@) by { reveal_strlit("BbdDelay"); reveal_strlit("Multiply"); if "BbdDelay"@ == "Multiply"@ { assert("BbdDelay"@[0] == "Multiply"@[0]); } }
        assert("BbdDelay"@ != "Clip"@) by { reveal_strlit("BbdDelay"); reveal_strlit("Clip"); if "BbdDelay"@ == "Clip"@ { assert("BbdDelay"@.len() == "Clip"@.len()); } }
        assert("BbdDelay"@ != "Filter"@) by { reveal_strlit("BbdDelay"); reveal_strlit("Filter"); if "BbdDelay"@ == "Filter"@ { assert("BbdDelay"@.len() == "Filter"@.len()); } }
        assert("BbdDelay"@ != "Biquad"@) by { reveal_strlit("BbdDelay"); reveal_strlit("Biquad"); if "BbdDelay"@ == "Biquad"@ { assert("BbdDelay"@.len() == "Biquad"@.len()); } }
        assert("BbdDelay"@ != "Compressor"@) by { reveal_strlit("BbdDelay"); reveal_strlit("Compressor"); if "BbdDelay"@ == "Compressor"@ { assert("BbdDelay"@.len() == "Compressor"@.len()); } }
        assert("BbdDelay"@ != "Dynamics"@) by { reveal_strlit("BbdDelay"); reveal_strlit("Dynamics"); if "BbdDelay"@ == "Dynamics"@ { assert("BbdDelay"@[0] == "Dynamics"@[0]); } }
        assert("BbdDelay"@ != "Delay"@) by { reveal_strlit("BbdDelay"); reveal_strlit("Delay"); if "BbdDelay"@ == "Delay"@ { assert("BbdDelay"@.len() == "Delay"@.len()); } }
        assert("BbdDelay"@ != "Sampler"@) by { reveal_strlit("BbdDelay"); reveal_strlit("Sampler"); if "BbdDelay"@ == "Sampler"@ { assert("BbdDelay"@.len() == "Sampler"@.len()); } }
        assert("BbdDelay"@ != "AssetReader"@) by { reveal_strlit("BbdDelay"); reveal_strlit("AssetReader"); if "BbdDelay"@ == "AssetReader"@ { assert("BbdDelay"@.len() == "AssetReader"@.len()); } }
        assert("BbdDelay"@ != "Trigger"@) by { reveal_strlit("BbdDelay"); reveal_strlit("Trigger"); if "BbdDelay"@ == "Trigger"@ { assert("BbdDelay"@.len() == "Trigger"@.len()); } }
        assert("BbdDelay"@ != "Envelope"@) by { reveal_strlit("BbdDelay"); reveal_strlit("Envelope"); if "BbdDelay"@ == "Envelope"@ { assert("BbdDelay"@[0] == "Envelope"@[0]); } }
        assert("BbdDelay"@ != "ADSR"@) by { reveal_strlit("BbdDelay"); reveal_strlit("ADSR"); if "BbdDelay"@ == "ADSR"@ { assert("BbdDelay"@.len() == "ADSR"@.len()); } }
        assert("BbdDelay"@ != "Automation"@) by { reveal_strlit("BbdDelay"); reveal_strlit("Automation"); if "BbdDelay"@ == "Automation"@ { assert("BbdDelay"@.len() == "Automation"@.len()); } }
        assert("BbdDelay"@ != "MidiIn"@) by { reveal_strlit("BbdDelay"); reveal_strlit("MidiIn"); if "BbdDelay"@ == "MidiIn"@ { assert("BbdDelay"@.len() == "MidiIn"@.len()); } }
        assert("BbdDelay"@ != "Sequencer"@) by { reveal_strlit("BbdDelay"); reveal_strlit("Sequencer"); if "BbdDelay"@ == "Sequencer"@ { assert("BbdDelay"@.len() == "Sequencer"@.len()); } }
        assert("BbdDelay"@ != "Wavefolder"@) by { reveal_strlit("BbdDelay"); reveal_strlit("Wavefolder"); if "BbdDelay"@ == "Wavefolder"@ { assert("BbdDelay"@.len() == "Wavefolder"@.len()); } }
        assert("BbdDelay"@ != "Lorenz"@) by { reveal_strlit("BbdDelay"); reveal_strlit("Lorenz"); if "BbdDelay"@ == "Lorenz"@ { assert("BbdDelay"@.len() == "Lorenz"@.len()); } }
        assert("BbdDelay"@ != "MackeyGlass"@) by { reveal_strlit("BbdDelay"); reveal_strlit("MackeyGlass"); if "BbdDelay"@ == "MackeyGlass"@ { assert("BbdDelay"@.len() == "MackeyGlass"@.len()); } }
        assert("BbdDelay"@ != "GrayScott"@) by { reveal_strlit("BbdDelay"); reveal_strlit("GrayScott"); if "BbdDelay"@ == "GrayScott"@ { assert("BbdDelay"@.len() == "GrayScott"@.len()); } }
        assert("BbdDelay"@ != "ReactionDiffusion"@) by { reveal_strlit("BbdDelay"); reveal_strlit("ReactionDiffusion"); if "BbdDelay"@ == "ReactionDiffusion"@ { assert("BbdDelay"@.len() == "ReactionDiffusion"@.len()); } }
        assert("BbdDelay"@ != "BitCrush"@) by { reveal_strlit("BbdDelay"); reveal_strlit("BitCrush"); if "BbdDelay"@ == "BitCrush"@ { assert("BbdDelay"@[1] == "BitCrush"@[1]); } }
        assert("BbdDelay"@ != "WaveShaper"@) by { reveal_strlit("BbdDelay"); reveal_strlit("WaveShaper"); if "BbdDelay"@ == "WaveShaper"@ { assert("BbdDelay"@.len() == "WaveShaper"@.len()); } }
        assert("BbdDelay"@ != "Pll"@) by { reveal_strlit("BbdDelay"); reveal_strlit("Pll"); if "BbdDelay"@ == "Pll"@ { assert("BbdDelay"@.len() == "Pll"@.len()); } }
        assert("BbdDelay"@ != "SlewLimiter"@) by { reveal_strlit("BbdDelay"); reveal_strlit("SlewLimiter"); if "BbdDelay"@ == "SlewLimiter"@ { assert("BbdDelay"@.len() == "SlewLimiter"@.len()); } }
        assert("BbdDelay"@ != "Slew"@) by { reveal_strlit("BbdDelay"); reveal_strlit("Slew"); if "BbdDelay"@ == "Slew"@ { assert("BbdDelay"@.len() == "Slew"@.len()); } }
        assert("BbdDelay"@ != "SampleHold"@) by { reveal_strlit("BbdDelay"); reveal_strlit("SampleHold"); if "BbdDelay"@ == "SampleHold"@ { assert("BbdDelay"@.len() == "SampleHold"@.len()); } }
        assert("BbdDelay"@ != "S&H"@) by { reveal_strlit("BbdDelay"); reveal_strlit("S&H"); if "BbdDelay"@ == "S&H"@ { assert("BbdDelay"@.len() == "S&H"@.len()); } }
        assert("BbdDelay"@ != "Clock"@) by { reveal_strlit("BbdDelay"); reveal_strlit("Clock"); if "BbdDelay"@ == "Clock"@ { assert("BbdDelay"@.len() == "Clock"@.len()); } }
        assert("BbdDelay"@ != "ProbabilityGate"@) by { reveal_strlit("BbdDelay"); reveal_strlit("ProbabilityGate"); if "BbdDelay"@ == "ProbabilityGate"@ { assert("BbdDelay"@.len() == "ProbabilityGate"@.len()); } }
        assert("BbdDelay"@ != "Reverb"@) by { reveal_strlit("BbdDelay"); reveal_strlit("Reverb"); if "BbdDelay"@ == "Reverb"@ { assert("BbdDelay"@.len() == "Reverb"@.len()); } }
        assert("BbdDelay"@ != "SpringReverb"@) by { reveal_strlit("BbdDelay"); reveal_strlit("SpringReverb"); if "BbdDelay"@ == "SpringReverb"@ { assert("BbdDelay"@.len() == "SpringReverb"@.len()); } }
        assert("BbdDelay"@ != "Granular"@) by { reveal_strlit("BbdDelay"); reveal_strlit("Granular"); if "BbdDelay"@ == "Granular"@ { assert("BbdDelay"@[0] == "Granular"@[0]); } }
        assert("BbdDelay"@ != "Logic"@) by { reveal_strlit("BbdDelay"); reveal_strlit("Logic"); if "BbdDelay"@ == "Logic"@ { assert("BbdDelay"@.len() == "Logic"@.len()); } }
        assert("BbdDelay"@ != "SpectralFreeze"@) by { reveal_strlit("BbdDelay"); reveal_strlit("SpectralFreeze"); if "BbdDelay"@ == "SpectralFreeze"@ { assert("BbdDelay"@.len() == "SpectralFreeze"@.len()); } }
        assert("BbdDelay"@ != "FFTConvolve"@) by { reveal_strlit("BbdDelay"); reveal_strlit("FFTConvolve"); if "BbdDelay"@ == "FFTConvolve"@ { assert("BbdDelay"@.len() == "FFTConvolve"@.len()); } }
        assert("BbdDelay"@ != "ZdfLadder"@) by { reveal_strlit("BbdDelay"); reveal_strlit("ZdfLadder"); if "BbdDelay"@ == "ZdfLadder"@ { assert("BbdDelay"@.len() == "ZdfLadder"@.len()); } }
        assert("BbdDelay"@ != "TB303Ladder"@) by { reveal_strlit("BbdDelay"); reveal_strlit("TB303Ladder"); if "BbdDelay"@ == "TB303Ladder"@ { assert("BbdDelay"@.len() == "TB303Ladder"@.len()); } }
        assert("BbdDelay"@ != "Ladder"@) by { reveal_strlit("BbdDelay"); reveal_strlit("Ladder"); if "BbdDelay"@ == "Ladder"@ { assert("BbdDelay"@.len() == "Ladder"@.len()); } }
        assert("BbdDelay"@ != "Svf"@) by { reveal_strlit("BbdDelay"); reveal_strlit("Svf"); if "BbdDelay"@ == "Svf"@ { assert("BbdDelay"@.len() == "Svf"@.len()); } }
        assert("BbdDelay"@ != "SVFFilter"@) by { reveal_strlit("BbdDelay"); reveal_strlit("SVFFilter"); if "BbdDelay"@ == "SVFFilter"@ { assert("BbdDelay"@.len() == "SVFFilter"@.len()); } }
        assert("BbdDelay"@ != "DiodeClipper"@) by { reveal_strlit("BbdDelay"); reveal_strlit("DiodeClipper"); if "BbdDelay"@ == "DiodeClipper"@ { assert("BbdDelay"@.len() == "DiodeClipper"@.len()); } }
}

proof fn lemma_name_karplusstrong(has_midi: bool)
    ensures
        dsp_kind_for_name("KarplusStrong"@, has_midi) == DspKind::KarplusStrong,
{
        assert("KarplusStrong"@ != "Oscillator"@) by { reveal_strlit("KarplusStrong"); reveal_strlit("Oscillator"); if "KarplusStrong"@ == "Oscillator"@ { assert("KarplusStrong"@.len() == "Oscillator"@.len()); } }
        assert("KarplusStrong"@ != "Sine"@) by { reveal_strlit("KarplusStrong"); reveal_strlit("Sine"); if "KarplusStrong"@ == "Sine"@ { assert("KarplusStrong"@.len() == "Sine"@.len()); } }
        assert("KarplusStrong"@ != "Noise"@) by { reveal_strlit("KarplusStrong"); reveal_strlit("Noise"); if "KarplusStrong"@ == "Noise"@ { assert("KarplusStrong"@.len() == "Noise"@.len()); } }
        assert("KarplusStrong"@ != "Gain"@) by { reveal_strlit("KarplusStrong"); reveal_strlit("Gain"); if "KarplusStrong"@ == "Gain"@ { assert("KarplusStrong"@.len() == "Gain"@.len()); } }
        assert("KarplusStrong"@ != "Add"@) by { reveal_strlit("KarplusStrong"); reveal_strlit("Add"); if "KarplusStrong"@ == "Add"@ { assert("KarplusStrong"@.len() == "Add"@.len()); } }
        assert("KarplusStrong"@ != "Multiply"@) by { reveal_strlit("KarplusStrong"); reveal_strlit("Multiply"); if "KarplusStrong"@ == "Multiply"@ { assert("KarplusStrong"@.len() == "Multiply"@.len()); } }
        assert("KarplusStrong"@ != "Clip"@) by { reveal_strlit("KarplusStrong"); reveal_strlit("Clip"); if "KarplusStrong"@ == "Clip"@ { assert("KarplusStrong"@.len() == "Clip"@.len()); } }
        assert("KarplusStrong"@ != "Filter"@) by { reveal_strlit("KarplusStrong"); reveal_strlit("Filter"); if "KarplusStrong"@ == "Filter"@ { assert("KarplusStrong"@.len() == "Filter"@.len()); } }
        assert("KarplusStrong"@ != "Biquad"@) by { reveal_strlit("KarplusStrong"); reveal_strlit("Biquad"); if "KarplusStrong"@ == "Biquad"@ { assert("KarplusStrong"@.len() == "Biquad"@.len()); } }
        assert("KarplusStrong"@ != "Compressor"@) by { reveal_strlit("KarplusStrong"); reveal_strlit("Compressor"); if "KarplusStrong"@ == "Compressor"@ { assert("KarplusStrong"@.len() == "Compressor"@.len()); } }
        assert("KarplusStrong"@ != "Dynamics"@) by { reveal_strlit("KarplusStrong"); reveal_strlit("Dynamics"); if "KarplusStrong"@ == "Dynamics"@ { assert("KarplusStrong"@.len() == "Dynamics"@.len()); } }
        assert("KarplusStrong"@ != "Delay"@) by { reveal_strlit("KarplusStrong"); reveal_strlit("Delay"); if "KarplusStrong"@ == "Delay"@ { assert("KarplusStrong"@.len() == "Delay"@.len()); } }
        assert("KarplusStrong"@ != "Sampler"@) by { reveal_strlit("KarplusStrong"); reveal_strlit("Sampler"); if "KarplusStrong"@ == "Sampler"@ { assert("KarplusStrong"@.len() == "Sampler"@.len()); } }
        assert("KarplusStrong"@ != "AssetReader"@) by { reveal_strlit("KarplusStrong"); reveal_strlit("AssetReader"); if "KarplusStrong"@ == "AssetReader"@ { assert("KarplusStrong"@.len() == "AssetReader"@.len()); } }
        assert("KarplusStrong"@ != "Trigger"@) by { reveal_strlit("KarplusStrong"); reveal_strlit("Trigger"); if "KarplusStrong"@ == "Trigger"@ { assert("KarplusStrong"@.len() == "Trigger"@.len()); } }
        assert("KarplusStrong"@ != "Envelope"@) by { reveal_strlit("KarplusStrong"); reveal_strlit("Envelope"); if "KarplusStrong"@ == "Envelope"@ { assert("KarplusStrong"@.len() == "Envelope"@.len()); } }
        assert("KarplusStrong"@ != "ADSR"@) by { reveal_strlit("KarplusStrong"); reveal_strlit("ADSR"); if "KarplusStrong"@ == "ADSR"@ { assert("KarplusStrong"@.len() == "ADSR"@.len()); } }
        assert("KarplusStrong"@ != "Automation"@) by { reveal_strlit("KarplusStrong"); reveal_strlit("Automation"); if "KarplusStrong"@ == "Automation"@ { assert("KarplusStrong"@.len() == "Automation"@.len()); } }
        assert("KarplusStrong"@ != "MidiIn"@) by { reveal_strlit("KarplusStrong"); reveal_strlit("MidiIn"); if "KarplusStrong"@ == "MidiIn"@ { assert("KarplusStrong"@.len() == "MidiIn"@.len()); } }
        assert("KarplusStrong"@ != "Sequencer"@) by { reveal_strlit("KarplusStrong"); reveal_strlit("Sequencer"); if "KarplusStrong"@ == "Sequencer"@ { assert("KarplusStrong"@.len() == "Sequencer"@.len()); } }
        assert("KarplusStrong"@ != "Wavefolder"@) by { reveal_strlit("KarplusStrong"); reveal_strlit("Wavefolder"); if "KarplusStrong"@ == "Wavefolder"@ { assert("KarplusStrong"@.len() == "Wavefolder"@.len()); } }
        assert("KarplusStrong"@ != "Lorenz"@) by { reveal_strlit("KarplusStrong"); reveal_strlit("Lorenz"); if "KarplusStrong"@ == "Lorenz"@ { assert("KarplusStrong"@.len() == "Lorenz"@.len()); } }
        assert("KarplusStrong"@ != "MackeyGlass"@) by { reveal_strlit("KarplusStrong"); reveal_strlit("MackeyGlass"); if "KarplusStrong"@ == "MackeyGlass"@ { assert("KarplusStrong"@.len() == "MackeyGlass"@.len()); } }
        assert("KarplusStrong"@ != "GrayScott"@) by { reveal_strlit("KarplusStrong"); reveal_strlit("GrayScott"); if "KarplusStrong"@ == "GrayScott"@ { assert("KarplusStrong"@.len() == "GrayScott"@.len()); } }
        assert("KarplusStrong"@ != "ReactionDiffusion"@) by { reveal_strlit("KarplusStrong"); reveal_strlit("ReactionDiffusion"); if "KarplusStrong"@ == "ReactionDiffusion"@ { assert("KarplusStrong"@.len() == "ReactionDiffusion"@.len()); } }
        assert("KarplusStrong"@ != "BitCrush"@) by { reveal_strlit("KarplusStrong"); reveal_strlit("BitCrush"); if "KarplusStrong"@ == "BitCrush"@ { assert("KarplusStrong"@.len() == "BitCrush"@.len()); } }
        assert("KarplusStrong"@ != "WaveShaper"@) by { reveal_strlit("KarplusStrong"); reveal_strlit("WaveShaper"); if "KarplusStrong"@ == "WaveShaper"@ { assert("KarplusStrong"@.len() == "WaveShaper"@.len()); } }
        assert("KarplusStrong"@ != "Pll"@) by { reveal_strlit("KarplusStrong"); reveal_strlit("Pll"); if "KarplusStrong"@ == "Pll"@ { assert("KarplusStrong"@.len() == "Pll"@.len()); } }
        assert("KarplusStrong"@ != "SlewLimiter"@) by { reveal_strlit("KarplusStrong"); reveal_strlit("SlewLimiter"); if "KarplusStrong"@ == "SlewLimiter"@ { assert("KarplusStrong"@.len() == "SlewLimiter"@.len()); } }
        assert("KarplusStrong"@ != "Slew"@) by { reveal_strlit("KarplusStrong"); reveal_strlit("Slew"); if "KarplusStrong"@ == "Slew"@ { assert("KarplusStrong"@.len() == "Slew"@.len()); } }
        assert("KarplusStrong"@ != "SampleHold"@) by { reveal_strlit("KarplusStrong"); reveal_strlit("SampleHold"); if "KarplusStrong"@ == "SampleHold"@ { assert("KarplusStrong"@.len() == "SampleHold"@.len()); } }
        assert("KarplusStrong"@ != "S&H"@) by { reveal_strlit("KarplusStrong"); reveal_strlit("S&H"); if "KarplusStrong"@ == "S&H"@ { assert("KarplusStrong"@.len() == "S&H"@.len()); } }
        assert("KarplusStrong"@ != "Clock"@) by { reveal_strlit("KarplusStrong"); reveal_strlit("Clock"); if "KarplusStrong"@ == "Clock"@ { assert("KarplusStrong"@.len() == "Clock"@.len()); } }
        assert("KarplusStrong"@ != "ProbabilityGate"@) by { reveal_strlit("KarplusStrong"); reveal_strlit("ProbabilityGate"); if "KarplusStrong"@ == "ProbabilityGate"@ { assert("KarplusStrong"@.len() == "ProbabilityGate"@.len()); } }
        assert("KarplusStrong"@ != "Reverb"@) by { reveal_strlit("KarplusStrong"); reveal_strlit("Reverb"); if "KarplusStrong"@ == "Reverb"@ { assert("KarplusStrong"@.len() == "Reverb"@.len()); } }
        assert("KarplusStrong"@ != "SpringReverb"@) by { reveal_strlit("KarplusStrong"); reveal_strlit("SpringReverb"); if "KarplusStrong"@ == "SpringReverb"@ { assert("KarplusStrong"@.len() == "SpringReverb"@.len()); } }
        assert("KarplusStrong"@ != "Granular"@) by { reveal_strlit("KarplusStrong"); reveal_strlit("Granular"); if "KarplusStrong"@ == "Granular"@ { assert("KarplusStrong"@.len() == "Granular"@.len()); } }
        assert("KarplusStrong"@ != "Logic"@) by { reveal_strlit("KarplusStrong"); reveal_strlit("Logic"); if "KarplusStrong"@ == "Logic"@ { assert("KarplusStrong"@.len() == "Logic"@.len()); } }
        assert("KarplusStrong"@ != "SpectralFreeze"@) by { reveal_strlit("KarplusStrong"); reveal_strlit("SpectralFreeze"); if "KarplusStrong"@ == "SpectralFreeze"@ { assert("KarplusStrong"@.len() == "SpectralFreeze"@.len()); } }
        assert("KarplusStrong"@ != "FFTConvolve"@) by { reveal_strlit("KarplusStrong"); reveal_strlit("FFTConvolve"); if "KarplusStrong"@ == "FFTConvolve"@ { assert("KarplusStrong"@.len() == "FFTConvolve"@.len()); } }
        assert("KarplusStrong"@ != "ZdfLadder"@) by { reveal_strlit("KarplusStrong"); reveal_strlit("ZdfLadder"); if "KarplusStrong"@ == "ZdfLadder"@ { assert("KarplusStrong"@.len() == "ZdfLadder"@.len()); } }
        assert("KarplusStrong"@ != "TB303Ladder"@) by { reveal_strlit("KarplusStrong"); reveal_strlit("TB303Ladder"); if "KarplusStrong"@ == "TB303Ladder"@ { assert("KarplusStrong"@.len() == "TB303Ladder"@.len()); } }
        assert("KarplusStrong"@ != "Ladder"@) by { reveal_strlit("KarplusStrong"); reveal_strlit("Ladder"); if "KarplusStrong"@ == "Ladder"@ { assert("KarplusStrong"@.len() == "Ladder"@.len()); } }
        assert("KarplusStrong"@ != "Svf"@) by { reveal_strlit("KarplusStrong"); reveal_strlit("Svf"); if "KarplusStrong"@ == "Svf"@ { assert("KarplusStrong"@.len() == "Svf"@.len()); } }
        assert("KarplusStrong"@ != "SVFFilter"@) by { reveal_strlit("KarplusStrong"); reveal_strlit("SVFFilter"); if "KarplusStrong"@ == "SVFFilter"@ { assert("KarplusStrong"@.len() == "SVFFilter"@.len()); } }
        assert("KarplusStrong"@ != "DiodeClipper"@) by { reveal_strlit("KarplusStrong"); reveal_strlit("DiodeClipper"); if "KarplusStrong"@ == "DiodeClipper"@ { assert("KarplusStrong"@.len() == "DiodeClipper"@.len()); } }
        assert("KarplusStrong"@ != "BbdDelay"@) by { reveal_strlit("KarplusStrong"); reveal_strlit("BbdDelay"); if "KarplusStrong"@ == "BbdDelay"@ { assert("KarplusStrong"@.len() == "BbdDelay"@.len()); } }
}

proof fn lemma_name_modalresonator(has_midi: bool)
    ensures
        dsp_kind_for_name("ModalResonator"@, has_midi) == DspKind::ModalResonator,
{
        assert("ModalResonator"@ != "Oscillator"@) by { reveal_strlit("ModalResonator"); reveal_strlit("Oscillator"); if "ModalResonator"@ == "Oscillator"@ { assert("ModalResonator"@.len() == "Oscillator"@.len()); } }
        assert("ModalResonator"@ != "Sine"@) by { reveal_strlit("ModalResonator"); reveal_strlit("Sine"); if "ModalResonator"@ == "Sine"@ { assert("ModalResonator"@.len() == "Sine"@.len()); } }
        assert("ModalResonator"@ != "Noise"@) by { reveal_strlit("ModalResonator"); reveal_strlit("Noise"); if "ModalResonator"@ == "Noise"@ { assert("ModalResonator"@.len() == "Noise"@.len()); } }
        assert("ModalResonator"@ != "Gain"@) by { reveal_strlit("ModalResonator"); reveal_strlit("Gain"); if "ModalResonator"@ == "Gain"@ { assert("ModalResonator"@.len() == "Gain"@.len()); } }
        assert("ModalResonator"@ != "Add"@) by { reveal_strlit("ModalResonator"); reveal_strlit("Add"); if "ModalResonator"@ == "Add"@ { assert("ModalResonator"@.len() == "Add"@.len()); } }
        assert("ModalResonator"@ != "Multiply"@) by { reveal_strlit("ModalResonator"); reveal_strlit("Multiply"); if "ModalResonator"@ == "Multiply"@ { assert("ModalResonator"@.len() == "Multiply"@.len()); } }
        assert("ModalResonator"@ != "Clip"@) by { reveal_strlit("ModalResonator"); reveal_strlit("Clip"); if "ModalResonator"@ == "Clip"@ { assert("ModalResonator"@.len() == "Clip"@.len()); } }
        assert("ModalResonator"@ != "Filter"@) by { reveal_strlit("ModalResonator"); reveal_strlit("Filter"); if "ModalResonator"@ == "Filter"@ { assert("ModalResonator"@.len() == "Filter"@.len()); } }
        assert("ModalResonator"@ != "Biquad"@) by { reveal_strlit("ModalResonator"); reveal_strlit("Biquad"); if "ModalResonator"@ == "Biquad"@ { assert("ModalResonator"@.len() == "Biquad"@.len()); } }
        assert("ModalResonator"@ != "Compressor"@) by { reveal_strlit("ModalResonator"); reveal_strlit("Compressor"); if "ModalResonator"@ == "Compressor"@ { assert("ModalResonator"@.len() == "Compressor"@.len()); } }
        assert("ModalResonator"@ != "Dynamics"@) by { reveal_strlit("ModalResonator"); reveal_strlit("Dynamics"); if "ModalResonator"@ == "Dynamics"@ { assert("ModalResonator"@.len() == "Dynamics"@.len()); } }
        assert("ModalResonator"@ != "Delay"@) by { reveal_strlit("ModalResonator"); reveal_strlit("Delay"); if "ModalResonator"@ == "Delay"@ { assert("ModalResonator"@.len() == "Delay"@.len()); } }
        assert("ModalResonator"@ != "Sampler"@) by { reveal_strlit("ModalResonator"); reveal_strlit("Sampler"); if "ModalResonator"@ == "Sampler"@ { assert("ModalResonator"@.len() == "Sampler"@.len()); } }
        assert("ModalResonator"@ != "AssetReader"@) by { reveal_strlit("ModalResonator"); reveal_strlit("AssetReader"); if "ModalResonator"@ == "AssetReader"@ { assert("ModalResonator"@.len() == "AssetReader"@.len()); } }
        assert("ModalResonator"@ != "Trigger"@) by { reveal_strlit("ModalResonator"); reveal_strlit("Trigger"); if "ModalResonator"@ == "Trigger"@ { assert("ModalResonator"@.len() == "Trigger"@.len()); } }
        assert("ModalResonator"@ != "Envelope"@) by { reveal_strlit("ModalResonator"); reveal_strlit("Envelope"); if "ModalResonator"@ == "Envelope"@ { assert("ModalResonator"@.len() == "Envelope"@.len()); } }
        assert("ModalResonator"@ != "ADSR"@) by { reveal_strlit("ModalResonator"); reveal_strlit("ADSR"); if "ModalResonator"@ == "ADSR"@ { assert("ModalResonator"@.len() == "ADSR"@.len()); } }
        assert("ModalResonator"@ != "Automation"@) by { reveal_strlit("ModalResonator"); reveal_strlit("Automation"); if "ModalResonator"@ == "Automation"@ { assert("ModalResonator"@.len() == "Automation"@.len()); } }
        assert("ModalResonator"@ != "MidiIn"@) by { reveal_strlit("ModalResonator"); reveal_strlit("MidiIn"); if "ModalResonator"@ == "MidiIn"@ { assert("ModalResonator"@.len() == "MidiIn"@.len()); } }
        assert("ModalResonator"@ != "Sequencer"@) by { reveal_strlit("ModalResonator"); reveal_strlit("Sequencer"); if "ModalResonator"@ == "Sequencer"@ { assert("ModalResonator"@.len() == "Sequencer"@.len()); } }
        assert("ModalResonator"@ != "Wavefolder"@) by { reveal_strlit("ModalResonator"); reveal_strlit("Wavefolder"); if "ModalResonator"@ == "Wavefolder"@ { assert("ModalResonator"@.len() == "Wavefolder"@.len()); } }
        assert("ModalResonator"@ != "Lorenz"@) by { reveal_strlit("ModalResonator"); reveal_strlit("Lorenz"); if "ModalResonator"@ == "Lorenz"@ { assert("ModalResonator"@.len() == "Lorenz"@.len()); } }
        assert("ModalResonator"@ != "MackeyGlass"@) by { reveal_strlit("ModalResonator"); reveal_strlit("MackeyGlass"); if "ModalResonator"@ == "MackeyGlass"@ { assert("ModalResonator"@.len() == "MackeyGlass"@.len()); } }
        assert("ModalResonator"@ != "GrayScott"@) by { reveal_strlit("ModalResonator"); reveal_strlit("GrayScott"); if "ModalResonator"@ == "GrayScott"@ { assert("ModalResonator"@.len() == "GrayScott"@.len()); } }
        assert("ModalResonator"@ != "ReactionDiffusion"@) by { reveal_strlit("ModalResonator"); reveal_strlit("ReactionDiffusion"); if "ModalResonator"@ == "ReactionDiffusion"@ { assert("ModalResonator"@.len() == "ReactionDiffusion"@.len()); } }
        assert("ModalResonator"@ != "BitCrush"@) by { reveal_strlit("ModalResonator"); reveal_strlit("BitCrush"); if "ModalResonator"@ == "BitCrush"@ { assert("ModalResonator"@.len() == "BitCrush"@.len()); } }
        assert("ModalResonator"@ != "WaveShaper"@) by { reveal_strlit("ModalResonator"); reveal_strlit("WaveShaper"); if "ModalResonator"@ == "WaveShaper"@ { assert("ModalResonator"@.len() == "WaveShaper"@.len()); } }
        assert("ModalResonator"@ != "Pll"@) by { reveal_strlit("ModalResonator"); reveal_strlit("Pll"); if "ModalResonator"@ == "Pll"@ { assert("ModalResonator"@.len() == "Pll"@.len()); } }
        assert("ModalResonator"@ != "SlewLimiter"@) by { reveal_strlit("ModalResonator"); reveal_strlit("SlewLimiter"); if "ModalResonator"@ == "SlewLimiter"@ { assert("ModalResonator"@.len() == "SlewLimiter"@.len()); } }
        assert("ModalResonator"@ != "Slew"@) by { reveal_strlit("ModalResonator"); reveal_strlit("Slew"); if "ModalResonator"@ == "Slew"@ { assert("ModalResonator"@.len() == "Slew"@.len()); } }
        assert("ModalResonator"@ != "SampleHold"@) by { reveal_strlit("ModalResonator"); reveal_strlit("SampleHold"); if "ModalResonator"@ == "SampleHold"@ { assert("ModalResonator"@.len() == "SampleHold"@.len()); } }
        assert("ModalResonator"@ != "S&H"@) by { reveal_strlit("ModalResonator"); reveal_strlit("S&H"); if "ModalResonator"@ == "S&H"@ { assert("ModalResonator"@.len() == "S&H"@.len()); } }
        assert("ModalResonator"@ != "Clock"@) by { reveal_strlit("ModalResonator"); reveal_strlit("Clock"); if "ModalResonator"@ == "Clock"@ { assert("ModalResonator"@.len() == "Clock"@.len()); } }
        assert("ModalResonator"@ != "ProbabilityGate"@) by { reveal_strlit("ModalResonator"); reveal_strlit("ProbabilityGate"); if "ModalResonator"@ == "ProbabilityGate"@ { assert("ModalResonator"@.len() == "ProbabilityGate"@.len()); } }
        assert("ModalResonator"@ != "Reverb"@) by { reveal_strlit("ModalResonator"); reveal_strlit("Reverb"); if "ModalResonator"@ == "Reverb"@ { assert("ModalResonator"@.len() == "Reverb"@.len()); } }
        assert("ModalResonator"@ != "SpringReverb"@) by { reveal_strlit("ModalResonator"); reveal_strlit("SpringReverb"); if "ModalResonator"@ == "SpringReverb"@ { assert("ModalResonator"@.len() == "SpringReverb"@.len()); } }
        assert("ModalResonator"@ != "Granular"@) by { reveal_strlit("ModalResonator"); reveal_strlit("Granular"); if "ModalResonator"@ == "Granular"@ { assert("ModalResonator"@.len() == "Granular"@.len()); } }
        assert("ModalResonator"@ != "Logic"@) by { reveal_strlit("ModalResonator"); reveal_strlit("Logic"); if "ModalResonator"@ == "Logic"@ { assert("ModalResonator"@.len() == "Logic"@.len()); } }
        assert("ModalResonator"@ != "SpectralFreeze"@) by { reveal_strlit("ModalResonator"); reveal_strlit("SpectralFreeze"); if "ModalResonator"@ == "SpectralFreeze"@ { assert("ModalResonator"@[0] == "SpectralFreeze"@[0]); } }
        assert("ModalResonator"@ != "FFTConvolve"@) by { reveal_strlit("ModalResonator"); reveal_strlit("FFTConvolve"); if "ModalResonator"@ == "FFTConvolve"@ { assert("ModalResonator"@.len() == "FFTConvolve"@.len()); } }
        assert("ModalResonator"@ != "ZdfLadder"@) by { reveal_strlit("ModalResonator"); reveal_strlit("ZdfLadder"); if "ModalResonator"@ == "ZdfLadder"@ { assert("ModalResonator"@.len() == "ZdfLadder"@.len()); } }
        assert("ModalResonator"@ != "TB303Ladder"@) by { reveal_strlit("ModalResonator"); reveal_strlit("TB303Ladder"); if "ModalResonator"@ == "TB303Ladder"@ { assert("ModalResonator"@.len() == "TB303Ladder"@.len()); } }
        assert("ModalResonator"@ != "Ladder"@) by { reveal_strlit("ModalResonator"); reveal_strlit("Ladder"); if "ModalResonator"@ == "Ladder"@ { assert("ModalResonator"@.len() == "Ladder"@.len()); } }
        assert("ModalResonator"@ != "Svf"@) by { reveal_strlit("ModalResonator"); reveal_strlit("Svf"); if "ModalResonator"@ == "Svf"@ { assert("ModalResonator"@.len() == "Svf"@.len()); } }
        assert("ModalResonator"@ != "SVFFilter"@) by { reveal_strlit("ModalResonator"); reveal_strlit("SVFFilter"); if "ModalResonator"@ == "SVFFilter"@ { assert("ModalResonator"@.len() == "SVFFilter"@.len()); } }
        assert("ModalResonator"@ != "DiodeClipper"@) by { reveal_strlit("ModalResonator"); reveal_strlit("DiodeClipper"); if "ModalResonator"@ == "DiodeClipper"@ { assert("ModalResonator"@.len() == "DiodeClipper"@.len()); } }
        assert("ModalResonator"@ != "BbdDelay"@) by { reveal_strlit("ModalResonator"); reveal_strlit("BbdDelay"); if "ModalResonator"@ == "BbdDelay"@ { assert("ModalResonator"@.len() == "BbdDelay"@.len()); } }
        assert("ModalResonator"@ != "KarplusStrong"@) by { reveal_strlit("ModalResonator"); reveal_strlit("KarplusStrong"); if "ModalResonator"@ == "KarplusStrong"@ { assert("ModalResonator"@.len() == "KarplusStrong"@.len()); } }
}

proof fn lemma_name_chuacircuit(has_midi: bool)
    ensures
        dsp_kind_for_name("ChuaCircuit"@, has_midi) == DspKind::ChuaCircuit,
{
        assert("ChuaCircuit"@ != "Oscillator"@) by { reveal_strlit("ChuaCircuit"); reveal_strlit("Oscillator"); if "ChuaCircuit"@ == "Oscillator"@ { assert("ChuaCircuit"@.len() == "Oscillator"@.len()); } }
        assert("ChuaCircuit"@ != "Sine"@) by { reveal_strlit("ChuaCircuit"); reveal_strlit("Sine"); if "ChuaCircuit"@ == "Sine"@ { assert("ChuaCircuit"@.len() == "Sine"@.len()); } }
        assert("ChuaCircuit"@ != "Noise"@) by { reveal_strlit("ChuaCircuit"); reveal_strlit("Noise"); if "ChuaCircuit"@ == "Noise"@ { assert("ChuaCircuit"@.len() == "Noise"@.len()); } }
        assert("ChuaCircuit"@ != "Gain"@) by { reveal_strlit("ChuaCircuit"); reveal_strlit("Gain"); if "ChuaCircuit"@ == "Gain"@ { assert("ChuaCircuit"@.len() == "Gain"@.len()); } }
        assert("ChuaCircuit"@ != "Add"@) by { reveal_strlit("ChuaCircuit"); reveal_strlit("Add"); if "ChuaCircuit"@ == "Add"@ { assert("ChuaCircuit"@.len() == "Add"@.len()); } }
        assert("ChuaCircuit"@ != "Multiply"@) by { reveal_strlit("ChuaCircuit"); reveal_strlit("Multiply"); if "ChuaCircuit"@ == "Multiply"@ { assert("ChuaCircuit"@.len() == "Multiply"@.len()); } }
        assert("ChuaCircuit"@ != "Clip"@) by { reveal_strlit("ChuaCircuit"); reveal_strlit("Clip"); if "ChuaCircuit"@ == "Clip"@ { assert("ChuaCircuit"@.len() == "Clip"@.len()); } }
        assert("ChuaCircuit"@ != "Filter"@) by { reveal_strlit("ChuaCircuit"); reveal_strlit("Filter"); if "ChuaCircuit"@ == "Filter"@ { assert("ChuaCircuit"@.len() == "Filter"@.len()); } }
        assert("ChuaCircuit"@ != "Biquad"@) by { reveal_strlit("ChuaCircuit"); reveal_strlit("Biquad"); if "ChuaCircuit"@ == "Biquad"@ { assert("ChuaCircuit"@.len() == "Biquad"@.len()); } }
        assert("ChuaCircuit"@ != "Compressor"@) by { reveal_strlit("ChuaCircuit"); reveal_strlit("Compressor"); if "ChuaCircuit"@ == "Compressor"@ { assert("ChuaCircuit"@.len() == "Compressor"@.len()); } }
        assert("ChuaCircuit"@ != "Dynamics"@) by { reveal_strlit("ChuaCircuit"); reveal_strlit("Dynamics"); if "ChuaCircuit"@ == "Dynamics"@ { assert("ChuaCircuit"@.len() == "Dynamics"@.len()); } }
        assert("ChuaCircuit"@ != "Delay"@) by { reveal_strlit("ChuaCircuit"); reveal_strlit("Delay"); if "ChuaCircuit"@ == "Delay"@ { assert("ChuaCircuit"@.len() == "Delay"@.len()); } }
        assert("ChuaCircuit"@ != "Sampler"@) by { reveal_strlit("ChuaCircuit"); reveal_strlit("Sampler"); if "ChuaCircuit"@ == "Sampler"@ { assert("ChuaCircuit"@.len() == "Sampler"@.len()); } }
        assert("ChuaCircuit"@ != "AssetReader"@) by { reveal_strlit("ChuaCircuit"); reveal_strlit("AssetReader"); if "ChuaCircuit"@ == "AssetReader"@ { assert("ChuaCircuit"@[0] == "AssetReader"@[0]); } }
        assert("ChuaCircuit"@ != "Trigger"@) by { reveal_strlit("ChuaCircuit"); reveal_strlit("Trigger"); if "ChuaCircuit"@ == "Trigger"@ { assert("ChuaCircuit"@.len() == "Trigger"@.len()); } }
        assert("ChuaCircuit"@ != "Envelope"@) by { reveal_strlit("ChuaCircuit"); reveal_strlit("Envelope"); if "ChuaCircuit"@ == "Envelope"@ { assert("ChuaCircuit"@.len() == "Envelope"@.len()); } }
        assert("ChuaCircuit"@ != "ADSR"@) by { reveal_strlit("ChuaCircuit"); reveal_strlit("ADSR"); if "ChuaCircuit"@ == "ADSR"@ { assert("ChuaCircuit"@.len() == "ADSR"@.len()); } }
        assert("ChuaCircuit"@ != "Automation"@) by { reveal_strlit("ChuaCircuit"); reveal_strlit("Automation"); if "ChuaCircuit"@ == "Automation"@ { assert("ChuaCircuit"@.len() == "Automation"@.len()); } }
        assert("ChuaCircuit"@ != "MidiIn"@) by { reveal_strlit("ChuaCircuit"); reveal_strlit("MidiIn"); if "ChuaCircuit"@ == "MidiIn"@ { assert("ChuaCircuit"@.len() == "MidiIn"@.len()); } }
        assert("ChuaCircuit"@ != "Sequencer"@) by { reveal_strlit("ChuaCircuit"); reveal_strlit("Sequencer"); if "ChuaCircuit"@ == "Sequencer"@ { assert("ChuaCircuit"@.len() == "Sequencer"@.len()); } }
        assert("ChuaCircuit"@ != "Wavefolder"@) by { reveal_strlit("ChuaCircuit"); reveal_strlit("Wavefolder"); if "ChuaCircuit"@ == "Wavefolder"@ { assert("ChuaCircuit"@.len() == "Wavefolder"@.len()); } }
        assert("ChuaCircuit"@ != "Lorenz"@) by { reveal_strlit("ChuaCircuit"); reveal_strlit("Lorenz"); if "ChuaCircuit"@ == "Lorenz"@ { assert("ChuaCircuit"@.len() == "Lorenz"@.len()); } }
        assert("ChuaCircuit"@ != "MackeyGlass"@) by { reveal_strlit("ChuaCircuit"); reveal_strlit("MackeyGlass"); if "ChuaCircuit"@ == "MackeyGlass"@ { assert("ChuaCircuit"@[0] == "MackeyGlass"@[0]); } }
        assert("ChuaCircuit"@ != "GrayScott"@) by { reveal_strlit("ChuaCircuit"); reveal_strlit("GrayScott"); if "ChuaCircuit"@ == "GrayScott"@ { assert("ChuaCircuit"@.len() == "GrayScott"@.len()); } }
        assert("ChuaCircuit"@ != "ReactionDiffusion"@) by { reveal_strlit("ChuaCircuit"); reveal_strlit("ReactionDiffusion"); if "ChuaCircuit"@ == "ReactionDiffusion"@ { assert("ChuaCircuit"@.len() == "ReactionDiffusion"@.len()); } }
        assert("ChuaCircuit"@ != "BitCrush"@) by { reveal_strlit("ChuaCircuit"); reveal_strlit("BitCrush"); if "ChuaCircuit"@ == "BitCrush"@ { assert("ChuaCircuit"@.len() == "BitCrush"@.len()); } }
        assert("ChuaCircuit"@ != "WaveShaper"@) by { reveal_strlit("ChuaCircuit"); reveal_strlit("WaveShaper"); if "ChuaCircuit"@ == "WaveShaper"@ { assert("ChuaCircuit"@.len() == "WaveShaper"@.len()); } }
        assert("ChuaCircuit"@ != "Pll"@) by { reveal_strlit("ChuaCircuit"); reveal_strlit("Pll"); if "ChuaCircuit"@ == "Pll"@ { assert("ChuaCircuit"@.len() == "Pll"@.len()); } }
        assert("ChuaCircuit"@ != "SlewLimiter"@) by { reveal_strlit("ChuaCircuit"); reveal_strlit("SlewLimiter"); if "ChuaCircuit"@ == "SlewLimiter"@ { assert("ChuaCircuit"@[0] == "SlewLimiter"@[0]); } }
        assert("ChuaCircuit"@ != "Slew"@) by { reveal_strlit("ChuaCircuit"); reveal_strlit("Slew"); if "ChuaCircuit"@ == "Slew"@ { assert("ChuaCircuit"@.len() == "Slew"@.len()); } }
        assert("ChuaCircuit"@ != "SampleHold"@) by { reveal_strlit("ChuaCircuit"); reveal_strlit("SampleHold"); if "ChuaCircuit"@ == "SampleHold"@ { assert("ChuaCircuit"@.len() == "SampleHold"@.len()); } }
        assert("ChuaCircuit"@ != "S&H"@) by { reveal_strlit("ChuaCircuit"); reveal_strlit("S&H"); if "ChuaCircuit"@ == "S&H"@ { assert("ChuaCircuit"@.len() == "S&H"@.len()); } }
        assert("ChuaCircuit"@ != "Clock"@) by { reveal_strlit("ChuaCircuit"); reveal_strlit("Clock"); if "ChuaCircuit"@ == "Clock"@ { assert("ChuaCircuit"@.len() == "Clock"@.len()); } }
        assert("ChuaCircuit"@ != "ProbabilityGate"@) by { reveal_strlit("ChuaCircuit"); reveal_strlit("ProbabilityGate"); if "ChuaCircuit"@ == "ProbabilityGate"@ { assert("ChuaCircuit"@.len() == "ProbabilityGate"@.len()); } }
        assert("ChuaCircuit"@ != "Reverb"@) by { reveal_strlit("ChuaCircuit"); reveal_strlit("Reverb"); if "ChuaCircuit"@ == "Reverb"@ { assert("ChuaCircuit"@.len() == "Reverb"@.len()); } }
        assert("ChuaCircuit"@ != "SpringReverb"@) by { reveal_strlit("ChuaCircuit"); reveal_strlit("SpringReverb"); if "ChuaCircuit"@ == "SpringReverb"@ { assert("ChuaCircuit"@.len() == "SpringReverb"@.len()); } }
        assert("ChuaCircuit"@ != "Granular"@) by { reveal_strlit("ChuaCircuit"); reveal_strlit("Granular"); if "ChuaCircuit"@ == "Granular"@ { assert("ChuaCircuit"@.len() == "Granular"@.len()); } }
        assert("ChuaCircuit"@ != "Logic"@) by { reveal_strlit("ChuaCircuit"); reveal_strlit("Logic"); if "ChuaCircuit"@ == "Logic"@ { assert("ChuaCircuit"@.len() == "Logic"@.len()); } }
        assert("ChuaCircuit"@ != "SpectralFreeze"@) by { reveal_strlit("ChuaCircuit"); reveal_strlit("SpectralFreeze"); if "ChuaCircuit"@ == "SpectralFreeze"@ { assert("ChuaCircuit"@.len() == "SpectralFreeze"@.len()); } }
        assert("ChuaCircuit"@ != "FFTConvolve"@) by { reveal_strlit("ChuaCircuit"); reveal_strlit("FFTConvolve"); if "ChuaCircuit"@ == "FFTConvolve"@ { assert("ChuaCircuit"@[0] == "FFTConvolve"@[0]); } }
        assert("ChuaCircuit"@ != "ZdfLadder"@) by { reveal_strlit("ChuaCircuit"); reveal_strlit("ZdfLadder"); if "ChuaCircuit"@ == "ZdfLadder"@ { assert("ChuaCircuit"@.len() == "ZdfLadder"@.len()); } }
        assert("ChuaCircuit"@ != "TB303Ladder"@) by { reveal_strlit("ChuaCircuit"); reveal_strlit("TB303Ladder"); if "ChuaCircuit"@ == "TB303Ladder"@ { assert("ChuaCircuit"@[0] == "TB303Ladder"@[0]); } }
        assert("ChuaCircuit"@ != "Ladder"@) by { reveal_strlit("ChuaCircuit"); reveal_strlit("Ladder"); if "ChuaCircuit"@ == "Ladder"@ { assert("ChuaCircuit"@.len() == "Ladder"@.len()); } }
        assert("ChuaCircuit"@ != "Svf"@) by { reveal_strlit("ChuaCircuit"); reveal_strlit("Svf"); if "ChuaCircuit"@ == "Svf"@ { assert("ChuaCircuit"@.len() == "Svf"@.len()); } }
        assert("ChuaCircuit"@ != "SVFFilter"@) by { reveal_strlit("ChuaCircuit"); reveal_strlit("SVFFilter"); if "ChuaCircuit"@ == "SVFFilter"@ { assert("ChuaCircuit"@.len() == "SVFFilter"@.len()); } }
        assert("ChuaCircuit"@ != "DiodeClipper"@) by { reveal_strlit("ChuaCircuit"); reveal_strlit("DiodeClipper"); if "ChuaCircuit"@ == "DiodeClipper"@ { assert("ChuaCircuit"@.len() == "DiodeClipper"@.len()); } }
        assert("ChuaCircuit"@ != "BbdDelay"@) by { reveal_strlit("ChuaCircuit"); reveal_strlit("BbdDelay"); if "ChuaCircuit"@ == "BbdDelay"@ { assert("ChuaCircuit"@.len() == "BbdDelay"@.len()); } }
        assert("ChuaCircuit"@ != "KarplusStrong"@) by { reveal_strlit("ChuaCircuit"); reveal_strlit("KarplusStrong"); if "ChuaCircuit"@ == "KarplusStrong"@ { assert("ChuaCircuit"@.len() == "KarplusStrong"@.len()); } }
        assert("ChuaCircuit"@ != "ModalResonator"@) by { reveal_strlit("ChuaCircuit"); reveal_strlit("ModalResonator"); if "ChuaCircuit"@ == "ModalResonator"@ { assert("ChuaCircuit"@.len() == "ModalResonator"@.len()); } }
}

proof fn lemma_name_chua(has_midi: bool)
    ensures
        dsp_kind_for_name("Chua"@, has_midi) == DspKind::ChuaCircuit,
{
        assert("Chua"@ != "Oscillator"@) by { reveal_strlit("Chua"); reveal_strlit("Oscillator"); if "Chua"@ == "Oscillator"@ { assert("Chua"@.len() == "Oscillator"@.len()); } }
        assert("Chua"@ != "Sine"@) by { reveal_strlit("Chua"); reveal_strlit("Sine"); if "Chua"@ == "Sine"@ { assert("Chua"@[0] == "Sine"@[0]); } }
        assert("Chua"@ != "Noise"@) by { reveal_strlit("Chua"); reveal_strlit("Noise"); if "Chua"@ == "Noise"@ { assert("Chua"@.len() == "Noise"@.len()); } }
        assert("Chua"@ != "Gain"@) by { reveal_strlit("Chua"); reveal_strlit("Gain"); if "Chua"@ == "Gain"@ { assert("Chua"@[0] == "Gain"@[0]); } }
        assert("Chua"@ != "Add"@) by { reveal_strlit("Chua"); reveal_strlit("Add"); if "Chua"@ == "Add"@ { assert("Chua"@.len() == "Add"@.len()); } }
        assert("Chua"@ != "Multiply"@) by { reveal_strlit("Chua"); reveal_strlit("Multiply"); if "Chua"@ == "Multiply"@ { assert("Chua"@.len() == "Multiply"@.len()); } }
        assert("Chua"@ != "Clip"@) by { reveal_strlit("Chua"); reveal_strlit("Clip"); if "Chua"@ == "Clip"@ { assert("Chua"@[1] == "Clip"@[1]); } }
        assert("Chua"@ != "Filter"@) by { reveal_strlit("Chua"); reveal_strlit("Filter"); if "Chua"@ == "Filter"@ { assert("Chua"@.len() == "Filter"@.len()); } }
        assert("Chua"@ != "Biquad"@) by { reveal_strlit("Chua"); reveal_strlit("Biquad"); if "Chua"@ == "Biquad"@ { assert("Chua"@.len() == "Biquad"@.len()); } }
        assert("Chua"@ != "Compressor"@) by { reveal_strlit("Chua"); reveal_strlit("Compressor"); if "Chua"@ == "Compressor"@ { assert("Chua"@.len() == "Compressor"@.len()); } }
        assert("Chua"@ != "Dynamics"@) by { reveal_strlit("Chua"); reveal_strlit("Dynamics"); if "Chua"@ == "Dynamics"@ { assert("Chua"@.len() == "Dynamics"@.len()); } }
        assert("Chua"@ != "Delay"@) by { reveal_strlit("Chua"); reveal_strlit("Delay"); if "Chua"@ == "Delay"@ { assert("Chua"@.len() == "Delay"@.len()); } }
        assert("Chua"@ != "Sampler"@) by { reveal_strlit("Chua"); reveal_strlit("Sampler"); if "Chua"@ == "Sampler"@ { assert("Chua"@.len() == "Sampler"@.len()); } }
        assert("Chua"@ != "AssetReader"@) by { reveal_strlit("Chua"); reveal_strlit("AssetReader"); if "Chua"@ == "AssetReader"@ { assert("Chua"@.len() == "AssetReader"@.len()); } }
        assert("Chua"@ != "Trigger"@) by { reveal_strlit("Chua"); reveal_strlit("Trigger"); if "Chua"@ == "Trigger"@ { assert("Chua"@.len() == "Trigger"@.len()); } }
        assert("Chua"@ != "Envelope"@) by { reveal_strlit("Chua"); reveal_strlit("Envelope"); if "Chua"@ == "Envelope"@ { assert("Chua"@.len() == "Envelope"@.len()); } }
        assert("Chua"@ != "ADSR"@) by { reveal_strlit("Chua"); reveal_strlit("ADSR"); if "Chua"@ == "ADSR"@ { assert("Chua"@[0] == "ADSR"@[0]); } }
        assert("Chua"@ != "Automation"@) by { reveal_strlit("Chua"); reveal_strlit("Automation"); if "Chua"@ == "Automation"@ { assert("Chua"@.len() == "Automation"@.len()); } }
        assert("Chua"@ != "MidiIn"@) by { reveal_strlit("Chua"); reveal_strlit("MidiIn"); if "Chua"@ == "MidiIn"@ { assert("Chua"@.len() == "MidiIn"@.len()); } }
        assert("Chua"@ != "Sequencer"@) by { reveal_strlit("Chua"); reveal_strlit("Sequencer"); if "Chua"@ == "Sequencer"@ { assert("Chua"@.len() == "Sequencer"@.len()); } }
        assert("Chua"@ != "Wavefolder"@) by { reveal_strlit("Chua"); reveal_strlit("Wavefolder"); if "Chua"@ == "Wavefolder"@ { assert("Chua"@.len() == "Wavefolder"@.len()); } }
        assert("Chua"@ != "Lorenz"@) by { reveal_strlit("Chua"); reveal_strlit("Lorenz"); if "Chua"@ == "Lorenz"@ { assert("Chua"@.len() == "Lorenz"@.len()); } }
        assert("Chua"@ != "MackeyGlass"@) by { reveal_strlit("Chua"); reveal_strlit("MackeyGlass"); if "Chua"@ == "MackeyGlass"@ { assert("Chua"@.len() == "MackeyGlass"@.len()); } }
        assert("Chua"@ != "GrayScott"@) by { reveal_strlit("Chua"); reveal_strlit("GrayScott"); if "Chua"@ == "GrayScott"@ { assert("Chua"@.len() == "GrayScott"@.len()); } }
        assert("Chua"@ != "ReactionDiffusion"@) by { reveal_strlit("Chua"); reveal_strlit("ReactionDiffusion"); if "Chua"@ == "ReactionDiffusion"@ { assert("Chua"@.len() == "ReactionDiffusion"@.len()); } }
        assert("Chua"@ != "BitCrush"@) by { reveal_strlit("Chua"); reveal_strlit("BitCrush"); if "Chua"@ == "BitCrush"@ { assert("Chua"@.len() == "BitCrush"@.len()); } }
        assert("Chua"@ != "WaveShaper"@) by { reveal_strlit("Chua"); reveal_strlit("WaveShaper"); if "Chua"@ == "WaveShaper"@ { assert("Chua"@.len() == "WaveShaper"@.len()); } }
        assert("Chua"@ != "Pll"@) by { reveal_strlit("Chua"); reveal_strlit("Pll"); if "Chua"@ == "Pll"@ { assert("Chua"@.len() == "Pll"@.len()); } }
        assert("Chua"@ != "SlewLimiter"@) by { reveal_strlit("Chua"); reveal_strlit("SlewLimiter"); if "Chua"@ == "SlewLimiter"@ { assert("Chua"@.len() == "SlewLimiter"@.len()); } }
        assert("Chua"@ != "Slew"@) by { reveal_strlit("Chua"); reveal_strlit("Slew"); if "Chua"@ == "Slew"@ { assert("Chua"@[0] == "Slew"@[0]); } }
        assert("Chua"@ != "SampleHold"@) by { reveal_strlit("Chua"); reveal_strlit("SampleHold"); if "Chua"@ == "SampleHold"@ { assert("Chua"@.len() == "SampleHold"@.len()); } }
        assert("Chua"@ != "S&H"@) by { reveal_strlit("Chua"); reveal_strlit("S&H"); if "Chua"@ == "S&H"@ { assert("Chua"@.len() == "S&H"@.len()); } }
        assert("Chua"@ != "Clock"@) by { reveal_strlit("Chua"); reveal_strlit("Clock"); if "Chua"@ == "Clock"@ { assert("Chua"@.len() == "Clock"@.len()); } }
        assert("Chua"@ != "ProbabilityGate"@) by { reveal_strlit("Chua"); reveal_strlit("ProbabilityGate"); if "Chua"@ == "ProbabilityGate"@ { assert("Chua"@.len() == "ProbabilityGate"@.len()); } }
        assert("Chua"@ != "Reverb"@) by { reveal_strlit("Chua"); reveal_strlit("Reverb"); if "Chua"@ == "Reverb"@ { assert("Chua"@.len() == "Reverb"@.len()); } }
        assert("Chua"@ != "SpringReverb"@) by { reveal_strlit("Chua"); reveal_strlit("SpringReverb"); if "Chua"@ == "SpringReverb"@ { assert("Chua"@.len() == "SpringReverb"@.len()); } }
        assert("Chua"@ != "Granular"@) by { reveal_strlit("Chua"); reveal_strlit("Granular"); if "Chua"@ == "Granular"@ { assert("Chua"@.len() == "Granular"@.len()); } }
        assert("Chua"@ != "Logic"@) by { reveal_strlit("Chua"); reveal_strlit("Logic"); if "Chua"@ == "Logic"@ { assert("Chua"@.len() == "Logic"@.len()); } }
        assert("Chua"@ != "SpectralFreeze"@) by { reveal_strlit("Chua"); reveal_strlit("SpectralFreeze"); if "Chua"@ == "SpectralFreeze"@ { assert("Chua"@.len() == "SpectralFreeze"@.len()); } }
        assert("Chua"@ != "FFTConvolve"@) by { reveal_strlit("Chua"); reveal_strlit("FFTConvolve"); if "Chua"@ == "FFTConvolve"@ { assert("Chua"@.len() == "FFTConvolve"@.len()); } }
        assert("Chua"@ != "ZdfLadder"@) by { reveal_strlit("Chua"); reveal_strlit("ZdfLadder"); if "Chua"@ == "ZdfLadder"@ { assert("Chua"@.len() == "ZdfLadder"@.len()); } }
        assert("Chua"@ != "TB303Ladder"@) by { reveal_strlit("Chua"); reveal_strlit("TB303Ladder"); if "Chua"@ == "TB303Ladder"@ { assert("Chua"@.len() == "TB303Ladder"@.len()); } }
        assert("Chua"@ != "Ladder"@) by { reveal_strlit("Chua"); reveal_strlit("Ladder"); if "Chua"@ == "Ladder"@ { assert("Chua"@.len() == "Ladder"@.len()); } }
        assert("Chua"@ != "Svf"@) by { reveal_strlit("Chua"); reveal_strlit("Svf"); if "Chua"@ == "Svf"@ { assert("Chua"@.len() == "Svf"@.len()); } }
        assert("Chua"@ != "SVFFilter"@) by { reveal_strlit("Chua"); reveal_strlit("SVFFilter"); if "Chua"@ == "SVFFilter"@ { assert("Chua"@.len() == "SVFFilter"@.len()); } }
        assert("Chua"@ != "DiodeClipper"@) by { reveal_strlit("Chua"); reveal_strlit("DiodeClipper"); if "Chua"@ == "DiodeClipper"@ { assert("Chua"@.len() == "DiodeClipper"@.len()); } }
        assert("Chua"@ != "BbdDelay"@) by { reveal_strlit("Chua"); reveal_strlit("BbdDelay"); if "Chua"@ == "BbdDelay"@ { assert("Chua"@.len() == "BbdDelay"@.len()); } }
        assert("Chua"@ != "KarplusStrong"@) by { reveal_strlit("Chua"); reveal_strlit("KarplusStrong"); if "Chua"@ == "KarplusStrong"@ { assert("Chua"@.len() == "KarplusStrong"@.len()); } }
        assert("Chua"@ != "ModalResonator"@) by { reveal_strlit("Chua"); reveal_strlit("ModalResonator"); if "Chua"@ == "ModalResonator"@ { assert("Chua"@.len() == "ModalResonator"@.len()); } }
        assert("Chua"@ != "ChuaCircuit"@) by { reveal_strlit("Chua"); reveal_strlit("ChuaCircuit"); if "Chua"@ == "ChuaCircuit"@ { assert("Chua"@.len() == "ChuaCircuit"@.len()); } }
}

proof fn lemma_name_tapemachine(has_midi: bool)
    ensures
        dsp_kind_for_name("TapeMachine"@, has_midi) == DspKind::TapeMachine,
{
        assert("TapeMachine"@ != "Oscillator"@) by { reveal_strlit("TapeMachine"); reveal_strlit("Oscillator"); if "TapeMachine"@ == "Oscillator"@ { assert("TapeMachine"@.len() == "Oscillator"@.len()); } }
        assert("TapeMachine"@ != "Sine"@) by { reveal_strlit("TapeMachine"); reveal_strlit("Sine"); if "TapeMachine"@ == "Sine"@ { assert("TapeMachine"@.len() == "Sine"@.len()); } }
        assert("TapeMachine"@ != "Noise"@) by { reveal_strlit("TapeMachine"); reveal_strlit("Noise"); if "TapeMachine"@ == "Noise"@ { assert("TapeMachine"@.len() == "Noise"@.len()); } }
        assert("TapeMachine"@ != "Gain"@) by { reveal_strlit("TapeMachine"); reveal_strlit("Gain"); if "TapeMachine"@ == "Gain"@ { assert("TapeMachine"@.len() == "Gain"@.len()); } }
        assert("TapeMachine"@ != "Add"@) by { reveal_strlit("TapeMachine"); reveal_strlit("Add"); if "TapeMachine"@ == "Add"@ { assert("TapeMachine"@.len() == "Add"@.len()); } }
        assert("TapeMachine"@ != "Multiply"@) by { reveal_strlit("TapeMachine"); reveal_strlit("Multiply"); if "TapeMachine"@ == "Multiply"@ { assert("TapeMachine"@.len() == "Multiply"@.len()); } }
        assert("TapeMachine"@ != "Clip"@) by { reveal_strlit("TapeMachine"); reveal_strlit("Clip"); if "TapeMachine"@ == "Clip"@ { assert("TapeMachine"@.len() == "Clip"@.len()); } }
        assert("TapeMachine"@ != "Filter"@) by { reveal_strlit("TapeMachine"); reveal_strlit("Filter"); if "TapeMachine"@ == "Filter"@ { assert("TapeMachine"@.len() == "Filter"@.len()); } }
        assert("TapeMachine"@ != "Biquad"@) by { reveal_strlit("TapeMachine"); reveal_strlit("Biquad"); if "TapeMachine"@ == "Biquad"@ { assert("TapeMachine"@.len() == "Biquad"@.len()); } }
        assert("TapeMachine"@ != "Compressor"@) by { reveal_strlit("TapeMachine"); reveal_strlit("Compressor"); if "TapeMachine"@ == "Compressor"@ { assert("TapeMachine"@.len() == "Compressor"@.len()); } }
        assert("TapeMachine"@ != "Dynamics"@) by { reveal_strlit("TapeMachine"); reveal_strlit("Dynamics"); if "TapeMachine"@ == "Dynamics"@ { assert("TapeMachine"@.len() == "Dynamics"@.len()); } }
        assert("TapeMachine"@ != "Delay"@) by { reveal_strlit("TapeMachine"); reveal_strlit("Delay"); if "TapeMachine"@ == "Delay"@ { assert("TapeMachine"@.len() == "Delay"@.len()); } }
        assert("TapeMachine"@ != "Sampler"@) by { reveal_strlit("TapeMachine"); reveal_strlit("Sampler"); if "TapeMachine"@ == "Sampler"@ { assert("TapeMachine"@.len() == "Sampler"@.len()); } }
        assert("TapeMachine"@ != "AssetReader"@) by { reveal_strlit("TapeMachine"); reveal_strlit("AssetReader"); if "TapeMachine"@ == "AssetReader"@ { assert("TapeMachine"@[0] == "AssetReader"@[0]); } }
        assert("TapeMachine"@ != "Trigger"@) by { reveal_strlit("TapeMachine"); reveal_strlit("Trigger"); if "TapeMachine"@ == "Trigger"@ { assert("TapeMachine"@.len() == "Trigger"@.len()); } }
        assert("TapeMachine"@ != "Envelope"@) by { reveal_strlit("TapeMachine"); reveal_strlit("Envelope"); if "TapeMachine"@ == "Envelope"@ { assert("TapeMachine"@.len() == "Envelope"@.len()); } }
        assert("TapeMachine"@ != "ADSR"@) by { reveal_strlit("TapeMachine"); reveal_strlit("ADSR"); if "TapeMachine"@ == "ADSR"@ { assert("TapeMachine"@.len() == "ADSR"@.len()); } }
        assert("TapeMachine"@ != "Automation"@) by { reveal_strlit("TapeMachine"); reveal_strlit("Automation"); if "TapeMachine"@ == "Automation"@ { assert("TapeMachine"@.len() == "Automation"@.len()); } }
        assert("TapeMachine"@ != "MidiIn"@) by { reveal_strlit("TapeMachine"); reveal_strlit("MidiIn"); if "TapeMachine"@ == "MidiIn"@ { assert("TapeMachine"@.len() == "MidiIn"@.len()); } }
        assert("TapeMachine"@ != "Sequencer"@) by { reveal_strlit("TapeMachine"); reveal_strlit("Sequencer"); if "TapeMachine"@ == "Sequencer"@ { assert("TapeMachine"@.len() == "Sequencer"@.len()); } }
        assert("TapeMachine"@ != "Wavefolder"@) by { reveal_strlit("TapeMachine"); reveal_strlit("Wavefolder"); if "TapeMachine"@ == "Wavefolder"@ { assert("TapeMachine"@.len() == "Wavefolder"@.len()); } }
        assert("TapeMachine"@ != "Lorenz"@) by { reveal_strlit("TapeMachine"); reveal_strlit("Lorenz"); if "TapeMachine"@ == "Lorenz"@ { assert("TapeMachine"@.len() == "Lorenz"@.len()); } }
        assert("TapeMachine"@ != "MackeyGlass"@) by { reveal_strlit("TapeMachine"); reveal_strlit("MackeyGlass"); if "TapeMachine"@ == "MackeyGlass"@ { assert("TapeMachine"@[0] == "MackeyGlass"@[0]); } }
        assert("TapeMachine"@ != "GrayScott"@) by { reveal_strlit("TapeMachine"); reveal_strlit("GrayScott"); if "TapeMachine"@ == "GrayScott"@ { assert("TapeMachine"@.len() == "GrayScott"@.len()); } }
        assert("TapeMachine"@ != "ReactionDiffusion"@) by { reveal_strlit("TapeMachine"); reveal_strlit("ReactionDiffusion"); if "TapeMachine"@ == "ReactionDiffusion"@ { assert("TapeMachine"@.len() == "ReactionDiffusion"@.len()); } }
        assert("TapeMachine"@ != "BitCrush"@) by { reveal_strlit("TapeMachine"); reveal_strlit("BitCrush"); if "TapeMachine"@ == "BitCrush"@ { assert("TapeMachine"@.len() == "BitCrush"@.len()); } }
        assert("TapeMachine"@ != "WaveShaper"@) by { reveal_strlit("TapeMachine"); reveal_strlit("WaveShaper"); if "TapeMachine"@ == "WaveShaper"@ { assert("TapeMachine"@.len() == "WaveShaper"@.len()); } }
        assert("TapeMachine"@ != "Pll"@) by { reveal_strlit("TapeMachine"); reveal_strlit("Pll"); if "TapeMachine"@ == "Pll"@ { assert("TapeMachine"@.len() == "Pll"@.len()); } }
        assert("TapeMachine"@ != "SlewLimiter"@) by { reveal_strlit("TapeMachine"); reveal_strlit("SlewLimiter"); if "TapeMachine"@ == "SlewLimiter"@ { assert("TapeMachine"@[0] == "SlewLimiter"@[0]); } }
        assert("TapeMachine"@ != "Slew"@) by { reveal_strlit("TapeMachine"); reveal_strlit("Slew"); if "TapeMachine"@ == "Slew"@ { assert("TapeMachine"@.len() == "Slew"@.len()); } }
        assert("TapeMachine"@ != "SampleHold"@) by { reveal_strlit("TapeMachine"); reveal_strlit("SampleHold"); if "TapeMachine"@ == "SampleHold"@ { assert("TapeMachine"@.len() == "SampleHold"@.len()); } }
        assert("TapeMachine"@ != "S&H"@) by { reveal_strlit("TapeMachine"); reveal_strlit("S&H"); if "TapeMachine"@ == "S&H"@ { assert("TapeMachine"@.len() == "S&H"@.len()); } }
        assert("TapeMachine"@ != "Clock"@) by { reveal_strlit("TapeMachine"); reveal_strlit("Clock"); if "TapeMachine"@ == "Clock"@ { assert("TapeMachine"@.len() == "Clock"@.len()); } }
        assert("TapeMachine"@ != "ProbabilityGate"@) by { reveal_strlit("TapeMachine"); reveal_strlit("ProbabilityGate"); if "TapeMachine"@ == "ProbabilityGate"@ { assert("TapeMachine"@.len() == "ProbabilityGate"@.len()); } }
        assert("TapeMachine"@ != "Reverb"@) by { reveal_strlit("TapeMachine"); reveal_strlit("Reverb"); if "TapeMachine"@ == "Reverb"@ { assert("TapeMachine"@.len() == "Reverb"@.len()); } }
        assert("TapeMachine"@ != "SpringReverb"@) by { reveal_strlit("TapeMachine"); reveal_strlit("SpringReverb"); if "TapeMachine"@ == "SpringReverb"@ { assert("TapeMachine"@.len() == "SpringReverb"@.len()); } }
        assert("TapeMachine"@ != "Granular"@) by { reveal_strlit("TapeMachine"); reveal_strlit("Granular"); if "TapeMachine"@ == "Granular"@ { assert("TapeMachine"@.len() == "Granular"@.len()); } }
        assert("TapeMachine"@ != "Logic"@) by { reveal_strlit("TapeMachine"); reveal_strlit("Logic"); if "TapeMachine"@ == "Logic"@ { assert("TapeMachine"@.len() == "Logic"@.len()); } }
        assert("TapeMachine"@ != "SpectralFreeze"@) by { reveal_strlit("TapeMachine"); reveal_strlit("SpectralFreeze"); if "TapeMachine"@ == "SpectralFreeze"@ { assert("TapeMachine"@.len() == "SpectralFreeze"@.len()); } }
        assert("TapeMachine"@ != "FFTConvolve"@) by { reveal_strlit("TapeMachine"); reveal_strlit("FFTConvolve"); if "TapeMachine"@ == "FFTConvolve"@ { assert("TapeMachine"@[0] == "FFTConvolve"@[0]); } }
        assert("TapeMachine"@ != "ZdfLadder"@) by { reveal_strlit("TapeMachine"); reveal_strlit("ZdfLadder"); if "TapeMachine"@ == "ZdfLadder"@ { assert("TapeMachine"@.len() == "ZdfLadder"@.len()); } }
        assert("TapeMachine"@ != "TB303Ladder"@) by { reveal_strlit("TapeMachine"); reveal_strlit("TB303Ladder"); if "TapeMachine"@ == "TB303Ladder"@ { assert("TapeMachine"@[1] == "TB303Ladder"@[1]); } }
        assert("TapeMachine"@ != "Ladder"@) by { reveal_strlit("TapeMachine"); reveal_strlit("Ladder"); if "TapeMachine"@ == "Ladder"@ { assert("TapeMachine"@.len() == "Ladder"@.len()); } }
        assert("TapeMachine"@ != "Svf"@) by { reveal_strlit("TapeMachine"); reveal_strlit("Svf"); if "TapeMachine"@ == "Svf"@ { assert("TapeMachine"@.len() == "Svf"@.len()); } }
        assert("TapeMachine"@ != "SVFFilter"@) by { reveal_strlit("TapeMachine"); reveal_strlit("SVFFilter"); if "TapeMachine"@ == "SVFFilter"@ { assert("TapeMachine"@.len() == "SVFFilter"@.len()); } }
        assert("TapeMachine"@ != "DiodeClipper"@) by { reveal_strlit("TapeMachine"); reveal_strlit("DiodeClipper"); if "TapeMachine"@ == "DiodeClipper"@ { assert("TapeMachine"@.len() == "DiodeClipper"@.len()); } }
        assert("TapeMachine"@ != "BbdDelay"@) by { reveal_strlit("TapeMachine"); reveal_strlit("BbdDelay"); if "TapeMachine"@ == "BbdDelay"@ { assert("TapeMachine"@.len() == "BbdDelay"@.len()); } }
        assert("TapeMachine"@ != "KarplusStrong"@) by { reveal_strlit("TapeMachine"); reveal_strlit("KarplusStrong"); if "TapeMachine"@ == "KarplusStrong"@ { assert("TapeMachine"@.len() == "KarplusStrong"@.len()); } }
        assert("TapeMachine"@ != "ModalResonator"@) by { reveal_strlit("TapeMachine"); reveal_strlit("ModalResonator"); if "TapeMachine"@ == "ModalResonator"@ { assert("TapeMachine"@.len() == "ModalResonator"@.len()); } }
        assert("TapeMachine"@ != "ChuaCircuit"@) by { reveal_strlit("TapeMachine"); reveal_strlit("ChuaCircuit"); if "TapeMachine"@ == "ChuaCircuit"@ { assert("TapeMachine"@[0] == "ChuaCircuit"@[0]); } }
        assert("TapeMachine"@ != "Chua"@) by { reveal_strlit("TapeMachine"); reveal_strlit("Chua"); if "TapeMachine"@ == "Chua"@ { assert("TapeMachine"@.len() == "Chua"@.len()); } }
}

proof fn lemma_name_tape(has_midi: bool)
    ensures
        dsp_kind_for_name("Tape"@, has_midi) == DspKind::TapeMachine,
{
        assert("Tape"@ != "Oscillator"@) by { reveal_strlit("Tape"); reveal_strlit("Oscillator"); if "Tape"@ == "Oscillator"@ { assert("Tape"@.len() == "Oscillator"@.len()); } }
        assert("Tape"@ != "Sine"@) by { reveal_strlit("Tape"); reveal_strlit("Sine"); if "Tape"@ == "Sine"@ { assert("Tape"@[0] == "Sine"@[0]); } }
        assert("Tape"@ != "Noise"@) by { reveal_strlit("Tape"); reveal_strlit("Noise"); if "Tape"@ == "Noise"@ { assert("Tape"@.len() == "Noise"@.len()); } }
        assert("Tape"@ != "Gain"@) by { reveal_strlit("Tape"); reveal_strlit("Gain"); if "Tape"@ == "Gain"@ { assert("Tape"@[0] == "Gain"@[0]); } }
        assert("Tape"@ != "Add"@) by { reveal_strlit("Tape"); reveal_strlit("Add"); if "Tape"@ == "Add"@ { assert("Tape"@.len() == "Add"@.len()); } }
        assert("Tape"@ != "Multiply"@) by { reveal_strlit("Tape"); reveal_strlit("Multiply"); if "Tape"@ == "Multiply"@ { assert("Tape"@.len() == "Multiply"@.len()); } }
        assert("Tape"@ != "Clip"@) by { reveal_strlit("Tape"); reveal_strlit("Clip"); if "Tape"@ == "Clip"@ { assert("Tape"@[0] == "Clip"@[0]); } }
        assert("Tape"@ != "Filter"@) by { reveal_strlit("Tape"); reveal_strlit("Filter"); if "Tape"@ == "Filter"@ { assert("Tape"@.len() == "Filter"@.len()); } }
        assert("Tape"@ != "Biquad"@) by { reveal_strlit("Tape"); reveal_strlit("Biquad"); if "Tape"@ == "Biquad"@ { assert("Tape"@.len() == "Biquad"@.len()); } }
        assert("Tape"@ != "Compressor"@) by { reveal_strlit("Tape"); reveal_strlit("Compressor"); if "Tape"@ == "Compressor"@ { assert("Tape"@.len() == "Compressor"@.len()); } }
        assert("Tape"@ != "Dynamics"@) by { reveal_strlit("Tape"); reveal_strlit("Dynamics"); if "Tape"@ == "Dynamics"@ { assert("Tape"@.len() == "Dynamics"@.len()); } }
        assert("Tape"@ != "Delay"@) by { reveal_strlit("Tape"); reveal_strlit("Delay"); if "Tape"@ == "Delay"@ { assert("Tape"@.len() == "Delay"@.len()); } }
        assert("Tape"@ != "Sampler"@) by { reveal_strlit("Tape"); reveal_strlit("Sampler"); if "Tape"@ == "Sampler"@ { assert("Tape"@.len() == "Sampler"@.len()); } }
        assert("Tape"@ != "AssetReader"@) by { reveal_strlit("Tape"); reveal_strlit("AssetReader"); if "Tape"@ == "AssetReader"@ { assert("Tape"@.len() == "AssetReader"@.len()); } }
        assert("Tape"@ != "Trigger"@) by { reveal_strlit("Tape"); reveal_strlit("Trigger"); if "Tape"@ == "Trigger"@ { assert("Tape"@.len() == "Trigger"@.len()); } }
        assert("Tape"@ != "Envelope"@) by { reveal_strlit("Tape"); reveal_strlit("Envelope"); if "Tape"@ == "Envelope"@ { assert("Tape"@.len() == "Envelope"@.len()); } }
        assert("Tape"@ != "ADSR"@) by { reveal_strlit("Tape"); reveal_strlit("ADSR"); if "Tape"@ == "ADSR"@ { assert("Tape"@[0] == "ADSR"@[0]); } }
        assert("Tape"@ != "Automation"@) by { reveal_strlit("Tape"); reveal_strlit("Automation"); if "Tape"@ == "Automation"@ { assert("Tape"@.len() == "Automation"@.len()); } }
        assert("Tape"@ != "MidiIn"@) by { reveal_strlit("Tape"); reveal_strlit("MidiIn"); if "Tape"@ == "MidiIn"@ { assert("Tape"@.len() == "MidiIn"@.len()); } }
        assert("Tape"@ != "Sequencer"@) by { reveal_strlit("Tape"); reveal_strlit("Sequencer"); if "Tape"@ == "Sequencer"@ { assert("Tape"@.len() == "Sequencer"@.len()); } }
        assert("Tape"@ != "Wavefolder"@) by { reveal_strlit("Tape"); reveal_strlit("Wavefolder"); if "Tape"@ == "Wavefolder"@ { assert("Tape"@.len() == "Wavefolder"@.len()); } }
        assert("Tape"@ != "Lorenz"@) by { reveal_strlit("Tape"); reveal_strlit("Lorenz"); if "Tape"@ == "Lorenz"@ { assert("Tape"@.len() == "Lorenz"@.len()); } }
        assert("Tape"@ != "MackeyGlass"@) by { reveal_strlit("Tape"); reveal_strlit("MackeyGlass"); if "Tape"@ == "MackeyGlass"@ { assert("Tape"@.len() == "MackeyGlass"@.len()); } }
        assert("Tape"@ != "GrayScott"@) by { reveal_strlit("Tape"); reveal_strlit("GrayScott"); if "Tape"@ == "GrayScott"@ { assert("Tape"@.len() == "GrayScott"@.len()); } }
        assert("Tape"@ != "ReactionDiffusion"@) by { reveal_strlit("Tape"); reveal_strlit("ReactionDiffusion"); if "Tape"@ == "ReactionDiffusion"@ { assert("Tape"@.len() == "ReactionDiffusion"@.len()); } }
        assert("Tape"@ != "BitCrush"@) by { reveal_strlit("Tape"); reveal_strlit("BitCrush"); if "Tape"@ == "BitCrush"@ { assert("Tape"@.len() == "BitCrush"@.len()); } }
        assert("Tape"@ != "WaveShaper"@) by { reveal_strlit("Tape"); reveal_strlit("WaveShaper"); if "Tape"@ == "WaveShaper"@ { assert("Tape"@.len() == "WaveShaper"@.len()); } }
        assert("Tape"@ != "Pll"@) by { reveal_strlit("Tape"); reveal_strlit("Pll"); if "Tape"@ == "Pll"@ { assert("Tape"@.len() == "Pll"@.len()); } }
        assert("Tape"@ != "SlewLimiter"@) by { reveal_strlit("Tape"); reveal_strlit("SlewLimiter"); if "Tape"@ == "SlewLimiter"@ { assert("Tape"@.len() == "SlewLimiter"@.len()); } }
        assert("Tape"@ != "Slew"@) by { reveal_strlit("Tape"); reveal_strlit("Slew"); if "Tape"@ == "Slew"@ { assert("Tape"@[0] == "Slew"@[0]); } }
        assert("Tape"@ != "SampleHold"@) by { reveal_strlit("Tape"); reveal_strlit("SampleHold"); if "Tape"@ == "SampleHold"@ { assert("Tape"@.len() == "SampleHold"@.len()); } }
        assert("Tape"@ != "S&H"@) by { reveal_strlit("Tape"); reveal_strlit("S&H"); if "Tape"@ == "S&H"@ { assert("Tape"@.len() == "S&H"@.len()); } }
        assert("Tape"@ != "Clock"@) by { reveal_strlit("Tape"); reveal_strlit("Clock"); if "Tape"@ == "Clock"@ { assert("Tape"@.len() == "Clock"@.len()); } }
        assert("Tape"@ != "ProbabilityGate"@) by { reveal_strlit("Tape"); reveal_strlit("ProbabilityGate"); if "Tape"@ == "ProbabilityGate"@ { assert("Tape"@.len() == "ProbabilityGate"@.len()); } }
        assert("Tape"@ != "Reverb"@) by { reveal_strlit("Tape"); reveal_strlit("Reverb"); if "Tape"@ == "Reverb"@ { assert("Tape"@.len() == "Reverb"@.len()); } }
        assert("Tape"@ != "SpringReverb"@) by { reveal_strlit("Tape"); reveal_strlit("SpringReverb"); if "Tape"@ == "SpringReverb"@ { assert("Tape"@.len() == "SpringReverb"@.len()); } }
        assert("Tape"@ != "Granular"@) by { reveal_strlit("Tape"); reveal_strlit("Granular"); if "Tape"@ == "Granular"@ { assert("Tape"@.len() == "Granular"@.len()); } }
        assert("Tape"@ != "Logic"@) by { reveal_strlit("Tape"); reveal_strlit("Logic"); if "Tape"@ == "Logic"@ { assert("Tape"@.len() == "Logic"@.len()); } }
        assert("Tape"@ != "SpectralFreeze"@) by { reveal_strlit("Tape"); reveal_strlit("SpectralFreeze"); if "Tape"@ == "SpectralFreeze"@ { assert("Tape"@.len() == "SpectralFreeze"@.len()); } }
        assert("Tape"@ != "FFTConvolve"@) by { reveal_strlit("Tape"); reveal_strlit("FFTConvolve"); if "Tape"@ == "FFTConvolve"@ { assert("Tape"@.len() == "FFTConvolve"@.len()); } }
        assert("Tape"@ != "ZdfLadder"@) by { reveal_strlit("Tape"); reveal_strlit("ZdfLadder"); if "Tape"@ == "ZdfLadder"@ { assert("Tape"@.len() == "ZdfLadder"@.len()); } }
        assert("Tape"@ != "TB303Ladder"@) by { reveal_strlit("Tape"); reveal_strlit("TB303Ladder"); if "Tape"@ == "TB303Ladder"@ { assert("Tape"@.len() == "TB303Ladder"@.len()); } }
        assert("Tape"@ != "Ladder"@) by { reveal_strlit("Tape"); reveal_strlit("Ladder"); if "Tape"@ == "Ladder"@ { assert("Tape"@.len() == "Ladder"@.len()); } }
        assert("Tape"@ != "Svf"@) by { reveal_strlit("Tape"); reveal_strlit("Svf"); if "Tape"@ == "Svf"@ { assert("Tape"@.len() == "Svf"@.len()); } }
        assert("Tape"@ != "SVFFilter"@) by { reveal_strlit("Tape"); reveal_strlit("SVFFilter"); if "Tape"@ == "SVFFilter"@ { assert("Tape"@.len() == "SVFFilter"@.len()); } }
        assert("Tape"@ != "DiodeClipper"@) by { reveal_strlit("Tape"); reveal_strlit("DiodeClipper"); if "Tape"@ == "DiodeClipper"@ { assert("Tape"@.len() == "DiodeClipper"@.len()); } }
        assert("Tape"@ != "BbdDelay"@) by { reveal_strlit("Tape"); reveal_strlit("BbdDelay"); if "Tape"@ == "BbdDelay"@ { assert("Tape"@.len() == "BbdDelay"@.len()); } }
        assert("Tape"@ != "KarplusStrong"@) by { reveal_strlit("Tape"); reveal_strlit("KarplusStrong"); if "Tape"@ == "KarplusStrong"@ { assert("Tape"@.len() == "KarplusStrong"@.len()); } }
        assert("Tape"@ != "ModalResonator"@) by { reveal_strlit("Tape"); reveal_strlit("ModalResonator"); if "Tape"@ == "ModalResonator"@ { assert("Tape"@.len() == "ModalResonator"@.len()); } }
        assert("Tape"@ != "ChuaCircuit"@) by { reveal_strlit("Tape"); reveal_strlit("ChuaCircuit"); if "Tape"@ == "ChuaCircuit"@ { assert("Tape"@.len() == "ChuaCircuit"@.len()); } }
        assert("Tape"@ != "Chua"@) by { reveal_strlit("Tape"); reveal_strlit("Chua"); if "Tape"@ == "Chua"@ { assert("Tape"@[0] == "Chua"@[0]); } }
        assert("Tape"@ != "TapeMachine"@) by { reveal_strlit("Tape"); reveal_strlit("TapeMachine"); if "Tape"@ == "TapeMachine"@ { assert("Tape"@.len() == "TapeMachine"@.len()); } }
}

proof fn lemma_name_matrixmixer(has_midi: bool)
    ensures
        dsp_kind_for_name("MatrixMixer"@, has_midi) == DspKind::MatrixMixer,
{
        assert("MatrixMixer"@ != "Oscillator"@) by { reveal_strlit("MatrixMixer"); reveal_strlit("Oscillator"); if "MatrixMixer"@ == "Oscillator"@ { assert("MatrixMixer"@.len() == "Oscillator"@.len()); } }
        assert("MatrixMixer"@ != "Sine"@) by { reveal_strlit("MatrixMixer"); reveal_strlit("Sine"); if "MatrixMixer"@ == "Sine"@ { assert("MatrixMixer"@.len() == "Sine"@.len()); } }
        assert("MatrixMixer"@ != "Noise"@) by { reveal_strlit("MatrixMixer"); reveal_strlit("Noise"); if "MatrixMixer"@ == "Noise"@ { assert("MatrixMixer"@.len() == "Noise"@.len()); } }
        assert("MatrixMixer"@ != "Gain"@) by { reveal_strlit("MatrixMixer"); reveal_strlit("Gain"); if "MatrixMixer"@ == "Gain"@ { assert("MatrixMixer"@.len() == "Gain"@.len()); } }
        assert("MatrixMixer"@ != "Add"@) by { reveal_strlit("MatrixMixer"); reveal_strlit("Add"); if "MatrixMixer"@ == "Add"@ { assert("MatrixMixer"@.len() == "Add"@.len()); } }
        assert("MatrixMixer"@ != "Multiply"@) by { reveal_strlit("MatrixMixer"); reveal_strlit("Multiply"); if "MatrixMixer"@ == "Multiply"@ { assert("MatrixMixer"@.len() == "Multiply"@.len()); } }
        assert("MatrixMixer"@ != "Clip"@) by { reveal_strlit("MatrixMixer"); reveal_strlit("Clip"); if "MatrixMixer"@ == "Clip"@ { assert("MatrixMixer"@.len() == "Clip"@.len()); } }
        assert("MatrixMixer"@ != "Filter"@) by { reveal_strlit("MatrixMixer"); reveal_strlit("Filter"); if "MatrixMixer"@ == "Filter"@ { assert("MatrixMixer"@.len() == "Filter"@.len()); } }
        assert("MatrixMixer"@ != "Biquad"@) by { reveal_strlit("MatrixMixer"); reveal_strlit("Biquad"); if "MatrixMixer"@ == "Biquad"@ { assert("MatrixMixer"@.len() == "Biquad"@.len()); } }
        assert("MatrixMixer"@ != "Compressor"@) by { reveal_strlit("MatrixMixer"); reveal_strlit("Compressor"); if "MatrixMixer"@ == "Compressor"@ { assert("MatrixMixer"@.len() == "Compressor"@.len()); } }
        assert("MatrixMixer"@ != "Dynamics"@) by { reveal_strlit("MatrixMixer"); reveal_strlit("Dynamics"); if "MatrixMixer"@ == "Dynamics"@ { assert("MatrixMixer"@.len() == "Dynamics"@.len()); } }
        assert("MatrixMixer"@ != "Delay"@) by { reveal_strlit("MatrixMixer"); reveal_strlit("Delay"); if "MatrixMixer"@ == "Delay"@ { assert("MatrixMixer"@.len() == "Delay"@.len()); } }
        assert("MatrixMixer"@ != "Sampler"@) by { reveal_strlit("MatrixMixer"); reveal_strlit("Sampler"); if "MatrixMixer"@ == "Sampler"@ { assert("MatrixMixer"@.len() == "Sampler"@.len()); } }
        assert("MatrixMixer"@ != "AssetReader"@) by { reveal_strlit("MatrixMixer"); reveal_strlit("AssetReader"); if "MatrixMixer"@ == "AssetReader"@ { assert("MatrixMixer"@[0] == "AssetReader"@[0]); } }
        assert("MatrixMixer"@ != "Trigger"@) by { reveal_strlit("MatrixMixer"); reveal_strlit("Trigger"); if "MatrixMixer"@ == "Trigger"@ { assert("MatrixMixer"@.len() == "Trigger"@.len()); } }
        assert("MatrixMixer"@ != "Envelope"@) by { reveal_strlit("MatrixMixer"); reveal_strlit("Envelope"); if "MatrixMixer"@ == "Envelope"@ { assert("MatrixMixer"@.len() == "Envelope"@.len()); } }
        assert("MatrixMixer"@ != "ADSR"@) by { reveal_strlit("MatrixMixer"); reveal_strlit("ADSR"); if "MatrixMixer"@ == "ADSR"@ { assert("MatrixMixer"@.len() == "ADSR"@.len()); } }
        assert("MatrixMixer"@ != "Automation"@) by { reveal_strlit("MatrixMixer"); reveal_strlit("Automation"); if "MatrixMixer"@ == "Automation"@ { assert("MatrixMixer"@.len() == "Automation"@.len()); } }
        assert("MatrixMixer"@ != "MidiIn"@) by { reveal_strlit("MatrixMixer"); reveal_strlit("MidiIn"); if "MatrixMixer"@ == "MidiIn"@ { assert("MatrixMixer"@.len() == "MidiIn"@.len()); } }
        assert("MatrixMixer"@ != "Sequencer"@) by { reveal_strlit("MatrixMixer"); reveal_strlit("Sequencer"); if "MatrixMixer"@ == "Sequencer"@ { assert("MatrixMixer"@.len() == "Sequencer"@.len()); } }
        assert("MatrixMixer"@ != "Wavefolder"@) by { reveal_strlit("MatrixMixer"); reveal_strlit("Wavefolder"); if "MatrixMixer"@ == "Wavefolder"@ { assert("MatrixMixer"@.len() == "Wavefolder"@.len()); } }
        assert("MatrixMixer"@ != "Lorenz"@) by { reveal_strlit("MatrixMixer"); reveal_strlit("Lorenz"); if "MatrixMixer"@ == "Lorenz"@ { assert("MatrixMixer"@.len() == "Lorenz"@.len()); } }
        assert("MatrixMixer"@ != "MackeyGlass"@) by { reveal_strlit("MatrixMixer"); reveal_strlit("MackeyGlass"); if "MatrixMixer"@ == "MackeyGlass"@ { assert("MatrixMixer"@[2] == "MackeyGlass"@[2]); } }
        assert("MatrixMixer"@ != "GrayScott"@) by { reveal_strlit("MatrixMixer"); reveal_strlit("GrayScott"); if "MatrixMixer"@ == "GrayScott"@ { assert("MatrixMixer"@.len() == "GrayScott"@.len()); } }
        assert("MatrixMixer"@ != "ReactionDiffusion"@) by { reveal_strlit("MatrixMixer"); reveal_strlit("ReactionDiffusion"); if "MatrixMixer"@ == "ReactionDiffusion"@ { assert("MatrixMixer"@.len() == "ReactionDiffusion"@.len()); } }
        assert("MatrixMixer"@ != "BitCrush"@) by { reveal_strlit("MatrixMixer"); reveal_strlit("BitCrush"); if "MatrixMixer"@ == "BitCrush"@ { assert("MatrixMixer"@.len() == "BitCrush"@.len()); } }
        assert("MatrixMixer"@ != "WaveShaper"@) by { reveal_strlit("MatrixMixer"); reveal_strlit("WaveShaper"); if "MatrixMixer"@ == "WaveShaper"@ { assert("MatrixMixer"@.len() == "WaveShaper"@.len()); } }
        assert("MatrixMixer"@ != "Pll"@) by { reveal_strlit("MatrixMixer"); reveal_strlit("Pll"); if "MatrixMixer"@ == "Pll"@ { assert("MatrixMixer"@.len() == "Pll"@.len()); } }
        assert("MatrixMixer"@ != "SlewLimiter"@) by { reveal_strlit("MatrixMixer"); reveal_strlit("SlewLimiter"); if "MatrixMixer"@ == "SlewLimiter"@ { assert("MatrixMixer"@[0] == "SlewLimiter"@[0]); } }
        assert("MatrixMixer"@ != "Slew"@) by { reveal_strlit("MatrixMixer"); reveal_strlit("Slew"); if "MatrixMixer"@ == "Slew"@ { assert("MatrixMixer"@.len() == "Slew"@.len()); } }
        assert("MatrixMixer"@ != "SampleHold"@) by { reveal_strlit("MatrixMixer"); reveal_strlit("SampleHold"); if "MatrixMixer"@ == "SampleHold"@ { assert("MatrixMixer"@.len() == "SampleHold"@.len()); } }
        assert("MatrixMixer"@ != "S&H"@) by { reveal_strlit("MatrixMixer"); reveal_strlit("S&H"); if "MatrixMixer"@ == "S&H"@ { assert("MatrixMixer"@.len() == "S&H"@.len()); } }
        assert("MatrixMixer"@ != "Clock"@) by { reveal_strlit("MatrixMixer"); reveal_strlit("Clock"); if "MatrixMixer"@ == "Clock"@ { assert("MatrixMixer"@.len() == "Clock"@.len()); } }
        assert("MatrixMixer"@ != "ProbabilityGate"@) by { reveal_strlit("MatrixMixer"); reveal_strlit("ProbabilityGate"); if "MatrixMixer"@ == "ProbabilityGate"@ { assert("MatrixMixer"@.len() == "ProbabilityGate"@.len()); } }
        assert("MatrixMixer"@ != "Reverb"@) by { reveal_strlit("MatrixMixer"); reveal_strlit("Reverb"); if "MatrixMixer"@ == "Reverb"@ { assert("MatrixMixer"@.len() == "Reverb"@.len()); } }
        assert("MatrixMixer"@ != "SpringReverb"@) by { reveal_strlit("MatrixMixer"); reveal_strlit("SpringReverb"); if "MatrixMixer"@ == "SpringReverb"@ { assert("MatrixMixer"@.len() == "SpringReverb"@.len()); } }
        assert("MatrixMixer"@ != "Granular"@) by { reveal_strlit("MatrixMixer"); reveal_strlit("Granular"); if "MatrixMixer"@ == "Granular"@ { assert("MatrixMixer"@.len() == "Granular"@.len()); } }
        assert("MatrixMixer"@ != "Logic"@) by { reveal_strlit("MatrixMixer"); reveal_strlit("Logic"); if "MatrixMixer"@ == "Logic"@ { assert("MatrixMixer"@.len() == "Logic"@.len()); } }
        assert("MatrixMixer"@ != "SpectralFreeze"@) by { reveal_strlit("MatrixMixer"); reveal_strlit("SpectralFreeze"); if "MatrixMixer"@ == "SpectralFreeze"@ { assert("MatrixMixer"@.len() == "SpectralFreeze"@.len()); } }
        assert("MatrixMixer"@ != "FFTConvolve"@) by { reveal_strlit("MatrixMixer"); reveal_strlit("FFTConvolve"); if "MatrixMixer"@ == "FFTConvolve"@ { assert("MatrixMixer"@[0] == "FFTConvolve"@[0]); } }
        assert("MatrixMixer"@ != "ZdfLadder"@) by { reveal_strlit("MatrixMixer"); reveal_strlit("ZdfLadder"); if "MatrixMixer"@ == "ZdfLadder"@ { assert("MatrixMixer"@.len() == "ZdfLadder"@.len()); } }
        assert("MatrixMixer"@ != "TB303Ladder"@) by { reveal_strlit("MatrixMixer"); reveal_strlit("TB303Ladder"); if "MatrixMixer"@ == "TB303Ladder"@ { assert("MatrixMixer"@[0] == "TB303Ladder"@[0]); } }
        assert("MatrixMixer"@ != "Ladder"@) by { reveal_strlit("MatrixMixer"); reveal_strlit("Ladder"); if "MatrixMixer"@ == "Ladder"@ { assert("MatrixMixer"@.len() == "Ladder"@.len()); } }
        assert("MatrixMixer"@ != "Svf"@) by { reveal_strlit("MatrixMixer"); reveal_strlit("Svf"); if "MatrixMixer"@ == "Svf"@ { assert("MatrixMixer"@.len() == "Svf"@.len()); } }
        assert("MatrixMixer"@ != "SVFFilter"@) by { reveal_strlit("MatrixMixer"); reveal_strlit("SVFFilter"); if "MatrixMixer"@ == "SVFFilter"@ { assert("MatrixMixer"@.len() == "SVFFilter"@.len()); } }
        assert("MatrixMixer"@ != "DiodeClipper"@) by { reveal_strlit("MatrixMixer"); reveal_strlit("DiodeClipper"); if "MatrixMixer"@ == "DiodeClipper"@ { assert("MatrixMixer"@.len() == "DiodeClipper"@.len()); } }
        assert("MatrixMixer"@ != "BbdDelay"@) by { reveal_strlit("MatrixMixer"); reveal_strlit("BbdDelay"); if "MatrixMixer"@ == "BbdDelay"@ { assert("MatrixMixer"@.len() == "BbdDelay"@.len()); } }
        assert("MatrixMixer"@ != "KarplusStrong"@) by { reveal_strlit("MatrixMixer"); reveal_strlit("KarplusStrong"); if "MatrixMixer"@ == "KarplusStrong"@ { assert("MatrixMixer"@.len() == "KarplusStrong"@.len()); } }
        assert("MatrixMixer"@ != "ModalResonator"@) by { reveal_strlit("MatrixMixer"); reveal_strlit("ModalResonator"); if "MatrixMixer"@ == "ModalResonator"@ { assert("MatrixMixer"@.len() == "ModalResonator"@.len()); } }
        assert("MatrixMixer"@ != "ChuaCircuit"@) by { reveal_strlit("MatrixMixer"); reveal_strlit("ChuaCircuit"); if "MatrixMixer"@ == "ChuaCircuit"@ { assert("MatrixMixer"@[0] == "ChuaCircuit"@[0]); } }
        assert("MatrixMixer"@ != "Chua"@) by { reveal_strlit("MatrixMixer"); reveal_strlit("Chua"); if "MatrixMixer"@ == "Chua"@ { assert("MatrixMixer"@.len() == "Chua"@.len()); } }
        assert("MatrixMixer"@ != "TapeMachine"@) by { reveal_strlit("MatrixMixer"); reveal_strlit("TapeMachine"); if "MatrixMixer"@ == "TapeMachine"@ { assert("MatrixMixer"@[0] == "TapeMachine"@[0]); } }
        assert("MatrixMixer"@ != "Tape"@) by { reveal_strlit("MatrixMixer"); reveal_strlit("Tape"); if "MatrixMixer"@ == "Tape"@ { assert("MatrixMixer"@.len() == "Tape"@.len()); } }
}

proof fn lemma_name_euclidean(has_midi: bool)
    ensures
        dsp_kind_for_name("Euclidean"@, has_midi) == DspKind::EuclideanSequencer,
{
        assert("Euclidean"@ != "Oscillator"@) by { reveal_strlit("Euclidean"); reveal_strlit("Oscillator"); if "Euclidean"@ == "Oscillator"@ { assert("Euclidean"@.len() == "Oscillator"@.len()); } }
        assert("Euclidean"@ != "Sine"@) by { reveal_strlit("Euclidean"); reveal_strlit("Sine"); if "Euclidean"@ == "Sine"@ { assert("Euclidean"@.len() == "Sine"@.len()); } }
        assert("Euclidean"@ != "Noise"@) by { reveal_strlit("Euclidean"); reveal_strlit("Noise"); if "Euclidean"@ == "Noise"@ { assert("Euclidean"@.len() == "Noise"@.len()); } }
        assert("Euclidean"@ != "Gain"@) by { reveal_strlit("Euclidean"); reveal_strlit("Gain"); if "Euclidean"@ == "Gain"@ { assert("Euclidean"@.len() == "Gain"@.len()); } }
        assert("Euclidean"@ != "Add"@) by { reveal_strlit("Euclidean"); reveal_strlit("Add"); if "Euclidean"@ == "Add"@ { assert("Euclidean"@.len() == "Add"@.len()); } }
        assert("Euclidean"@ != "Multiply"@) by { reveal_strlit("Euclidean"); reveal_strlit("Multiply"); if "Euclidean"@ == "Multiply"@ { assert("Euclidean"@.len() == "Multiply"@.len()); } }
        assert("Euclidean"@ != "Clip"@) by { reveal_strlit("Euclidean"); reveal_strlit("Clip"); if "Euclidean"@ == "Clip"@ { assert("Euclidean"@.len() == "Clip"@.len()); } }
        assert("Euclidean"@ != "Filter"@) by { reveal_strlit("Euclidean"); reveal_strlit("Filter"); if "Euclidean"@ == "Filter"@ { assert("Euclidean"@.len() == "Filter"@.len()); } }
        assert("Euclidean"@ != "Biquad"@) by { reveal_strlit("Euclidean"); reveal_strlit("Biquad"); if "Euclidean"@ == "Biquad"@ { assert("Euclidean"@.len() == "Biquad"@.len()); } }
        assert("Euclidean"@ != "Compressor"@) by { reveal_strlit("Euclidean"); reveal_strlit("Compressor"); if "Euclidean"@ == "Compressor"@ { assert("Euclidean"@.len() == "Compressor"@.len()); } }
        assert("Euclidean"@ != "Dynamics"@) by { reveal_strlit("Euclidean"); reveal_strlit("Dynamics"); if "Euclidean"@ == "Dynamics"@ { assert("Euclidean"@.len() == "Dynamics"@.len()); } }
        assert("Euclidean"@ != "Delay"@) by { reveal_strlit("Euclidean"); reveal_strlit("Delay"); if "Euclidean"@ == "Delay"@ { assert("Euclidean"@.len() == "Delay"@.len()); } }
        assert("Euclidean"@ != "Sampler"@) by { reveal_strlit("Euclidean"); reveal_strlit("Sampler"); if "Euclidean"@ == "Sampler"@ { assert("Euclidean"@.len() == "Sampler"@.len()); } }
        assert("Euclidean"@ != "AssetReader"@) by { reveal_strlit("Euclidean"); reveal_strlit("AssetReader"); if "Euclidean"@ == "AssetReader"@ { assert("Euclidean"@.len() == "AssetReader"@.len()); } }
        assert("Euclidean"@ != "Trigger"@) by { reveal_strlit("Euclidean"); reveal_strlit("Trigger"); if "Euclidean"@ == "Trigger"@ { assert("Euclidean"@.len() == "Trigger"@.len()); } }
        assert("Euclidean"@ != "Envelope"@) by { reveal_strlit("Euclidean"); reveal_strlit("Envelope"); if "Euclidean"@ == "Envelope"@ { assert("Euclidean"@.len() == "Envelope"@.len()); } }
        assert("Euclidean"@ != "ADSR"@) by { reveal_strlit("Euclidean"); reveal_strlit("ADSR"); if "Euclidean"@ == "ADSR"@ { assert("Euclidean"@.len() == "ADSR"@.len()); } }
        assert("Euclidean"@ != "Automation"@) by { reveal_strlit("Euclidean"); reveal_strlit("Automation"); if "Euclidean"@ == "Automation"@ { assert("Euclidean"@.len() == "Automation"@.len()); } }
        assert("Euclidean"@ != "MidiIn"@) by { reveal_strlit("Euclidean"); reveal_strlit("MidiIn"); if "Euclidean"@ == "MidiIn"@ { assert("Euclidean"@.len() == "MidiIn"@.len()); } }
        assert("Euclidean"@ != "Sequencer"@) by { reveal_strlit("Euclidean"); reveal_strlit("Sequencer"); if "Euclidean"@ == "Sequencer"@ { assert("Euclidean"@[0] == "Sequencer"@[0]); } }
        assert("Euclidean"@ != "Wavefolder"@) by { reveal_strlit("Euclidean"); reveal_strlit("Wavefolder"); if "Euclidean"@ == "Wavefolder"@ { assert("Euclidean"@.len() == "Wavefolder"@.len()); } }
        assert("Euclidean"@ != "Lorenz"@) by { reveal_strlit("Euclidean"); reveal_strlit("Lorenz"); if "Euclidean"@ == "Lorenz"@ { assert("Euclidean"@.len() == "Lorenz"@.len()); } }
        assert("Euclidean"@ != "MackeyGlass"@) by { reveal_strlit("Euclidean"); reveal_strlit("MackeyGlass"); if "Euclidean"@ == "MackeyGlass"@ { assert("Euclidean"@.len() == "MackeyGlass"@.len()); } }
        assert("Euclidean"@ != "GrayScott"@) by { reveal_strlit("Euclidean"); reveal_strlit("GrayScott"); if "Euclidean"@ == "GrayScott"@ { assert("Euclidean"@[0] == "GrayScott"@[0]); } }
        assert("Euclidean"@ != "ReactionDiffusion"@) by { reveal_strlit("Euclidean"); reveal_strlit("ReactionDiffusion"); if "Euclidean"@ == "ReactionDiffusion"@ { assert("Euclidean"@.len() == "ReactionDiffusion"@.len()); } }
        assert("Euclidean"@ != "BitCrush"@) by { reveal_strlit("Euclidean"); reveal_strlit("BitCrush"); if "Euclidean"@ == "BitCrush"@ { assert("Euclidean"@.len() == "BitCrush"@.len()); } }
        assert("Euclidean"@ != "WaveShaper"@) by { reveal_strlit("Euclidean"); reveal_strlit("WaveShaper"); if "Euclidean"@ == "WaveShaper"@ { assert("Euclidean"@.len() == "WaveShaper"@.len()); } }
        assert("Euclidean"@ != "Pll"@) by { reveal_strlit("Euclidean"); reveal_strlit("Pll"); if "Euclidean"@ == "Pll"@ { assert("Euclidean"@.len() == "Pll"@.len()); } }
        assert("Euclidean"@ != "SlewLimiter"@) by { reveal_strlit("Euclidean"); reveal_strlit("SlewLimiter"); if "Euclidean"@ == "SlewLimiter"@ { assert("Euclidean"@.len() == "SlewLimiter"@.len()); } }
        assert("Euclidean"@ != "Slew"@) by { reveal_strlit("Euclidean"); reveal_strlit("Slew"); if "Euclidean"@ == "Slew"@ { assert("Euclidean"@.len() == "Slew"@.len()); } }
        assert("Euclidean"@ != "SampleHold"@) by { reveal_strlit("Euclidean"); reveal_strlit("SampleHold"); if "Euclidean"@ == "SampleHold"@ { assert("Euclidean"@.len() == "SampleHold"@.len()); } }
        assert("Euclidean"@ != "S&H"@) by { reveal_strlit("Euclidean"); reveal_strlit("S&H"); if "Euclidean"@ == "S&H"@ { assert("Euclidean"@.len() == "S&H"@.len()); } }
        assert("Euclidean"@ != "Clock"@) by { reveal_strlit("Euclidean"); reveal_strlit("Clock"); if "Euclidean"@ == "Clock"@ { assert("Euclidean"@.len() == "Clock"@.len()); } }
        assert("Euclidean"@ != "ProbabilityGate"@) by { reveal_strlit("Euclidean"); reveal_strlit("ProbabilityGate"); if "Euclidean"@ == "ProbabilityGate"@ { assert("Euclidean"@.len() == "ProbabilityGate"@.len()); } }
        assert("Euclidean"@ != "Reverb"@) by { reveal_strlit("Euclidean"); reveal_strlit("Reverb"); if "Euclidean"@ == "Reverb"@ { assert("Euclidean"@.len() == "Reverb"@.len()); } }
        assert("Euclidean"@ != "SpringReverb"@) by { reveal_strlit("Euclidean"); reveal_strlit("SpringReverb"); if "Euclidean"@ == "SpringReverb"@ { assert("Euclidean"@.len() == "SpringReverb"@.len()); } }
        assert("Euclidean"@ != "Granular"@) by { reveal_strlit("Euclidean"); reveal_strlit("Granular"); if "Euclidean"@ == "Granular"@ { assert("Euclidean"@.len() == "Granular"@.len()); } }
        assert("Euclidean"@ != "Logic"@) by { reveal_strlit("Euclidean"); reveal_strlit("Logic"); if "Euclidean"@ == "Logic"@ { assert("Euclidean"@.len() == "Logic"@.len()); } }
        assert("Euclidean"@ != "SpectralFreeze"@) by { reveal_strlit("Euclidean"); reveal_strlit("SpectralFreeze"); if "Euclidean"@ == "SpectralFreeze"@ { assert("Euclidean"@.len() == "SpectralFreeze"@.len()); } }
        assert("Euclidean"@ != "FFTConvolve"@) by { reveal_strlit("Euclidean"); reveal_strlit("FFTConvolve"); if "Euclidean"@ == "FFTConvolve"@ { assert("Euclidean"@.len() == "FFTConvolve"@.len()); } }
        assert("Euclidean"@ != "ZdfLadder"@) by { reveal_strlit("Euclidean"); reveal_strlit("ZdfLadder"); if "Euclidean"@ == "ZdfLadder"@ { assert("Euclidean"@[0] == "ZdfLadder"@[0]); } }
        assert("Euclidean"@ != "TB303Ladder"@) by { reveal_strlit("Euclidean"); reveal_strlit("TB303Ladder"); if "Euclidean"@ == "TB303Ladder"@ { assert("Euclidean"@.len() == "TB303Ladder"@.len()); } }
        assert("Euclidean"@ != "Ladder"@) by { reveal_strlit("Euclidean"); reveal_strlit("Ladder"); if "Euclidean"@ == "Ladder"@ { assert("Euclidean"@.len() == "Ladder"@.len()); } }
        assert("Euclidean"@ != "Svf"@) by { reveal_strlit("Euclidean"); reveal_strlit("Svf"); if "Euclidean"@ == "Svf"@ { assert("Euclidean"@.len() == "Svf"@.len()); } }
        assert("Euclidean"@ != "SVFFilter"@) by { reveal_strlit("Euclidean"); reveal_strlit("SVFFilter"); if "Euclidean"@ == "SVFFilter"@ { assert("Euclidean"@[0] == "SVFFilter"@[0]); } }
        assert("Euclidean"@ != "DiodeClipper"@) by { reveal_strlit("Euclidean"); reveal_strlit("DiodeClipper"); if "Euclidean"@ == "DiodeClipper"@ { assert("Euclidean"@.len() == "DiodeClipper"@.len()); } }
        assert("Euclidean"@ != "BbdDelay"@) by { reveal_strlit("Euclidean"); reveal_strlit("BbdDelay"); if "Euclidean"@ == "BbdDelay"@ { assert("Euclidean"@.len() == "BbdDelay"@.len()); } }
        assert("Euclidean"@ != "KarplusStrong"@) by { reveal_strlit("Euclidean"); reveal_strlit("KarplusStrong"); if "Euclidean"@ == "KarplusStrong"@ { assert("Euclidean"@.len() == "KarplusStrong"@.len()); } }
        assert("Euclidean"@ != "ModalResonator"@) by { reveal_strlit("Euclidean"); reveal_strlit("ModalResonator"); if "Euclidean"@ == "ModalResonator"@ { assert("Euclidean"@.len() == "ModalResonator"@.len()); } }
        assert("Euclidean"@ != "ChuaCircuit"@) by { reveal_strlit("Euclidean"); reveal_strlit("ChuaCircuit"); if "Euclidean"@ == "ChuaCircuit"@ { assert("Euclidean"@.len() == "ChuaCircuit"@.len()); } }
        assert("Euclidean"@ != "Chua"@) by { reveal_strlit("Euclidean"); reveal_strlit("Chua"); if "Euclidean"@ == "Chua"@ { assert("Euclidean"@.len() == "Chua"@.len()); } }
        assert("Euclidean"@ != "TapeMachine"@) by { reveal_strlit("Euclidean"); reveal_strlit("TapeMachine"); if "Euclidean"@ == "TapeMachine"@ { assert("Euclidean"@.len() == "TapeMachine"@.len()); } }
        assert("Euclidean"@ != "Tape"@) by { reveal_strlit("Euclidean"); reveal_strlit("Tape"); if "Euclidean"@ == "Tape"@ { assert("Euclidean"@.len() == "Tape"@.len()); } }
        assert("Euclidean"@ != "MatrixMixer"@) by { reveal_strlit("Euclidean"); reveal_strlit("MatrixMixer"); if "Euclidean"@ == "MatrixMixer"@ { assert("Euclidean"@.len() == "MatrixMixer"@.len()); } }
}

proof fn lemma_name_euclideansequencer(has_midi: bool)
    ensures
        dsp_kind_for_name("EuclideanSequencer"@, has_midi) == DspKind::EuclideanSequencer,
{
        assert("EuclideanSequencer"@ != "Oscillator"@) by { reveal_strlit("EuclideanSequencer"); reveal_strlit("Oscillator"); if "EuclideanSequencer"@ == "Oscillator"@ { assert("EuclideanSequencer"@.len() == "Oscillator"@.len()); } }
        assert("EuclideanSequencer"@ != "Sine"@) by { reveal_strlit("EuclideanSequencer"); reveal_strlit("Sine"); if "EuclideanSequencer"@ == "Sine"@ { assert("EuclideanSequencer"@.len() == "Sine"@.len()); } }
        assert("EuclideanSequencer"@ != "Noise"@) by { reveal_strlit("EuclideanSequencer"); reveal_strlit("Noise"); if "EuclideanSequencer"@ == "Noise"@ { assert("EuclideanSequencer"@.len() == "Noise"@.len()); } }
        assert("EuclideanSequencer"@ != "Gain"@) by { reveal_strlit("EuclideanSequencer"); reveal_strlit("Gain"); if "EuclideanSequencer"@ == "Gain"@ { assert("EuclideanSequencer"@.len() == "Gain"@.len()); } }
        assert("EuclideanSequencer"@ != "Add"@) by { reveal_strlit("EuclideanSequencer"); reveal_strlit("Add"); if "EuclideanSequencer"@ == "Add"@ { assert("EuclideanSequencer"@.len() == "Add"@.len()); } }
        assert("EuclideanSequencer"@ != "Multiply"@) by { reveal_strlit("EuclideanSequencer"); reveal_strlit("Multiply"); if "EuclideanSequencer"@ == "Multiply"@ { assert("EuclideanSequencer"@.len() == "Multiply"@.len()); } }
        assert("EuclideanSequencer"@ != "Clip"@) by { reveal_strlit("EuclideanSequencer"); reveal_strlit("Clip"); if "EuclideanSequencer"@ == "Clip"@ { assert("EuclideanSequencer"@.len() == "Clip"@.len()); } }
        assert("EuclideanSequencer"@ != "Filter"@) by { reveal_strlit("EuclideanSequencer"); reveal_strlit("Filter"); if "EuclideanSequencer"@ == "Filter"@ { assert("EuclideanSequencer"@.len() == "Filter"@.len()); } }
        assert("EuclideanSequencer"@ != "Biquad"@) by { reveal_strlit("EuclideanSequencer"); reveal_strlit("Biquad"); if "EuclideanSequencer"@ == "Biquad"@ { assert("EuclideanSequencer"@.len() == "Biquad"@.len()); } }
        assert("EuclideanSequencer"@ != "Compressor"@) by { reveal_strlit("EuclideanSequencer"); reveal_strlit("Compressor"); if "EuclideanSequencer"@ == "Compressor"@ { assert("EuclideanSequencer"@.len() == "Compressor"@.len()); } }
        assert("EuclideanSequencer"@ != "Dynamics"@) by { reveal_strlit("EuclideanSequencer"); reveal_strlit("Dynamics"); if "EuclideanSequencer"@ == "Dynamics"@ { assert("EuclideanSequencer"@.len() == "Dynamics"@.len()); } }
        assert("EuclideanSequencer"@ != "Delay"@) by { reveal_strlit("EuclideanSequencer"); reveal_strlit("Delay"); if "EuclideanSequencer"@ == "Delay"@ { assert("EuclideanSequencer"@.len() == "Delay"@.len()); } }
        assert("EuclideanSequencer"@ != "Sampler"@) by { reveal_strlit("EuclideanSequencer"); reveal_strlit("Sampler"); if "EuclideanSequencer"@ == "Sampler"@ { assert("EuclideanSequencer"@.len() == "Sampler"@.len()); } }
        assert("EuclideanSequencer"@ != "AssetReader"@) by { reveal_strlit("EuclideanSequencer"); reveal_strlit("AssetReader"); if "EuclideanSequencer"@ == "AssetReader"@ { assert("EuclideanSequencer"@.len() == "AssetReader"@.len()); } }
        assert("EuclideanSequencer"@ != "Trigger"@) by { reveal_strlit("EuclideanSequencer"); reveal_strlit("Trigger"); if "EuclideanSequencer"@ == "Trigger"@ { assert("EuclideanSequencer"@.len() == "Trigger"@.len()); } }
        assert("EuclideanSequencer"@ != "Envelope"@) by { reveal_strlit("EuclideanSequencer"); reveal_strlit("Envelope"); if "EuclideanSequencer"@ == "Envelope"@ { assert("EuclideanSequencer"@.len() == "Envelope"@.len()); } }
        assert("EuclideanSequencer"@ != "ADSR"@) by { reveal_strlit("EuclideanSequencer"); reveal_strlit("ADSR"); if "EuclideanSequencer"@ == "ADSR"@ { assert("EuclideanSequencer"@.len() == "ADSR"@.len()); } }
        assert("EuclideanSequencer"@ != "Automation"@) by { reveal_strlit("EuclideanSequencer"); reveal_strlit("Automation"); if "EuclideanSequencer"@ == "Automation"@ { assert("EuclideanSequencer"@.len() == "Automation"@.len()); } }
        assert("EuclideanSequencer"@ != "MidiIn"@) by { reveal_strlit("EuclideanSequencer"); reveal_strlit("MidiIn"); if "EuclideanSequencer"@ == "MidiIn"@ { assert("EuclideanSequencer"@.len() == "MidiIn"@.len()); } }
        assert("EuclideanSequencer"@ != "Sequencer"@) by { reveal_strlit("EuclideanSequencer"); reveal_strlit("Sequencer"); if "EuclideanSequencer"@ == "Sequencer"@ { assert("EuclideanSequencer"@.len() == "Sequencer"@.len()); } }
        assert("EuclideanSequencer"@ != "Wavefolder"@) by { reveal_strlit("EuclideanSequencer"); reveal_strlit("Wavefolder"); if "EuclideanSequencer"@ == "Wavefolder"@ { assert("EuclideanSequencer"@.len() == "Wavefolder"@.len()); } }
        assert("EuclideanSequencer"@ != "Lorenz"@) by { reveal_strlit("EuclideanSequencer"); reveal_strlit("Lorenz"); if "EuclideanSequencer"@ == "Lorenz"@ { assert("EuclideanSequencer"@.len() == "Lorenz"@.len()); } }
        assert("EuclideanSequencer"@ != "MackeyGlass"@) by { reveal_strlit("EuclideanSequencer"); reveal_strlit("MackeyGlass"); if "EuclideanSequencer"@ == "MackeyGlass"@ { assert("EuclideanSequencer"@.len() == "MackeyGlass"@.len()); } }
        assert("EuclideanSequencer"@ != "GrayScott"@) by { reveal_strlit("EuclideanSequencer"); reveal_strlit("GrayScott"); if "EuclideanSequencer"@ == "GrayScott"@ { assert("EuclideanSequencer"@.len() == "GrayScott"@.len()); } }
        assert("EuclideanSequencer"@ != "ReactionDiffusion"@) by { reveal_strlit("EuclideanSequencer"); reveal_strlit("ReactionDiffusion"); if "EuclideanSequencer"@ == "ReactionDiffusion"@ { assert("EuclideanSequencer"@.len() == "ReactionDiffusion"@.len()); } }
        assert("EuclideanSequencer"@ != "BitCrush"@) by { reveal_strlit("EuclideanSequencer"); reveal_strlit("BitCrush"); if "EuclideanSequencer"@ == "BitCrush"@ { assert("EuclideanSequencer"@.len() == "BitCrush"@.len()); } }
        assert("EuclideanSequencer"@ != "WaveShaper"@) by { reveal_strlit("EuclideanSequencer"); reveal_strlit("WaveShaper"); if "EuclideanSequencer"@ == "WaveShaper"@ { assert("EuclideanSequencer"@.len() == "WaveShaper"@.len()); } }
        assert("EuclideanSequencer"@ != "Pll"@) by { reveal_strlit("EuclideanSequencer"); reveal_strlit("Pll"); if "EuclideanSequencer"@ == "Pll"@ { assert("EuclideanSequencer"@.len() == "Pll"@.len()); } }
        assert("EuclideanSequencer"@ != "SlewLimiter"@) by { reveal_strlit("EuclideanSequencer"); reveal_strlit("SlewLimiter"); if "EuclideanSequencer"@ == "SlewLimiter"@ { assert("EuclideanSequencer"@.len() == "SlewLimiter"@.len()); } }
        assert("EuclideanSequencer"@ != "Slew"@) by { reveal_strlit("EuclideanSequencer"); reveal_strlit("Slew"); if "EuclideanSequencer"@ == "Slew"@ { assert("EuclideanSequencer"@.len() == "Slew"@.len()); } }
        assert("EuclideanSequencer"@ != "SampleHold"@) by { reveal_strlit("EuclideanSequencer"); reveal_strlit("SampleHold"); if "EuclideanSequencer"@ == "SampleHold"@ { assert("EuclideanSequencer"@.len() == "SampleHold"@.len()); } }
        assert("EuclideanSequencer"@ != "S&H"@) by { reveal_strlit("EuclideanSequencer"); reveal_strlit("S&H"); if "EuclideanSequencer"@ == "S&H"@ { assert("EuclideanSequencer"@.len() == "S&H"@.len()); } }
        assert("EuclideanSequencer"@ != "Clock"@) by { reveal_strlit("EuclideanSequencer"); reveal_strlit("Clock"); if "EuclideanSequencer"@ == "Clock"@ { assert("EuclideanSequencer"@.len() == "Clock"@.len()); } }
        assert("EuclideanSequencer"@ != "ProbabilityGate"@) by { reveal_strlit("EuclideanSequencer"); reveal_strlit("ProbabilityGate"); if "EuclideanSequencer"@ == "ProbabilityGate"@ { assert("EuclideanSequencer"@.len() == "ProbabilityGate"@.len()); } }
        assert("EuclideanSequencer"@ != "Reverb"@) by { reveal_strlit("EuclideanSequencer"); reveal_strlit("Reverb"); if "EuclideanSequencer"@ == "Reverb"@ { assert("EuclideanSequencer"@.len() == "Reverb"@.len()); } }
        assert("EuclideanSequencer"@ != "SpringReverb"@) by { reveal_strlit("EuclideanSequencer"); reveal_strlit("SpringReverb"); if "EuclideanSequencer"@ == "SpringReverb"@ { assert("EuclideanSequencer"@.len() == "SpringReverb"@.len()); } }
        assert("EuclideanSequencer"@ != "Granular"@) by { reveal_strlit("EuclideanSequencer"); reveal_strlit("Granular"); if "EuclideanSequencer"@ == "Granular"@ { assert("EuclideanSequencer"@.len() == "Granular"@.len()); } }
        assert("EuclideanSequencer"@ != "Logic"@) by { reveal_strlit("EuclideanSequencer"); reveal_strlit("Logic"); if "EuclideanSequencer"@ == "Logic"@ { assert("EuclideanSequencer"@.len() == "Logic"@.len()); } }
        assert("EuclideanSequencer"@ != "SpectralFreeze"@) by { reveal_strlit("EuclideanSequencer"); reveal_strlit("SpectralFreeze"); if "EuclideanSequencer"@ == "SpectralFreeze"@ { assert("EuclideanSequencer"@.len() == "SpectralFreeze"@.len()); } }
        assert("EuclideanSequencer"@ != "FFTConvolve"@) by { reveal_strlit("EuclideanSequencer"); reveal_strlit("FFTConvolve"); if "EuclideanSequencer"@ == "FFTConvolve"@ { assert("EuclideanSequencer"@.len() == "FFTConvolve"@.len()); } }
        assert("EuclideanSequencer"@ != "ZdfLadder"@) by { reveal_strlit("EuclideanSequencer"); reveal_strlit("ZdfLadder"); if "EuclideanSequencer"@ == "ZdfLadder"@ { assert("EuclideanSequencer"@.len() == "ZdfLadder"@.len()); } }
        assert("EuclideanSequencer"@ != "TB303Ladder"@) by { reveal_strlit("EuclideanSequencer"); reveal_strlit("TB303Ladder"); if "EuclideanSequencer"@ == "TB303Ladder"@ { assert("EuclideanSequencer"@.len() == "TB303Ladder"@.len()); } }
        assert("EuclideanSequencer"@ != "Ladder"@) by { reveal_strlit("EuclideanSequencer"); reveal_strlit("Ladder"); if "EuclideanSequencer"@ == "Ladder"@ { assert("EuclideanSequencer"@.len() == "Ladder"@.len()); } }
        assert("EuclideanSequencer"@ != "Svf"@) by { reveal_strlit("EuclideanSequencer"); reveal_strlit("Svf"); if "EuclideanSequencer"@ == "Svf"@ { assert("EuclideanSequencer"@.len() == "Svf"@.len()); } }
        assert("EuclideanSequencer"@ != "SVFFilter"@) by { reveal_strlit("EuclideanSequencer"); reveal_strlit("SVFFilter"); if "EuclideanSequencer"@ == "SVFFilter"@ { assert("EuclideanSequencer"@.len() == "SVFFilter"@.len()); } }
        assert("EuclideanSequencer"@ != "DiodeClipper"@) by { reveal_strlit("EuclideanSequencer"); reveal_strlit("DiodeClipper"); if "EuclideanSequencer"@ == "DiodeClipper"@ { assert("EuclideanSequencer"@.len() == "DiodeClipper"@.len()); } }
        assert("EuclideanSequencer"@ != "BbdDelay"@) by { reveal_strlit("EuclideanSequencer"); reveal_strlit("BbdDelay"); if "EuclideanSequencer"@ == "BbdDelay"@ { assert("EuclideanSequencer"@.len() == "BbdDelay"@.len()); } }
        assert("EuclideanSequencer"@ != "KarplusStrong"@) by { reveal_strlit("EuclideanSequencer"); reveal_strlit("KarplusStrong"); if "EuclideanSequencer"@ == "KarplusStrong"@ { assert("EuclideanSequencer"@.len() == "KarplusStrong"@.len()); } }
        assert("EuclideanSequencer"@ != "ModalResonator"@) by { reveal_strlit("EuclideanSequencer"); reveal_strlit("ModalResonator"); if "EuclideanSequencer"@ == "ModalResonator"@ { assert("EuclideanSequencer"@.len() == "ModalResonator"@.len()); } }
        assert("EuclideanSequencer"@ != "ChuaCircuit"@) by { reveal_strlit("EuclideanSequencer"); reveal_strlit("ChuaCircuit"); if "EuclideanSequencer"@ == "ChuaCircuit"@ { assert("EuclideanSequencer"@.len() == "ChuaCircuit"@.len()); } }
        assert("EuclideanSequencer"@ != "Chua"@) by { reveal_strlit("EuclideanSequencer"); reveal_strlit("Chua"); if "EuclideanSequencer"@ == "Chua"@ { assert("EuclideanSequencer"@.len() == "Chua"@.len()); } }
        assert("EuclideanSequencer"@ != "TapeMachine"@) by { reveal_strlit("EuclideanSequencer"); reveal_strlit("TapeMachine"); if "EuclideanSequencer"@ == "TapeMachine"@ { assert("EuclideanSequencer"@.len() == "TapeMachine"@.len()); } }
        assert("EuclideanSequencer"@ != "Tape"@) by { reveal_strlit("EuclideanSequencer"); reveal_strlit("Tape"); if "EuclideanSequencer"@ == "Tape"@ { assert("EuclideanSequencer"@.len() == "Tape"@.len()); } }
        assert("EuclideanSequencer"@ != "MatrixMixer"@) by { reveal_strlit("EuclideanSequencer"); reveal_strlit("MatrixMixer"); if "EuclideanSequencer"@ == "MatrixMixer"@ { assert("EuclideanSequencer"@.len() == "MatrixMixer"@.len()); } }
        assert("EuclideanSequencer"@ != "Euclidean"@) by { reveal_strlit("EuclideanSequencer"); reveal_strlit("Euclidean"); if "EuclideanSequencer"@ == "Euclidean"@ { assert("EuclideanSequencer"@.len() == "Euclidean"@.len()); } }
}

/// The names the runner's table gives each element (a foreign plug-in is
/// chosen by the node's kind, not by a name).
pub open spec fn element_names(k: DspKind) -> Seq<Seq<char>> {
    match k {
        DspKind::Foreign => Seq::empty(),
        DspKind::Oscillator => seq!["Oscillator"@, "Sine"@],
        DspKind::Noise => seq!["Noise"@],
        DspKind::Gain => seq!["Gain"@],
        DspKind::Add => seq!["Add"@],
        DspKind::Multiply => seq!["Multiply"@],
        DspKind::Clip => seq!["Clip"@],
        DspKind::BiquadFilter => seq!["Filter"@, "Biquad"@],
        DspKind::Compressor => seq!["Compressor"@, "Dynamics"@],
        DspKind::Delay => seq!["Delay"@],
        DspKind::AssetReader => seq!["Sampler"@, "AssetReader"@],
        DspKind::Trigger => seq!["Trigger"@],
        DspKind::Envelope => seq!["Envelope"@, "ADSR"@],
        DspKind::Automation => seq!["Automation"@],
        DspKind::MidiIn => seq!["MidiIn"@],
        DspKind::Sequencer => seq!["Sequencer"@],
        DspKind::Wavefolder => seq!["Wavefolder"@],
        DspKind::Lorenz => seq!["Lorenz"@],
        DspKind::MackeyGlass => seq!["MackeyGlass"@],
        DspKind::GrayScott => seq!["GrayScott"@, "ReactionDiffusion"@],
        DspKind::BitCrush => seq!["BitCrush"@],
        DspKind::WaveShaper => seq!["WaveShaper"@],
        DspKind::Pll => seq!["Pll"@],
        DspKind::SlewLimiter => seq!["SlewLimiter"@, "Slew"@],
        DspKind::SampleHold => seq!["SampleHold"@, "S&H"@],
        DspKind::Clock => seq!["Clock"@],
        DspKind::ProbabilityGate => seq!["ProbabilityGate"@],
        DspKind::Reverb => seq!["Reverb"@],
        DspKind::SpringReverb => seq!["SpringReverb"@],
        DspKind::Granular => seq!["Granular"@],
        DspKind::Logic => seq!["Logic"@],
        DspKind::SpectralFreeze => seq!["SpectralFreeze"@],
        DspKind::FftConvolve => seq!["FFTConvolve"@],
        DspKind::ZdfLadder => seq!["ZdfLadder"@, "TB303Ladder"@, "Ladder"@],
        DspKind::Svf => seq!["Svf"@, "SVFFilter"@],
        DspKind::DiodeClipper => seq!["DiodeClipper"@],
        DspKind::BbdDelay => seq!["BbdDelay"@],
        DspKind::KarplusStrong => seq!["KarplusStrong"@],
        DspKind::ModalResonator => seq!["ModalResonator"@],
        DspKind::ChuaCircuit => seq!["ChuaCircuit"@, "Chua"@],
        DspKind::TapeMachine => seq!["TapeMachine"@, "Tape"@],
        DspKind::MatrixMixer => seq!["MatrixMixer"@],
        DspKind::EuclideanSequencer => seq!["Euclidean"@, "EuclideanSequencer"@],
    }
}

/// Each name of the table selects its own element (`MidiIn` only with a
/// MIDI input at hand, a gain stage otherwise), and a name the table does
/// not hold selects a gain stage.
pub proof fn law_element_follows_name(name: Seq<char>, has_midi: bool)
    ensures
        forall|k: DspKind| #[trigger] element_names(k).contains(name) && k != DspKind::MidiIn ==> dsp_kind_for_name(name, has_midi) == k,
        element_names(DspKind::MidiIn).contains(name) ==> dsp_kind_for_name(name, has_midi) == (if has_midi {
            DspKind::MidiIn
        } else {
            DspKind::Gain
        }),
        (forall|k: DspKind| !(#[trigger] element_names(k).contains(name))) ==> dsp_kind_for_name(name, has_midi) == DspKind::Gain,
{
    lemma_name_oscillator(has_midi);
    lemma_name_sine(has_midi);
    lemma_name_noise(has_midi);
    lemma_name_gain(has_midi);
    lemma_name_add(has_midi);
    lemma_name_multiply(has_midi);
    lemma_name_clip(has_midi);
    lemma_name_filter(has_midi);
    lemma_name_biquad(has_midi);
    lemma_name_compressor(has_midi);
    lemma_name_dynamics(has_midi);
    lemma_name_delay(has_midi);
    lemma_name_sampler(has_midi);
    lemma_name_assetreader(has_midi);
    lemma_name_trigger(has_midi);
    lemma_name_envelope(has_midi);
    lemma_name_adsr(has_midi);
    lemma_name_automation(has_midi);
    lemma_name_midiin(has_midi);
    lemma_name_sequencer(has_midi);
    lemma_name_wavefolder(has_midi);
    lemma_name_lorenz(has_midi);
    lemma_name_mackeyglass(has_midi);
    lemma_name_grayscott(has_midi);
    lemma_name_reactiondiffusion(has_midi);
    lemma_name_bitcrush(has_midi);
    lemma_name_waveshaper(has_midi);
    lemma_name_pll(has_midi);
    lemma_name_slewlimiter(has_midi);
    lemma_name_slew(has_midi);
    lemma_name_samplehold(has_midi);
    lemma_name_s_h(has_midi);
    lemma_name_clock(has_midi);
    lemma_name_probabilitygate(has_midi);
    lemma_name_reverb(has_midi);
    lemma_name_springreverb(has_midi);
    lemma_name_granular(has_midi);
    lemma_name_logic(has_midi);
    lemma_name_spectralfreeze(has_midi);
    lemma_name_fftconvolve(has_midi);
    lemma_name_zdfladder(has_midi);
    lemma_name_tb303ladder(has_midi);
    lemma_name_ladder(has_midi);
    lemma_name_svf(has_midi);
    lemma_name_svffilter(has_midi);
    lemma_name_diodeclipper(has_midi);
    lemma_name_bbddelay(has_midi);
    lemma_name_karplusstrong(has_midi);
    lemma_name_modalresonator(has_midi);
    lemma_name_chuacircuit(has_midi);
    lemma_name_chua(has_midi);
    lemma_name_tapemachine(has_midi);
    lemma_name_tape(has_midi);
    lemma_name_matrixmixer(has_midi);
    lemma_name_euclidean(has_midi);
    lemma_name_euclideansequencer(has_midi);
    assert forall|k: DspKind| #[trigger] element_names(k).contains(name) && k != DspKind::MidiIn implies dsp_kind_for_name(name, has_midi) == k by {
        let q = choose|q: int| 0 <= q < element_names(k).len() && element_names(k)[q] == name;
    }
    if (forall|k: DspKind| !(#[trigger] element_names(k).contains(name))) {
        if name == "Oscillator"@ { assert(element_names(DspKind::Oscillator)[0] == "Oscillator"@); assert(element_names(DspKind::Oscillator).contains(name)); }
        if name == "Sine"@ { assert(element_names(DspKind::Oscillator)[1] == "Sine"@); assert(element_names(DspKind::Oscillator).contains(name)); }
        if name == "Noise"@ { assert(element_names(DspKind::Noise)[0] == "Noise"@); assert(element_names(DspKind::Noise).contains(name)); }
        if name == "Gain"@ { assert(element_names(DspKind::Gain)[0] == "Gain"@); assert(element_names(DspKind::Gain).contains(name)); }
        if name == "Add"@ { assert(element_names(DspKind::Add)[0] == "Add"@); assert(element_names(DspKind::Add).contains(name)); }
        if name == "Multiply"@ { assert(element_names(DspKind::Multiply)[0] == "Multiply"@); assert(element_names(DspKind::Multiply).contains(name)); }
        if name == "Clip"@ { assert(element_names(DspKind::Clip)[0] == "Clip"@); assert(element_names(DspKind::Clip).contains(name)); }
        if name == "Filter"@ { assert(element_names(DspKind::BiquadFilter)[0] == "Filter"@); assert(element_names(DspKind::BiquadFilter).contains(name)); }
        if name == "Biquad"@ { assert(element_names(DspKind::BiquadFilter)[1] == "Biquad"@); assert(element_names(DspKind::BiquadFilter).contains(name)); }
        if name == "Compressor"@ { assert(element_names(DspKind::Compressor)[0] == "Compressor"@); assert(element_names(DspKind::Compressor).contains(name)); }
        if name == "Dynamics"@ { assert(element_names(DspKind::Compressor)[1] == "Dynamics"@); assert(element_names(DspKind::Compressor).contains(name)); }
        if name == "Delay"@ { assert(element_names(DspKind::Delay)[0] == "Delay"@); assert(element_names(DspKind::Delay).contains(name)); }
        if name == "Sampler"@ { assert(element_names(DspKind::AssetReader)[0] == "Sampler"@); assert(element_names(DspKind::AssetReader).contains(name)); }
        if name == "AssetReader"@ { assert(element_names(DspKind::AssetReader)[1] == "AssetReader"@); assert(element_names(DspKind::AssetReader).contains(name)); }
        if name == "Trigger"@ { assert(element_names(DspKind::Trigger)[0] == "Trigger"@); assert(element_names(DspKind::Trigger).contains(name)); }
        if name == "Envelope"@ { assert(element_names(DspKind::Envelope)[0] == "Envelope"@); assert(element_names(DspKind::Envelope).contains(name)); }
        if name == "ADSR"@ { assert(element_names(DspKind::Envelope)[1] == "ADSR"@); assert(element_names(DspKind::Envelope).contains(name)); }
        if name == "Automation"@ { assert(element_names(DspKind::Automation)[0] == "Automation"@); assert(element_names(DspKind::Automation).contains(name)); }
        if name == "MidiIn"@ { assert(element_names(DspKind::MidiIn)[0] == "MidiIn"@); assert(element_names(DspKind::MidiIn).contains(name)); }
        if name == "Sequencer"@ { assert(element_names(DspKind::Sequencer)[0] == "Sequencer"@); assert(element_names(DspKind::Sequencer).contains(name)); }
        if name == "Wavefolder"@ { assert(element_names(DspKind::Wavefolder)[0] == "Wavefolder"@); assert(element_names(DspKind::Wavefolder).contains(name)); }
        if name == "Lorenz"@ { assert(element_names(DspKind::Lorenz)[0] == "Lorenz"@); assert(element_names(DspKind::Lorenz).contains(name)); }
        if name == "MackeyGlass"@ { assert(element_names(DspKind::MackeyGlass)[0] == "MackeyGlass"@); assert(element_names(DspKind::MackeyGlass).contains(name)); }
        if name == "GrayScott"@ { assert(element_names(DspKind::GrayScott)[0] == "GrayScott"@); assert(element_names(DspKind::GrayScott).contains(name)); }
        if name == "ReactionDiffusion"@ { assert(element_names(DspKind::GrayScott)[1] == "ReactionDiffusion"@); assert(element_names(DspKind::GrayScott).contains(name)); }
        if name == "BitCrush"@ { assert(element_names(DspKind::BitCrush)[0] == "BitCrush"@); assert(element_names(DspKind::BitCrush).contains(name)); }
        if name == "WaveShaper"@ { assert(element_names(DspKind::WaveShaper)[0] == "WaveShaper"@); assert(element_names(DspKind::WaveShaper).contains(name)); }
        if name == "Pll"@ { assert(element_names(DspKind::Pll)[0] == "Pll"@); assert(element_names(DspKind::Pll).contains(name)); }
        if name == "SlewLimiter"@ { assert(element_names(DspKind::SlewLimiter)[0] == "SlewLimiter"@); assert(element_names(DspKind::SlewLimiter).contains(name)); }
        if name == "Slew"@ { assert(element_names(DspKind::SlewLimiter)[1] == "Slew"@); assert(element_names(DspKind::SlewLimiter).contains(name)); }
        if name == "SampleHold"@ { assert(element_names(DspKind::SampleHold)[0] == "SampleHold"@); assert(element_names(DspKind::SampleHold).contains(name)); }
        if name == "S&H"@ { assert(element_names(DspKind::SampleHold)[1] == "S&H"@); assert(element_names(DspKind::SampleHold).contains(name)); }
        if name == "Clock"@ { assert(element_names(DspKind::Clock)[0] == "Clock"@); assert(element_names(DspKind::Clock).contains(name)); }
        if name == "ProbabilityGate"@ { assert(element_names(DspKind::ProbabilityGate)[0] == "ProbabilityGate"@); assert(element_names(DspKind::ProbabilityGate).contains(name)); }
        if name == "Reverb"@ { assert(element_names(DspKind::Reverb)[0] == "Reverb"@); assert(element_names(DspKind::Reverb).contains(name)); }
        if name == "SpringReverb"@ { assert(element_names(DspKind::SpringReverb)[0] == "SpringReverb"@); assert(element_names(DspKind::SpringReverb).contains(name)); }
        if name == "Granular"@ { assert(element_names(DspKind::Granular)[0] == "Granular"@); assert(element_names(DspKind::Granular).contains(name)); }
        if name == "Logic"@ { assert(element_names(DspKind::Logic)[0] == "Logic"@); assert(element_names(DspKind::Logic).contains(name)); }
        if name == "SpectralFreeze"@ { assert(element_names(DspKind::SpectralFreeze)[0] == "SpectralFreeze"@); assert(element_names(DspKind::SpectralFreeze).contains(name)); }
        if name == "FFTConvolve"@ { assert(element_names(DspKind::FftConvolve)[0] == "FFTConvolve"@); assert(element_names(DspKind::FftConvolve).contains(name)); }
        if name == "ZdfLadder"@ { assert(element_names(DspKind::ZdfLadder)[0] == "ZdfLadder"@); assert(element_names(DspKind::ZdfLadder).contains(name)); }
        if name == "TB303Ladder"@ { assert(element_names(DspKind::ZdfLadder)[1] == "TB303Ladder"@); assert(element_names(DspKind::ZdfLadder).contains(name)); }
        if name == "Ladder"@ { assert(element_names(DspKind::ZdfLadder)[2] == "Ladder"@); assert(element_names(DspKind::ZdfLadder).contains(name)); }
        if name == "Svf"@ { assert(element_names(DspKind::Svf)[0] == "Svf"@); assert(element_names(DspKind::Svf).contains(name)); }
        if name == "SVFFilter"@ { assert(element_names(DspKind::Svf)[1] == "SVFFilter"@); assert(element_names(DspKind::Svf).contains(name)); }
        if name == "DiodeClipper"@ { assert(element_names(DspKind::DiodeClipper)[0] == "DiodeClipper"@); assert(element_names(DspKind::DiodeClipper).contains(name)); }
        if name == "BbdDelay"@ { assert(element_names(DspKind::BbdDelay)[0] == "BbdDelay"@); assert(element_names(DspKind::BbdDelay).contains(name)); }
        if name == "KarplusStrong"@ { assert(element_names(DspKind::KarplusStrong)[0] == "KarplusStrong"@); assert(element_names(DspKind::KarplusStrong).contains(name)); }
        if name == "ModalResonator"@ { assert(element_names(DspKind::ModalResonator)[0] == "ModalResonator"@); assert(element_names(DspKind::ModalResonator).contains(name)); }
        if name == "ChuaCircuit"@ { assert(element_names(DspKind::ChuaCircuit)[0] == "ChuaCircuit"@); assert(element_names(DspKind::ChuaCircuit).contains(name)); }
        if name == "Chua"@ { assert(element_names(DspKind::ChuaCircuit)[1] == "Chua"@); assert(element_names(DspKind::ChuaCircuit).contains(name)); }
        if name == "TapeMachine"@ { assert(element_names(DspKind::TapeMachine)[0] == "TapeMachine"@); assert(element_names(DspKind::TapeMachine).contains(name)); }
        if name == "Tape"@ { assert(element_names(DspKind::TapeMachine)[1] == "Tape"@); assert(element_names(DspKind::TapeMachine).contains(name)); }
        if name == "MatrixMixer"@ { assert(element_names(DspKind::MatrixMixer)[0] == "MatrixMixer"@); assert(element_names(DspKind::MatrixMixer).contains(name)); }
        if name == "Euclidean"@ { assert(element_names(DspKind::EuclideanSequencer)[0] == "Euclidean"@); assert(element_names(DspKind::EuclideanSequencer).contains(name)); }
        if name == "EuclideanSequencer"@ { assert(element_names(DspKind::EuclideanSequencer)[1] == "EuclideanSequencer"@); assert(element_names(DspKind::EuclideanSequencer).contains(name)); }
    }
}

/// A foreign node runs as a foreign plug-in whatever its name; any other node
/// runs as the element its string `name` selects, or as a gain stage without
/// one.
pub proof fn law_element_of_node(n: Node, has_midi: bool)
    ensures
        n.kind is Foreign ==> dsp_kind_spec(n, has_midi) == DspKind::Foreign,
        !(n.kind is Foreign) && n.config@.contains_key("name"@) && n.config@["name"@] is String ==> dsp_kind_spec(n, has_midi)
            == dsp_kind_for_name(n.config@["name"@]->String_0@, has_midi),
        !(n.kind is Foreign) && !(n.config@.contains_key("name"@) && n.config@["name"@] is String) ==> dsp_kind_spec(n, has_midi)
            == DspKind::Gain,
{
}

/// Whether the characters spell the text.
fn spells(cs: &Vec<char>, text: &str) -> (r: bool)
    ensures
        r == (cs@ == text@),
{
    let t = chars_of(text);
    chars_order(cs, &t) == 0
}

/// The element for a name given as characters.
fn dsp_kind_for_chars(cs: &Vec<char>, has_midi: bool) -> (k: DspKind)
    ensures
        k == dsp_kind_for_name(cs@, has_midi),
{
    if spells(cs, "Oscillator") || spells(cs, "Sine") {
        DspKind::Oscillator
    } else if spells(cs, "Noise") {
        DspKind::Noise
    } else if spells(cs, "Gain") {
        DspKind::Gain
    } else if spells(cs, "Add") {
        DspKind::Add
    } else if spells(cs, "Multiply") {
        DspKind::Multiply
    } else if spells(cs, "Clip") {
        DspKind::Clip
    } else if spells(cs, "Filter") || spells(cs, "Biquad") {
        DspKind::BiquadFilter
    } else if spells(cs, "Compressor") || spells(cs, "Dynamics") {
        DspKind::Compressor
    } else if spells(cs, "Delay") {
        DspKind::Delay
    } else if spells(cs, "Sampler") || spells(cs, "AssetReader") {
        DspKind::AssetReader
    } else if spells(cs, "Trigger") {
        DspKind::Trigger
    } else if spells(cs, "Envelope") || spells(cs, "ADSR") {
        DspKind::Envelope
    } else if spells(cs, "Automation") {
        DspKind::Automation
    } else if spells(cs, "MidiIn") {
        if has_midi {
            DspKind::MidiIn
        } else {
            DspKind::Gain
        }
    } else if spells(cs, "Sequencer") {
        DspKind::Sequencer
    } else if spells(cs, "Wavefolder") {
        DspKind::Wavefolder
    } else if spells(cs, "Lorenz") {
        DspKind::Lorenz
    } else if spells(cs, "MackeyGlass") {
        DspKind::MackeyGlass
    } else if spells(cs, "GrayScott") || spells(cs, "ReactionDiffusion") {
        DspKind::GrayScott
    } else if spells(cs, "BitCrush") {
        DspKind::BitCrush
    } else if spells(cs, "WaveShaper") {
        DspKind::WaveShaper
    } else if spells(cs, "Pll") {
        DspKind::Pll
    } else if spells(cs, "SlewLimiter") || spells(cs, "Slew") {
        DspKind::SlewLimiter
    } else if spells(cs, "SampleHold") || spells(cs, "S&H") {
        DspKind::SampleHold
    } else if spells(cs, "Clock") {
        DspKind::Clock
    } else if spells(cs, "ProbabilityGate") {
        DspKind::ProbabilityGate
    } else if spells(cs, "Reverb") {
        DspKind::Reverb
    } else if spells(cs, "SpringReverb") {
        DspKind::SpringReverb
    } else if spells(cs, "Granular") {
        DspKind::Granular
    } else if spells(cs, "Logic") {
        DspKind::Logic
    } else if spells(cs, "SpectralFreeze") {
        DspKind::SpectralFreeze
    } else if spells(cs, "FFTConvolve") {
        DspKind::FftConvolve
    } else if spells(cs, "ZdfLadder") || spells(cs, "TB303Ladder") || spells(cs, "Ladder") {
        DspKind::ZdfLadder
    } else if spells(cs, "Svf") || spells(cs, "SVFFilter") {
        DspKind::Svf
    } else if spells(cs, "DiodeClipper") {
        DspKind::DiodeClipper
    } else if spells(cs, "BbdDelay") {
        DspKind::BbdDelay
    } else if spells(cs, "KarplusStrong") {
        DspKind::KarplusStrong
    } else if spells(cs, "ModalResonator") {
        DspKind::ModalResonator
    } else if spells(cs, "ChuaCircuit") || spells(cs, "Chua") {
        DspKind::ChuaCircuit
    } else if spells(cs, "TapeMachine") || spells(cs, "Tape") {
        DspKind::TapeMachine
    } else if spells(cs, "MatrixMixer") {
        DspKind::MatrixMixer
    } else if spells(cs, "Euclidean") || spells(cs, "EuclideanSequencer") {
        DspKind::EuclideanSequencer
    } else {
        DspKind::Gain
    }
}

/// The element that runs a node (see `dsp_kind_spec`); `has_midi` says
/// whether a MIDI input is at hand for `MidiIn` nodes.
pub fn dsp_kind(node: &Node, has_midi: bool) -> (k: DspKind)
    ensures
        k == dsp_kind_spec(*node, has_midi),
{
    match &node.kind {
        NodeKind::Foreign(_) => DspKind::Foreign,
        _ => match node.config.get("name") {
            Some(v) => match v.as_string() {
                Some(s) => {
                    let cs = chars_of(s.as_str());
                    dsp_kind_for_chars(&cs, has_midi)
                },
                None => DspKind::Gain,
            },
            None => DspKind::Gain,
        },
    }
}

/// Lays out a graph in the order of `topological_sort`: every node that lies
/// on no feed-forward cycle, each after its laid-out feed-forward
/// predecessors.
pub fn layout_graph(graph: &Graph) -> (l: RunnerLayout)
    requires
        normal_edges_connect_nodes(*graph),
    ensures
        l.order@.no_duplicates(),
        forall|x: StableId| l.order@.contains(x) ==> graph.nodes@.contains_key(x),
        ff_ordered(l.order@, graph.edges@),
        forall|x: StableId| graph.nodes@.contains_key(x) ==> (l.order@.contains(x) <==> !on_ff_cycle(graph.edges@, x)),
        l.buffer_counts@.len() == l.order@.len(),
        forall|i: int| 0 <= i < l.order@.len() ==> #[trigger] l.buffer_counts@[i] == buffer_count(graph.nodes@[l.order@[i]]@),
        l.latch_count == feedback_keys(key_order(graph.edges@.dom()), graph.edges@).len(),
        l.feedback_writes@.len() == l.order@.len(),
        l.feedback_reads@.len() == l.order@.len(),
        forall|p: int|
            0 <= p < l.order@.len() ==> (#[trigger] l.feedback_writes@[p])@ == latches_at(
                latch_ends(feedback_keys(key_order(graph.edges@.dom()), graph.edges@), graph.edges@, l.order@),
                p,
                true,
            ),
        forall|p: int|
            0 <= p < l.order@.len() ==> (#[trigger] l.feedback_reads@[p])@ == latches_at(
                latch_ends(feedback_keys(key_order(graph.edges@.dom()), graph.edges@), graph.edges@, l.order@),
                p,
                false,
            ),
        l.modulation_mappings@.map_values(|m: ModulationMapping| mapping_view(m)) == mappings_of(
            key_order(graph.modulations@.dom()),
            graph.modulations@,
            l.order@,
        ),
{
    let (sorted, _cycles) = topological_sort(graph);
    let l = runner_layout(graph, &sorted);
    proof {
        let keep = in_table(graph.nodes@);
        assert forall|i: int| 0 <= i < sorted@.len() implies keep(#[trigger] sorted@[i]) by {
            assert(sorted@.contains(sorted@[i]));
        }
        lemma_filter_keeps_all(sorted@, keep);
    }
    l
}

} // verus!
