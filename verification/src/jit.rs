//! The decisions of the JIT compiler: which wasm local holds each node's
//! output, where each oscillator keeps its phase, and how each node is
//! lowered (natively, or through a call into the interpreted runner).
//! Emitting the instructions is left to the caller.
use vstd::prelude::*;
use std::collections::BTreeMap;
use crate::types::{StableId, ConfigValue, NodeKind, NodeKindView};
use crate::ir::{Node, Edge, Graph};
use crate::keyorder::{key_order, enumerates, sorted_keys};

verus! {

broadcast use vstd::std_specs::btree::group_btree_axioms;

/// The bits of 440.0, the default oscillator frequency.
pub const DEFAULT_FREQUENCY: u64 = 0x407B_8000_0000_0000u64;

/// The bits of 1.0, the default gain.
pub const DEFAULT_GAIN: u64 = 0x3FF0_0000_0000_0000u64;

/// The bytes of oscillator state per oscillator.
pub const STATE_STRIDE: u32 = 4u32;

/// The `name` setting of a node, when it is a string.
pub open spec fn name_word(n: Node) -> Option<Seq<char>> {
    if n.config@.contains_key("name"@) && n.config@["name"@] is String {
        Some(n.config@["name"@]->String_0@)
    } else {
        None
    }
}

/// The node is in the table and is called `word`.
pub open spec fn called_word(nodes: Map<StableId, Node>, id: StableId, word: Seq<char>) -> bool {
    nodes.contains_key(id) && name_word(nodes[id]) == Some(word)
}

/// A floating-point setting's bits, or the default.
pub open spec fn float_or(n: Node, key: Seq<char>, default: u64) -> u64 {
    if n.config@.contains_key(key) && n.config@[key] is Float {
        n.config@[key]->Float_0
    } else {
        default
    }
}

/// The register map after giving each listed node, in order, the next local.
pub open spec fn regs_after(order: Seq<StableId>, m: Map<StableId, u32>, base: int) -> Map<StableId, u32>
    decreases order.len(),
{
    if order.len() == 0 {
        m
    } else {
        regs_after(order.drop_last(), m, base).insert(order.last(), (base + order.len() - 1) as u32)
    }
}

/// How many of the listed nodes are oscillators.
pub open spec fn osc_count(order: Seq<StableId>, nodes: Map<StableId, Node>) -> nat
    decreases order.len(),
{
    if order.len() == 0 {
        0
    } else {
        osc_count(order.drop_last(), nodes) + if called_word(nodes, order.last(), "Oscillator"@) {
            1nat
        } else {
            0nat
        }
    }
}

/// The state map after giving each listed oscillator, in order, the next
/// state slot.
pub open spec fn states_after(order: Seq<StableId>, nodes: Map<StableId, Node>, m: Map<StableId, u32>, base: int) -> Map<StableId, u32>
    decreases order.len(),
{
    if order.len() == 0 {
        m
    } else {
        let prev = states_after(order.drop_last(), nodes, m, base);
        if called_word(nodes, order.last(), "Oscillator"@) {
            prev.insert(order.last(), (base + 4 * osc_count(order.drop_last(), nodes)) as u32)
        } else {
            prev
        }
    }
}

/// The registers of the sources of the listed edges that end at `target`
/// and start at a node with a register, in edge order.
pub open spec fn input_regs(ek: Seq<StableId>, edges: Map<StableId, Edge>, target: StableId, regs: Map<StableId, u32>) -> Seq<u32>
    decreases ek.len(),
{
    if ek.len() == 0 {
        Seq::empty()
    } else {
        let e = edges[ek.last()];
        input_regs(ek.drop_last(), edges, target, regs) + if e.target.node_id == target && regs.contains_key(
            e.source.node_id,
        ) {
            seq![regs[e.source.node_id]]
        } else {
            Seq::<u32>::empty()
        }
    }
}

/// The first input register, or local 0 when there is none.
pub open spec fn first_input(ins: Seq<u32>) -> u32 {
    if ins.len() > 0 {
        ins[0]
    } else {
        0
    }
}

/// The node is lowered natively: an oscillator, a gain, an adder, a
/// multiplier or a sink.
pub open spec fn native(nodes: Map<StableId, Node>, id: StableId) -> bool {
    ||| called_word(nodes, id, "Oscillator"@)
    ||| called_word(nodes, id, "Gain"@)
    ||| called_word(nodes, id, "Add"@)
    ||| called_word(nodes, id, "Multiply"@)
    ||| (nodes.contains_key(id) && nodes[id].kind@ == NodeKindView::Sink)
}

/// How many of the listed nodes go through the interpreted runner.
pub open spec fn legacy_count(order: Seq<StableId>, nodes: Map<StableId, Node>) -> nat
    decreases order.len(),
{
    if order.len() == 0 {
        0
    } else {
        legacy_count(order.drop_last(), nodes) + if native(nodes, order.last()) {
            0nat
        } else {
            1nat
        }
    }
}

/// How a node is lowered.
#[derive(Debug)]
pub enum Lowering {
    /// A sine oscillator whose phase lives at `state_offset`; the frequency
    /// is a binary64 bit pattern.
    Oscillator { state_offset: u32, frequency: u64 },
    /// The first input times a gain (binary64 bits).
    Gain { input: u32, gain: u64 },
    /// The sum of the inputs.
    Add { inputs: Vec<u32> },
    /// The product of the inputs.
    Multiply { inputs: Vec<u32> },
    /// The first input, passed through.
    Sink { input: u32 },
    /// A call into the interpreted runner (`circuit` for a circuit module),
    /// with the node's position among such calls and its inputs.
    Legacy { index: u32, inputs: Vec<u32>, circuit: bool },
}

/// The mathematical value of a `Lowering`.
pub enum LoweringView {
    Oscillator { state_offset: u32, frequency: u64 },
    Gain { input: u32, gain: u64 },
    Add { inputs: Seq<u32> },
    Multiply { inputs: Seq<u32> },
    Sink { input: u32 },
    Legacy { index: u32, inputs: Seq<u32>, circuit: bool },
}

impl View for Lowering {
    type V = LoweringView;

    open spec fn view(&self) -> LoweringView {
        match self {
            Lowering::Oscillator { state_offset, frequency } => LoweringView::Oscillator {
                state_offset: *state_offset,
                frequency: *frequency,
            },
            Lowering::Gain { input, gain } => LoweringView::Gain { input: *input, gain: *gain },
            Lowering::Add { inputs } => LoweringView::Add { inputs: inputs@ },
            Lowering::Multiply { inputs } => LoweringView::Multiply { inputs: inputs@ },
            Lowering::Sink { input } => LoweringView::Sink { input: *input },
            Lowering::Legacy { index, inputs, circuit } => LoweringView::Legacy {
                index: *index,
                inputs: inputs@,
                circuit: *circuit,
            },
        }
    }
}

/// How the node at position `i` of the order is lowered, given the final
/// register and state maps.
pub open spec fn lowering_at(
    order: Seq<StableId>,
    i: int,
    nodes: Map<StableId, Node>,
    edges: Map<StableId, Edge>,
    regs: Map<StableId, u32>,
    states: Map<StableId, u32>,
) -> LoweringView {
    let id = order[i];
    let ins = input_regs(key_order(edges.dom()), edges, id, regs);
    if called_word(nodes, id, "Oscillator"@) {
        LoweringView::Oscillator { state_offset: states[id], frequency: float_or(nodes[id], "frequency"@, DEFAULT_FREQUENCY) }
    } else if called_word(nodes, id, "Gain"@) {
        LoweringView::Gain { input: first_input(ins), gain: float_or(nodes[id], "gain"@, DEFAULT_GAIN) }
    } else if called_word(nodes, id, "Add"@) {
        LoweringView::Add { inputs: ins }
    } else if called_word(nodes, id, "Multiply"@) {
        LoweringView::Multiply { inputs: ins }
    } else if nodes.contains_key(id) && nodes[id].kind@ == NodeKindView::Sink {
        LoweringView::Sink { input: first_input(ins) }
    } else {
        LoweringView::Legacy {
            index: legacy_count(order.take(i), nodes) as u32,
            inputs: ins,
            circuit: called_word(nodes, id, "CircuitModule"@),
        }
    }
}

/// A node is lowered by its name: one called `Oscillator` becomes an
/// oscillator, `Gain` a gain stage, `Add` the sum of its inputs and
/// `Multiply` their product, each kind for that name and no other; the
/// inputs of a sum or product are the registers of the nodes whose edges
/// lead into it, in edge order; a gain stage scales its first input by the
/// node's `gain` setting, an oscillator runs at its `frequency` setting (each
/// with its default when unset). A sink with none of these names passes its
/// first input through; anything else calls into the interpreted runner with
/// all its inputs.
pub proof fn law_lowering_follows_name(
    order: Seq<StableId>,
    i: int,
    nodes: Map<StableId, Node>,
    edges: Map<StableId, Edge>,
    regs: Map<StableId, u32>,
    states: Map<StableId, u32>,
)
    requires
        0 <= i < order.len(),
    ensures
        ({
            let id = order[i];
            let l = lowering_at(order, i, nodes, edges, regs, states);
            let ins = input_regs(key_order(edges.dom()), edges, id, regs);
            &&& called_word(nodes, id, "Oscillator"@) <==> l is Oscillator
            &&& called_word(nodes, id, "Gain"@) <==> l is Gain
            &&& called_word(nodes, id, "Add"@) <==> l is Add
            &&& called_word(nodes, id, "Multiply"@) <==> l is Multiply
            &&& l matches LoweringView::Add { inputs } ==> inputs == ins
            &&& l matches LoweringView::Multiply { inputs } ==> inputs == ins
            &&& l matches LoweringView::Oscillator { state_offset, frequency } ==> state_offset == states[id] && frequency
                == float_or(nodes[id], "frequency"@, DEFAULT_FREQUENCY)
            &&& l matches LoweringView::Gain { input, gain } ==> (ins.len() > 0 ==> input == ins[0]) && (ins.len() == 0
                ==> input == 0) && gain == float_or(nodes[id], "gain"@, DEFAULT_GAIN)
            &&& l matches LoweringView::Sink { input } ==> (ins.len() > 0 ==> input == ins[0]) && (ins.len() == 0 ==> input == 0)
            &&& l matches LoweringView::Legacy { inputs, circuit, .. } ==> inputs == ins && circuit == called_word(
                nodes,
                id,
                "CircuitModule"@,
            )
            &&& l is Sink <==> (nodes.contains_key(id) && nodes[id].kind@ == NodeKindView::Sink && !called_word(
                nodes,
                id,
                "Oscillator"@,
            ) && !called_word(nodes, id, "Gain"@) && !called_word(nodes, id, "Add"@) && !called_word(
                nodes,
                id,
                "Multiply"@,
            ))
        }),
{
    reveal_strlit("Oscillator");
    reveal_strlit("Gain");
    reveal_strlit("Add");
    reveal_strlit("Multiply");
    assert("Oscillator"@.len() == 10 && "Gain"@.len() == 4 && "Add"@.len() == 3 && "Multiply"@.len() == 8);
}

/// One node of the plan: its register and its lowering.
#[derive(Debug)]
pub struct NodeLowering {
    pub id: StableId,
    pub register: u32,
    pub lowering: Lowering,
}

/// What the compiled function computes: each node in order, then the output
/// register (`None`: the function returns silence).
#[derive(Debug)]
pub struct JitPlan {
    pub nodes: Vec<NodeLowering>,
    pub output: Option<u32>,
}

/// The allocation state of the compiler, kept across compilations.
#[derive(Debug)]
pub struct JitCompiler {
    pub register_map: BTreeMap<StableId, u32>,
    pub state_map: BTreeMap<StableId, u32>,
    pub next_local: u32,
    pub next_state_offset: u32,
}

/// The name of a node is the given word.
fn has_name(n: &Node, word: &str) -> (b: bool)
    ensures
        b == (name_word(*n) == Some(word@)),
{
    match n.config.get("name") {
        Some(v) => match v.as_string() {
            Some(s) => {
                let w = word.to_owned();
                *s == w
            },
            None => false,
        },
        None => false,
    }
}

/// Whether the node with the identifier is in the table and has the name.
fn table_has_name(nodes: &BTreeMap<StableId, Node>, id: &StableId, word: &str) -> (b: bool)
    ensures
        b == called_word(nodes@, *id, word@),
{
    match nodes.get(id) {
        Some(n) => has_name(n, word),
        None => false,
    }
}

/// A floating-point setting's bits, or the default.
fn setting_or(n: &Node, key: &str, default: u64) -> (r: u64)
    ensures
        r == float_or(*n, key@, default),
{
    match n.config.get(key) {
        Some(v) => match v.as_float() {
            Some(b) => b,
            None => default,
        },
        None => default,
    }
}

/// The registers of the inputs of a node, in edge order.
fn collect_inputs(ek: &Vec<StableId>, edges: &BTreeMap<StableId, Edge>, target: StableId, regs: &BTreeMap<StableId, u32>) -> (r: Vec<u32>)
    requires
        forall|i: int| 0 <= i < ek@.len() ==> edges@.contains_key(#[trigger] ek@[i]),
    ensures
        r@ == input_regs(ek@, edges@, target, regs@),
{
    let mut out: Vec<u32> = Vec::new();
    let mut i: usize = 0;
    proof {
        assert(ek@.take(0) =~= Seq::<StableId>::empty());
    }
    while i < ek.len()
        invariant
            forall|j: int| 0 <= j < ek@.len() ==> edges@.contains_key(#[trigger] ek@[j]),
            i <= ek@.len(),
            out@ == input_regs(ek@.take(i as int), edges@, target, regs@),
        decreases ek@.len() - i,
    {
        let k = ek[i];
        proof {
            assert(ek@.take(i + 1).drop_last() =~= ek@.take(i as int));
            assert(ek@.take(i + 1).last() == k);
        }
        match edges.get(&k) {
            Some(e) => {
                if e.target.node_id == target {
                    match regs.get(&e.source.node_id) {
                        Some(r) => {
                            out.push(*r);
                        },
                        None => {},
                    }
                }
            },
            None => {},
        }
        proof {
            assert(out@ =~= input_regs(ek@.take(i + 1), edges@, target, regs@));
        }
        i = i + 1;
    }
    proof {
        assert(ek@.take(ek@.len() as int) =~= ek@);
    }
    out
}

impl JitCompiler {
    /// A compiler that has allocated nothing: locals start at 2 (0 holds the
    /// sample rate, 1 is scratch), state at offset 0.
    pub fn new() -> (c: JitCompiler)
        ensures
            c.register_map@ == Map::<StableId, u32>::empty(),
            c.state_map@ == Map::<StableId, u32>::empty(),
            c.next_local == 2,
            c.next_state_offset == 0,
    {
        JitCompiler { register_map: BTreeMap::new(), state_map: BTreeMap::new(), next_local: 2, next_state_offset: 0 }
    }
}


proof fn lemma_regs_contains(order: Seq<StableId>, m: Map<StableId, u32>, base: int, j: int)
    requires
        0 <= j < order.len(),
    ensures
        regs_after(order, m, base).contains_key(order[j]),
    decreases order.len(),
{
    if j < order.len() - 1 {
        lemma_regs_contains(order.drop_last(), m, base, j);
    }
}

proof fn lemma_states_contains(order: Seq<StableId>, nodes: Map<StableId, Node>, m: Map<StableId, u32>, base: int, j: int)
    requires
        0 <= j < order.len(),
        called_word(nodes, order[j], "Oscillator"@),
    ensures
        states_after(order, nodes, m, base).contains_key(order[j]),
    decreases order.len(),
{
    if j < order.len() - 1 {
        lemma_states_contains(order.drop_last(), nodes, m, base, j);
    }
}

proof fn lemma_counts_bounded(order: Seq<StableId>, nodes: Map<StableId, Node>)
    ensures
        osc_count(order, nodes) <= order.len(),
        legacy_count(order, nodes) <= order.len(),
    decreases order.len(),
{
    if order.len() > 0 {
        lemma_counts_bounded(order.drop_last(), nodes);
    }
}

impl JitCompiler {
    /// Plans the compilation of nodes run in the given order: each gets the
    /// next local as its register and each oscillator the next state slot
    /// (the allocation carries over to later compilations); then each node
    /// is lowered natively when its name or kind allows, else through the
    /// runner, with its inputs taken from the edges into it.
    #[verifier::spinoff_prover]
    #[verifier::rlimit(40)]
    pub fn plan_runner(&mut self, graph: &Graph, order: &Vec<StableId>) -> (plan: JitPlan)
        requires
            old(self).next_local + order@.len() <= u32::MAX,
            old(self).next_state_offset + 4 * order@.len() <= u32::MAX,
            forall|i: int| 0 <= i < order@.len() ==> graph.nodes@.contains_key(#[trigger] order@[i]),
        ensures
            final(self).register_map@ == regs_after(order@, old(self).register_map@, old(self).next_local as int),
            final(self).state_map@ == states_after(
                order@,
                graph.nodes@,
                old(self).state_map@,
                old(self).next_state_offset as int,
            ),
            final(self).next_local == old(self).next_local + order@.len(),
            final(self).next_state_offset == old(self).next_state_offset + 4 * osc_count(order@, graph.nodes@),
            plan.nodes@.len() == order@.len(),
            forall|i: int|
                0 <= i < order@.len() ==> {
                    &&& (#[trigger] plan.nodes@[i]).id == order@[i]
                    &&& plan.nodes@[i].register == final(self).register_map@[order@[i]]
                    &&& plan.nodes@[i].lowering@ == lowering_at(
                        order@,
                        i,
                        graph.nodes@,
                        graph.edges@,
                        final(self).register_map@,
                        final(self).state_map@,
                    )
                },
            plan.output == if order@.len() > 0 {
                Some(final(self).register_map@[order@.last()])
            } else {
                None::<u32>
            },
    {
        let ghost nodes = graph.nodes@;
        let ghost m0 = self.register_map@;
        let ghost s0 = self.state_map@;
        let ghost l0 = self.next_local as int;
        let ghost o0 = self.next_state_offset as int;
        let mut i: usize = 0;
        proof {
            assert(order@.take(0) =~= Seq::<StableId>::empty());
        }
        while i < order.len()
            invariant
                nodes == graph.nodes@,
                0 <= l0,
                0 <= o0,
                l0 + order@.len() <= u32::MAX,
                o0 + 4 * order@.len() <= u32::MAX,
                i <= order@.len(),
                self.register_map@ == regs_after(order@.take(i as int), m0, l0),
                self.next_local == l0 + i,
                self.state_map@ == states_after(order@.take(i as int), nodes, s0, o0),
                self.next_state_offset == o0 + 4 * osc_count(order@.take(i as int), nodes),
            decreases order@.len() - i,
        {
            let id = order[i];
            proof {
                let t = order@.take(i + 1);
                assert(t.drop_last() =~= order@.take(i as int));
                assert(t.last() == id);
                lemma_counts_bounded(order@.take(i as int), nodes);
            }
            self.register_map.insert(id, self.next_local);
            self.next_local = self.next_local + 1;
            if table_has_name(&graph.nodes, &id, "Oscillator") {
                self.state_map.insert(id, self.next_state_offset);
                self.next_state_offset = self.next_state_offset + 4;
            }
            i = i + 1;
        }
        proof {
            assert(order@.take(order@.len() as int) =~= order@);
        }
        let ghost regs = self.register_map@;
        let ghost states = self.state_map@;
        let ek = sorted_keys(&graph.edges);
        proof {
            assert forall|j: int| 0 <= j < ek@.len() implies graph.edges@.contains_key(#[trigger] ek@[j]) by {
                assert(ek@.contains(ek@[j]));
            }
        }
        let mut lowered: Vec<NodeLowering> = Vec::new();
        let mut legacy: u32 = 0;
        let mut k: usize = 0;
        proof {
            assert(order@.take(0) =~= Seq::<StableId>::empty());
        }
        while k < order.len()
            invariant
                nodes == graph.nodes@,
                regs == self.register_map@,
                states == self.state_map@,
                regs == regs_after(order@, m0, l0),
                states == states_after(order@, nodes, s0, o0),
                ek@ == key_order(graph.edges@.dom()),
                forall|j: int| 0 <= j < ek@.len() ==> graph.edges@.contains_key(#[trigger] ek@[j]),
                0 <= l0,
                l0 + order@.len() <= u32::MAX,
                k <= order@.len(),
                legacy == legacy_count(order@.take(k as int), nodes),
                lowered@.len() == k,
                forall|i: int|
                    0 <= i < k ==> {
                        &&& (#[trigger] lowered@[i]).id == order@[i]
                        &&& lowered@[i].register == regs[order@[i]]
                        &&& lowered@[i].lowering@ == lowering_at(order@, i, nodes, graph.edges@, regs, states)
                    },
            decreases order@.len() - k,
        {
            let id = order[k];
            proof {
                lemma_regs_contains(order@, m0, l0, k as int);
                let t = order@.take(k + 1);
                assert(t.drop_last() =~= order@.take(k as int));
                assert(t.last() == id);
                lemma_counts_bounded(order@.take(k as int), nodes);
            }
            let register = match self.register_map.get(&id) {
                Some(r) => *r,
                None => 0,
            };
            let inputs = collect_inputs(&ek, &graph.edges, id, &self.register_map);
            let lowering = match graph.nodes.get(&id) {
                Some(n) => {
                    if has_name(n, "Oscillator") {
                        proof {
                            lemma_states_contains(order@, nodes, s0, o0, k as int);
                        }
                        let state_offset = match self.state_map.get(&id) {
                            Some(o) => *o,
                            None => 0,
                        };
                        Lowering::Oscillator { state_offset, frequency: setting_or(n, "frequency", DEFAULT_FREQUENCY) }
                    } else if has_name(n, "Gain") {
                        let input = if inputs.len() > 0 {
                            inputs[0]
                        } else {
                            0
                        };
                        Lowering::Gain { input, gain: setting_or(n, "gain", DEFAULT_GAIN) }
                    } else if has_name(n, "Add") {
                        Lowering::Add { inputs }
                    } else if has_name(n, "Multiply") {
                        Lowering::Multiply { inputs }
                    } else if matches!(n.kind, NodeKind::Sink) {
                        let input = if inputs.len() > 0 {
                            inputs[0]
                        } else {
                            0
                        };
                        Lowering::Sink { input }
                    } else {
                        let index = legacy;
                        legacy = legacy + 1;
                        Lowering::Legacy { index, inputs, circuit: has_name(n, "CircuitModule") }
                    }
                },
                None => {
                    let index = legacy;
                    legacy = legacy + 1;
                    Lowering::Legacy { index, inputs, circuit: false }
                },
            };
            lowered.push(NodeLowering { id, register, lowering });
            k = k + 1;
        }
        proof {
            assert(order@.take(order@.len() as int) =~= order@);
        }
        let output = if order.len() > 0 {
            let last = order[order.len() - 1];
            proof {
                lemma_regs_contains(order@, m0, l0, order@.len() - 1);
            }
            match self.register_map.get(&last) {
                Some(r) => Some(*r),
                None => None,
            }
        } else {
            None
        };
        JitPlan { nodes: lowered, output }
    }
}

} // verus!
