//! Actions that people write, and how they become operations.
use vstd::prelude::*;
use std::collections::BTreeMap;
use crate::types::{StableId, PatchId, ConfigValue, CValue, ConfigChange, PortRef, PortRefView, NodeKindView, PortDirection, ConfidenceScore, float_entries, float_params};
use crate::patch::{Operation, OpView, ops_view};
use crate::ir::{Node, NodeView, Edge, EdgeKind, Modulation, Graph, audio_port, name_config};
use crate::keyorder::{key_order, enumerates, sorted_keys};
use crate::strmap::StrMap;
use crate::text::{id_text, id_string, id_of_text, parse_id_text};

verus! {

broadcast use vstd::std_specs::btree::group_btree_axioms;

/// An action as people write it. Amounts and durations are binary32 bit
/// patterns; a configuration value is what reading it gave: the value, or
/// why it is not one.
#[derive(Debug)]
pub enum UserAction {
    AddSource { name: String, channels: u32 },
    AddProcessor { name: String, channels: u32 },
    AddAnalyzer { name: String, channels: u32 },
    AddSink { name: String, channels: u32 },
    AddForeign { name: String, plugin: String, channels: u32 },
    Connect { from: String, from_port: Option<String>, to: String, to_port: Option<String> },
    Disconnect { from: String, from_port: Option<String>, to: String, to_port: Option<String> },
    RemoveNode { name: String },
    FreezeNode { name: String, length_secs: u32 },
    SetConfig { node: String, key: String, value: Result<ConfigValue, String> },
    AddModulation {
        source_node: String,
        source_port: String,
        target_node: String,
        target_param: String,
        amount: u32,
    },
    RemoveModulation { id: StableId },
    AddSubGraph { name: String },
    ReplaceNode { name: String, new_kind_name: String },
    DuplicateNode { node_id: StableId },
    CheckoutRevision { revision: PatchId },
    SquashHistory,
    CreateSnapshot { name: String },
    RunMonteCarlo { node_name: String, count: usize },
    RunSensitivity { node_name: String },
    RunStabilityMap { node_name: String, param: String, range_start: u32, range_end: u32 },
}

/// The number of channels an action gets when it names none.
pub fn default_channels() -> (c: u32)
    ensures
        c == 2,
{
    2
}

/// A file of actions with its description, intent and constraints.
#[derive(Debug)]
pub struct UserPatchFile {
    pub description: Option<String>,
    pub intent: Option<String>,
    pub constraints: Vec<UserConstraint>,
    pub actions: Vec<UserAction>,
}

/// A constraint as people write it.
#[derive(Debug)]
pub struct UserConstraint {
    pub kind: String,
    pub description: String,
}

/// Why a list of actions cannot be compiled.
#[derive(Debug)]
pub enum ActionError {
    NodeNotFound(String),
    AmbiguousName(String),
    InvalidConfig(String, String),
}

/// The mathematical value of an `ActionError`.
pub enum ActionErrorView {
    NodeNotFound(Seq<char>),
    AmbiguousName(Seq<char>),
    InvalidConfig(Seq<char>, Seq<char>),
}

impl View for ActionError {
    type V = ActionErrorView;

    open spec fn view(&self) -> ActionErrorView {
        match self {
            ActionError::NodeNotFound(s) => ActionErrorView::NodeNotFound(s@),
            ActionError::AmbiguousName(s) => ActionErrorView::AmbiguousName(s@),
            ActionError::InvalidConfig(k, m) => ActionErrorView::InvalidConfig(k@, m@),
        }
    }
}

impl ActionError {
    /// The message of the error.
    pub fn message(&self) -> (s: String)
        ensures
            s@ == match self@ {
                ActionErrorView::NodeNotFound(n) => "node '"@ + n + "' not found"@,
                ActionErrorView::AmbiguousName(n) => "ambiguous node name '"@ + n + "'"@,
                ActionErrorView::InvalidConfig(k, m) => "invalid config for '"@ + k + "': "@ + m,
            },
    {
        let mut s = String::new();
        match self {
            ActionError::NodeNotFound(n) => {
                s.append("node '");
                s.append(n.as_str());
                s.append("' not found");
            },
            ActionError::AmbiguousName(n) => {
                s.append("ambiguous node name '");
                s.append(n.as_str());
                s.append("'");
            },
            ActionError::InvalidConfig(k, m) => {
                s.append("invalid config for '");
                s.append(k.as_str());
                s.append("': ");
                s.append(m.as_str());
            },
        }
        s
    }
}

/// The display name of a node: its `name` setting when that is a string,
/// else its identifier.
pub open spec fn node_name_text(n: Node) -> Seq<char> {
    if n.config@.contains_key("name"@) && n.config@["name"@] is String {
        n.config@["name"@]->String_0@
    } else {
        id_text(n.id)
    }
}

/// The display name of a node: its `name` setting when that is a string,
/// else its identifier.
pub fn node_name(node: &Node) -> (s: String)
    ensures
        s@ == node_name_text(*node),
{
    match node.config.get("name") {
        Some(v) => match v.as_string() {
            Some(s) => s.clone(),
            None => id_string(node.id),
        },
        None => id_string(node.id),
    }
}

/// Whether a node of the table is called `name`.
pub open spec fn called(nodes: Map<StableId, Node>, name: Seq<char>) -> spec_fn(StableId) -> bool {
    |k: StableId| node_name_text(nodes[k]) == name
}

/// The identifiers of the nodes called `name`, in increasing order.
pub open spec fn named_ids(nodes: Map<StableId, Node>, name: Seq<char>) -> Seq<StableId> {
    key_order(nodes.dom()).filter(called(nodes, name))
}

/// What a name stands for: a node created earlier by the same actions, a
/// node whose identifier it is, or the one node with that display name.
pub open spec fn resolve_spec(
    name: Seq<char>,
    nodes: Map<StableId, Node>,
    created: Map<Seq<char>, StableId>,
) -> Result<StableId, ActionErrorView> {
    if created.contains_key(name) {
        Ok(created[name])
    } else if id_of_text(name) is Some && nodes.contains_key(id_of_text(name).unwrap()) {
        Ok(id_of_text(name).unwrap())
    } else if named_ids(nodes, name).len() == 0 {
        Err(ActionErrorView::NodeNotFound(name))
    } else if named_ids(nodes, name).len() == 1 {
        Ok(named_ids(nodes, name)[0])
    } else {
        Err(ActionErrorView::AmbiguousName(name))
    }
}

/// The mathematical value of a resolution.
pub open spec fn resolved_view(r: Result<StableId, ActionError>) -> Result<StableId, ActionErrorView> {
    match r {
        Ok(id) => Ok(id),
        Err(e) => Err(e@),
    }
}

/// Finds the node that a name stands for (see `resolve_spec`).
pub fn resolve_name(name: &str, graph: &Graph, created: &StrMap<StableId>) -> (r: Result<StableId, ActionError>)
    ensures
        resolved_view(r) == resolve_spec(name@, graph.nodes@, created@),
{
    match created.get(name) {
        Some(id) => {
            return Ok(*id);
        },
        None => {},
    }
    match parse_id_text(name) {
        Some(id) => {
            if graph.nodes.contains_key(&id) {
                return Ok(id);
            }
        },
        None => {},
    }
    let ks = sorted_keys(&graph.nodes);
    let wanted = name.to_owned();
    let ghost pred = called(graph.nodes@, name@);
    let mut matches: Vec<StableId> = Vec::new();
    let mut i: usize = 0;
    proof {
        assert(ks@.take(0) =~= Seq::<StableId>::empty());
        reveal(Seq::filter);
    }
    while i < ks.len()
        invariant
            ks@ == key_order(graph.nodes@.dom()),
            enumerates(ks@, graph.nodes@.dom()),
            wanted@ == name@,
            pred == called(graph.nodes@, name@),
            i <= ks@.len(),
            matches@ == ks@.take(i as int).filter(pred),
        decreases ks@.len() - i,
    {
        let id = ks[i];
        proof {
            assert(ks@.contains(id));
            assert(ks@.take(i + 1) =~= ks@.take(i as int).push(id));
            ks@.take(i as int).lemma_filter_push(id, pred);
        }
        match graph.nodes.get(&id) {
            Some(n) => {
                let nm = node_name(n);
                if nm == wanted {
                    matches.push(id);
                }
            },
            None => {},
        }
        i = i + 1;
    }
    proof {
        assert(ks@.take(ks@.len() as int) =~= ks@);
    }
    if matches.len() == 0 {
        Err(ActionError::NodeNotFound(name.to_owned()))
    } else if matches.len() == 1 {
        Ok(matches[0])
    } else {
        Err(ActionError::AmbiguousName(name.to_owned()))
    }
}

/// The processor that an `Add...` action creates: a processor called `name`
/// whose `type` setting says what was asked for.
pub open spec fn typed_node(n: NodeView, kind: Seq<char>, name: Seq<char>) -> bool {
    &&& n.kind == NodeKindView::Processor
    &&& n.ports == seq![audio_port("in"@, PortDirection::Input), audio_port("out"@, PortDirection::Output)]
    &&& n.config == name_config(name).insert("type"@, CValue::Str(kind))
    &&& n.metadata == None::<Seq<char>>
    &&& n.confidence == ConfidenceScore::Verified
}

/// A processor called `name` whose `type` setting is `kind_str`; the channel
/// count is not used.
fn make_node(kind_str: &str, name: &str, channels: u32) -> (n: Node)
    ensures
        typed_node(n@, kind_str@, name@),
{
    let mut n = Node::new_processor(name);
    n.config.insert("type".to_string(), ConfigValue::String(kind_str.to_string()));
    proof {
        assert(n@.config =~= name_config(name@).insert("type"@, CValue::Str(kind_str@)));
    }
    n
}


// ──────────────────────────────────────────────
// From actions to operations
// ──────────────────────────────────────────────

/// A port name, or the default when none is given.
pub open spec fn port_or(p: Option<String>, d: Seq<char>) -> Seq<char> {
    match p {
        Some(s) => s@,
        None => d,
    }
}

/// A port name, or the default when none is given.
fn port_or_default(p: &Option<String>, d: &str) -> (s: String)
    ensures
        s@ == port_or(*p, d@),
{
    match p {
        Some(s) => s.clone(),
        None => d.to_owned(),
    }
}

/// Whether an edge runs from port `sp` of node `s` to port `tp` of node `t`.
pub open spec fn links(e: Edge, s: StableId, sp: Seq<char>, t: StableId, tp: Seq<char>) -> bool {
    e.source@ == PortRefView { node_id: s, port_name: sp } && e.target@ == PortRefView { node_id: t, port_name: tp }
}

/// The first of the listed edges that runs between the given ports.
pub open spec fn first_link(
    ks: Seq<StableId>,
    edges: Map<StableId, Edge>,
    s: StableId,
    sp: Seq<char>,
    t: StableId,
    tp: Seq<char>,
) -> Option<StableId>
    decreases ks.len(),
{
    if ks.len() == 0 {
        None
    } else if links(edges[ks[0]], s, sp, t, tp) {
        Some(ks[0])
    } else {
        first_link(ks.drop_first(), edges, s, sp, t, tp)
    }
}

/// The edge, in increasing identifier order, that runs between two ports.
fn find_link(edges: &BTreeMap<StableId, Edge>, s: StableId, sp: &String, t: StableId, tp: &String) -> (r: Option<StableId>)
    ensures
        r == first_link(key_order(edges@.dom()), edges@, s, sp@, t, tp@),
{
    let ks = sorted_keys(edges);
    let mut i: usize = 0;
    proof {
        assert(ks@.skip(0) =~= ks@);
    }
    while i < ks.len()
        invariant
            ks@ == key_order(edges@.dom()),
            enumerates(ks@, edges@.dom()),
            i <= ks@.len(),
            first_link(ks@, edges@, s, sp@, t, tp@) == first_link(ks@.skip(i as int), edges@, s, sp@, t, tp@),
        decreases ks@.len() - i,
    {
        let id = ks[i];
        proof {
            assert(ks@.contains(id));
            assert(ks@.skip(i as int)[0] == id);
            assert(ks@.skip(i as int).drop_first() =~= ks@.skip(i + 1));
        }
        match edges.get(&id) {
            Some(e) => {
                if e.source.node_id == s && e.source.port_name == *sp && e.target.node_id == t
                    && e.target.port_name == *tp {
                    return Some(id);
                }
            },
            None => {},
        }
        i = i + 1;
    }
    None
}

/// The error of a resolution, if it failed.
pub open spec fn err_of(r: Result<StableId, ActionErrorView>) -> Option<ActionErrorView> {
    match r {
        Ok(_) => None,
        Err(e) => Some(e),
    }
}

/// The error of the first of two resolutions that failed.
pub open spec fn first_err(a: Result<StableId, ActionErrorView>, b: Result<StableId, ActionErrorView>) -> Option<ActionErrorView> {
    if a is Err {
        err_of(a)
    } else {
        err_of(b)
    }
}

/// The error that stops an action, given the names created so far: the
/// first name it refers to that does not resolve, else a configuration value
/// that could not be read.
pub open spec fn step_error(a: UserAction, nodes: Map<StableId, Node>, created: Map<Seq<char>, StableId>) -> Option<ActionErrorView> {
    match a {
        UserAction::Connect { from, to, .. } => first_err(resolve_spec(from@, nodes, created), resolve_spec(to@, nodes, created)),
        UserAction::Disconnect { from, to, .. } => first_err(resolve_spec(from@, nodes, created), resolve_spec(to@, nodes, created)),
        UserAction::RemoveNode { name } => err_of(resolve_spec(name@, nodes, created)),
        UserAction::SetConfig { node, key, value } => if resolve_spec(node@, nodes, created) is Err {
            err_of(resolve_spec(node@, nodes, created))
        } else {
            match value {
                Err(m) => Some(ActionErrorView::InvalidConfig(key@, m@)),
                Ok(_) => None,
            }
        },
        UserAction::AddModulation { source_node, target_node, .. } => first_err(
            resolve_spec(source_node@, nodes, created),
            resolve_spec(target_node@, nodes, created),
        ),
        UserAction::ReplaceNode { name, .. } => err_of(resolve_spec(name@, nodes, created)),
        UserAction::RunMonteCarlo { node_name, .. } => err_of(resolve_spec(node_name@, nodes, created)),
        _ => None,
    }
}

/// One new node made by `Add...`, remembered under its name.
pub open spec fn adds_typed(out: Seq<OpView>, kind: Seq<char>, name: Seq<char>, created: Map<Seq<char>, StableId>, created2: Map<Seq<char>, StableId>) -> bool {
    &&& out.len() == 1
    &&& out[0] is AddNode
    &&& typed_node(out[0]->AddNode_0, kind, name)
    &&& created2 == created.insert(name, out[0]->AddNode_0.id)
}

/// The subgraph node made by `AddSubGraph`.
pub open spec fn subgraph_node(n: NodeView, name: Seq<char>) -> bool {
    &&& n.kind == NodeKindView::SubGraph
    &&& n.ports == seq![audio_port("in"@, PortDirection::Input), audio_port("out"@, PortDirection::Output)]
    &&& n.config == name_config(name).insert("graph_json"@, CValue::Str("{}"@))
    &&& n.metadata == None::<Seq<char>>
    &&& n.confidence == ConfidenceScore::Verified
}

/// A change that sets `key` to a new value with no old value.
pub open spec fn set_delta(key: Seq<char>, v: CValue) -> Map<Seq<char>, crate::types::ChangeView> {
    Map::empty().insert(key, crate::types::ChangeView { old: None, new: Some(v) })
}

/// An operation that sets parameter `key` of node `id` to what `jitter` made
/// of its old value `bits`.
pub open spec fn jittered<F: Fn(u64) -> u64>(op: OpView, id: StableId, key: Seq<char>, bits: u64, jitter: F) -> bool {
    exists|y: u64|
        #![trigger call_ensures(jitter, (bits,), y)]
        call_ensures(jitter, (bits,), y) && op == OpView::ModifyConfig { node_id: id, delta: set_delta(key, CValue::Float(y)) }
}

/// The first `j` operations of one Monte Carlo round: each floating-point
/// parameter in key order, set to a jittered value.
pub open spec fn mc_round<F: Fn(u64) -> u64>(chunk: Seq<OpView>, id: StableId, fe: Seq<(Seq<char>, u64)>, j: int, jitter: F) -> bool {
    &&& chunk.len() == j
    &&& forall|q: int| 0 <= q < j ==> #[trigger] jittered(chunk[q], id, fe[q].0, fe[q].1, jitter)
}

/// `rounds` full Monte Carlo rounds, one after the other.
pub open spec fn mc_rounds<F: Fn(u64) -> u64>(out: Seq<OpView>, id: StableId, fe: Seq<(Seq<char>, u64)>, rounds: nat, jitter: F) -> bool
    decreases rounds,
{
    if rounds == 0 {
        out.len() == 0
    } else {
        &&& out.len() >= fe.len()
        &&& mc_round(out.skip(out.len() - fe.len()), id, fe, fe.len() as int, jitter)
        &&& mc_rounds(out.take(out.len() - fe.len()), id, fe, (rounds - 1) as nat, jitter)
    }
}

/// The operations that one action adds, and the names created after it,
/// when none of the names it refers to fails to resolve.
pub open spec fn step_ok<F: Fn(u64) -> u64>(
    a: UserAction,
    nodes: Map<StableId, Node>,
    edges: Map<StableId, Edge>,
    created: Map<Seq<char>, StableId>,
    out: Seq<OpView>,
    created2: Map<Seq<char>, StableId>,
    jitter: F,
) -> bool {
    match a {
        UserAction::AddSource { name, .. } => adds_typed(out, "source"@, name@, created, created2),
        UserAction::AddProcessor { name, .. } => adds_typed(out, "processor"@, name@, created, created2),
        UserAction::AddAnalyzer { name, .. } => adds_typed(out, "analyzer"@, name@, created, created2),
        UserAction::AddSink { name, .. } => adds_typed(out, "sink"@, name@, created, created2),
        UserAction::AddForeign { name, plugin, .. } => adds_typed(out, "foreign:"@ + plugin@, name@, created, created2),
        UserAction::Connect { from, from_port, to, to_port } => {
            &&& created2 == created
            &&& out.len() == 1
            &&& out[0] is AddEdge
            &&& links(
                out[0]->AddEdge_0,
                resolve_spec(from@, nodes, created)->Ok_0,
                port_or(from_port, "out"@),
                resolve_spec(to@, nodes, created)->Ok_0,
                port_or(to_port, "in"@),
            )
            &&& out[0]->AddEdge_0.kind == EdgeKind::Normal
        },
        UserAction::Disconnect { from, from_port, to, to_port } => {
            &&& created2 == created
            &&& out == match first_link(
                key_order(edges.dom()),
                edges,
                resolve_spec(from@, nodes, created)->Ok_0,
                port_or(from_port, "out"@),
                resolve_spec(to@, nodes, created)->Ok_0,
                port_or(to_port, "in"@),
            ) {
                Some(id) => seq![OpView::RemoveEdge(id)],
                None => Seq::empty(),
            }
        },
        UserAction::RemoveNode { name } => created2 == created && out == seq![
            OpView::RemoveNode(resolve_spec(name@, nodes, created)->Ok_0),
        ],
        UserAction::SetConfig { node, key, value } => created2 == created && out == seq![
            OpView::ModifyConfig { node_id: resolve_spec(node@, nodes, created)->Ok_0, delta: set_delta(key@, value->Ok_0@) },
        ],
        UserAction::AddModulation { source_node, source_port, target_node, target_param, amount } => {
            &&& created2 == created
            &&& out.len() == 1
            &&& out[0] is AddModulation
            &&& out[0]->AddModulation_0.source@ == PortRefView {
                node_id: resolve_spec(source_node@, nodes, created)->Ok_0,
                port_name: source_port@,
            }
            &&& out[0]->AddModulation_0.target_node == resolve_spec(target_node@, nodes, created)->Ok_0
            &&& out[0]->AddModulation_0.target_param@ == target_param@
            &&& out[0]->AddModulation_0.amount == amount
        },
        UserAction::RemoveModulation { id } => created2 == created && out == seq![OpView::RemoveModulation(id)],
        UserAction::AddSubGraph { name } => {
            &&& out.len() == 1
            &&& out[0] is AddNode
            &&& subgraph_node(out[0]->AddNode_0, name@)
            &&& created2 == created.insert(name@, out[0]->AddNode_0.id)
        },
        UserAction::ReplaceNode { name, new_kind_name } => created2 == created && out == seq![
            OpView::ModifyConfig {
                node_id: resolve_spec(name@, nodes, created)->Ok_0,
                delta: set_delta("name"@, CValue::Str(new_kind_name@)),
            },
        ],
        UserAction::RunMonteCarlo { node_name, count } => {
            let id = resolve_spec(node_name@, nodes, created)->Ok_0;
            &&& created2 == created
            &&& if nodes.contains_key(id) {
                mc_rounds(out, id, float_entries(nodes[id].config.entries()), count as nat, jitter)
            } else {
                out.len() == 0
            }
        },
        _ => created2 == created && out.len() == 0,
    }
}

/// The operations that a list of actions compiles to, and the names it
/// creates: each action in turn resolves its names and adds its operations.
pub open spec fn compiled<F: Fn(u64) -> u64>(
    actions: Seq<UserAction>,
    nodes: Map<StableId, Node>,
    edges: Map<StableId, Edge>,
    jitter: F,
    ops: Seq<OpView>,
    created: Map<Seq<char>, StableId>,
) -> bool
    decreases actions.len(),
{
    if actions.len() == 0 {
        ops.len() == 0 && created == Map::<Seq<char>, StableId>::empty()
    } else {
        exists|k: int, c0: Map<Seq<char>, StableId>|
            #![trigger step_ok(actions.last(), nodes, edges, c0, ops.skip(k), created, jitter)]
            0 <= k <= ops.len() && compiled(actions.drop_last(), nodes, edges, jitter, ops.take(k), c0)
                && step_error(actions.last(), nodes, c0) is None && step_ok(
                actions.last(),
                nodes,
                edges,
                c0,
                ops.skip(k),
                created,
                jitter,
            )
    }
}

/// Appends one operation.
fn push_op(ops: &mut Vec<Operation>, op: Operation)
    ensures
        ops_view(final(ops)@) == ops_view(old(ops)@).push(op@),
        ops_view(final(ops)@).skip(old(ops)@.len() as int) == seq![op@],
        ops_view(final(ops)@).take(old(ops)@.len() as int) == ops_view(old(ops)@),
{
    ops.push(op);
    assert(ops_view(ops@) =~= ops_view(old(ops)@).push(op@));
    assert(ops_view(ops@).skip(old(ops)@.len() as int) =~= seq![op@]);
    assert(ops_view(ops@).take(old(ops)@.len() as int) =~= ops_view(old(ops)@));
}


/// The operations of `count` Monte Carlo rounds on the floating-point
/// parameters `fe` of node `id`.
fn monte_carlo_ops<F: Fn(u64) -> u64>(id: StableId, fe: &Vec<(String, u64)>, count: usize, jitter: &F, ops: &mut Vec<Operation>)
    requires
        forall|b: u64| jitter.requires((b,)),
    ensures
        ops_view(final(ops)@).len() >= ops_view(old(ops)@).len(),
        ops_view(final(ops)@).take(old(ops)@.len() as int) == ops_view(old(ops)@),
        mc_rounds(
            ops_view(final(ops)@).skip(old(ops)@.len() as int),
            id,
            fe@.map_values(|e: (String, u64)| (e.0@, e.1)),
            count as nat,
            *jitter,
        ),
{
    let ghost base = ops_view(ops@);
    let ghost fs = fe@.map_values(|e: (String, u64)| (e.0@, e.1));
    let mut r: usize = 0;
    proof {
        assert(ops_view(ops@).take(base.len() as int) =~= base);
        assert(ops_view(ops@).skip(base.len() as int) =~= Seq::<OpView>::empty());
    }
    while r < count
        invariant
            forall|b: u64| jitter.requires((b,)),
            fs == fe@.map_values(|e: (String, u64)| (e.0@, e.1)),
            r <= count,
            ops_view(ops@).len() >= base.len(),
            ops_view(ops@).take(base.len() as int) == base,
            mc_rounds(ops_view(ops@).skip(base.len() as int), id, fs, r as nat, *jitter),
        decreases count - r,
    {
        let ghost before = ops_view(ops@);
        let mut j: usize = 0;
        proof {
            assert(ops_view(ops@).skip(before.len() as int) =~= Seq::<OpView>::empty());
        }
        while j < fe.len()
            invariant
                forall|b: u64| jitter.requires((b,)),
                fs == fe@.map_values(|e: (String, u64)| (e.0@, e.1)),
                j <= fe@.len(),
                ops_view(ops@).len() == before.len() + j,
                ops_view(ops@).take(before.len() as int) == before,
                mc_round(ops_view(ops@).skip(before.len() as int), id, fs, j as int, *jitter),
            decreases fe@.len() - j,
        {
            let y = jitter(fe[j].1);
            let mut delta: StrMap<ConfigChange> = StrMap::new();
            delta.insert(fe[j].0.clone(), ConfigChange { old: None, new: Some(ConfigValue::Float(y)) });
            let op = Operation::ModifyConfig { node_id: id, delta };
            proof {
                assert(crate::types::delta_model(delta) =~= set_delta(fs[j as int].0, CValue::Float(y)));
                assert(jittered(op@, id, fs[j as int].0, fs[j as int].1, *jitter));
            }
            let ghost mid = ops_view(ops@);
            push_op(ops, op);
            proof {
                let chunk = ops_view(ops@).skip(before.len() as int);
                assert(chunk =~= mid.skip(before.len() as int).push(op@));
                assert(ops_view(ops@).take(before.len() as int) =~= before);
                assert forall|q: int| 0 <= q < j + 1 implies #[trigger] jittered(chunk[q], id, fs[q].0, fs[q].1, *jitter) by {
                    if q < j {
                        assert(chunk[q] == mid.skip(before.len() as int)[q]);
                    }
                }
            }
            j = j + 1;
        }
        proof {
            let all = ops_view(ops@);
            let out = all.skip(base.len() as int);
            assert(out.skip(out.len() - fs.len()) =~= all.skip(before.len() as int));
            assert(out.take(out.len() - fs.len()) =~= before.skip(base.len() as int));
            assert(all.take(base.len() as int) =~= base);
        }
        r = r + 1;
    }
}

/// Compiles one action, given the names created so far: on success its
/// operations are appended and the names it creates are remembered.
fn compile_step<F: Fn(u64) -> u64>(
    a: &UserAction,
    graph: &Graph,
    created: &mut StrMap<StableId>,
    ops: &mut Vec<Operation>,
    jitter: &F,
) -> (r: Result<(), ActionError>)
    requires
        forall|b: u64| jitter.requires((b,)),
    ensures
        r is Ok <==> step_error(*a, graph.nodes@, old(created)@) is None,
        r matches Err(e) ==> step_error(*a, graph.nodes@, old(created)@) == Some(e@),
        r is Ok ==> {
            &&& ops_view(final(ops)@).len() >= ops_view(old(ops)@).len()
            &&& ops_view(final(ops)@).take(old(ops)@.len() as int) == ops_view(old(ops)@)
            &&& step_ok(
                *a,
                graph.nodes@,
                graph.edges@,
                old(created)@,
                ops_view(final(ops)@).skip(old(ops)@.len() as int),
                final(created)@,
                *jitter,
            )
        },
{
    let ghost before = ops_view(ops@);
    proof {
        assert(before.take(before.len() as int) =~= before);
    }
    match a {
        UserAction::AddSource { name, channels } => {
            let node = make_node("source", name.as_str(), *channels);
            created.insert(name.clone(), node.id);
            push_op(ops, Operation::AddNode(node));
        },
        UserAction::AddProcessor { name, channels } => {
            let node = make_node("processor", name.as_str(), *channels);
            created.insert(name.clone(), node.id);
            push_op(ops, Operation::AddNode(node));
        },
        UserAction::AddAnalyzer { name, channels } => {
            let node = make_node("analyzer", name.as_str(), *channels);
            created.insert(name.clone(), node.id);
            push_op(ops, Operation::AddNode(node));
        },
        UserAction::AddSink { name, channels } => {
            let node = make_node("sink", name.as_str(), *channels);
            created.insert(name.clone(), node.id);
            push_op(ops, Operation::AddNode(node));
        },
        UserAction::AddForeign { name, plugin, channels } => {
            let mut kind = "foreign:".to_owned();
            kind.append(plugin.as_str());
            let node = make_node(kind.as_str(), name.as_str(), *channels);
            created.insert(name.clone(), node.id);
            push_op(ops, Operation::AddNode(node));
        },
        UserAction::Connect { from, from_port, to, to_port } => {
            let src_id = match resolve_name(from.as_str(), graph, created) {
                Ok(id) => id,
                Err(e) => {
                    return Err(e);
                },
            };
            let tgt_id = match resolve_name(to.as_str(), graph, created) {
                Ok(id) => id,
                Err(e) => {
                    return Err(e);
                },
            };
            let edge = Edge::new(
                PortRef { node_id: src_id, port_name: port_or_default(from_port, "out") },
                PortRef { node_id: tgt_id, port_name: port_or_default(to_port, "in") },
            );
            push_op(ops, Operation::AddEdge(edge));
        },
        UserAction::Disconnect { from, from_port, to, to_port } => {
            let src_id = match resolve_name(from.as_str(), graph, created) {
                Ok(id) => id,
                Err(e) => {
                    return Err(e);
                },
            };
            let tgt_id = match resolve_name(to.as_str(), graph, created) {
                Ok(id) => id,
                Err(e) => {
                    return Err(e);
                },
            };
            let src_port = port_or_default(from_port, "out");
            let tgt_port = port_or_default(to_port, "in");
            match find_link(&graph.edges, src_id, &src_port, tgt_id, &tgt_port) {
                Some(edge_id) => {
                    push_op(ops, Operation::RemoveEdge(edge_id));
                },
                None => {
                    proof {
                        assert(ops_view(ops@).skip(before.len() as int) =~= Seq::<OpView>::empty());
                    }
                },
            }
        },
        UserAction::RemoveNode { name } => {
            let id = match resolve_name(name.as_str(), graph, created) {
                Ok(id) => id,
                Err(e) => {
                    return Err(e);
                },
            };
            push_op(ops, Operation::RemoveNode(id));
        },
        UserAction::SetConfig { node, key, value } => {
            let id = match resolve_name(node.as_str(), graph, created) {
                Ok(id) => id,
                Err(e) => {
                    return Err(e);
                },
            };
            let v = match value {
                Ok(v) => v,
                Err(m) => {
                    return Err(ActionError::InvalidConfig(key.clone(), m.clone()));
                },
            };
            let mut delta: StrMap<ConfigChange> = StrMap::new();
            delta.insert(key.clone(), ConfigChange { old: None, new: Some(v.clone()) });
            proof {
                assert(crate::types::delta_model(delta) =~= set_delta(key@, v@));
            }
            push_op(ops, Operation::ModifyConfig { node_id: id, delta });
        },
        UserAction::AddModulation { source_node, source_port, target_node, target_param, amount } => {
            let src_id = match resolve_name(source_node.as_str(), graph, created) {
                Ok(id) => id,
                Err(e) => {
                    return Err(e);
                },
            };
            let tgt_id = match resolve_name(target_node.as_str(), graph, created) {
                Ok(id) => id,
                Err(e) => {
                    return Err(e);
                },
            };
            let m = Modulation::new(
                PortRef { node_id: src_id, port_name: source_port.clone() },
                tgt_id,
                target_param.clone(),
                *amount,
            );
            push_op(ops, Operation::AddModulation(m));
        },
        UserAction::RemoveModulation { id } => {
            push_op(ops, Operation::RemoveModulation(*id));
        },
        UserAction::AddSubGraph { name } => {
            let node = Node::new_subgraph(name.as_str());
            created.insert(name.clone(), node.id);
            push_op(ops, Operation::AddNode(node));
        },
        UserAction::ReplaceNode { name, new_kind_name } => {
            let id = match resolve_name(name.as_str(), graph, created) {
                Ok(id) => id,
                Err(e) => {
                    return Err(e);
                },
            };
            let mut delta: StrMap<ConfigChange> = StrMap::new();
            delta.insert(
                "name".to_owned(),
                ConfigChange { old: None, new: Some(ConfigValue::String(new_kind_name.clone())) },
            );
            proof {
                assert(crate::types::delta_model(delta) =~= set_delta("name"@, CValue::Str(new_kind_name@)));
            }
            push_op(ops, Operation::ModifyConfig { node_id: id, delta });
        },
        UserAction::RunMonteCarlo { node_name, count } => {
            let id = match resolve_name(node_name.as_str(), graph, created) {
                Ok(id) => id,
                Err(e) => {
                    return Err(e);
                },
            };
            match graph.nodes.get(&id) {
                Some(node) => {
                    let fe = float_params(&node.config);
                    monte_carlo_ops(id, &fe, *count, jitter, ops);
                },
                None => {
                    proof {
                        assert(ops_view(ops@).skip(before.len() as int) =~= Seq::<OpView>::empty());
                    }
                },
            }
        },
        _ => {
            proof {
                assert(ops_view(ops@).skip(before.len() as int) =~= Seq::<OpView>::empty());
            }
        },
    }
    proof {
        assert(ops_view(ops@).take(before.len() as int) =~= before);
    }
    Ok(())
}


/// Compiles a list of actions into operations. New nodes, edges and
/// modulations get fresh random identifiers; `jitter` gives the new value of
/// a floating-point parameter in a Monte Carlo round (as bit patterns).
/// Stops at the first action that names a node that does not resolve.
pub fn compile_actions<F: Fn(u64) -> u64>(actions: &[UserAction], graph: &Graph, jitter: F) -> (r: Result<Vec<Operation>, ActionError>)
    requires
        forall|b: u64| jitter.requires((b,)),
    ensures
        r is Ok ==> exists|c: Map<Seq<char>, StableId>|
            #![trigger compiled(actions@, graph.nodes@, graph.edges@, jitter, ops_view(r->Ok_0@), c)]
            compiled(actions@, graph.nodes@, graph.edges@, jitter, ops_view(r->Ok_0@), c),
        r is Err ==> exists|i: int, ops: Seq<OpView>, c: Map<Seq<char>, StableId>|
            #![trigger compiled(actions@.take(i), graph.nodes@, graph.edges@, jitter, ops, c)]
            0 <= i < actions@.len() && compiled(actions@.take(i), graph.nodes@, graph.edges@, jitter, ops, c)
                && step_error(actions@[i], graph.nodes@, c) == Some(r->Err_0@),
{
    let mut ops: Vec<Operation> = Vec::new();
    let mut created: StrMap<StableId> = StrMap::new();
    let mut i: usize = 0;
    proof {
        assert(actions@.take(0) =~= Seq::<UserAction>::empty());
        assert(ops_view(ops@) =~= Seq::<OpView>::empty());
    }
    while i < actions.len()
        invariant
            forall|b: u64| jitter.requires((b,)),
            i <= actions@.len(),
            compiled(actions@.take(i as int), graph.nodes@, graph.edges@, jitter, ops_view(ops@), created@),
        decreases actions@.len() - i,
    {
        let ghost c0 = created@;
        let ghost o0 = ops_view(ops@);
        match compile_step(&actions[i], graph, &mut created, &mut ops, &jitter) {
            Ok(()) => {},
            Err(e) => {
                proof {
                    assert(0 <= i < actions@.len() && compiled(actions@.take(i as int), graph.nodes@, graph.edges@, jitter, o0, c0)
                        && step_error(actions@[i as int], graph.nodes@, c0) == Some(e@));
                }
                return Err(e);
            },
        }
        proof {
            let t = actions@.take(i + 1);
            assert(t.drop_last() =~= actions@.take(i as int));
            assert(t.last() == actions@[i as int]);
            let all = ops_view(ops@);
            assert(all.take(o0.len() as int) == o0);
            assert(compiled(t.drop_last(), graph.nodes@, graph.edges@, jitter, all.take(o0.len() as int), c0));
            assert(step_error(t.last(), graph.nodes@, c0) is None);
            assert(step_ok(t.last(), graph.nodes@, graph.edges@, c0, all.skip(o0.len() as int), created@, jitter));
            assert(compiled(t, graph.nodes@, graph.edges@, jitter, all, created@));
        }
        i = i + 1;
    }
    proof {
        assert(actions@.take(actions@.len() as int) =~= actions@);
    }
    let r: Result<Vec<Operation>, ActionError> = Ok(ops);
    assert(ops_view(r->Ok_0@) == ops_view(ops@));
    assert(compiled(actions@, graph.nodes@, graph.edges@, jitter, ops_view(r->Ok_0@), created@));
    r
}

} // verus!
