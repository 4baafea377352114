//! The canonical IR: nodes, edges, modulations and the graph that holds them.
use vstd::prelude::*;
use std::collections::BTreeMap;
use crate::strmap::StrMap;
use crate::types::{
    StableId, PatchId, Revision, ConfigValue, ConfigSnapshot, CValue, config_model, config_eq,
    snapshot_eq, snapshot_clone, NodeKind, NodeKindView, TypedPort, PortView, ports_view,
    ports_clone, ports_same, MetadataRef, ConfidenceScore, PortRef, PortRefView, Verification,
    PortDirection, ExecutionDomain, DataType, PortSemantic, PortPolarity, opt_port_view,
    opt_port_clone,
};
use crate::patch::Patch;

verus! {

broadcast use vstd::laws_cmp::group_laws_cmp;

/// A fresh random identifier.
#[verifier::external_body]
pub(crate) fn fresh_id() -> (id: u128) {
    rand::random::<u128>()
}

// ──────────────────────────────────────────────
// Node
// ──────────────────────────────────────────────

/// A node in the canonical IR graph.
#[derive(Debug)]
pub struct Node {
    pub id: StableId,
    pub kind: NodeKind,
    pub ports: Vec<TypedPort>,
    pub config: ConfigSnapshot,
    pub metadata: MetadataRef,
    pub confidence: ConfidenceScore,
}

/// The mathematical value of a `Node`.
pub struct NodeView {
    pub id: StableId,
    pub kind: NodeKindView,
    pub ports: Seq<PortView>,
    pub config: Map<Seq<char>, CValue>,
    pub metadata: Option<Seq<char>>,
    pub confidence: ConfidenceScore,
}

impl View for Node {
    type V = NodeView;

    open spec fn view(&self) -> NodeView {
        NodeView {
            id: self.id,
            kind: self.kind@,
            ports: ports_view(self.ports@),
            config: config_model(self.config),
            metadata: self.metadata@,
            confidence: self.confidence,
        }
    }
}

/// `==` on nodes (configuration values compare as IEEE values).
pub open spec fn node_eq(a: NodeView, b: NodeView) -> bool {
    &&& a.id == b.id
    &&& a.kind == b.kind
    &&& a.ports == b.ports
    &&& config_eq(a.config, b.config)
    &&& a.metadata == b.metadata
    &&& a.confidence == b.confidence
}

impl Clone for Node {
    fn clone(&self) -> (r: Self)
        ensures
            r@ == self@,
    {
        Node {
            id: self.id,
            kind: self.kind.clone(),
            ports: ports_clone(&self.ports),
            config: snapshot_clone(&self.config),
            metadata: self.metadata.clone(),
            confidence: self.confidence,
        }
    }
}

impl Node {
    /// `==` on nodes.
    pub fn same(&self, other: &Node) -> (r: bool)
        ensures
            r == node_eq(self@, other@),
    {
        self.id == other.id && self.kind.same(&other.kind) && ports_same(&self.ports, &other.ports)
            && snapshot_eq(&self.config, &other.config) && self.metadata.same(&other.metadata)
            && self.confidence == other.confidence
    }
}

/// A port of the standard shape: sample domain, stereo audio, bipolar signal.
pub open spec fn audio_port(name: Seq<char>, direction: PortDirection) -> PortView {
    PortView {
        name,
        direction,
        domain: ExecutionDomain::Sample,
        data_type: DataType::Audio { channels: 2 },
        semantic: PortSemantic::Signal,
        polarity: PortPolarity::Bipolar,
    }
}

fn make_audio_port(name: &str, direction: PortDirection) -> (p: TypedPort)
    ensures
        p@ == audio_port(name@, direction),
{
    TypedPort {
        name: name.to_string(),
        direction,
        domain: ExecutionDomain::Sample,
        data_type: DataType::Audio { channels: 2 },
        semantic: PortSemantic::Signal,
        polarity: PortPolarity::Bipolar,
    }
}

/// A configuration holding only `name`.
fn named_config(name: &str) -> (c: ConfigSnapshot)
    ensures
        config_model(c) == Map::<Seq<char>, CValue>::empty().insert("name"@, CValue::Str(name@)),
{
    let mut c: ConfigSnapshot = StrMap::new();
    c.insert("name".to_string(), ConfigValue::String(name.to_string()));
    assert(config_model(c) =~= Map::<Seq<char>, CValue>::empty().insert("name"@, CValue::Str(name@)));
    c
}

/// The configuration of a fresh node called `name`.
pub open spec fn name_config(name: Seq<char>) -> Map<Seq<char>, CValue> {
    Map::<Seq<char>, CValue>::empty().insert("name"@, CValue::Str(name))
}

impl Node {
    /// A processor with one audio input `in` and one audio output `out`.
    pub fn new_processor(name: &str) -> (n: Node)
        ensures
            n@.kind == NodeKindView::Processor,
            n@.ports == seq![audio_port("in"@, PortDirection::Input), audio_port("out"@, PortDirection::Output)],
            n@.config == name_config(name@),
            n@.metadata == None::<Seq<char>>,
            n@.confidence == ConfidenceScore::Verified,
    {
        let mut ports: Vec<TypedPort> = Vec::new();
        ports.push(make_audio_port("in", PortDirection::Input));
        ports.push(make_audio_port("out", PortDirection::Output));
        let n = Node {
            id: fresh_id(),
            kind: NodeKind::Processor,
            ports,
            config: named_config(name),
            metadata: MetadataRef(None),
            confidence: ConfidenceScore::Verified,
        };
        assert(n@.ports =~= seq![audio_port("in"@, PortDirection::Input), audio_port("out"@, PortDirection::Output)]);
        n
    }

    /// A source with one audio output `out`.
    pub fn new_source(name: &str) -> (n: Node)
        ensures
            n@.kind == NodeKindView::Source,
            n@.ports == seq![audio_port("out"@, PortDirection::Output)],
            n@.config == name_config(name@),
            n@.metadata == None::<Seq<char>>,
            n@.confidence == ConfidenceScore::Verified,
    {
        let mut ports: Vec<TypedPort> = Vec::new();
        ports.push(make_audio_port("out", PortDirection::Output));
        let n = Node {
            id: fresh_id(),
            kind: NodeKind::Source,
            ports,
            config: named_config(name),
            metadata: MetadataRef(None),
            confidence: ConfidenceScore::Verified,
        };
        assert(n@.ports =~= seq![audio_port("out"@, PortDirection::Output)]);
        n
    }

    /// A sink with one audio input `in`.
    pub fn new_sink(name: &str) -> (n: Node)
        ensures
            n@.kind == NodeKindView::Sink,
            n@.ports == seq![audio_port("in"@, PortDirection::Input)],
            n@.config == name_config(name@),
            n@.metadata == None::<Seq<char>>,
            n@.confidence == ConfidenceScore::Verified,
    {
        let mut ports: Vec<TypedPort> = Vec::new();
        ports.push(make_audio_port("in", PortDirection::Input));
        let n = Node {
            id: fresh_id(),
            kind: NodeKind::Sink,
            ports,
            config: named_config(name),
            metadata: MetadataRef(None),
            confidence: ConfidenceScore::Verified,
        };
        assert(n@.ports =~= seq![audio_port("in"@, PortDirection::Input)]);
        n
    }

    /// A subgraph with audio `in` and `out`, holding an empty embedded graph.
    pub fn new_subgraph(name: &str) -> (n: Node)
        ensures
            n@.kind == NodeKindView::SubGraph,
            n@.ports == seq![audio_port("in"@, PortDirection::Input), audio_port("out"@, PortDirection::Output)],
            n@.config == name_config(name@).insert("graph_json"@, CValue::Str("{}"@)),
            n@.metadata == None::<Seq<char>>,
            n@.confidence == ConfidenceScore::Verified,
    {
        let mut ports: Vec<TypedPort> = Vec::new();
        ports.push(make_audio_port("in", PortDirection::Input));
        ports.push(make_audio_port("out", PortDirection::Output));
        let mut config = named_config(name);
        config.insert("graph_json".to_string(), ConfigValue::String("{}".to_string()));
        let n = Node {
            id: fresh_id(),
            kind: NodeKind::SubGraph,
            ports,
            config,
            metadata: MetadataRef(None),
            confidence: ConfidenceScore::Verified,
        };
        assert(n@.ports =~= seq![audio_port("in"@, PortDirection::Input), audio_port("out"@, PortDirection::Output)]);
        assert(n@.config =~= name_config(name@).insert("graph_json"@, CValue::Str("{}"@)));
        n
    }

    /// The inside end of a subgraph input: one audio output `out`.
    pub fn new_input_proxy(name: &str) -> (n: Node)
        ensures
            n@.kind == NodeKindView::InputProxy,
            n@.ports == seq![audio_port("out"@, PortDirection::Output)],
            n@.config == name_config(name@),
            n@.metadata == None::<Seq<char>>,
            n@.confidence == ConfidenceScore::Verified,
    {
        let mut ports: Vec<TypedPort> = Vec::new();
        ports.push(make_audio_port("out", PortDirection::Output));
        let n = Node {
            id: fresh_id(),
            kind: NodeKind::InputProxy,
            ports,
            config: named_config(name),
            metadata: MetadataRef(None),
            confidence: ConfidenceScore::Verified,
        };
        assert(n@.ports =~= seq![audio_port("out"@, PortDirection::Output)]);
        n
    }

    /// The inside end of a subgraph output: one audio input `in`.
    pub fn new_output_proxy(name: &str) -> (n: Node)
        ensures
            n@.kind == NodeKindView::OutputProxy,
            n@.ports == seq![audio_port("in"@, PortDirection::Input)],
            n@.config == name_config(name@),
            n@.metadata == None::<Seq<char>>,
            n@.confidence == ConfidenceScore::Verified,
    {
        let mut ports: Vec<TypedPort> = Vec::new();
        ports.push(make_audio_port("in", PortDirection::Input));
        let n = Node {
            id: fresh_id(),
            kind: NodeKind::OutputProxy,
            ports,
            config: named_config(name),
            metadata: MetadataRef(None),
            confidence: ConfidenceScore::Verified,
        };
        assert(n@.ports =~= seq![audio_port("in"@, PortDirection::Input)]);
        n
    }
}

// ──────────────────────────────────────────────
// Edge
// ──────────────────────────────────────────────

/// The type of connection between ports.
#[derive(Clone, Copy, PartialEq, Eq, Structural, Debug)]
pub enum EdgeKind {
    /// Feed-forward connection (causal dependency).
    Normal,
    /// Feedback connection (one-sample delay, outside the DAG constraint).
    Feedback,
}

/// An edge connecting two ports.
#[derive(Debug)]
pub struct Edge {
    pub id: StableId,
    pub source: PortRef,
    pub target: PortRef,
    pub kind: EdgeKind,
}

/// The mathematical value of an `Edge`.
pub struct EdgeView {
    pub id: StableId,
    pub source: PortRefView,
    pub target: PortRefView,
    pub kind: EdgeKind,
}

impl View for Edge {
    type V = EdgeView;

    open spec fn view(&self) -> EdgeView {
        EdgeView { id: self.id, source: self.source@, target: self.target@, kind: self.kind }
    }
}

impl Clone for Edge {
    fn clone(&self) -> (r: Self)
        ensures
            r == *self,
    {
        Edge {
            id: self.id,
            source: self.source.clone(),
            target: self.target.clone(),
            kind: self.kind,
        }
    }
}

impl Edge {
    /// A causal edge with a fresh identifier.
    pub fn new(source: PortRef, target: PortRef) -> (e: Edge)
        ensures
            e.source == source,
            e.target == target,
            e.kind == EdgeKind::Normal,
    {
        Edge { id: fresh_id(), source, target, kind: EdgeKind::Normal }
    }

    /// A feedback edge (one-sample delay) with a fresh identifier.
    pub fn new_feedback(source: PortRef, target: PortRef) -> (e: Edge)
        ensures
            e.source == source,
            e.target == target,
            e.kind == EdgeKind::Feedback,
    {
        Edge { id: fresh_id(), source, target, kind: EdgeKind::Feedback }
    }

    /// `==` on edges.
    pub fn same(&self, other: &Edge) -> (r: bool)
        ensures
            r == (self@ == other@),
    {
        self.id == other.id && self.source.same(&other.source) && self.target.same(&other.target)
            && self.kind == other.kind
    }
}

/// A change to an edge: the fields given are replaced.
#[derive(Debug)]
pub struct EdgeDelta {
    pub source: Option<PortRef>,
    pub target: Option<PortRef>,
    pub kind: Option<EdgeKind>,
}

/// The mathematical value of an `EdgeDelta`.
pub struct EdgeDeltaView {
    pub source: Option<PortRefView>,
    pub target: Option<PortRefView>,
    pub kind: Option<EdgeKind>,
}

impl View for EdgeDelta {
    type V = EdgeDeltaView;

    open spec fn view(&self) -> EdgeDeltaView {
        EdgeDeltaView {
            source: opt_port_view(self.source),
            target: opt_port_view(self.target),
            kind: self.kind,
        }
    }
}

impl Clone for EdgeDelta {
    fn clone(&self) -> (r: Self)
        ensures
            r == *self,
    {
        EdgeDelta {
            source: opt_port_clone(&self.source),
            target: opt_port_clone(&self.target),
            kind: self.kind,
        }
    }
}

impl EdgeDelta {
    /// `==` on edge deltas.
    pub fn same(&self, other: &EdgeDelta) -> (r: bool)
        ensures
            r == (self@ == other@),
    {
        crate::types::opt_port_same(&self.source, &other.source) && crate::types::opt_port_same(
            &self.target,
            &other.target,
        ) && self.kind == other.kind
    }
}

// ──────────────────────────────────────────────
// Modulation
// ──────────────────────────────────────────────

/// A cable-less modulation of a node parameter by a port. The amount is held
/// as a binary32 bit pattern.
#[derive(Debug)]
pub struct Modulation {
    pub id: StableId,
    pub source: PortRef,
    pub target_node: StableId,
    pub target_param: String,
    pub amount: u32,
}

impl Clone for Modulation {
    fn clone(&self) -> (r: Self)
        ensures
            r == *self,
    {
        Modulation {
            id: self.id,
            source: self.source.clone(),
            target_node: self.target_node,
            target_param: self.target_param.clone(),
            amount: self.amount,
        }
    }
}

impl Modulation {
    /// A modulation with a fresh identifier.
    pub fn new(source: PortRef, target_node: StableId, target_param: String, amount: u32) -> (m: Modulation)
        ensures
            m.source == source,
            m.target_node == target_node,
            m.target_param == target_param,
            m.amount == amount,
    {
        Modulation { id: fresh_id(), source, target_node, target_param, amount }
    }
}

// ──────────────────────────────────────────────
// Graph
// ──────────────────────────────────────────────

/// The mathematical contents of a node table.
pub open spec fn nodes_model(m: BTreeMap<StableId, Node>) -> Map<StableId, NodeView> {
    m@.map_values(|n: Node| n@)
}

/// Layer 1: the current topology.
#[derive(Debug)]
pub struct Topology {
    pub nodes: BTreeMap<StableId, Node>,
    pub edges: BTreeMap<StableId, Edge>,
    pub modulations: BTreeMap<StableId, Modulation>,
}

impl Topology {
    pub fn new() -> (t: Topology)
        ensures
            t.nodes@ == Map::<StableId, Node>::empty(),
            t.edges@ == Map::<StableId, Edge>::empty(),
            t.modulations@ == Map::<StableId, Modulation>::empty(),
    {
        Topology { nodes: BTreeMap::new(), edges: BTreeMap::new(), modulations: BTreeMap::new() }
    }
}

/// Layer 3: the history of applied patches.
#[derive(Debug)]
pub struct Lineage {
    pub applied_patches: Vec<PatchId>,
    pub history: BTreeMap<PatchId, Patch>,
    pub snapshots: StrMap<PatchId>,
}

impl Lineage {
    pub fn new() -> (l: Lineage)
        ensures
            l.applied_patches@ == Seq::<PatchId>::empty(),
            l.history@ == Map::<PatchId, Patch>::empty(),
            l.snapshots@ == Map::<Seq<char>, PatchId>::empty(),
    {
        Lineage { applied_patches: Vec::new(), history: BTreeMap::new(), snapshots: StrMap::new() }
    }
}

/// The canonical IR graph. `nodes`, `edges` and `modulations` mirror the
/// topology for older callers; `sync` refreshes them.
#[derive(Debug)]
pub struct Graph {
    pub spec_version: String,
    pub topology: Topology,
    pub lineage: Lineage,
    pub verification: Verification,
    pub revision: Revision,
    pub nodes: BTreeMap<StableId, Node>,
    pub edges: BTreeMap<StableId, Edge>,
    pub modulations: BTreeMap<StableId, Modulation>,
}

impl Graph {
    /// An empty graph at revision zero.
    pub fn new() -> (g: Graph)
        ensures
            g.spec_version@ == "1.0.0"@,
            g.topology.nodes@ == Map::<StableId, Node>::empty(),
            g.topology.edges@ == Map::<StableId, Edge>::empty(),
            g.topology.modulations@ == Map::<StableId, Modulation>::empty(),
            g.lineage.applied_patches@ == Seq::<PatchId>::empty(),
            g.lineage.history@ == Map::<PatchId, Patch>::empty(),
            g.lineage.snapshots@ == Map::<Seq<char>, PatchId>::empty(),
            g.verification.null_test,
            g.verification.hash@ == Seq::<char>::empty(),
            g.verification.trust_state@ == "verified"@,
            g.revision.0 == 0,
            g.nodes@ == Map::<StableId, Node>::empty(),
            g.edges@ == Map::<StableId, Edge>::empty(),
            g.modulations@ == Map::<StableId, Modulation>::empty(),
    {
        Graph {
            spec_version: "1.0.0".to_string(),
            topology: Topology::new(),
            lineage: Lineage::new(),
            verification: Verification {
                null_test: true,
                hash: String::new(),
                trust_state: "verified".to_string(),
            },
            revision: Revision::zero(),
            nodes: BTreeMap::new(),
            edges: BTreeMap::new(),
            modulations: BTreeMap::new(),
        }
    }

    /// Refreshes the mirror tables from the topology.
    pub fn sync(&mut self)
        ensures
            final(self).nodes@ == old(self).topology.nodes@,
            final(self).edges@ == old(self).topology.edges@,
            final(self).modulations@ == old(self).topology.modulations@,
            final(self).topology == old(self).topology,
            final(self).lineage == old(self).lineage,
            final(self).spec_version == old(self).spec_version,
            final(self).verification == old(self).verification,
            final(self).revision == old(self).revision,
    {
        self.nodes = self.topology.nodes.clone();
        self.edges = self.topology.edges.clone();
        self.modulations = self.topology.modulations.clone();
    }

    /// Records `name` as a snapshot of the last applied patch, if there is one.
    pub fn create_snapshot(&mut self, name: &str)
        ensures
            old(self).lineage.applied_patches@.len() > 0 ==> final(self).lineage.snapshots@
                == old(self).lineage.snapshots@.insert(name@, old(self).lineage.applied_patches@.last()),
            old(self).lineage.applied_patches@.len() == 0 ==> final(self).lineage.snapshots@
                == old(self).lineage.snapshots@,
            final(self).lineage.applied_patches == old(self).lineage.applied_patches,
            final(self).lineage.history == old(self).lineage.history,
            final(self).topology == old(self).topology,
            final(self).nodes == old(self).nodes,
            final(self).edges == old(self).edges,
            final(self).modulations == old(self).modulations,
            final(self).revision == old(self).revision,
    {
        let n = self.lineage.applied_patches.len();
        if n > 0 {
            let last = self.lineage.applied_patches[n - 1];
            self.lineage.snapshots.insert(name.to_string(), last);
        }
    }

    /// The node with this identifier, if any.
    pub fn node(&self, id: &StableId) -> (r: Option<&Node>)
        ensures
            match r {
                Some(n) => self.topology.nodes@.contains_key(*id) && self.topology.nodes@[*id] == *n,
                None => !self.topology.nodes@.contains_key(*id),
            },
    {
        self.topology.nodes.get(id)
    }

    /// The edge with this identifier, if any.
    pub fn edge(&self, id: &StableId) -> (r: Option<&Edge>)
        ensures
            match r {
                Some(e) => self.topology.edges@.contains_key(*id) && self.topology.edges@[*id] == *e,
                None => !self.topology.edges@.contains_key(*id),
            },
    {
        self.topology.edges.get(id)
    }

    /// Whether the port reference names a port of an existing node.
    pub fn validate_port_ref(&self, port_ref: &PortRef) -> (b: bool)
        ensures
            b == (self.topology.nodes@.contains_key(port_ref.node_id) && exists|i: int|
                0 <= i < self.topology.nodes@[port_ref.node_id].ports@.len()
                    && (#[trigger] self.topology.nodes@[port_ref.node_id].ports@[i]).name@
                    == port_ref.port_name@),
    {
        match self.topology.nodes.get(&port_ref.node_id) {
            None => false,
            Some(n) => {
                let mut i: usize = 0;
                while i < n.ports.len()
                    invariant
                        self.topology.nodes@.contains_key(port_ref.node_id),
                        self.topology.nodes@[port_ref.node_id] == *n,
                        i <= n.ports@.len(),
                        forall|j: int| 0 <= j < i ==> (#[trigger] n.ports@[j]).name@ != port_ref.port_name@,
                    decreases n.ports@.len() - i,
                {
                    if n.ports[i].name == port_ref.port_name {
                        return true;
                    }
                    i = i + 1;
                }
                false
            },
        }
    }
}

} // verus!
