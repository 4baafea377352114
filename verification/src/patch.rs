//! The patch engine: atomic operations on the canonical IR and their application.
use vstd::prelude::*;
use std::collections::BTreeMap;
use crate::strmap::{StrMap, entries_map, keys_sorted, lemma_entries_map_eq, lemma_entries_map_index, lemma_entries_map_prefix};
use crate::types::{
    StableId, PatchId, IntentId, Timestamp, PatchSource, TrustLevel, ConfigValue,
    ConfigChange, ChangeView, ConfigDelta, ConfigSnapshot, CValue, config_model, delta_model, delta_clone,
    PortRef,
};
use crate::ir::{Node, NodeView, Edge, EdgeDelta, EdgeKind, Modulation, Graph, Topology, nodes_model};
use crate::keyorder::{sorted_keys, key_order, enumerates};
use crate::hash::{hash_patch, patch_digest, hash_topology, topology_digest};
use crate::ir::fresh_id;

verus! {

broadcast use vstd::laws_cmp::group_laws_cmp;

/// Atomic operations on the canonical IR.
#[derive(Debug)]
pub enum Operation {
    AddNode(Node),
    RemoveNode(StableId),
    ReplaceNode(Node),
    ModifyConfig { node_id: StableId, delta: ConfigDelta },
    AddEdge(Edge),
    RemoveEdge(StableId),
    ModifyEdge { edge_id: StableId, delta: EdgeDelta },
    AddModulation(Modulation),
    RemoveModulation(StableId),
}

/// The mathematical value of an `Operation`.
pub enum OpView {
    AddNode(NodeView),
    RemoveNode(StableId),
    ReplaceNode(NodeView),
    ModifyConfig { node_id: StableId, delta: Map<Seq<char>, ChangeView> },
    AddEdge(Edge),
    RemoveEdge(StableId),
    ModifyEdge { edge_id: StableId, delta: EdgeDelta },
    AddModulation(Modulation),
    RemoveModulation(StableId),
}

impl View for Operation {
    type V = OpView;

    open spec fn view(&self) -> OpView {
        match self {
            Operation::AddNode(n) => OpView::AddNode(n@),
            Operation::RemoveNode(id) => OpView::RemoveNode(*id),
            Operation::ReplaceNode(n) => OpView::ReplaceNode(n@),
            Operation::ModifyConfig { node_id, delta } => OpView::ModifyConfig {
                node_id: *node_id,
                delta: delta_model(*delta),
            },
            Operation::AddEdge(e) => OpView::AddEdge(*e),
            Operation::RemoveEdge(id) => OpView::RemoveEdge(*id),
            Operation::ModifyEdge { edge_id, delta } => OpView::ModifyEdge {
                edge_id: *edge_id,
                delta: *delta,
            },
            Operation::AddModulation(m) => OpView::AddModulation(*m),
            Operation::RemoveModulation(id) => OpView::RemoveModulation(*id),
        }
    }
}

impl Clone for Operation {
    fn clone(&self) -> (r: Self)
        ensures
            r@ == self@,
    {
        match self {
            Operation::AddNode(n) => Operation::AddNode(n.clone()),
            Operation::RemoveNode(id) => Operation::RemoveNode(*id),
            Operation::ReplaceNode(n) => Operation::ReplaceNode(n.clone()),
            Operation::ModifyConfig { node_id, delta } => Operation::ModifyConfig {
                node_id: *node_id,
                delta: delta_clone(delta),
            },
            Operation::AddEdge(e) => Operation::AddEdge(e.clone()),
            Operation::RemoveEdge(id) => Operation::RemoveEdge(*id),
            Operation::ModifyEdge { edge_id, delta } => Operation::ModifyEdge {
                edge_id: *edge_id,
                delta: delta.clone(),
            },
            Operation::AddModulation(m) => Operation::AddModulation(m.clone()),
            Operation::RemoveModulation(id) => Operation::RemoveModulation(*id),
        }
    }
}

/// The mathematical value of a list of operations.
pub open spec fn ops_view(s: Seq<Operation>) -> Seq<OpView> {
    s.map_values(|o: Operation| o@)
}

/// An element-by-element copy of a list of operations.
pub fn ops_clone(v: &Vec<Operation>) -> (r: Vec<Operation>)
    ensures
        ops_view(r@) == ops_view(v@),
{
    let mut out: Vec<Operation> = Vec::new();
    let mut i: usize = 0;
    while i < v.len()
        invariant
            i <= v@.len(),
            out@.len() == i,
            forall|j: int| 0 <= j < i ==> (#[trigger] out@[j])@ == v@[j]@,
        decreases v@.len() - i,
    {
        out.push(v[i].clone());
        i = i + 1;
    }
    assert(ops_view(out@) =~= ops_view(v@));
    out
}

/// A single atomic patch: the unit of change.
#[derive(Debug)]
pub struct Patch {
    pub identity: PatchId,
    pub operations: Vec<Operation>,
    pub intent_ref: Option<IntentId>,
    pub deterministic_hash: crate::types::Hash,
    pub parents: Vec<PatchId>,
    pub parent_hashes: Vec<crate::types::Hash>,
    pub timestamp: Timestamp,
    pub source: PatchSource,
    pub trust: TrustLevel,
}

/// The mathematical value of a `Patch`.
pub struct PatchView {
    pub identity: PatchId,
    pub operations: Seq<OpView>,
    pub intent_ref: Option<IntentId>,
    pub deterministic_hash: Seq<u8>,
    pub parents: Seq<PatchId>,
    pub parent_hashes: Seq<Seq<u8>>,
    pub timestamp: Timestamp,
    pub source: PatchSource,
    pub trust: TrustLevel,
}

/// The mathematical value of a list of digests.
pub open spec fn hashes_view(s: Seq<crate::types::Hash>) -> Seq<Seq<u8>> {
    s.map_values(|h: crate::types::Hash| h@)
}

impl View for Patch {
    type V = PatchView;

    open spec fn view(&self) -> PatchView {
        PatchView {
            identity: self.identity,
            operations: ops_view(self.operations@),
            intent_ref: self.intent_ref,
            deterministic_hash: self.deterministic_hash@,
            parents: self.parents@,
            parent_hashes: hashes_view(self.parent_hashes@),
            timestamp: self.timestamp,
            source: self.source,
            trust: self.trust,
        }
    }
}

/// A copy of a list of identifiers.
pub fn ids_clone(v: &Vec<u128>) -> (r: Vec<u128>)
    ensures
        r@ == v@,
{
    let mut out: Vec<u128> = Vec::new();
    let mut i: usize = 0;
    while i < v.len()
        invariant
            i <= v@.len(),
            out@ == v@.take(i as int),
        decreases v@.len() - i,
    {
        out.push(v[i]);
        assert(v@.take(i + 1) =~= v@.take(i as int).push(v@[i as int]));
        i = i + 1;
    }
    assert(v@.take(v@.len() as int) =~= v@);
    out
}

/// A copy of a list of digests.
pub fn hashes_clone(v: &Vec<crate::types::Hash>) -> (r: Vec<crate::types::Hash>)
    ensures
        r@ == v@,
{
    let mut out: Vec<crate::types::Hash> = Vec::new();
    let mut i: usize = 0;
    while i < v.len()
        invariant
            i <= v@.len(),
            out@ == v@.take(i as int),
        decreases v@.len() - i,
    {
        out.push(v[i]);
        assert(v@.take(i + 1) =~= v@.take(i as int).push(v@[i as int]));
        i = i + 1;
    }
    assert(v@.take(v@.len() as int) =~= v@);
    out
}

impl Clone for Patch {
    fn clone(&self) -> (r: Self)
        ensures
            r@ == self@,
    {
        Patch {
            identity: self.identity,
            operations: ops_clone(&self.operations),
            intent_ref: self.intent_ref,
            deterministic_hash: self.deterministic_hash,
            parents: ids_clone(&self.parents),
            parent_hashes: hashes_clone(&self.parent_hashes),
            timestamp: self.timestamp,
            source: self.source,
            trust: self.trust,
        }
    }
}

/// Why a patch could not be applied.
#[derive(Debug)]
pub enum PatchError {
    NodeNotFound(StableId),
    EdgeNotFound(StableId),
    NodeAlreadyExists(StableId),
    EdgeAlreadyExists(StableId),
    PortNotFound { node: StableId, port: String },
    HashMismatch { expected: String, actual: String },
    MergeConflict(String),
}

// ──────────────────────────────────────────────
// What applying an operation means
// ──────────────────────────────────────────────

/// The mathematical contents of a topology.
pub struct TopoView {
    pub nodes: Map<StableId, NodeView>,
    pub edges: Map<StableId, Edge>,
    pub modulations: Map<StableId, Modulation>,
}

pub open spec fn topo_view(t: Topology) -> TopoView {
    TopoView { nodes: nodes_model(t.nodes), edges: t.edges@, modulations: t.modulations@ }
}

/// A configuration after a delta: a change with a new value sets it, a change
/// without one removes the key.
pub open spec fn apply_delta(c: Map<Seq<char>, CValue>, d: Map<Seq<char>, ChangeView>) -> Map<
    Seq<char>,
    CValue,
> {
    Map::new(
        |k: Seq<char>|
            if d.contains_key(k) {
                d[k].new is Some
            } else {
                c.contains_key(k)
            },
        |k: Seq<char>|
            if d.contains_key(k) {
                d[k].new.unwrap()
            } else {
                c[k]
            },
    )
}

/// Whether an edge starts or ends at the node.
pub open spec fn touches(e: Edge, id: StableId) -> bool {
    e.source.node_id == id || e.target.node_id == id
}

/// The edges that neither start nor end at the node.
pub open spec fn detach(edges: Map<StableId, Edge>, id: StableId) -> Map<StableId, Edge> {
    Map::new(|k: StableId| edges.contains_key(k) && !touches(edges[k], id), |k: StableId| edges[k])
}

/// An edge after a delta: each field that the delta gives is replaced.
pub open spec fn modified_edge(e: Edge, d: EdgeDelta) -> Edge {
    Edge {
        id: e.id,
        source: match d.source {
            Some(s) => s,
            None => e.source,
        },
        target: match d.target {
            Some(t) => t,
            None => e.target,
        },
        kind: match d.kind {
            Some(k) => k,
            None => e.kind,
        },
    }
}

/// The result of applying one operation to a topology.
pub open spec fn apply_op(t: TopoView, op: OpView) -> Result<TopoView, PatchError> {
    match op {
        OpView::AddNode(n) => if t.nodes.contains_key(n.id) {
            Err(PatchError::NodeAlreadyExists(n.id))
        } else {
            Ok(TopoView { nodes: t.nodes.insert(n.id, n), ..t })
        },
        OpView::RemoveNode(id) => if !t.nodes.contains_key(id) {
            Err(PatchError::NodeNotFound(id))
        } else {
            Ok(TopoView { nodes: t.nodes.remove(id), edges: detach(t.edges, id), ..t })
        },
        OpView::ReplaceNode(n) => if !t.nodes.contains_key(n.id) {
            Err(PatchError::NodeNotFound(n.id))
        } else {
            Ok(TopoView { nodes: t.nodes.insert(n.id, n), ..t })
        },
        OpView::ModifyConfig { node_id, delta } => if !t.nodes.contains_key(node_id) {
            Err(PatchError::NodeNotFound(node_id))
        } else {
            Ok(
                TopoView {
                    nodes: t.nodes.insert(
                        node_id,
                        NodeView { config: apply_delta(t.nodes[node_id].config, delta), ..t.nodes[node_id] },
                    ),
                    ..t
                },
            )
        },
        OpView::AddEdge(e) => if t.edges.contains_key(e.id) {
            Err(PatchError::EdgeAlreadyExists(e.id))
        } else if !t.nodes.contains_key(e.source.node_id) {
            Err(PatchError::NodeNotFound(e.source.node_id))
        } else if !t.nodes.contains_key(e.target.node_id) {
            Err(PatchError::NodeNotFound(e.target.node_id))
        } else {
            Ok(TopoView { edges: t.edges.insert(e.id, e), ..t })
        },
        OpView::RemoveEdge(id) => if !t.edges.contains_key(id) {
            Err(PatchError::EdgeNotFound(id))
        } else {
            Ok(TopoView { edges: t.edges.remove(id), ..t })
        },
        OpView::ModifyEdge { edge_id, delta } => if delta.source is Some && !t.nodes.contains_key(
            delta.source.unwrap().node_id,
        ) {
            Err(PatchError::NodeNotFound(delta.source.unwrap().node_id))
        } else if delta.target is Some && !t.nodes.contains_key(delta.target.unwrap().node_id) {
            Err(PatchError::NodeNotFound(delta.target.unwrap().node_id))
        } else if !t.edges.contains_key(edge_id) {
            Err(PatchError::EdgeNotFound(edge_id))
        } else {
            Ok(TopoView { edges: t.edges.insert(edge_id, modified_edge(t.edges[edge_id], delta)), ..t })
        },
        OpView::AddModulation(m) => if t.modulations.contains_key(m.id) {
            Err(PatchError::EdgeAlreadyExists(m.id))
        } else if !t.nodes.contains_key(m.source.node_id) {
            Err(PatchError::NodeNotFound(m.source.node_id))
        } else if !t.nodes.contains_key(m.target_node) {
            Err(PatchError::NodeNotFound(m.target_node))
        } else {
            Ok(TopoView { modulations: t.modulations.insert(m.id, m), ..t })
        },
        OpView::RemoveModulation(id) => if !t.modulations.contains_key(id) {
            Err(PatchError::EdgeNotFound(id))
        } else {
            Ok(TopoView { modulations: t.modulations.remove(id), ..t })
        },
    }
}

/// The result of applying operations in order: the topology after the last
/// operation that succeeded, and the error of the first that failed.
pub open spec fn apply_ops(t: TopoView, ops: Seq<OpView>) -> (TopoView, Option<PatchError>)
    decreases ops.len(),
{
    if ops.len() == 0 {
        (t, None)
    } else {
        match apply_op(t, ops[0]) {
            Err(e) => (t, Some(e)),
            Ok(t2) => apply_ops(t2, ops.drop_first()),
        }
    }
}

impl Graph {
    /// Fails unless the referenced node exists (port names are not checked).
    fn require_port(&self, port_ref: &PortRef) -> (r: Result<(), PatchError>)
        ensures
            r is Ok <==> self.topology.nodes@.contains_key(port_ref.node_id),
            r is Err ==> r == Err::<(), PatchError>(PatchError::NodeNotFound(port_ref.node_id)),
    {
        if self.topology.nodes.contains_key(&port_ref.node_id) {
            Ok(())
        } else {
            Err(PatchError::NodeNotFound(port_ref.node_id))
        }
    }

    /// Applies one operation to the topology. On failure the topology is unchanged.
    fn apply_operation(&mut self, op: &Operation) -> (r: Result<(), PatchError>)
        ensures
            match apply_op(topo_view(old(self).topology), op@) {
                Ok(t) => r is Ok && topo_view(final(self).topology) == t,
                Err(e) => r == Err::<(), PatchError>(e) && final(self).topology == old(self).topology,
            },
            final(self).lineage == old(self).lineage,
            final(self).spec_version == old(self).spec_version,
            final(self).verification == old(self).verification,
            final(self).revision == old(self).revision,
            final(self).nodes == old(self).nodes,
            final(self).edges == old(self).edges,
            final(self).modulations == old(self).modulations,
    {
        let ghost t0 = topo_view(self.topology);
        let ghost nm0 = self.topology.nodes;
        match op {
            Operation::AddNode(node) => {
                if self.topology.nodes.contains_key(&node.id) {
                    return Err(PatchError::NodeAlreadyExists(node.id));
                }
                let n = node.clone();
                self.topology.nodes.insert(node.id, n);
                proof {
                    lemma_nodes_model_insert(nm0, self.topology.nodes, node.id, n);
                    assert(topo_view(self.topology) =~= TopoView { nodes: t0.nodes.insert(node.id, node@), ..t0 });
                }
            },
            Operation::RemoveNode(id) => {
                if !self.topology.nodes.contains_key(id) {
                    return Err(PatchError::NodeNotFound(*id));
                }
                self.topology.nodes.remove(id);
                proof {
                    lemma_nodes_model_remove(nm0, self.topology.nodes, *id);
                }
                detach_edges(&mut self.topology.edges, *id);
            },
            Operation::ReplaceNode(node) => {
                if !self.topology.nodes.contains_key(&node.id) {
                    return Err(PatchError::NodeNotFound(node.id));
                }
                let n = node.clone();
                self.topology.nodes.insert(node.id, n);
                proof {
                    lemma_nodes_model_insert(nm0, self.topology.nodes, node.id, n);
                }
            },
            Operation::ModifyConfig { node_id, delta } => {
                if !self.topology.nodes.contains_key(node_id) {
                    return Err(PatchError::NodeNotFound(*node_id));
                }
                match self.topology.nodes.remove(node_id) {
                    None => {
                        return Err(PatchError::NodeNotFound(*node_id));
                    },
                    Some(mut node) => {
                        let ghost n0 = node;
                        apply_config_delta(&mut node.config, delta);
                        let ghost n1 = node;
                        self.topology.nodes.insert(*node_id, node);
                        proof {
                            assert(self.topology.nodes@ == nm0@.insert(*node_id, n1));
                            lemma_nodes_model_insert(nm0, self.topology.nodes, *node_id, n1);
                            assert(n1@ == NodeView { config: apply_delta(t0.nodes[*node_id].config, delta_model(*delta)), ..t0.nodes[*node_id] });
                        }
                    },
                }
            },
            Operation::AddEdge(edge) => {
                if self.topology.edges.contains_key(&edge.id) {
                    return Err(PatchError::EdgeAlreadyExists(edge.id));
                }
                self.require_port(&edge.source)?;
                self.require_port(&edge.target)?;
                self.topology.edges.insert(edge.id, edge.clone());
            },
            Operation::RemoveEdge(id) => {
                if !self.topology.edges.contains_key(id) {
                    return Err(PatchError::EdgeNotFound(*id));
                }
                self.topology.edges.remove(id);
            },
            Operation::ModifyEdge { edge_id, delta } => {
                if let Some(src) = &delta.source {
                    self.require_port(src)?;
                }
                if let Some(tgt) = &delta.target {
                    self.require_port(tgt)?;
                }
                if !self.topology.edges.contains_key(edge_id) {
                    return Err(PatchError::EdgeNotFound(*edge_id));
                }
                match self.topology.edges.remove(edge_id) {
                    None => {
                        return Err(PatchError::EdgeNotFound(*edge_id));
                    },
                    Some(mut edge) => {
                        if let Some(src) = &delta.source {
                            edge.source = src.clone();
                        }
                        if let Some(tgt) = &delta.target {
                            edge.target = tgt.clone();
                        }
                        if let Some(k) = delta.kind {
                            edge.kind = k;
                        }
                        self.topology.edges.insert(*edge_id, edge);
                        proof {
                            assert(self.topology.edges@ =~= t0.edges.insert(*edge_id, modified_edge(t0.edges[*edge_id], *delta)));
                        }
                    },
                }
            },
            Operation::AddModulation(m) => {
                if self.topology.modulations.contains_key(&m.id) {
                    return Err(PatchError::EdgeAlreadyExists(m.id));
                }
                self.require_port(&m.source)?;
                if !self.topology.nodes.contains_key(&m.target_node) {
                    return Err(PatchError::NodeNotFound(m.target_node));
                }
                self.topology.modulations.insert(m.id, m.clone());
            },
            Operation::RemoveModulation(id) => {
                if !self.topology.modulations.contains_key(id) {
                    return Err(PatchError::EdgeNotFound(*id));
                }
                self.topology.modulations.remove(id);
            },
        }
        proof {
            assert(apply_op(t0, op@) is Ok);
            assert(topo_view(self.topology) =~= apply_op(t0, op@)->Ok_0);
        }
        Ok(())
    }
}

/// How a successful application records the patch in the lineage and
/// refreshes the mirror tables.
pub open spec fn recorded(before: Graph, after: Graph, patch: PatchView) -> bool {
    &&& after.revision.0 == before.revision.0 + 1
    &&& after.lineage.applied_patches@ == before.lineage.applied_patches@.push(patch.identity)
    &&& after.lineage.history@ == before.lineage.history@.insert(
        patch.identity,
        after.lineage.history@[patch.identity],
    )
    &&& after.lineage.history@[patch.identity]@ == patch
    &&& after.lineage.snapshots == before.lineage.snapshots
    &&& after.nodes@ == after.topology.nodes@
    &&& after.edges@ == after.topology.edges@
    &&& after.modulations@ == after.topology.modulations@
}

/// The history a lineage holds after the patches: each patch under its
/// identity, a later one replacing an earlier one of the same identity.
pub open spec fn history_of(pv: Seq<PatchView>) -> Map<PatchId, PatchView>
    decreases pv.len(),
{
    if pv.len() == 0 {
        Map::empty()
    } else {
        history_of(pv.drop_last()).insert(pv.last().identity, pv.last())
    }
}

/// The graph is the one replaying the patches on a new graph gives: the
/// replayed topology (mirrored), the patches' identities and history in the
/// lineage, no snapshots, one revision per patch, and a new graph's version
/// and verification record.
pub open spec fn replayed(g: Graph, pv: Seq<PatchView>) -> bool {
    &&& replay_ok(pv, topo_view(g.topology))
    &&& g.spec_version@ == "1.0.0"@
    &&& g.lineage.applied_patches@ == pv.map_values(|p: PatchView| p.identity)
    &&& g.lineage.history@.dom() == history_of(pv).dom()
    &&& forall|id: PatchId| #[trigger] g.lineage.history@.contains_key(id) ==> g.lineage.history@[id]@ == history_of(pv)[id]
    &&& g.lineage.snapshots@ == Map::<Seq<char>, PatchId>::empty()
    &&& g.verification.null_test
    &&& g.verification.hash@ == Seq::<char>::empty()
    &&& g.verification.trust_state@ == "verified"@
    &&& g.revision.0 == pv.len()
    &&& g.nodes@ == g.topology.nodes@
    &&& g.edges@ == g.topology.edges@
    &&& g.modulations@ == g.topology.modulations@
}

/// Replaying no patches gives a new graph: empty tables, an empty lineage,
/// revision zero, and a new graph's version and verification record.
pub proof fn law_replay_nothing_is_new(g: Graph)
    requires
        replayed(g, Seq::<PatchView>::empty()),
    ensures
        g.topology.nodes@ == Map::<StableId, Node>::empty(),
        g.topology.edges@ == Map::<StableId, Edge>::empty(),
        g.topology.modulations@ == Map::<StableId, Modulation>::empty(),
        g.nodes@ == Map::<StableId, Node>::empty(),
        g.edges@ == Map::<StableId, Edge>::empty(),
        g.modulations@ == Map::<StableId, Modulation>::empty(),
        g.lineage.applied_patches@ == Seq::<PatchId>::empty(),
        g.lineage.history@ == Map::<PatchId, Patch>::empty(),
        g.lineage.snapshots@ == Map::<Seq<char>, PatchId>::empty(),
        g.revision.0 == 0,
        g.spec_version@ == "1.0.0"@,
        g.verification.null_test,
        g.verification.hash@ == Seq::<char>::empty(),
        g.verification.trust_state@ == "verified"@,
{
    let t = topo_view(g.topology);
    assert(replay_steps(Seq::<PatchView>::empty()).0 == t);
    assert(g.topology.nodes@.dom() =~= Set::<StableId>::empty()) by {
        assert forall|k: StableId| !g.topology.nodes@.contains_key(k) by {
            if g.topology.nodes@.contains_key(k) {
                assert(t.nodes.contains_key(k));
            }
        }
    }
    assert(g.topology.nodes@ =~= Map::<StableId, Node>::empty());
    assert(g.topology.edges@ =~= Map::<StableId, Edge>::empty());
    assert(g.topology.modulations@ =~= Map::<StableId, Modulation>::empty());
    assert(g.lineage.applied_patches@ =~= Seq::<PatchId>::empty());
    assert(g.lineage.history@ =~= Map::<PatchId, Patch>::empty());
}

impl Graph {
    /// Applies a patch as one unit: the operations in order, and when one
    /// fails, its error is returned and the graph is left as it was;
    /// otherwise the revision advances, the patch joins the lineage and the
    /// mirror tables are refreshed.
    pub fn apply_patch(&mut self, patch: &Patch) -> (r: Result<(), PatchError>)
        requires
            old(self).revision.0 < u64::MAX,
        ensures
            ({
                let (t, err) = apply_ops(topo_view(old(self).topology), patch@.operations);
                match err {
                    Some(e) => {
                        &&& r == Err::<(), PatchError>(e)
                        &&& final(self).topology.nodes@ == old(self).topology.nodes@
                        &&& final(self).topology.edges@ == old(self).topology.edges@
                        &&& final(self).topology.modulations@ == old(self).topology.modulations@
                        &&& final(self).revision == old(self).revision
                        &&& final(self).lineage == old(self).lineage
                        &&& final(self).nodes == old(self).nodes
                        &&& final(self).edges == old(self).edges
                        &&& final(self).modulations == old(self).modulations
                    },
                    None => r is Ok && topo_view(final(self).topology) == t && recorded(*old(self), *final(self), patch@),
                }
            }),
            final(self).spec_version == old(self).spec_version,
            final(self).verification == old(self).verification,
    {
        let ghost g0 = *self;
        let saved = Topology {
            nodes: self.topology.nodes.clone(),
            edges: self.topology.edges.clone(),
            modulations: self.topology.modulations.clone(),
        };
        let ghost ops = patch@.operations;
        let ghost t0 = topo_view(self.topology);
        let mut i: usize = 0;
        proof {
            assert(ops.skip(0) =~= ops);
        }
        while i < patch.operations.len()
            invariant
                g0 == *old(self),
                t0 == topo_view(old(self).topology),
                ops == patch@.operations,
                ops.len() == patch.operations@.len(),
                i <= ops.len(),
                apply_ops(t0, ops) == apply_ops(topo_view(self.topology), ops.skip(i as int)),
                saved.nodes@ == g0.topology.nodes@,
                saved.edges@ == g0.topology.edges@,
                saved.modulations@ == g0.topology.modulations@,
                self.lineage == g0.lineage,
                self.revision == g0.revision,
                self.nodes == g0.nodes,
                self.edges == g0.edges,
                self.modulations == g0.modulations,
                self.spec_version == g0.spec_version,
                self.verification == g0.verification,
            decreases ops.len() - i,
        {
            let ghost cur = topo_view(self.topology);
            proof {
                assert(ops.skip(i as int)[0] == patch.operations@[i as int]@);
                assert(ops.skip(i as int).drop_first() =~= ops.skip(i + 1));
            }
            let res = self.apply_operation(&patch.operations[i]);
            match res {
                Err(e) => {
                    self.topology = saved;
                    return Err(e);
                },
                Ok(()) => {},
            }
            i = i + 1;
        }
        self.revision = self.revision.next();
        self.lineage.applied_patches.push(patch.identity);
        let copy = patch.clone();
        self.lineage.history.insert(patch.identity, copy);
        self.sync();
        Ok(())
    }

    /// The graph that results from applying the patches in order to an empty
    /// graph, or the first error.
    pub fn replay(patches: &[Patch]) -> (r: Result<Graph, PatchError>)
        requires
            patches@.len() < u64::MAX,
        ensures
            match r {
                Ok(g) => replayed(g, patches_view(patches@)),
                Err(e) => replay_err(patches_view(patches@), e),
            },
    {
        let mut graph = Graph::new();
        let ghost pv = patches_view(patches@);
        let mut i: usize = 0;
        proof {
            assert(nodes_model(graph.topology.nodes) =~= Map::<StableId, NodeView>::empty());
            assert(topo_view(graph.topology) =~= empty_topo());
            assert(pv.take(0).map_values(|p: PatchView| p.identity) =~= Seq::<PatchId>::empty());
            assert(history_of(pv.take(0)) =~= Map::<PatchId, PatchView>::empty());
        }
        while i < patches.len()
            invariant
                pv == patches_view(patches@),
                i <= patches@.len(),
                patches@.len() < u64::MAX,
                graph.revision.0 == i,
                replay_steps(pv.take(i as int)) == (topo_view(graph.topology), None::<PatchError>),
                graph.lineage.applied_patches@ == pv.take(i as int).map_values(|p: PatchView| p.identity),
                graph.nodes@ == graph.topology.nodes@,
                graph.edges@ == graph.topology.edges@,
                graph.modulations@ == graph.topology.modulations@,
                graph.spec_version@ == "1.0.0"@,
                graph.lineage.history@.dom() == history_of(pv.take(i as int)).dom(),
                forall|id: PatchId| #[trigger] graph.lineage.history@.contains_key(id) ==> graph.lineage.history@[id]@
                    == history_of(pv.take(i as int))[id],
                graph.lineage.snapshots@ == Map::<Seq<char>, PatchId>::empty(),
                graph.verification.null_test,
                graph.verification.hash@ == Seq::<char>::empty(),
                graph.verification.trust_state@ == "verified"@,
            decreases patches@.len() - i,
        {
            let ghost ids = graph.lineage.applied_patches@;
            let ghost h0 = graph.lineage.history@;
            let r = graph.apply_patch(&patches[i]);
            proof {
                assert(pv.take(i + 1).drop_last() =~= pv.take(i as int));
                assert(pv.take(i + 1).last() == patches@[i as int]@);
            }
            match r {
                Err(e) => {
                    proof {
                        lemma_replay_err_prefix(pv, i as int, e);
                    }
                    return Err(e);
                },
                Ok(()) => {},
            }
            proof {
                assert(pv.take(i + 1).map_values(|p: PatchView| p.identity) =~= ids.push(pv[i as int].identity));
                let id = pv[i as int].identity;
                assert(history_of(pv.take(i + 1)) == history_of(pv.take(i as int)).insert(id, pv[i as int]));
                assert(graph.lineage.history@.dom() =~= history_of(pv.take(i + 1)).dom());
                assert forall|x: PatchId| #[trigger] graph.lineage.history@.contains_key(x) implies graph.lineage.history@[x]@
                    == history_of(pv.take(i + 1))[x] by {
                    if x != id {
                        assert(h0.contains_key(x));
                    }
                }
            }
            i = i + 1;
        }
        proof {
            assert(pv.take(patches@.len() as int) =~= pv);
        }
        Ok(graph)
    }
}

/// The changes that turn configuration `a` into `b`: a key whose value differs
/// or that only `a` has records the old value and the new one (if any); a key
/// that only `b` has records its new value.
pub open spec fn config_diff_spec(a: Map<Seq<char>, CValue>, b: Map<Seq<char>, CValue>) -> Map<
    Seq<char>,
    ChangeView,
> {
    Map::new(
        |k: Seq<char>|
            (a.contains_key(k) && (!b.contains_key(k) || !crate::types::cvalue_eq(a[k], b[k])))
                || (!a.contains_key(k) && b.contains_key(k)),
        |k: Seq<char>|
            ChangeView {
                old: if a.contains_key(k) {
                    Some(a[k])
                } else {
                    None
                },
                new: if b.contains_key(k) {
                    Some(b[k])
                } else {
                    None
                },
            },
    )
}

/// The configuration delta that turns `old` into `new`.
pub fn config_diff(old: &ConfigSnapshot, new: &ConfigSnapshot) -> (delta: ConfigDelta)
    ensures
        delta_model(delta) == config_diff_spec(config_model(*old), config_model(*new)),
{
    old.entries_are_sorted();
    new.entries_are_sorted();
    let ghost a = config_model(*old);
    let ghost b = config_model(*new);
    let ghost target = config_diff_spec(a, b);
    let ghost oe = old.entries();
    let ghost ne = new.entries();
    let mut delta: ConfigDelta = StrMap::new();
    let mut i: usize = 0;
    while i < old.len()
        invariant
            oe == old.entries(),
            ne == new.entries(),
            keys_sorted(oe),
            keys_sorted(ne),
            a == config_model(*old),
            b == config_model(*new),
            target == config_diff_spec(a, b),
            i <= oe.len(),
            delta_model(delta) == target.restrict(entries_map(oe.take(i as int)).dom()),
        decreases oe.len() - i,
    {
        let key = old.key_at(i);
        let old_val = old.value_at(i);
        let ghost before = delta_model(delta);
        proof {
            lemma_entries_map_prefix(oe, i as int);
            lemma_entries_map_index(oe, i as int);
        }
        match new.get(key.as_str()) {
            Some(new_val) => {
                if !crate::types::config_value_eq(old_val, new_val) {
                    let change = ConfigChange { old: Some(old_val.clone()), new: Some(new_val.clone()) };
                    delta.insert(key.clone(), change);
                    proof {
                        assert(delta_model(delta) =~= before.insert(key@, target[key@]));
                    }
                } else {
                    proof {
                        assert(!target.contains_key(key@));
                    }
                }
            },
            None => {
                let change = ConfigChange { old: Some(old_val.clone()), new: None };
                delta.insert(key.clone(), change);
                proof {
                    assert(delta_model(delta) =~= before.insert(key@, target[key@]));
                }
            },
        }
        proof {
            assert(delta_model(delta) =~= target.restrict(entries_map(oe.take(i + 1)).dom()));
        }
        i = i + 1;
    }
    proof {
        lemma_entries_map_prefix_full(oe);
        assert(entries_map(oe).dom() == a.dom());
    }
    let mut j: usize = 0;
    proof {
        lemma_prefix_start(ne);
    }
    while j < new.len()
        invariant
            oe == old.entries(),
            ne == new.entries(),
            keys_sorted(oe),
            keys_sorted(ne),
            a == config_model(*old),
            b == config_model(*new),
            target == config_diff_spec(a, b),
            j <= ne.len(),
            delta_model(delta) == target.restrict(a.dom().union(entries_map(ne.take(j as int)).dom())),
        decreases ne.len() - j,
    {
        let key = new.key_at(j);
        let new_val = new.value_at(j);
        let ghost before = delta_model(delta);
        proof {
            lemma_entries_map_prefix(ne, j as int);
            lemma_entries_map_index(ne, j as int);
        }
        if !old.contains_key(key.as_str()) {
            let change = ConfigChange { old: None, new: Some(new_val.clone()) };
            delta.insert(key.clone(), change);
            proof {
                assert(delta_model(delta) =~= before.insert(key@, target[key@]));
            }
        }
        proof {
            assert(delta_model(delta) =~= target.restrict(a.dom().union(entries_map(ne.take(j + 1)).dom())));
        }
        j = j + 1;
    }
    proof {
        lemma_entries_map_prefix_full(ne);
        assert(delta_model(delta) =~= target);
    }
    delta
}

/// The empty topology.
pub open spec fn empty_topo() -> TopoView {
    TopoView {
        nodes: Map::<StableId, NodeView>::empty(),
        edges: Map::<StableId, Edge>::empty(),
        modulations: Map::<StableId, Modulation>::empty(),
    }
}

/// Replaying patches from the empty topology: the topology after the last
/// patch, or the topology when the first failing operation was met and its error.
pub open spec fn replay_steps(ps: Seq<PatchView>) -> (TopoView, Option<PatchError>)
    decreases ps.len(),
{
    if ps.len() == 0 {
        (empty_topo(), None)
    } else {
        let (t, e) = replay_steps(ps.drop_last());
        match e {
            Some(err) => (t, Some(err)),
            None => apply_ops(t, ps.last().operations),
        }
    }
}

/// Replaying succeeds with this topology.
pub open spec fn replay_ok(ps: Seq<PatchView>, t: TopoView) -> bool {
    replay_steps(ps) == (t, None::<PatchError>)
}

/// Replaying fails with this error.
pub open spec fn replay_err(ps: Seq<PatchView>, e: PatchError) -> bool {
    replay_steps(ps).1 == Some(e)
}

proof fn lemma_replay_err_prefix(pv: Seq<PatchView>, i: int, e: PatchError)
    requires
        0 <= i < pv.len(),
        replay_steps(pv.take(i + 1)).1 == Some(e),
    ensures
        replay_steps(pv).1 == Some(e),
    decreases pv.len() - i,
{
    if i + 1 == pv.len() {
        assert(pv.take(i + 1) =~= pv);
    } else {
        assert(pv.take(i + 2).drop_last() =~= pv.take(i + 1));
        lemma_replay_err_prefix(pv, i + 1, e);
    }
}

proof fn lemma_nodes_model_insert(m: BTreeMap<StableId, Node>, m2: BTreeMap<StableId, Node>, k: StableId, n: Node)
    requires
        m2@ == m@.insert(k, n),
    ensures
        nodes_model(m2) == nodes_model(m).insert(k, n@),
{
    assert(nodes_model(m2) =~= nodes_model(m).insert(k, n@));
}

proof fn lemma_nodes_model_remove(m: BTreeMap<StableId, Node>, m2: BTreeMap<StableId, Node>, k: StableId)
    requires
        m2@ == m@.remove(k),
    ensures
        nodes_model(m2) == nodes_model(m).remove(k),
{
    assert(nodes_model(m2) =~= nodes_model(m).remove(k));
}

/// Applies the changes of a delta to a configuration, key by key.
fn apply_config_delta(config: &mut ConfigSnapshot, delta: &ConfigDelta)
    ensures
        config_model(*final(config)) == apply_delta(config_model(*old(config)), delta_model(*delta)),
{
    delta.entries_are_sorted();
    let ghost c0 = config_model(*config);
    let ghost es = delta.entries();
    let mut i: usize = 0;
    proof {
        lemma_prefix_start(es);
        assert(apply_delta(c0, Map::empty()) =~= c0);
    }
    while i < delta.len()
        invariant
            es == delta.entries(),
            keys_sorted(es),
            i <= es.len(),
            config_model(*config) == apply_delta(
                c0,
                entries_map(es.take(i as int)).map_values(|c: ConfigChange| c@),
            ),
        decreases es.len() - i,
    {
        let key = delta.key_at(i);
        let change = delta.value_at(i);
        let ghost p = entries_map(es.take(i as int)).map_values(|c: ConfigChange| c@);
        let ghost before = config_model(*config);
        proof {
            lemma_entries_map_prefix(es, i as int);
            assert(entries_map(es.take(i + 1)).map_values(|c: ConfigChange| c@) =~= p.insert(key@, change@));
        }
        match &change.new {
            Some(v) => {
                let v2 = v.clone();
                config.insert(key.clone(), v2);
                proof {
                    assert(config_model(*config) =~= before.insert(key@, v2@));
                    assert(apply_delta(c0, p.insert(key@, change@)) =~= apply_delta(c0, p).insert(key@, v2@));
                }
            },
            None => {
                config.remove(key.as_str());
                proof {
                    assert(config_model(*config) =~= before.remove(key@));
                    assert(apply_delta(c0, p.insert(key@, change@)) =~= apply_delta(c0, p).remove(key@));
                }
            },
        }
        i = i + 1;
    }
    proof {
        lemma_entries_map_prefix_full(es);
        assert(entries_map(es).map_values(|c: ConfigChange| c@) =~= delta_model(*delta));
    }
}

/// Removes every edge that starts or ends at the node.
fn detach_edges(edges: &mut BTreeMap<StableId, Edge>, id: StableId)
    ensures
        final(edges)@ == detach(old(edges)@, id),
{
    let ghost e0 = edges@;
    let ks = sorted_keys(edges);
    let mut i: usize = 0;
    while i < ks.len()
        invariant
            enumerates(ks@, e0.dom()),
            i <= ks@.len(),
            edges@ == Map::new(
                |k: StableId| e0.contains_key(k) && (!ks@.take(i as int).contains(k) || !touches(e0[k], id)),
                |k: StableId| e0[k],
            ),
        decreases ks@.len() - i,
    {
        let k = ks[i];
        let ghost before = edges@;
        proof {
            assert(ks@.contains(k));
            assert(!ks@.take(i as int).contains(k)) by {
                if ks@.take(i as int).contains(k) {
                    let p = choose|p: int| 0 <= p < i && ks@.take(i as int)[p] == k;
                    assert(ks@[p] < ks@[i as int]);
                }
            }
            assert(before.contains_key(k));
        }
        let drop = match edges.get(&k) {
            Some(e) => e.source.node_id == id || e.target.node_id == id,
            None => false,
        };
        if drop {
            edges.remove(&k);
        }
        proof {
            assert(ks@.take(i + 1) =~= ks@.take(i as int).push(k));
            assert forall|q: StableId| ks@.take(i + 1).contains(q) <==> (ks@.take(i as int).contains(q) || q == k) by {
                broadcast use vstd::seq_lib::group_seq_properties;
            }
            assert(edges@ =~= Map::new(
                |q: StableId| e0.contains_key(q) && (!ks@.take(i + 1).contains(q) || !touches(e0[q], id)),
                |q: StableId| e0[q],
            ));
        }
        i = i + 1;
    }
    proof {
        assert(ks@.take(ks@.len() as int) =~= ks@);
        assert(edges@ =~= detach(e0, id));
    }
}

proof fn lemma_prefix_start<V>(s: Seq<(String, V)>)
    ensures
        entries_map(s.take(0)) == Map::<Seq<char>, V>::empty(),
{
    assert(entries_map(s.take(0)) =~= Map::<Seq<char>, V>::empty());
}

proof fn lemma_prefix_full<V>(s: Seq<(String, V)>)
    ensures
        s.take(s.len() as int) == s,
{
    assert(s.take(s.len() as int) =~= s);
}

proof fn lemma_entries_map_prefix_full<V>(s: Seq<(String, V)>)
    ensures
        entries_map(s.take(s.len() as int)) == entries_map(s),
{
    lemma_prefix_full(s);
}

// ──────────────────────────────────────────────
// Building patches
// ──────────────────────────────────────────────

/// Whether two digests are equal.
pub fn digest_eq(a: &crate::types::Hash, b: &crate::types::Hash) -> (r: bool)
    ensures
        r == (a@ == b@),
{
    let mut i: usize = 0;
    while i < 32
        invariant
            i <= 32,
            a@.len() == 32,
            b@.len() == 32,
            forall|j: int| 0 <= j < i ==> a@[j] == b@[j],
        decreases 32 - i,
    {
        if a[i] != b[i] {
            return false;
        }
        i = i + 1;
    }
    assert(a@ =~= b@);
    true
}

impl Patch {
    /// Whether the stored digest is the digest of the patch's content.
    pub open spec fn digest_valid(self) -> bool {
        self.deterministic_hash@ == patch_digest(self)
    }

    /// A patch of the given operations, made by the system and trusted, with
    /// a fresh identity, the current time, no intent, no parents, and the
    /// digest of its content.
    pub fn from_operations(operations: Vec<Operation>) -> (p: Patch)
        ensures
            p.operations@ == operations@,
            p.intent_ref is None,
            p.parents@.len() == 0,
            p.parent_hashes@.len() == 0,
            p.source == PatchSource::System,
            p.trust == TrustLevel::Trusted,
            p.digest_valid(),
    {
        Patch::from_operations_with_provenance(operations, PatchSource::System, TrustLevel::Trusted)
    }

    /// A patch of the given operations with the given provenance and trust,
    /// a fresh identity, the current time, no intent, no parents, and the
    /// digest of its content.
    pub fn from_operations_with_provenance(
        operations: Vec<Operation>,
        source: PatchSource,
        trust: TrustLevel,
    ) -> (p: Patch)
        ensures
            p.operations@ == operations@,
            p.intent_ref is None,
            p.parents@.len() == 0,
            p.parent_hashes@.len() == 0,
            p.source == source,
            p.trust == trust,
            p.digest_valid(),
    {
        let mut patch = Patch {
            identity: fresh_id(),
            operations,
            intent_ref: None,
            deterministic_hash: [0u8; 32],
            parents: Vec::new(),
            parent_hashes: Vec::new(),
            timestamp: Timestamp::now(),
            source,
            trust,
        };
        patch.deterministic_hash = hash_patch(&patch);
        patch
    }

    /// The same patch attached to an intent, with its digest recomputed.
    pub fn with_intent(self, intent_id: IntentId) -> (p: Patch)
        ensures
            p.identity == self.identity,
            p.operations == self.operations,
            p.intent_ref == Some(intent_id),
            p.parents == self.parents,
            p.parent_hashes == self.parent_hashes,
            p.timestamp == self.timestamp,
            p.source == self.source,
            p.trust == self.trust,
            p.digest_valid(),
    {
        let mut p = self;
        p.intent_ref = Some(intent_id);
        p.deterministic_hash = hash_patch(&p);
        p
    }

    /// The same patch with the given parents (identity and digest of each, in
    /// order), with its digest recomputed.
    pub fn with_parents(self, parents: Vec<(PatchId, crate::types::Hash)>) -> (p: Patch)
        ensures
            p.identity == self.identity,
            p.operations == self.operations,
            p.intent_ref == self.intent_ref,
            p.parents@ == parents@.map_values(|e: (PatchId, crate::types::Hash)| e.0),
            p.parent_hashes@ == parents@.map_values(|e: (PatchId, crate::types::Hash)| e.1),
            p.timestamp == self.timestamp,
            p.source == self.source,
            p.trust == self.trust,
            p.digest_valid(),
    {
        let mut ids: Vec<PatchId> = Vec::new();
        let mut hashes: Vec<crate::types::Hash> = Vec::new();
        let mut i: usize = 0;
        while i < parents.len()
            invariant
                i <= parents@.len(),
                ids@ == parents@.take(i as int).map_values(|e: (PatchId, crate::types::Hash)| e.0),
                hashes@ == parents@.take(i as int).map_values(|e: (PatchId, crate::types::Hash)| e.1),
            decreases parents@.len() - i,
        {
            let (id, h) = parents[i];
            ids.push(id);
            hashes.push(h);
            proof {
                assert(parents@.take(i + 1) =~= parents@.take(i as int).push(parents@[i as int]));
                assert(ids@ =~= parents@.take(i + 1).map_values(|e: (PatchId, crate::types::Hash)| e.0));
                assert(hashes@ =~= parents@.take(i + 1).map_values(|e: (PatchId, crate::types::Hash)| e.1));
            }
            i = i + 1;
        }
        proof {
            assert(parents@.take(parents@.len() as int) =~= parents@);
        }
        let mut p = self;
        p.parents = ids;
        p.parent_hashes = hashes;
        p.deterministic_hash = hash_patch(&p);
        p
    }

    /// Whether the stored digest is the digest of the patch's content.
    pub fn verify_hash(&self) -> (b: bool)
        ensures
            b == self.digest_valid(),
    {
        let h = hash_patch(self);
        digest_eq(&h, &self.deterministic_hash)
    }
}

// ──────────────────────────────────────────────
// Hexadecimal
// ──────────────────────────────────────────────

/// The lowercase hexadecimal digits.
pub open spec fn hex_digits() -> Seq<char> {
    seq!['0', '1', '2', '3', '4', '5', '6', '7', '8', '9', 'a', 'b', 'c', 'd', 'e', 'f']
}

/// Two lowercase hexadecimal digits per byte, most significant digit first.
pub open spec fn hex_chars(bytes: Seq<u8>) -> Seq<char>
    decreases bytes.len(),
{
    if bytes.len() == 0 {
        Seq::empty()
    } else {
        hex_chars(bytes.drop_last()) + seq![
            hex_digits()[(bytes.last() / 16) as int],
            hex_digits()[(bytes.last() % 16) as int],
        ]
    }
}

/// The bytes in lowercase hexadecimal, two digits per byte.
pub fn encode(bytes: &[u8]) -> (s: String)
    ensures
        s@ == hex_chars(bytes@),
{
    let digits = "0123456789abcdef";
    proof {
        reveal_strlit("0123456789abcdef");
        assert(digits@ =~= hex_digits());
    }
    let mut s = String::new();
    let mut i: usize = 0;
    proof {
        assert(bytes@.take(0) =~= Seq::<u8>::empty());
        assert(s@ =~= hex_chars(bytes@.take(0)));
    }
    while i < bytes.len()
        invariant
            digits@ == hex_digits(),
            i <= bytes@.len(),
            s@ == hex_chars(bytes@.take(i as int)),
        decreases bytes@.len() - i,
    {
        let b = bytes[i];
        let hi = (b / 16) as usize;
        let lo = (b % 16) as usize;
        s.append(digits.substring_char(hi, hi + 1));
        s.append(digits.substring_char(lo, lo + 1));
        proof {
            assert(bytes@.take(i + 1).drop_last() =~= bytes@.take(i as int));
            assert(bytes@.take(i + 1).last() == b);
            assert(digits@.subrange(hi as int, hi + 1) =~= seq![hex_digits()[(b / 16) as int]]);
            assert(digits@.subrange(lo as int, lo + 1) =~= seq![hex_digits()[(b % 16) as int]]);
            assert(s@ =~= hex_chars(bytes@.take(i + 1)));
        }
        i = i + 1;
    }
    proof {
        assert(bytes@.take(bytes@.len() as int) =~= bytes@);
    }
    s
}

// ──────────────────────────────────────────────
// Patch sets
// ──────────────────────────────────────────────

/// An ordered collection of patches.
#[derive(Debug)]
pub struct PatchSet {
    pub patches: Vec<Patch>,
}

/// The mathematical value of a list of patches.
pub open spec fn patches_view(s: Seq<Patch>) -> Seq<PatchView> {
    s.map_values(|p: Patch| p@)
}

/// An element-by-element copy of a list of patches.
fn patches_clone(v: &Vec<Patch>) -> (r: Vec<Patch>)
    ensures
        patches_view(r@) == patches_view(v@),
{
    let mut out: Vec<Patch> = Vec::new();
    let mut i: usize = 0;
    while i < v.len()
        invariant
            i <= v@.len(),
            out@.len() == i,
            forall|j: int| 0 <= j < i ==> (#[trigger] out@[j])@ == v@[j]@,
        decreases v@.len() - i,
    {
        out.push(v[i].clone());
        i = i + 1;
    }
    assert(patches_view(out@) =~= patches_view(v@));
    out
}

impl PatchSet {
    /// An empty patch set.
    pub fn new() -> (ps: PatchSet)
        ensures
            ps.patches@.len() == 0,
    {
        PatchSet { patches: Vec::new() }
    }

    /// A patch set of one patch.
    pub fn single(patch: Patch) -> (ps: PatchSet)
        ensures
            ps.patches@ == seq![patch],
    {
        PatchSet { patches: vec![patch] }
    }

    /// The patches of this set followed by those of the other. Never fails.
    pub fn merge(&self, other: &PatchSet) -> (r: Result<PatchSet, PatchError>)
        ensures
            r is Ok,
            r matches Ok(ps) && patches_view(ps.patches@) == patches_view(self.patches@)
                + patches_view(other.patches@),
    {
        let mut merged = patches_clone(&self.patches);
        let ghost first = merged@;
        let mut i: usize = 0;
        while i < other.patches.len()
            invariant
                i <= other.patches@.len(),
                merged@.len() == first.len() + i,
                forall|j: int| 0 <= j < first.len() ==> (#[trigger] merged@[j]) == first[j],
                forall|j: int| 0 <= j < i ==> (#[trigger] merged@[first.len() + j])@ == other.patches@[j]@,
            decreases other.patches@.len() - i,
        {
            merged.push(other.patches[i].clone());
            i = i + 1;
        }
        proof {
            let lhs = patches_view(merged@);
            let rhs = patches_view(first) + patches_view(other.patches@);
            assert(lhs.len() == rhs.len());
            assert forall|j: int| 0 <= j < lhs.len() implies lhs[j] == rhs[j] by {
                if j >= first.len() {
                    assert(merged@[first.len() + (j - first.len())]@ == other.patches@[j - first.len()]@);
                }
            }
            assert(lhs =~= rhs);
        }
        Ok(PatchSet { patches: merged })
    }

    /// Whether the set holds no patch.
    pub fn is_empty(&self) -> (b: bool)
        ensures
            b == (self.patches@.len() == 0),
    {
        self.patches.len() == 0
    }

    /// The number of patches.
    pub fn len(&self) -> (n: usize)
        ensures
            n == self.patches@.len(),
    {
        self.patches.len()
    }
}

impl Default for PatchSet {
    fn default() -> (ps: PatchSet)
        ensures
            ps.patches@.len() == 0,
    {
        PatchSet::new()
    }
}

// ──────────────────────────────────────────────
// Differences between graphs
// ──────────────────────────────────────────────

/// A removal for each listed node that `b` lacks, in list order.
pub open spec fn node_removals(ks: Seq<StableId>, b: Map<StableId, NodeView>) -> Seq<OpView>
    decreases ks.len(),
{
    if ks.len() == 0 {
        Seq::empty()
    } else {
        node_removals(ks.drop_last(), b) + if b.contains_key(ks.last()) {
            Seq::empty()
        } else {
            seq![OpView::RemoveNode(ks.last())]
        }
    }
}

/// For each listed node of `b`: an addition when `a` lacks it, a
/// configuration change when the configurations differ, nothing otherwise.
pub open spec fn node_changes(ks: Seq<StableId>, a: Map<StableId, NodeView>, b: Map<StableId, NodeView>) -> Seq<OpView>
    decreases ks.len(),
{
    if ks.len() == 0 {
        Seq::empty()
    } else {
        let k = ks.last();
        node_changes(ks.drop_last(), a, b) + if !a.contains_key(k) {
            seq![OpView::AddNode(b[k])]
        } else if config_diff_spec(a[k].config, b[k].config) == Map::<Seq<char>, ChangeView>::empty() {
            Seq::empty()
        } else {
            seq![OpView::ModifyConfig { node_id: k, delta: config_diff_spec(a[k].config, b[k].config) }]
        }
    }
}

/// A removal for each listed edge that `b` lacks, in list order.
pub open spec fn edge_removals(ks: Seq<StableId>, b: Map<StableId, Edge>) -> Seq<OpView>
    decreases ks.len(),
{
    if ks.len() == 0 {
        Seq::empty()
    } else {
        edge_removals(ks.drop_last(), b) + if b.contains_key(ks.last()) {
            Seq::empty()
        } else {
            seq![OpView::RemoveEdge(ks.last())]
        }
    }
}

/// The fields of `new` that differ from those of `old`.
pub open spec fn edge_delta_between(old: Edge, new: Edge) -> EdgeDelta {
    EdgeDelta {
        source: if old.source@ != new.source@ {
            Some(new.source)
        } else {
            None
        },
        target: if old.target@ != new.target@ {
            Some(new.target)
        } else {
            None
        },
        kind: if old.kind != new.kind {
            Some(new.kind)
        } else {
            None
        },
    }
}

/// For each listed edge of `b`: an addition when `a` lacks it, a change when
/// the two edges differ, nothing otherwise.
pub open spec fn edge_changes(ks: Seq<StableId>, a: Map<StableId, Edge>, b: Map<StableId, Edge>) -> Seq<OpView>
    decreases ks.len(),
{
    if ks.len() == 0 {
        Seq::empty()
    } else {
        let k = ks.last();
        edge_changes(ks.drop_last(), a, b) + if !a.contains_key(k) {
            seq![OpView::AddEdge(b[k])]
        } else if a[k]@ == b[k]@ {
            Seq::empty()
        } else {
            seq![OpView::ModifyEdge { edge_id: k, delta: edge_delta_between(a[k], b[k]) }]
        }
    }
}

/// The operations that turn topology `a` into `b`, as `diff` lists them:
/// node removals, node additions and configuration changes, edge removals,
/// edge additions and changes, each group in increasing identifier order.
/// Modulations, and node fields other than the configuration, are not compared.
pub open spec fn diff_ops(a: TopoView, b: TopoView) -> Seq<OpView> {
    node_removals(key_order(a.nodes.dom()), b.nodes) + node_changes(key_order(b.nodes.dom()), a.nodes, b.nodes)
        + edge_removals(key_order(a.edges.dom()), b.edges) + edge_changes(
        key_order(b.edges.dom()),
        a.edges,
        b.edges,
    )
}

proof fn lemma_ops_view_push(s: Seq<Operation>, o: Operation)
    ensures
        ops_view(s.push(o)) == ops_view(s).push(o@),
{
    assert(ops_view(s.push(o)) =~= ops_view(s).push(o@));
}

proof fn lemma_nodes_model_dom(m: BTreeMap<StableId, Node>)
    ensures
        nodes_model(m).dom() == m@.dom(),
{
    assert(nodes_model(m).dom() =~= m@.dom());
}

impl Graph {
    /// One patch, made by the system, whose operations turn this graph's
    /// topology into the other's (see `diff_ops`).
    pub fn diff(&self, other: &Graph) -> (ps: PatchSet)
        ensures
            ps.patches@.len() == 1,
            ops_view(ps.patches@[0].operations@) == diff_ops(topo_view(self.topology), topo_view(other.topology)),
            ps.patches@[0].intent_ref is None,
            ps.patches@[0].parents@.len() == 0,
            ps.patches@[0].parent_hashes@.len() == 0,
            ps.patches@[0].source == PatchSource::System,
            ps.patches@[0].trust == TrustLevel::Trusted,
            ps.patches@[0].digest_valid(),
    {
        let ghost a = topo_view(self.topology);
        let ghost b = topo_view(other.topology);
        proof {
            lemma_nodes_model_dom(self.topology.nodes);
            lemma_nodes_model_dom(other.topology.nodes);
        }
        let mut operations: Vec<Operation> = Vec::new();
        // Nodes that only this graph has.
        let ks = sorted_keys(&self.topology.nodes);
        let mut i: usize = 0;
        proof {
            assert(ks@.take(0) =~= Seq::<StableId>::empty());
            assert(ops_view(operations@) =~= node_removals(ks@.take(0), b.nodes));
        }
        while i < ks.len()
            invariant
                b == topo_view(other.topology),
                i <= ks@.len(),
                ops_view(operations@) == node_removals(ks@.take(i as int), b.nodes),
            decreases ks@.len() - i,
        {
            let k = ks[i];
            let ghost before = ops_view(operations@);
            if !other.topology.nodes.contains_key(&k) {
                operations.push(Operation::RemoveNode(k));
            }
            proof {
                lemma_nodes_model_dom(other.topology.nodes);
                assert(ks@.take(i + 1).drop_last() =~= ks@.take(i as int));
                assert(ops_view(operations@) =~= node_removals(ks@.take(i + 1), b.nodes));
            }
            i = i + 1;
        }
        proof {
            assert(ks@.take(ks@.len() as int) =~= ks@);
        }
        let ghost p1 = ops_view(operations@);
        // Nodes of the other graph: additions and configuration changes.
        let ks2 = sorted_keys(&other.topology.nodes);
        let mut j: usize = 0;
        proof {
            assert(ks2@.take(0) =~= Seq::<StableId>::empty());
            assert(ops_view(operations@) =~= p1 + node_changes(ks2@.take(0), a.nodes, b.nodes));
        }
        while j < ks2.len()
            invariant
                a == topo_view(self.topology),
                b == topo_view(other.topology),
                enumerates(ks2@, other.topology.nodes@.dom()),
                j <= ks2@.len(),
                ops_view(operations@) == p1 + node_changes(ks2@.take(j as int), a.nodes, b.nodes),
            decreases ks2@.len() - j,
        {
            let k = ks2[j];
            let ghost before = ops_view(operations@);
            proof {
                assert(ks2@.contains(k));
                lemma_nodes_model_dom(self.topology.nodes);
                lemma_nodes_model_dom(other.topology.nodes);
            }
            let ghost ops0 = operations@;
            match other.topology.nodes.get(&k) {
                Some(node) => {
                    match self.topology.nodes.get(&k) {
                        None => {
                            let op = Operation::AddNode(node.clone());
                            proof {
                                lemma_ops_view_push(ops0, op);
                            }
                            operations.push(op);
                        },
                        Some(old) => {
                            let delta = config_diff(&old.config, &node.config);
                            let empty = delta.is_empty();
                            proof {
                                assert(a.nodes[k] == old@);
                                assert(b.nodes[k] == node@);
                                if empty {
                                    assert(delta_model(delta) =~= Map::<Seq<char>, ChangeView>::empty());
                                } else {
                                    assert(delta_model(delta).contains_key(delta.entries()[0].0@));
                                }
                            }
                            if !empty {
                                let op = Operation::ModifyConfig { node_id: k, delta };
                                proof {
                                    lemma_ops_view_push(ops0, op);
                                }
                                operations.push(op);
                            }
                        },
                    }
                },
                None => {},
            }
            proof {
                assert(ks2@.take(j + 1).drop_last() =~= ks2@.take(j as int));
                assert(ks2@.take(j + 1).last() == k);
                assert(ops_view(operations@) =~= p1 + node_changes(ks2@.take(j + 1), a.nodes, b.nodes));
            }
            j = j + 1;
        }
        proof {
            assert(ks2@.take(ks2@.len() as int) =~= ks2@);
        }
        let ghost p2 = ops_view(operations@);
        // Edges that only this graph has.
        let ks3 = sorted_keys(&self.topology.edges);
        let mut i3: usize = 0;
        proof {
            assert(ks3@.take(0) =~= Seq::<StableId>::empty());
            assert(ops_view(operations@) =~= p2 + edge_removals(ks3@.take(0), b.edges));
        }
        while i3 < ks3.len()
            invariant
                b == topo_view(other.topology),
                i3 <= ks3@.len(),
                ops_view(operations@) == p2 + edge_removals(ks3@.take(i3 as int), b.edges),
            decreases ks3@.len() - i3,
        {
            let k = ks3[i3];
            let ghost ops0 = operations@;
            if !other.topology.edges.contains_key(&k) {
                proof {
                    lemma_ops_view_push(ops0, Operation::RemoveEdge(k));
                }
                operations.push(Operation::RemoveEdge(k));
            }
            proof {
                assert(ks3@.take(i3 + 1).drop_last() =~= ks3@.take(i3 as int));
                assert(ks3@.take(i3 + 1).last() == k);
                assert(ops_view(operations@) =~= p2 + edge_removals(ks3@.take(i3 + 1), b.edges));
            }
            i3 = i3 + 1;
        }
        proof {
            assert(ks3@.take(ks3@.len() as int) =~= ks3@);
        }
        let ghost p3 = ops_view(operations@);
        // Edges of the other graph: additions and changes.
        let ks4 = sorted_keys(&other.topology.edges);
        let mut i4: usize = 0;
        proof {
            assert(ks4@.take(0) =~= Seq::<StableId>::empty());
            assert(ops_view(operations@) =~= p3 + edge_changes(ks4@.take(0), a.edges, b.edges));
        }
        while i4 < ks4.len()
            invariant
                a == topo_view(self.topology),
                b == topo_view(other.topology),
                enumerates(ks4@, other.topology.edges@.dom()),
                i4 <= ks4@.len(),
                ops_view(operations@) == p3 + edge_changes(ks4@.take(i4 as int), a.edges, b.edges),
            decreases ks4@.len() - i4,
        {
            let k = ks4[i4];
            proof {
                assert(ks4@.contains(k));
            }
            let ghost ops0 = operations@;
            match other.topology.edges.get(&k) {
                Some(edge) => {
                    match self.topology.edges.get(&k) {
                        None => {
                            let op = Operation::AddEdge(edge.clone());
                            proof {
                                lemma_ops_view_push(ops0, op);
                            }
                            operations.push(op);
                        },
                        Some(old) => {
                            if !old.same(edge) {
                                let delta = EdgeDelta {
                                    source: if !old.source.same(&edge.source) {
                                        Some(edge.source.clone())
                                    } else {
                                        None
                                    },
                                    target: if !old.target.same(&edge.target) {
                                        Some(edge.target.clone())
                                    } else {
                                        None
                                    },
                                    kind: if old.kind != edge.kind {
                                        Some(edge.kind)
                                    } else {
                                        None
                                    },
                                };
                                let op = Operation::ModifyEdge { edge_id: k, delta };
                                proof {
                                    lemma_ops_view_push(ops0, op);
                                    assert(delta == edge_delta_between(*old, *edge));
                                }
                                operations.push(op);
                            }
                        },
                    }
                },
                None => {},
            }
            proof {
                assert(ks4@.take(i4 + 1).drop_last() =~= ks4@.take(i4 as int));
                assert(ks4@.take(i4 + 1).last() == k);
                assert(ops_view(operations@) =~= p3 + edge_changes(ks4@.take(i4 + 1), a.edges, b.edges));
            }
            i4 = i4 + 1;
        }
        proof {
            assert(ks4@.take(ks4@.len() as int) =~= ks4@);
            assert(ops_view(operations@) =~= diff_ops(a, b));
        }
        let patch = Patch::from_operations(operations);
        PatchSet::single(patch)
    }
}

impl Graph {
    /// Replays the patches from an empty graph and checks the digest of the
    /// resulting topology against the expected one. A replay error is
    /// returned as it is; a digest that differs gives `HashMismatch` with both
    /// digests in hexadecimal.
    pub fn replay_and_verify(patches: &[Patch], expected_hash: &crate::types::Hash) -> (r: Result<Graph, PatchError>)
        requires
            patches@.len() < u64::MAX,
        ensures
            match r {
                Ok(g) => replayed(g, patches_view(patches@)) && topology_digest(g.topology) == expected_hash@,
                Err(PatchError::HashMismatch { expected, actual }) => {
                    &&& expected@ == hex_chars(expected_hash@)
                    &&& exists|t: Topology|
                        #[trigger] replay_ok(patches_view(patches@), topo_view(t))
                            && topology_digest(t) != expected_hash@ && actual@ == hex_chars(
                            topology_digest(t),
                        )
                },
                Err(e) => replay_err(patches_view(patches@), e),
            },
    {
        let graph = match Graph::replay(patches) {
            Ok(g) => g,
            Err(e) => {
                proof {
                    lemma_replay_err_not_digest(patches_view(patches@));
                }
                return Err(e);
            },
        };
        let actual_hash = hash_topology(&graph.topology);
        if !digest_eq(&actual_hash, expected_hash) {
            let expected = encode(expected_hash.as_slice());
            let actual = encode(actual_hash.as_slice());
            proof {
                assert(replay_ok(patches_view(patches@), topo_view(graph.topology)));
            }
            return Err(PatchError::HashMismatch { expected, actual });
        }
        Ok(graph)
    }

    /// Replaces the lineage's history by a single baseline patch that builds
    /// the current topology from an empty graph. The topology, revision and
    /// snapshots are kept.
    pub fn squash_history(&mut self)
        ensures
            final(self).topology == old(self).topology,
            final(self).revision == old(self).revision,
            final(self).spec_version == old(self).spec_version,
            final(self).verification == old(self).verification,
            final(self).nodes == old(self).nodes,
            final(self).edges == old(self).edges,
            final(self).modulations == old(self).modulations,
            final(self).lineage.snapshots == old(self).lineage.snapshots,
            final(self).lineage.applied_patches@.len() == 1,
            ({
                let id = final(self).lineage.applied_patches@[0];
                let base = final(self).lineage.history@[id];
                &&& final(self).lineage.history@.dom() == set![id]
                &&& base@.operations == diff_ops(empty_topo(), topo_view(old(self).topology))
                &&& base@.identity == id
                &&& base@.intent_ref is None
                &&& base@.source == PatchSource::System
                &&& base@.trust == TrustLevel::Trusted
            }),
    {
        let empty = Graph::new();
        proof {
            assert(nodes_model(empty.topology.nodes) =~= Map::<StableId, NodeView>::empty());
            assert(topo_view(empty.topology) =~= empty_topo());
        }
        let patch_set = empty.diff(self);
        if patch_set.patches.len() > 0 {
            let baseline = &patch_set.patches[0];
            self.lineage.applied_patches = vec![baseline.identity];
            self.lineage.history = BTreeMap::new();
            self.lineage.history.insert(baseline.identity, baseline.clone());
            proof {
                assert(self.lineage.history@.dom() =~= set![baseline.identity]);
            }
        }
    }
}

/// Applying operations never fails with a digest mismatch.
proof fn lemma_apply_ops_err_not_digest(t: TopoView, ops: Seq<OpView>)
    ensures
        apply_ops(t, ops).1 matches Some(e) ==> !(e is HashMismatch),
    decreases ops.len(),
{
    if ops.len() > 0 {
        match apply_op(t, ops[0]) {
            Ok(t2) => lemma_apply_ops_err_not_digest(t2, ops.drop_first()),
            Err(_) => {},
        }
    }
}

/// Replaying never fails with a digest mismatch.
proof fn lemma_replay_err_not_digest(ps: Seq<PatchView>)
    ensures
        replay_steps(ps).1 matches Some(e) ==> !(e is HashMismatch),
    decreases ps.len(),
{
    if ps.len() > 0 {
        lemma_replay_err_not_digest(ps.drop_last());
        let (t, e) = replay_steps(ps.drop_last());
        if e is None {
            lemma_apply_ops_err_not_digest(t, ps.last().operations);
        }
    }
}

// ──────────────────────────────────────────────
// Laws of diff and replay
// ──────────────────────────────────────────────

/// Each node is stored under its own identifier, each edge too, and every
/// edge connects two nodes of the topology.
pub open spec fn well_formed_topo(t: TopoView) -> bool {
    &&& forall|k: StableId| #[trigger] t.nodes.contains_key(k) ==> t.nodes[k].id == k
    &&& forall|k: StableId| #[trigger] t.edges.contains_key(k) ==> t.edges[k].id == k
        && t.nodes.contains_key(t.edges[k].source.node_id) && t.nodes.contains_key(t.edges[k].target.node_id)
}

proof fn lemma_key_order_empty()
    ensures
        key_order(Set::<StableId>::empty()) == Seq::<StableId>::empty(),
{
    assert(enumerates(Seq::<StableId>::empty(), Set::<StableId>::empty()));
    crate::keyorder::lemma_key_order(Seq::<StableId>::empty(), Set::<StableId>::empty());
}

/// Applying operations one more at a time.
proof fn lemma_apply_ops_push(t: TopoView, s: Seq<OpView>, x: OpView)
    ensures
        apply_ops(t, s.push(x)) == (match apply_ops(t, s) {
            (t1, Some(e)) => (t1, Some(e)),
            (t1, None) => match apply_op(t1, x) {
                Ok(t2) => (t2, None),
                Err(e) => (t1, Some(e)),
            },
        }),
    decreases s.len(),
{
    if s.len() == 0 {
        assert(s.push(x).drop_first() =~= Seq::<OpView>::empty());
        assert(s.push(x)[0] == x);
        reveal_with_fuel(apply_ops, 2);
    } else {
        assert(s.push(x).drop_first() =~= s.drop_first().push(x));
        assert(s.push(x)[0] == s[0]);
        match apply_op(t, s[0]) {
            Ok(t2) => lemma_apply_ops_push(t2, s.drop_first(), x),
            Err(_) => {},
        }
    }
}

/// Applying two lists of operations one after the other.
proof fn lemma_apply_ops_concat(t: TopoView, a: Seq<OpView>, b: Seq<OpView>)
    ensures
        apply_ops(t, a + b) == (match apply_ops(t, a) {
            (t1, Some(e)) => (t1, Some(e)),
            (t1, None) => apply_ops(t1, b),
        }),
    decreases a.len(),
{
    if a.len() == 0 {
        assert(a + b =~= b);
    } else {
        assert((a + b).drop_first() =~= a.drop_first() + b);
        match apply_op(t, a[0]) {
            Ok(t2) => lemma_apply_ops_concat(t2, a.drop_first(), b),
            Err(_) => {},
        }
    }
}

proof fn lemma_node_removals_none(ks: Seq<StableId>, b: Map<StableId, NodeView>)
    requires
        forall|i: int| 0 <= i < ks.len() ==> b.contains_key(#[trigger] ks[i]),
    ensures
        node_removals(ks, b) == Seq::<OpView>::empty(),
    decreases ks.len(),
{
    if ks.len() > 0 {
        lemma_node_removals_none(ks.drop_last(), b);
        assert(b.contains_key(ks[ks.len() - 1]));
    }
}

proof fn lemma_edge_removals_none(ks: Seq<StableId>, b: Map<StableId, Edge>)
    requires
        forall|i: int| 0 <= i < ks.len() ==> b.contains_key(#[trigger] ks[i]),
    ensures
        edge_removals(ks, b) == Seq::<OpView>::empty(),
    decreases ks.len(),
{
    if ks.len() > 0 {
        lemma_edge_removals_none(ks.drop_last(), b);
        assert(b.contains_key(ks[ks.len() - 1]));
    }
}

/// Adding the listed nodes one by one to a topology without them.
proof fn lemma_add_nodes(t: TopoView, ks: Seq<StableId>, n: Map<StableId, NodeView>)
    requires
        crate::keyorder::increasing(ks),
        forall|i: int| 0 <= i < ks.len() ==> n.contains_key(#[trigger] ks[i]) && n[ks[i]].id == ks[i],
        t.nodes == Map::<StableId, NodeView>::empty(),
    ensures
        apply_ops(t, node_changes(ks, Map::empty(), n)) == (
            TopoView { nodes: Map::new(|k: StableId| ks.contains(k), |k: StableId| n[k]), ..t },
            None::<PatchError>,
        ),
    decreases ks.len(),
{
    if ks.len() == 0 {
        assert(Map::new(|k: StableId| ks.contains(k), |k: StableId| n[k]) =~= Map::<StableId, NodeView>::empty());
        assert(TopoView { nodes: Map::new(|k: StableId| ks.contains(k), |k: StableId| n[k]), ..t } == t);
    } else {
        let rest = ks.drop_last();
        let k = ks.last();
        assert(crate::keyorder::increasing(rest));
        assert forall|i: int| 0 <= i < rest.len() implies n.contains_key(#[trigger] rest[i]) && n[rest[i]].id == rest[i] by {
            assert(rest[i] == ks[i]);
        }
        lemma_add_nodes(t, rest, n);
        let prev = node_changes(rest, Map::empty(), n);
        assert(node_changes(ks, Map::empty(), n) == prev.push(OpView::AddNode(n[k]))) by {
            assert(prev + seq![OpView::AddNode(n[k])] =~= prev.push(OpView::AddNode(n[k])));
        }
        lemma_apply_ops_push(t, prev, OpView::AddNode(n[k]));
        let t1 = TopoView { nodes: Map::new(|q: StableId| rest.contains(q), |q: StableId| n[q]), ..t };
        assert(n[k].id == k) by {
            assert(ks[ks.len() - 1] == k);
        }
        assert(!rest.contains(k)) by {
            if rest.contains(k) {
                let p = choose|p: int| 0 <= p < rest.len() && rest[p] == k;
                assert(ks[p] < ks[ks.len() - 1]);
            }
        }
        assert(t1.nodes.insert(k, n[k]) =~= Map::new(|q: StableId| ks.contains(q), |q: StableId| n[q])) by {
            assert forall|q: StableId| ks.contains(q) <==> (rest.contains(q) || q == k) by {
                if ks.contains(q) {
                    let p = choose|p: int| 0 <= p < ks.len() && ks[p] == q;
                    if p < ks.len() - 1 {
                        assert(rest[p] == q);
                    }
                }
                if rest.contains(q) {
                    let p = choose|p: int| 0 <= p < rest.len() && rest[p] == q;
                    assert(ks[p] == q);
                }
                assert(ks[ks.len() - 1] == k);
            }
        }
    }
}

/// Adding the listed edges one by one to a topology that holds their ends.
proof fn lemma_add_edges(t: TopoView, ks: Seq<StableId>, e: Map<StableId, Edge>)
    requires
        crate::keyorder::increasing(ks),
        forall|i: int|
            0 <= i < ks.len() ==> e.contains_key(#[trigger] ks[i]) && e[ks[i]].id == ks[i] && t.nodes.contains_key(
                e[ks[i]].source.node_id,
            ) && t.nodes.contains_key(e[ks[i]].target.node_id),
        t.edges == Map::<StableId, Edge>::empty(),
    ensures
        apply_ops(t, edge_changes(ks, Map::empty(), e)) == (
            TopoView { edges: Map::new(|k: StableId| ks.contains(k), |k: StableId| e[k]), ..t },
            None::<PatchError>,
        ),
    decreases ks.len(),
{
    if ks.len() == 0 {
        assert(Map::new(|k: StableId| ks.contains(k), |k: StableId| e[k]) =~= Map::<StableId, Edge>::empty());
        assert(TopoView { edges: Map::new(|k: StableId| ks.contains(k), |k: StableId| e[k]), ..t } == t);
    } else {
        let rest = ks.drop_last();
        let k = ks.last();
        assert(crate::keyorder::increasing(rest));
        assert forall|i: int|
            0 <= i < rest.len() implies e.contains_key(#[trigger] rest[i]) && e[rest[i]].id == rest[i]
                && t.nodes.contains_key(e[rest[i]].source.node_id) && t.nodes.contains_key(e[rest[i]].target.node_id) by {
            assert(rest[i] == ks[i]);
        }
        lemma_add_edges(t, rest, e);
        let prev = edge_changes(rest, Map::empty(), e);
        assert(edge_changes(ks, Map::empty(), e) == prev.push(OpView::AddEdge(e[k]))) by {
            assert(prev + seq![OpView::AddEdge(e[k])] =~= prev.push(OpView::AddEdge(e[k])));
        }
        lemma_apply_ops_push(t, prev, OpView::AddEdge(e[k]));
        let t1 = TopoView { edges: Map::new(|q: StableId| rest.contains(q), |q: StableId| e[q]), ..t };
        assert(e[k].id == k && t.nodes.contains_key(e[k].source.node_id) && t.nodes.contains_key(e[k].target.node_id)) by {
            assert(ks[ks.len() - 1] == k);
        }
        assert(!rest.contains(k)) by {
            if rest.contains(k) {
                let p = choose|p: int| 0 <= p < rest.len() && rest[p] == k;
                assert(ks[p] < ks[ks.len() - 1]);
            }
        }
        assert(t1.edges.insert(k, e[k]) =~= Map::new(|q: StableId| ks.contains(q), |q: StableId| e[q])) by {
            assert forall|q: StableId| ks.contains(q) <==> (rest.contains(q) || q == k) by {
                if ks.contains(q) {
                    let p = choose|p: int| 0 <= p < ks.len() && ks[p] == q;
                    if p < ks.len() - 1 {
                        assert(rest[p] == q);
                    }
                }
                if rest.contains(q) {
                    let p = choose|p: int| 0 <= p < rest.len() && rest[p] == q;
                    assert(ks[p] == q);
                }
                assert(ks[ks.len() - 1] == k);
            }
        }
    }
}

/// The operations that build a topology from an empty one rebuild it, all but
/// its modulations (which `diff` does not compare), when each node and edge is
/// stored under its own identifier and every edge connects two of its nodes.
/// This is what makes the baseline patch of `squash_history` stand for the
/// history it replaces.
pub proof fn law_diff_from_empty_rebuilds(t: TopoView)
    requires
        well_formed_topo(t),
        t.nodes.dom().finite(),
        t.edges.dom().finite(),
    ensures
        apply_ops(empty_topo(), diff_ops(empty_topo(), t)) == (
            TopoView { nodes: t.nodes, edges: t.edges, modulations: Map::<StableId, Modulation>::empty() },
            None::<PatchError>,
        ),
{
    let e0 = empty_topo();
    lemma_key_order_empty();
    assert(e0.nodes.dom() =~= Set::<StableId>::empty());
    assert(e0.edges.dom() =~= Set::<StableId>::empty());
    let nk = key_order(t.nodes.dom());
    let ek = key_order(t.edges.dom());
    crate::keyorder::lemma_key_order_exists(t.nodes.dom());
    crate::keyorder::lemma_key_order_exists(t.edges.dom());
    let adds = node_changes(nk, e0.nodes, t.nodes);
    let eadds = edge_changes(ek, e0.edges, t.edges);
    assert(node_removals(Seq::<StableId>::empty(), t.nodes) == Seq::<OpView>::empty());
    assert(edge_removals(Seq::<StableId>::empty(), t.edges) == Seq::<OpView>::empty());
    assert(diff_ops(e0, t) =~= adds + eadds);
    lemma_apply_ops_concat(e0, adds, eadds);
    assert forall|i: int| 0 <= i < nk.len() implies t.nodes.contains_key(#[trigger] nk[i]) && t.nodes[nk[i]].id == nk[i] by {
        assert(nk.contains(nk[i]));
    }
    lemma_add_nodes(e0, nk, t.nodes);
    let t1 = TopoView { nodes: Map::new(|k: StableId| nk.contains(k), |k: StableId| t.nodes[k]), ..e0 };
    assert(t1.nodes =~= t.nodes);
    assert forall|i: int|
        0 <= i < ek.len() implies t.edges.contains_key(#[trigger] ek[i]) && t.edges[ek[i]].id == ek[i]
            && t1.nodes.contains_key(t.edges[ek[i]].source.node_id) && t1.nodes.contains_key(t.edges[ek[i]].target.node_id) by {
        assert(ek.contains(ek[i]));
    }
    lemma_add_edges(t1, ek, t.edges);
    assert(Map::new(|k: StableId| ek.contains(k), |k: StableId| t.edges[k]) =~= t.edges);
}

/// A configuration changed by the delta from `x` to `y` has `y`'s keys; under
/// each key it holds `y`'s value, or `x`'s where the two are equal as
/// configuration values.
pub proof fn law_config_diff_applies(x: Map<Seq<char>, CValue>, y: Map<Seq<char>, CValue>)
    ensures
        apply_delta(x, config_diff_spec(x, y)).dom() == y.dom(),
        forall|k: Seq<char>|
            #[trigger] y.contains_key(k) ==> apply_delta(x, config_diff_spec(x, y))[k] == y[k] || (x.contains_key(k)
                && crate::types::cvalue_eq(x[k], y[k]) && apply_delta(x, config_diff_spec(x, y))[k] == x[k]),
{
    assert(apply_delta(x, config_diff_spec(x, y)).dom() =~= y.dom());
}

/// Replaying a list of patches has one outcome: two replays that succeed give
/// the same topology.
pub proof fn law_replay_deterministic(ps: Seq<PatchView>, t1: TopoView, t2: TopoView)
    requires
        replay_ok(ps, t1),
        replay_ok(ps, t2),
    ensures
        t1 == t2,
{
}


/// Every configuration value of every node equals itself (none is NaN).
pub open spec fn self_equal_configs(nodes: Map<StableId, NodeView>) -> bool {
    forall|k: StableId, key: Seq<char>|
        #![trigger nodes[k].config[key]]
        nodes.contains_key(k) && nodes[k].config.contains_key(key) ==> crate::types::cvalue_eq(
            nodes[k].config[key],
            nodes[k].config[key],
        )
}

proof fn lemma_node_changes_none(ks: Seq<StableId>, a: Map<StableId, NodeView>)
    requires
        forall|i: int| 0 <= i < ks.len() ==> a.contains_key(#[trigger] ks[i]),
        self_equal_configs(a),
    ensures
        node_changes(ks, a, a) == Seq::<OpView>::empty(),
    decreases ks.len(),
{
    if ks.len() > 0 {
        lemma_node_changes_none(ks.drop_last(), a);
        let k = ks[ks.len() - 1];
        assert(a.contains_key(k));
        assert(config_diff_spec(a[k].config, a[k].config) =~= Map::<Seq<char>, ChangeView>::empty()) by {
            assert forall|key: Seq<char>| !#[trigger] config_diff_spec(a[k].config, a[k].config).contains_key(key) by {
                if a[k].config.contains_key(key) {
                    assert(crate::types::cvalue_eq(a[k].config[key], a[k].config[key]));
                }
            }
        }
    }
}

proof fn lemma_edge_changes_none(ks: Seq<StableId>, a: Map<StableId, Edge>)
    requires
        forall|i: int| 0 <= i < ks.len() ==> a.contains_key(#[trigger] ks[i]),
    ensures
        edge_changes(ks, a, a) == Seq::<OpView>::empty(),
    decreases ks.len(),
{
    if ks.len() > 0 {
        lemma_edge_changes_none(ks.drop_last(), a);
        assert(a.contains_key(ks[ks.len() - 1]));
    }
}

/// The difference of a topology with itself is empty, when no configuration
/// value is NaN (NaN differs from itself, so a NaN setting is listed as a
/// change).
pub proof fn law_diff_with_itself_is_empty(t: TopoView)
    requires
        t.nodes.dom().finite(),
        t.edges.dom().finite(),
        self_equal_configs(t.nodes),
    ensures
        diff_ops(t, t) == Seq::<OpView>::empty(),
{
    crate::keyorder::lemma_key_order_exists(t.nodes.dom());
    crate::keyorder::lemma_key_order_exists(t.edges.dom());
    let nk = key_order(t.nodes.dom());
    let ek = key_order(t.edges.dom());
    assert forall|i: int| 0 <= i < nk.len() implies t.nodes.contains_key(#[trigger] nk[i]) by {
        assert(nk.contains(nk[i]));
    }
    assert forall|i: int| 0 <= i < ek.len() implies t.edges.contains_key(#[trigger] ek[i]) by {
        assert(ek.contains(ek[i]));
    }
    lemma_node_removals_none(nk, t.nodes);
    lemma_node_changes_none(nk, t.nodes);
    lemma_edge_removals_none(ek, t.edges);
    lemma_edge_changes_none(ek, t.edges);
    assert(diff_ops(t, t) =~= Seq::<OpView>::empty());
}


// ──────────────────────────────────────────────
// Applying a difference
// ──────────────────────────────────────────────

proof fn lemma_increasing_last(ks: Seq<StableId>)
    requires
        crate::keyorder::increasing(ks),
        ks.len() > 0,
    ensures
        crate::keyorder::increasing(ks.drop_last()),
        !ks.drop_last().contains(ks.last()),
        forall|q: StableId| #[trigger] ks.contains(q) <==> (ks.drop_last().contains(q) || q == ks.last()),
{
    let rest = ks.drop_last();
    let k = ks.last();
    assert(crate::keyorder::increasing(rest)) by {
        assert forall|i: int, j: int| 0 <= i < j < rest.len() implies #[trigger] rest[i] < #[trigger] rest[j] by {
            assert(rest[i] == ks[i] && rest[j] == ks[j]);
        }
    }
    if rest.contains(k) {
        let p = choose|p: int| 0 <= p < rest.len() && rest[p] == k;
        assert(ks[p] < ks[ks.len() - 1]);
    }
    assert forall|q: StableId| #[trigger] ks.contains(q) <==> (rest.contains(q) || q == k) by {
        if ks.contains(q) {
            let p = choose|p: int| 0 <= p < ks.len() && ks[p] == q;
            if p < ks.len() - 1 {
                assert(rest[p] == q);
            }
        }
        if rest.contains(q) {
            let p = choose|p: int| 0 <= p < rest.len() && rest[p] == q;
            assert(ks[p] == q);
        }
        assert(ks[ks.len() - 1] == k);
    }
}

/// The nodes left after removing the listed nodes that `keep` lacks.
pub open spec fn kept_nodes(nodes: Map<StableId, NodeView>, ks: Seq<StableId>, keep: Map<StableId, NodeView>) -> Map<StableId, NodeView> {
    Map::new(|k: StableId| nodes.contains_key(k) && !(ks.contains(k) && !keep.contains_key(k)), |k: StableId| nodes[k])
}

/// Removing listed nodes that no edge touches.
proof fn lemma_remove_nodes(t: TopoView, ks: Seq<StableId>, keep: Map<StableId, NodeView>)
    requires
        crate::keyorder::increasing(ks),
        forall|i: int| 0 <= i < ks.len() ==> t.nodes.contains_key(#[trigger] ks[i]),
        forall|k: StableId, i: int|
            #![trigger t.edges[k], ks[i]]
            t.edges.contains_key(k) && 0 <= i < ks.len() && !keep.contains_key(ks[i]) ==> !touches(t.edges[k], ks[i]),
    ensures
        apply_ops(t, node_removals(ks, keep)) == (TopoView { nodes: kept_nodes(t.nodes, ks, keep), ..t }, None::<PatchError>),
    decreases ks.len(),
{
    if ks.len() == 0 {
        assert(kept_nodes(t.nodes, ks, keep) =~= t.nodes);
        assert(TopoView { nodes: kept_nodes(t.nodes, ks, keep), ..t } == t);
    } else {
        let rest = ks.drop_last();
        let k = ks.last();
        lemma_increasing_last(ks);
        assert forall|i: int| 0 <= i < rest.len() implies t.nodes.contains_key(#[trigger] rest[i]) by {
            assert(rest[i] == ks[i]);
        }
        assert forall|q: StableId, i: int|
            #![trigger t.edges[q], rest[i]]
            t.edges.contains_key(q) && 0 <= i < rest.len() && !keep.contains_key(rest[i]) implies !touches(t.edges[q], rest[i]) by {
            assert(rest[i] == ks[i]);
        }
        lemma_remove_nodes(t, rest, keep);
        let prev = node_removals(rest, keep);
        let t1 = TopoView { nodes: kept_nodes(t.nodes, rest, keep), ..t };
        if keep.contains_key(k) {
            assert(node_removals(ks, keep) =~= prev);
            assert(kept_nodes(t.nodes, ks, keep) =~= kept_nodes(t.nodes, rest, keep));
        } else {
            assert(node_removals(ks, keep) =~= prev.push(OpView::RemoveNode(k)));
            lemma_apply_ops_push(t, prev, OpView::RemoveNode(k));
            assert(t.nodes.contains_key(ks[ks.len() - 1]));
            assert(t1.nodes.contains_key(k));
            assert(detach(t1.edges, k) =~= t1.edges) by {
                assert forall|q: StableId| t1.edges.contains_key(q) implies !touches(t1.edges[q], k) by {
                    assert(ks[ks.len() - 1] == k);
                }
            }
            assert(t1.nodes.remove(k) =~= kept_nodes(t.nodes, ks, keep));
        }
    }
}


/// A node of `b` after the difference from `a` is applied: added as it is
/// in `b`, or `a`'s node with the configuration changes applied.
pub open spec fn changed_node(a: Map<StableId, NodeView>, b: Map<StableId, NodeView>, k: StableId) -> NodeView {
    if !a.contains_key(k) {
        b[k]
    } else {
        NodeView { config: apply_delta(a[k].config, config_diff_spec(a[k].config, b[k].config)), ..a[k] }
    }
}

/// The nodes after the listed nodes of `b` are added or changed.
pub open spec fn changed_nodes(
    nodes: Map<StableId, NodeView>,
    ks: Seq<StableId>,
    a: Map<StableId, NodeView>,
    b: Map<StableId, NodeView>,
) -> Map<StableId, NodeView> {
    Map::new(
        |k: StableId| nodes.contains_key(k) || ks.contains(k),
        |k: StableId|
            if ks.contains(k) {
                changed_node(a, b, k)
            } else {
                nodes[k]
            },
    )
}

proof fn lemma_apply_empty_delta(c: Map<Seq<char>, CValue>)
    ensures
        apply_delta(c, Map::<Seq<char>, ChangeView>::empty()) == c,
{
    assert(apply_delta(c, Map::<Seq<char>, ChangeView>::empty()) =~= c);
}

/// Adding the listed nodes of `b` that `a` lacks and changing the
/// configuration of the others.
proof fn lemma_change_nodes(t: TopoView, ks: Seq<StableId>, a: Map<StableId, NodeView>, b: Map<StableId, NodeView>)
    requires
        crate::keyorder::increasing(ks),
        forall|i: int| 0 <= i < ks.len() ==> b.contains_key(#[trigger] ks[i]) && b[ks[i]].id == ks[i],
        forall|i: int| 0 <= i < ks.len() ==> (t.nodes.contains_key(#[trigger] ks[i]) <==> a.contains_key(ks[i])),
        forall|i: int| 0 <= i < ks.len() && t.nodes.contains_key(#[trigger] ks[i]) ==> t.nodes[ks[i]] == a[ks[i]],
    ensures
        apply_ops(t, node_changes(ks, a, b)) == (TopoView { nodes: changed_nodes(t.nodes, ks, a, b), ..t }, None::<PatchError>),
    decreases ks.len(),
{
    if ks.len() == 0 {
        assert(changed_nodes(t.nodes, ks, a, b) =~= t.nodes);
        assert(TopoView { nodes: changed_nodes(t.nodes, ks, a, b), ..t } == t);
    } else {
        let rest = ks.drop_last();
        let k = ks.last();
        lemma_increasing_last(ks);
        assert forall|i: int| 0 <= i < rest.len() implies b.contains_key(#[trigger] rest[i]) && b[rest[i]].id == rest[i]
            && (t.nodes.contains_key(rest[i]) <==> a.contains_key(rest[i])) && (t.nodes.contains_key(rest[i])
            ==> t.nodes[rest[i]] == a[rest[i]]) by {
            assert(rest[i] == ks[i]);
        }
        lemma_change_nodes(t, rest, a, b);
        let prev = node_changes(rest, a, b);
        let t1 = TopoView { nodes: changed_nodes(t.nodes, rest, a, b), ..t };
        assert(ks[ks.len() - 1] == k);
        assert(b.contains_key(k) && b[k].id == k);
        if !a.contains_key(k) {
            assert(node_changes(ks, a, b) =~= prev.push(OpView::AddNode(b[k])));
            lemma_apply_ops_push(t, prev, OpView::AddNode(b[k]));
            assert(!t1.nodes.contains_key(k));
            assert(t1.nodes.insert(k, b[k]) =~= changed_nodes(t.nodes, ks, a, b));
        } else {
            let delta = config_diff_spec(a[k].config, b[k].config);
            assert(t.nodes.contains_key(k) && t.nodes[k] == a[k]);
            if delta == Map::<Seq<char>, ChangeView>::empty() {
                assert(node_changes(ks, a, b) =~= prev);
                lemma_apply_empty_delta(a[k].config);
                assert(changed_node(a, b, k) == a[k]);
                assert(changed_nodes(t.nodes, ks, a, b) =~= changed_nodes(t.nodes, rest, a, b));
            } else {
                let op = OpView::ModifyConfig { node_id: k, delta };
                assert(node_changes(ks, a, b) =~= prev.push(op));
                lemma_apply_ops_push(t, prev, op);
                assert(t1.nodes.contains_key(k) && t1.nodes[k] == a[k]);
                assert(t1.nodes.insert(k, NodeView { config: apply_delta(t1.nodes[k].config, delta), ..t1.nodes[k] })
                    =~= changed_nodes(t.nodes, ks, a, b));
            }
        }
    }
}


/// The edges left after removing the listed edges that `keep` lacks.
pub open spec fn kept_edges(edges: Map<StableId, Edge>, ks: Seq<StableId>, keep: Map<StableId, Edge>) -> Map<StableId, Edge> {
    Map::new(|k: StableId| edges.contains_key(k) && !(ks.contains(k) && !keep.contains_key(k)), |k: StableId| edges[k])
}

/// Removing listed edges.
proof fn lemma_remove_edges(t: TopoView, ks: Seq<StableId>, keep: Map<StableId, Edge>)
    requires
        crate::keyorder::increasing(ks),
        forall|i: int| 0 <= i < ks.len() ==> t.edges.contains_key(#[trigger] ks[i]),
    ensures
        apply_ops(t, edge_removals(ks, keep)) == (TopoView { edges: kept_edges(t.edges, ks, keep), ..t }, None::<PatchError>),
    decreases ks.len(),
{
    if ks.len() == 0 {
        assert(kept_edges(t.edges, ks, keep) =~= t.edges);
        assert(TopoView { edges: kept_edges(t.edges, ks, keep), ..t } == t);
    } else {
        let rest = ks.drop_last();
        let k = ks.last();
        lemma_increasing_last(ks);
        assert forall|i: int| 0 <= i < rest.len() implies t.edges.contains_key(#[trigger] rest[i]) by {
            assert(rest[i] == ks[i]);
        }
        lemma_remove_edges(t, rest, keep);
        let prev = edge_removals(rest, keep);
        let t1 = TopoView { edges: kept_edges(t.edges, rest, keep), ..t };
        assert(ks[ks.len() - 1] == k);
        if keep.contains_key(k) {
            assert(edge_removals(ks, keep) =~= prev);
            assert(kept_edges(t.edges, ks, keep) =~= kept_edges(t.edges, rest, keep));
        } else {
            assert(edge_removals(ks, keep) =~= prev.push(OpView::RemoveEdge(k)));
            lemma_apply_ops_push(t, prev, OpView::RemoveEdge(k));
            assert(t1.edges.contains_key(k));
            assert(t1.edges.remove(k) =~= kept_edges(t.edges, ks, keep));
        }
    }
}

/// An edge of `b` after the difference from `a` is applied.
pub open spec fn changed_edge(a: Map<StableId, Edge>, b: Map<StableId, Edge>, k: StableId) -> Edge {
    if !a.contains_key(k) {
        b[k]
    } else if a[k]@ == b[k]@ {
        a[k]
    } else {
        modified_edge(a[k], edge_delta_between(a[k], b[k]))
    }
}

/// The edges after the listed edges of `b` are added or changed.
pub open spec fn changed_edges(edges: Map<StableId, Edge>, ks: Seq<StableId>, a: Map<StableId, Edge>, b: Map<StableId, Edge>) -> Map<StableId, Edge> {
    Map::new(
        |k: StableId| edges.contains_key(k) || ks.contains(k),
        |k: StableId|
            if ks.contains(k) {
                changed_edge(a, b, k)
            } else {
                edges[k]
            },
    )
}

/// Adding the listed edges of `b` that `a` lacks and changing the others,
/// when their ends are nodes of the topology.
proof fn lemma_change_edges(t: TopoView, ks: Seq<StableId>, a: Map<StableId, Edge>, b: Map<StableId, Edge>)
    requires
        crate::keyorder::increasing(ks),
        forall|i: int|
            0 <= i < ks.len() ==> b.contains_key(#[trigger] ks[i]) && b[ks[i]].id == ks[i] && t.nodes.contains_key(
                b[ks[i]].source.node_id,
            ) && t.nodes.contains_key(b[ks[i]].target.node_id),
        forall|i: int| 0 <= i < ks.len() ==> (t.edges.contains_key(#[trigger] ks[i]) <==> a.contains_key(ks[i])),
        forall|i: int| 0 <= i < ks.len() && t.edges.contains_key(#[trigger] ks[i]) ==> t.edges[ks[i]] == a[ks[i]],
    ensures
        apply_ops(t, edge_changes(ks, a, b)) == (TopoView { edges: changed_edges(t.edges, ks, a, b), ..t }, None::<PatchError>),
    decreases ks.len(),
{
    if ks.len() == 0 {
        assert(changed_edges(t.edges, ks, a, b) =~= t.edges);
        assert(TopoView { edges: changed_edges(t.edges, ks, a, b), ..t } == t);
    } else {
        let rest = ks.drop_last();
        let k = ks.last();
        lemma_increasing_last(ks);
        assert forall|i: int| 0 <= i < rest.len() implies b.contains_key(#[trigger] rest[i]) && b[rest[i]].id == rest[i]
            && t.nodes.contains_key(b[rest[i]].source.node_id) && t.nodes.contains_key(b[rest[i]].target.node_id)
            && (t.edges.contains_key(rest[i]) <==> a.contains_key(rest[i])) && (t.edges.contains_key(rest[i])
            ==> t.edges[rest[i]] == a[rest[i]]) by {
            assert(rest[i] == ks[i]);
        }
        lemma_change_edges(t, rest, a, b);
        let prev = edge_changes(rest, a, b);
        let t1 = TopoView { edges: changed_edges(t.edges, rest, a, b), ..t };
        assert(ks[ks.len() - 1] == k);
        assert(b.contains_key(k) && b[k].id == k);
        if !a.contains_key(k) {
            assert(edge_changes(ks, a, b) =~= prev.push(OpView::AddEdge(b[k])));
            lemma_apply_ops_push(t, prev, OpView::AddEdge(b[k]));
            assert(!t1.edges.contains_key(k));
            assert(t1.edges.insert(k, b[k]) =~= changed_edges(t.edges, ks, a, b));
        } else if a[k]@ == b[k]@ {
            assert(edge_changes(ks, a, b) =~= prev);
            assert(t.edges.contains_key(k) && t.edges[k] == a[k]);
            assert(changed_edges(t.edges, ks, a, b) =~= changed_edges(t.edges, rest, a, b));
        } else {
            let op = OpView::ModifyEdge { edge_id: k, delta: edge_delta_between(a[k], b[k]) };
            assert(edge_changes(ks, a, b) =~= prev.push(op));
            lemma_apply_ops_push(t, prev, op);
            assert(t.edges.contains_key(k) && t.edges[k] == a[k]);
            assert(t1.edges.contains_key(k) && t1.edges[k] == a[k]);
            assert(t1.edges.insert(k, modified_edge(t1.edges[k], edge_delta_between(a[k], b[k])))
                =~= changed_edges(t.edges, ks, a, b));
        }
    }
}


/// Two nodes agree in everything but their configuration.
pub open spec fn differs_in_config_only(x: NodeView, y: NodeView) -> bool {
    x == NodeView { config: x.config, ..y }
}

/// A node of `b` as applying the difference from `a` leaves it: `b`'s node,
/// with `a`'s configuration changed by the configuration difference when
/// `a` held the node.
pub open spec fn diffed_node(a: Map<StableId, NodeView>, b: Map<StableId, NodeView>, k: StableId) -> NodeView {
    if a.contains_key(k) {
        NodeView { config: apply_delta(a[k].config, config_diff_spec(a[k].config, b[k].config)), ..b[k] }
    } else {
        b[k]
    }
}

/// Applying the difference from `a` to `b` to `a` succeeds and gives `b`:
/// `b`'s nodes (with `a`'s configuration changed by the difference, which
/// gives `b`'s values up to IEEE equality, see `law_config_diff_applies`),
/// `b`'s edges, and `a`'s modulations (which the difference does not
/// compare). This holds when both topologies are well formed, every edge of
/// `a` joins two nodes that `b` keeps, and a node that both hold differs at
/// most in its configuration (the difference compares nothing else).
pub proof fn law_diff_applies(a: TopoView, b: TopoView)
    requires
        well_formed_topo(a),
        well_formed_topo(b),
        a.nodes.dom().finite(),
        a.edges.dom().finite(),
        b.nodes.dom().finite(),
        b.edges.dom().finite(),
        forall|k: StableId|
            #[trigger] a.edges.contains_key(k) ==> b.nodes.contains_key(a.edges[k].source.node_id)
                && b.nodes.contains_key(a.edges[k].target.node_id),
        forall|k: StableId|
            #[trigger] a.nodes.contains_key(k) && b.nodes.contains_key(k) ==> differs_in_config_only(a.nodes[k], b.nodes[k]),
    ensures
        ({
            let (t, err) = apply_ops(a, diff_ops(a, b));
            &&& err is None
            &&& t.nodes.dom() == b.nodes.dom()
            &&& forall|k: StableId| #[trigger] b.nodes.contains_key(k) ==> t.nodes[k] == diffed_node(a.nodes, b.nodes, k)
            &&& t.edges.dom() == b.edges.dom()
            &&& forall|k: StableId| #[trigger] b.edges.contains_key(k) ==> t.edges[k]@ == b.edges[k]@
            &&& t.modulations == a.modulations
        }),
{
    let nka = key_order(a.nodes.dom());
    let nkb = key_order(b.nodes.dom());
    let eka = key_order(a.edges.dom());
    let ekb = key_order(b.edges.dom());
    crate::keyorder::lemma_key_order_exists(a.nodes.dom());
    crate::keyorder::lemma_key_order_exists(b.nodes.dom());
    crate::keyorder::lemma_key_order_exists(a.edges.dom());
    crate::keyorder::lemma_key_order_exists(b.edges.dom());
    let r1 = node_removals(nka, b.nodes);
    let c2 = node_changes(nkb, a.nodes, b.nodes);
    let r3 = edge_removals(eka, b.edges);
    let c4 = edge_changes(ekb, a.edges, b.edges);
    lemma_apply_ops_concat(a, r1 + c2 + r3, c4);
    lemma_apply_ops_concat(a, r1 + c2, r3);
    lemma_apply_ops_concat(a, r1, c2);

    // removing the nodes that `b` lacks
    assert forall|i: int| 0 <= i < nka.len() implies a.nodes.contains_key(#[trigger] nka[i]) by {
        assert(nka.contains(nka[i]));
    }
    lemma_remove_nodes(a, nka, b.nodes);
    let t1 = TopoView { nodes: kept_nodes(a.nodes, nka, b.nodes), ..a };
    assert forall|k: StableId| t1.nodes.contains_key(k) <==> (a.nodes.contains_key(k) && b.nodes.contains_key(k)) by {
        if a.nodes.contains_key(k) {
            assert(nka.contains(k));
        }
    }

    // adding and changing the nodes of `b`
    assert forall|i: int|
        0 <= i < nkb.len() implies b.nodes.contains_key(#[trigger] nkb[i]) && b.nodes[nkb[i]].id == nkb[i] by {
        assert(nkb.contains(nkb[i]));
    }
    lemma_change_nodes(t1, nkb, a.nodes, b.nodes);
    let t2 = TopoView { nodes: changed_nodes(t1.nodes, nkb, a.nodes, b.nodes), ..t1 };
    assert(t2.nodes.dom() =~= b.nodes.dom()) by {
        assert forall|k: StableId| t2.nodes.contains_key(k) <==> b.nodes.contains_key(k) by {
            if b.nodes.contains_key(k) {
                assert(nkb.contains(k));
            }
        }
    }
    assert forall|k: StableId| #[trigger] b.nodes.contains_key(k) implies t2.nodes[k] == diffed_node(a.nodes, b.nodes, k) by {
        assert(nkb.contains(k));
    }

    // removing the edges that `b` lacks
    assert forall|i: int| 0 <= i < eka.len() implies t2.edges.contains_key(#[trigger] eka[i]) by {
        assert(eka.contains(eka[i]));
    }
    lemma_remove_edges(t2, eka, b.edges);
    let t3 = TopoView { edges: kept_edges(t2.edges, eka, b.edges), ..t2 };
    assert forall|k: StableId| t3.edges.contains_key(k) <==> (a.edges.contains_key(k) && b.edges.contains_key(k)) by {
        if a.edges.contains_key(k) {
            assert(eka.contains(k));
        }
    }

    // adding and changing the edges of `b`
    assert forall|i: int|
        0 <= i < ekb.len() implies b.edges.contains_key(#[trigger] ekb[i]) && b.edges[ekb[i]].id == ekb[i]
            && t3.nodes.contains_key(b.edges[ekb[i]].source.node_id) && t3.nodes.contains_key(
            b.edges[ekb[i]].target.node_id,
        ) by {
        assert(ekb.contains(ekb[i]));
    }
    lemma_change_edges(t3, ekb, a.edges, b.edges);
    let t4 = TopoView { edges: changed_edges(t3.edges, ekb, a.edges, b.edges), ..t3 };
    assert(t4.edges.dom() =~= b.edges.dom()) by {
        assert forall|k: StableId| t4.edges.contains_key(k) <==> b.edges.contains_key(k) by {
            if b.edges.contains_key(k) {
                assert(ekb.contains(k));
            }
        }
    }
    assert forall|k: StableId| #[trigger] b.edges.contains_key(k) implies t4.edges[k]@ == b.edges[k]@ by {
        assert(ekb.contains(k));
        if a.edges.contains_key(k) {
            assert(a.edges[k].id == k && b.edges[k].id == k);
        }
    }
    assert(diff_ops(a, b) == r1 + c2 + r3 + c4);
}


/// The message of a patch error; identifiers as 32 hexadecimal digits.
pub open spec fn patch_error_text(e: PatchError) -> Seq<char> {
    match e {
        PatchError::NodeNotFound(id) => "node "@ + crate::text::id_text(id) + " not found"@,
        PatchError::EdgeNotFound(id) => "edge "@ + crate::text::id_text(id) + " not found"@,
        PatchError::NodeAlreadyExists(id) => "node "@ + crate::text::id_text(id) + " already exists"@,
        PatchError::EdgeAlreadyExists(id) => "edge "@ + crate::text::id_text(id) + " already exists"@,
        PatchError::PortNotFound { node, port } => "port '"@ + port@ + "' not found on node "@ + crate::text::id_text(node),
        PatchError::HashMismatch { expected, actual } => "hash mismatch: expected "@ + expected@ + ", got "@ + actual@,
        PatchError::MergeConflict(m) => "merge conflict: "@ + m@,
    }
}

impl PatchError {
    /// The message of the error.
    pub fn message(&self) -> (s: String)
        ensures
            s@ == patch_error_text(*self),
    {
        let mut s = String::new();
        match self {
            PatchError::NodeNotFound(id) => {
                s.append("node ");
                crate::text::push_id_text(&mut s, *id);
                s.append(" not found");
            },
            PatchError::EdgeNotFound(id) => {
                s.append("edge ");
                crate::text::push_id_text(&mut s, *id);
                s.append(" not found");
            },
            PatchError::NodeAlreadyExists(id) => {
                s.append("node ");
                crate::text::push_id_text(&mut s, *id);
                s.append(" already exists");
            },
            PatchError::EdgeAlreadyExists(id) => {
                s.append("edge ");
                crate::text::push_id_text(&mut s, *id);
                s.append(" already exists");
            },
            PatchError::PortNotFound { node, port } => {
                s.append("port '");
                s.append(port.as_str());
                s.append("' not found on node ");
                crate::text::push_id_text(&mut s, *node);
            },
            PatchError::HashMismatch { expected, actual } => {
                s.append("hash mismatch: expected ");
                s.append(expected.as_str());
                s.append(", got ");
                s.append(actual.as_str());
            },
            PatchError::MergeConflict(m) => {
                s.append("merge conflict: ");
                s.append(m.as_str());
            },
        }
        assert(s@ =~= patch_error_text(*self));
        s
    }
}


/// One operation keeps a topology well formed, whether it succeeds or not.
pub proof fn law_operation_keeps_well_formed(t: TopoView, op: OpView)
    requires
        well_formed_topo(t),
    ensures
        apply_op(t, op) matches Ok(t2) ==> well_formed_topo(t2),
{
    match apply_op(t, op) {
        Ok(t2) => {
            match op {
                OpView::RemoveNode(id) => {
                    assert forall|k: StableId| #[trigger] t2.edges.contains_key(k) implies t2.edges[k].id == k
                        && t2.nodes.contains_key(t2.edges[k].source.node_id) && t2.nodes.contains_key(
                        t2.edges[k].target.node_id,
                    ) by {
                        assert(t.edges.contains_key(k) && !touches(t.edges[k], id));
                    }
                },
                OpView::ModifyEdge { edge_id, delta } => {
                    assert forall|k: StableId| #[trigger] t2.edges.contains_key(k) implies t2.edges[k].id == k
                        && t2.nodes.contains_key(t2.edges[k].source.node_id) && t2.nodes.contains_key(
                        t2.edges[k].target.node_id,
                    ) by {
                        if k != edge_id {
                            assert(t.edges.contains_key(k));
                        } else {
                            assert(t.edges.contains_key(edge_id));
                        }
                    }
                },
                _ => {},
            }
        },
        Err(_) => {},
    }
}

/// Applying operations keeps a topology well formed: each node under its
/// own identifier, each edge too, every edge joining two nodes of the
/// topology; also where an operation fails, up to the failure.
pub proof fn law_operations_keep_well_formed(t: TopoView, ops: Seq<OpView>)
    requires
        well_formed_topo(t),
    ensures
        well_formed_topo(apply_ops(t, ops).0),
    decreases ops.len(),
{
    if ops.len() > 0 {
        law_operation_keeps_well_formed(t, ops[0]);
        match apply_op(t, ops[0]) {
            Ok(t2) => law_operations_keep_well_formed(t2, ops.drop_first()),
            Err(_) => {},
        }
    }
}

/// Every topology that a replay reaches is well formed.
pub proof fn law_replay_well_formed(ps: Seq<PatchView>)
    ensures
        well_formed_topo(replay_steps(ps).0),
    decreases ps.len(),
{
    if ps.len() == 0 {
        assert(well_formed_topo(empty_topo()));
    } else {
        law_replay_well_formed(ps.drop_last());
        let (t, e) = replay_steps(ps.drop_last());
        if e is None {
            law_operations_keep_well_formed(t, ps.last().operations);
        }
    }
}

} // verus!
