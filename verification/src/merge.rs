//! Three-way merge of patch sets: what each side does to each node and edge
//! is summarised, and the two summaries are combined or found in conflict.
use vstd::prelude::*;
use std::collections::BTreeMap;
use crate::strmap::{StrMap, entries_map, keys_sorted, has_key, key_index, chars_lt, lemma_entries_map_prefix, lemma_entries_map_index, lemma_chars_lt_asymmetric, lemma_chars_lt_irreflexive};
use crate::types::{StableId, ConfigChange, ChangeView, ConfigDelta, delta_model, delta_clone, change_eq, PatchSource, TrustLevel};
use crate::ir::{Node, NodeView, node_eq, Edge, EdgeDelta, EdgeDeltaView};
use crate::patch::{Operation, OpView, Patch, PatchView, PatchSet, patches_view, ops_view};
use crate::keyorder::{sorted_keys, key_order, enumerates};

verus! {

broadcast use vstd::laws_cmp::group_laws_cmp;

/// Why two patch sets cannot be merged.
#[derive(Debug, PartialEq, Eq)]
pub enum MergeError {
    /// Both sides changed the same configuration key of a node differently.
    ConfigConflict { node_id: StableId, key: String },
    /// Both sides changed an edge, differently.
    EdgeConflict { edge_id: StableId },
    /// One side removed a node or edge that the other side touched.
    RemoveModifyConflict { node_id: StableId },
    /// Both sides added a node under one identifier with different contents.
    AddNodeConflict { node_id: StableId },
    /// Both sides added an edge under one identifier with different contents.
    AddEdgeConflict { edge_id: StableId },
    /// Both sides replaced a node, differently.
    ReplaceConflict { node_id: StableId },
}

/// The mathematical value of a `MergeError`.
pub enum Conflict {
    ConfigConflict { node_id: StableId, key: Seq<char> },
    EdgeConflict { edge_id: StableId },
    RemoveModifyConflict { node_id: StableId },
    AddNodeConflict { node_id: StableId },
    AddEdgeConflict { edge_id: StableId },
    ReplaceConflict { node_id: StableId },
}

impl View for MergeError {
    type V = Conflict;

    open spec fn view(&self) -> Conflict {
        match self {
            MergeError::ConfigConflict { node_id, key } => Conflict::ConfigConflict {
                node_id: *node_id,
                key: key@,
            },
            MergeError::EdgeConflict { edge_id } => Conflict::EdgeConflict { edge_id: *edge_id },
            MergeError::RemoveModifyConflict { node_id } => Conflict::RemoveModifyConflict {
                node_id: *node_id,
            },
            MergeError::AddNodeConflict { node_id } => Conflict::AddNodeConflict { node_id: *node_id },
            MergeError::AddEdgeConflict { edge_id } => Conflict::AddEdgeConflict { edge_id: *edge_id },
            MergeError::ReplaceConflict { node_id } => Conflict::ReplaceConflict { node_id: *node_id },
        }
    }
}

// ──────────────────────────────────────────────
// What one side does
// ──────────────────────────────────────────────

/// What a side does to one node: the last node it added and the last it put
/// in its place, whether it removed it, and the configuration changes it made
/// (a later change of a key overriding an earlier one).
pub struct NodeSummary {
    pub added: Option<NodeView>,
    pub removed: bool,
    pub replaced: Option<NodeView>,
    pub config_delta: Map<Seq<char>, ChangeView>,
}

/// What a side does to one edge: the last edge it added, whether it removed
/// it, and the last change it made to it.
pub struct EdgeSummary {
    pub added: Option<Edge>,
    pub removed: bool,
    pub modified: Option<EdgeDelta>,
}

/// What a side does, node by node and edge by edge.
pub struct Targets {
    pub nodes: Map<StableId, NodeSummary>,
    pub edges: Map<StableId, EdgeSummary>,
}

pub open spec fn untouched_node() -> NodeSummary {
    NodeSummary { added: None, removed: false, replaced: None, config_delta: Map::empty() }
}

pub open spec fn untouched_edge() -> EdgeSummary {
    EdgeSummary { added: None, removed: false, modified: None }
}

pub open spec fn node_entry(m: Map<StableId, NodeSummary>, id: StableId) -> NodeSummary {
    if m.contains_key(id) {
        m[id]
    } else {
        untouched_node()
    }
}

pub open spec fn edge_entry(m: Map<StableId, EdgeSummary>, id: StableId) -> EdgeSummary {
    if m.contains_key(id) {
        m[id]
    } else {
        untouched_edge()
    }
}

/// The summary after one more operation. Modulations are not summarised.
pub open spec fn record_op(t: Targets, op: OpView) -> Targets {
    match op {
        OpView::AddNode(n) => Targets {
            nodes: t.nodes.insert(n.id, NodeSummary { added: Some(n), ..node_entry(t.nodes, n.id) }),
            ..t
        },
        OpView::RemoveNode(id) => Targets {
            nodes: t.nodes.insert(id, NodeSummary { removed: true, ..node_entry(t.nodes, id) }),
            ..t
        },
        OpView::ReplaceNode(n) => Targets {
            nodes: t.nodes.insert(n.id, NodeSummary { replaced: Some(n), ..node_entry(t.nodes, n.id) }),
            ..t
        },
        OpView::ModifyConfig { node_id, delta } => Targets {
            nodes: t.nodes.insert(
                node_id,
                NodeSummary {
                    config_delta: node_entry(t.nodes, node_id).config_delta.union_prefer_right(delta),
                    ..node_entry(t.nodes, node_id)
                },
            ),
            ..t
        },
        OpView::AddEdge(e) => Targets {
            edges: t.edges.insert(e.id, EdgeSummary { added: Some(e), ..edge_entry(t.edges, e.id) }),
            ..t
        },
        OpView::RemoveEdge(id) => Targets {
            edges: t.edges.insert(id, EdgeSummary { removed: true, ..edge_entry(t.edges, id) }),
            ..t
        },
        OpView::ModifyEdge { edge_id, delta } => Targets {
            edges: t.edges.insert(edge_id, EdgeSummary { modified: Some(delta), ..edge_entry(t.edges, edge_id) }),
            ..t
        },
        OpView::AddModulation(_) => t,
        OpView::RemoveModulation(_) => t,
    }
}

pub open spec fn record_ops(t: Targets, ops: Seq<OpView>) -> Targets
    decreases ops.len(),
{
    if ops.len() == 0 {
        t
    } else {
        record_op(record_ops(t, ops.drop_last()), ops.last())
    }
}

/// What a list of patches does, operation by operation in order.
pub open spec fn op_targets(ps: Seq<PatchView>) -> Targets
    decreases ps.len(),
{
    if ps.len() == 0 {
        Targets { nodes: Map::empty(), edges: Map::empty() }
    } else {
        record_ops(op_targets(ps.drop_last()), ps.last().operations)
    }
}

struct NodeOpSummary {
    added: Option<Node>,
    removed: bool,
    replaced: Option<Node>,
    config_delta: ConfigDelta,
}

struct EdgeOpSummary {
    added: Option<Edge>,
    removed: bool,
    modified: Option<EdgeDelta>,
}

struct OpTargets {
    nodes: BTreeMap<StableId, NodeOpSummary>,
    edges: BTreeMap<StableId, EdgeOpSummary>,
}

pub open spec fn opt_node_view(o: Option<Node>) -> Option<NodeView> {
    match o {
        Some(n) => Some(n@),
        None => None,
    }
}

impl View for NodeOpSummary {
    type V = NodeSummary;

    closed spec fn view(&self) -> NodeSummary {
        NodeSummary {
            added: opt_node_view(self.added),
            removed: self.removed,
            replaced: opt_node_view(self.replaced),
            config_delta: delta_model(self.config_delta),
        }
    }
}

impl View for EdgeOpSummary {
    type V = EdgeSummary;

    closed spec fn view(&self) -> EdgeSummary {
        EdgeSummary { added: self.added, removed: self.removed, modified: self.modified }
    }
}

impl View for OpTargets {
    type V = Targets;

    closed spec fn view(&self) -> Targets {
        Targets {
            nodes: self.nodes@.map_values(|s: NodeOpSummary| s@),
            edges: self.edges@.map_values(|s: EdgeOpSummary| s@),
        }
    }
}

/// Takes the summary of a node out of the table, or an untouched one.
fn take_node_entry(nodes: &mut BTreeMap<StableId, NodeOpSummary>, id: StableId) -> (s: NodeOpSummary)
    ensures
        final(nodes)@ == old(nodes)@.remove(id),
        s@ == node_entry(old(nodes)@.map_values(|x: NodeOpSummary| x@), id),
{
    let ghost m = nodes@.map_values(|x: NodeOpSummary| x@);
    if nodes.contains_key(&id) {
        match nodes.remove(&id) {
            Some(s) => s,
            None => NodeOpSummary { added: None, removed: false, replaced: None, config_delta: StrMap::new() },
        }
    } else {
        let s = NodeOpSummary { added: None, removed: false, replaced: None, config_delta: StrMap::new() };
        proof {
            assert(nodes@.remove(id) =~= nodes@);
            assert(delta_model(s.config_delta) =~= Map::<Seq<char>, ChangeView>::empty());
        }
        s
    }
}

/// Takes the summary of an edge out of the table, or an untouched one.
fn take_edge_entry(edges: &mut BTreeMap<StableId, EdgeOpSummary>, id: StableId) -> (s: EdgeOpSummary)
    ensures
        final(edges)@ == old(edges)@.remove(id),
        s@ == edge_entry(old(edges)@.map_values(|x: EdgeOpSummary| x@), id),
{
    if edges.contains_key(&id) {
        match edges.remove(&id) {
            Some(s) => s,
            None => EdgeOpSummary { added: None, removed: false, modified: None },
        }
    } else {
        proof {
            assert(edges@.remove(id) =~= edges@);
        }
        EdgeOpSummary { added: None, removed: false, modified: None }
    }
}

/// Adds the changes of `delta` to `acc`, a later change of a key overriding
/// an earlier one.
fn absorb_delta(acc: &mut ConfigDelta, delta: &ConfigDelta)
    ensures
        delta_model(*final(acc)) == delta_model(*old(acc)).union_prefer_right(delta_model(*delta)),
{
    delta.entries_are_sorted();
    let ghost a0 = delta_model(*acc);
    let ghost es = delta.entries();
    let mut i: usize = 0;
    proof {
        assert(entries_map(es.take(0)) =~= Map::<Seq<char>, ConfigChange>::empty());
        assert(a0.union_prefer_right(entries_map(es.take(0)).map_values(|c: ConfigChange| c@)) =~= a0);
    }
    while i < delta.len()
        invariant
            es == delta.entries(),
            keys_sorted(es),
            i <= es.len(),
            delta_model(*acc) == a0.union_prefer_right(
                entries_map(es.take(i as int)).map_values(|c: ConfigChange| c@),
            ),
        decreases es.len() - i,
    {
        let key = delta.key_at(i);
        let change = delta.value_at(i);
        let ghost before = delta_model(*acc);
        let ghost p = entries_map(es.take(i as int)).map_values(|c: ConfigChange| c@);
        proof {
            lemma_entries_map_prefix(es, i as int);
            assert(entries_map(es.take(i + 1)).map_values(|c: ConfigChange| c@) =~= p.insert(key@, change@));
        }
        let c = ConfigChange {
            old: crate::types::opt_value_clone(&change.old),
            new: crate::types::opt_value_clone(&change.new),
        };
        acc.insert(key.clone(), c);
        proof {
            assert(delta_model(*acc) =~= before.insert(key@, change@));
            assert(a0.union_prefer_right(p.insert(key@, change@)) =~= a0.union_prefer_right(p).insert(key@, change@));
        }
        i = i + 1;
    }
    proof {
        assert(es.take(es.len() as int) =~= es);
        assert(entries_map(es).map_values(|c: ConfigChange| c@) =~= delta_model(*delta));
    }
}

/// Records one operation in the summaries.
fn record_operation(t: &mut OpTargets, op: &Operation)
    ensures
        final(t)@ == record_op(old(t)@, op@),
{
    let ghost t0 = t@;
    match op {
        Operation::AddNode(node) => {
            let mut s = take_node_entry(&mut t.nodes, node.id);
            s.added = Some(node.clone());
            t.nodes.insert(node.id, s);
            proof {
                assert(t@.nodes =~= t0.nodes.insert(node.id, NodeSummary { added: Some(node@), ..node_entry(t0.nodes, node.id) }));
            }
        },
        Operation::RemoveNode(id) => {
            let mut s = take_node_entry(&mut t.nodes, *id);
            s.removed = true;
            t.nodes.insert(*id, s);
            proof {
                assert(t@.nodes =~= t0.nodes.insert(*id, NodeSummary { removed: true, ..node_entry(t0.nodes, *id) }));
            }
        },
        Operation::ReplaceNode(node) => {
            let mut s = take_node_entry(&mut t.nodes, node.id);
            s.replaced = Some(node.clone());
            t.nodes.insert(node.id, s);
            proof {
                assert(t@.nodes =~= t0.nodes.insert(node.id, NodeSummary { replaced: Some(node@), ..node_entry(t0.nodes, node.id) }));
            }
        },
        Operation::ModifyConfig { node_id, delta } => {
            let mut s = take_node_entry(&mut t.nodes, *node_id);
            absorb_delta(&mut s.config_delta, delta);
            t.nodes.insert(*node_id, s);
            proof {
                assert(t@.nodes =~= t0.nodes.insert(
                    *node_id,
                    NodeSummary {
                        config_delta: node_entry(t0.nodes, *node_id).config_delta.union_prefer_right(delta_model(*delta)),
                        ..node_entry(t0.nodes, *node_id)
                    },
                ));
            }
        },
        Operation::AddEdge(edge) => {
            let mut s = take_edge_entry(&mut t.edges, edge.id);
            s.added = Some(edge.clone());
            t.edges.insert(edge.id, s);
            proof {
                assert(t@.edges =~= t0.edges.insert(edge.id, EdgeSummary { added: Some(*edge), ..edge_entry(t0.edges, edge.id) }));
            }
        },
        Operation::RemoveEdge(id) => {
            let mut s = take_edge_entry(&mut t.edges, *id);
            s.removed = true;
            t.edges.insert(*id, s);
            proof {
                assert(t@.edges =~= t0.edges.insert(*id, EdgeSummary { removed: true, ..edge_entry(t0.edges, *id) }));
            }
        },
        Operation::ModifyEdge { edge_id, delta } => {
            let mut s = take_edge_entry(&mut t.edges, *edge_id);
            s.modified = Some(delta.clone());
            t.edges.insert(*edge_id, s);
            proof {
                assert(t@.edges =~= t0.edges.insert(*edge_id, EdgeSummary { modified: Some(*delta), ..edge_entry(t0.edges, *edge_id) }));
            }
        },
        Operation::AddModulation(_) => {},
        Operation::RemoveModulation(_) => {},
    }
}

/// What the patches do, node by node and edge by edge.
fn collect_op_targets(patches: &[Patch]) -> (t: OpTargets)
    ensures
        t@ == op_targets(patches_view(patches@)),
{
    let ghost pv = patches_view(patches@);
    let mut t = OpTargets { nodes: BTreeMap::new(), edges: BTreeMap::new() };
    let mut i: usize = 0;
    proof {
        assert(pv.take(0) =~= Seq::<PatchView>::empty());
        assert(t@.nodes =~= Map::<StableId, NodeSummary>::empty());
        assert(t@.edges =~= Map::<StableId, EdgeSummary>::empty());
        assert(t@ == op_targets(pv.take(0)));
    }
    while i < patches.len()
        invariant
            pv == patches_view(patches@),
            i <= patches@.len(),
            t@ == op_targets(pv.take(i as int)),
        decreases patches@.len() - i,
    {
        let patch = &patches[i];
        let ghost base = t@;
        let ghost ops = patch@.operations;
        let mut j: usize = 0;
        proof {
            assert(ops.take(0) =~= Seq::<OpView>::empty());
        }
        while j < patch.operations.len()
            invariant
                ops == patch@.operations,
                ops.len() == patch.operations@.len(),
                j <= ops.len(),
                t@ == record_ops(base, ops.take(j as int)),
            decreases ops.len() - j,
        {
            record_operation(&mut t, &patch.operations[j]);
            proof {
                assert(ops.take(j + 1).drop_last() =~= ops.take(j as int));
                assert(ops.take(j + 1).last() == patch.operations@[j as int]@);
            }
            j = j + 1;
        }
        proof {
            assert(ops.take(ops.len() as int) =~= ops);
            assert(pv.take(i + 1).drop_last() =~= pv.take(i as int));
            assert(pv.take(i + 1).last() == patch@);
        }
        i = i + 1;
    }
    proof {
        assert(pv.take(pv.len() as int) =~= pv);
    }
    t
}

// ──────────────────────────────────────────────
// Combining the two sides
// ──────────────────────────────────────────────

/// Both sides change the key, and not to the same change.
pub open spec fn key_conflicts(l: Map<Seq<char>, ChangeView>, r: Map<Seq<char>, ChangeView>, k: Seq<char>) -> bool {
    l.contains_key(k) && r.contains_key(k) && !change_eq(l[k], r[k])
}

/// Some key conflicts.
pub open spec fn has_conflict(l: Map<Seq<char>, ChangeView>, r: Map<Seq<char>, ChangeView>) -> bool {
    exists|k: Seq<char>| key_conflicts(l, r, k)
}

/// `k` is the least conflicting key in code-point order.
pub open spec fn is_first_conflict(l: Map<Seq<char>, ChangeView>, r: Map<Seq<char>, ChangeView>, k: Seq<char>) -> bool {
    &&& key_conflicts(l, r, k)
    &&& forall|k2: Seq<char>| #[trigger] key_conflicts(l, r, k2) && k2 != k ==> chars_lt(k, k2)
}

/// The keys that conflict.
pub open spec fn conflicting_keys(l: Map<Seq<char>, ChangeView>, r: Map<Seq<char>, ChangeView>) -> Set<Seq<char>> {
    Set::new(|k: Seq<char>| key_conflicts(l, r, k))
}

/// The least element of a set of strings in code-point order.
pub open spec fn least_key(s: Set<Seq<char>>) -> Seq<char> {
    choose|k: Seq<char>| s.contains(k) && forall|k2: Seq<char>| #[trigger] s.contains(k2) && k2 != k ==> chars_lt(k, k2)
}

/// The least conflicting key.
pub open spec fn first_conflict(l: Map<Seq<char>, ChangeView>, r: Map<Seq<char>, ChangeView>) -> Seq<char> {
    least_key(conflicting_keys(l, r))
}

/// What one side alone does to a node, as operations: the removal, or the
/// addition, replacement and configuration changes it made.
pub open spec fn one_side_node_ops(id: StableId, s: NodeSummary) -> Seq<OpView> {
    if s.removed {
        seq![OpView::RemoveNode(id)]
    } else {
        (if s.added is Some {
            seq![OpView::AddNode(s.added.unwrap())]
        } else {
            Seq::empty()
        }) + (if s.replaced is Some {
            seq![OpView::ReplaceNode(s.replaced.unwrap())]
        } else {
            Seq::empty()
        }) + (if s.config_delta == Map::<Seq<char>, ChangeView>::empty() {
            Seq::empty()
        } else {
            seq![OpView::ModifyConfig { node_id: id, delta: s.config_delta }]
        })
    }
}

/// A side removes the node and does nothing else to it.
pub open spec fn removes_node_only(s: NodeSummary) -> bool {
    s.removed && s.added is None && s.replaced is None && s.config_delta == Map::<Seq<char>, ChangeView>::empty()
}

/// Combines what both sides do to a node. When both sides only remove it,
/// the removal. Otherwise a removal on either side, two different additions,
/// two different replacements, or two different changes of one key conflict
/// (checked in that order); else: the addition when both added it, the left
/// replacement (else the right one), and the union of the configuration
/// changes.
pub open spec fn merge_node(id: StableId, l: NodeSummary, r: NodeSummary) -> Result<Seq<OpView>, Conflict> {
    if removes_node_only(l) && removes_node_only(r) {
        Ok(seq![OpView::RemoveNode(id)])
    } else if l.removed || r.removed {
        Err(Conflict::RemoveModifyConflict { node_id: id })
    } else if l.added is Some && r.added is Some && !node_eq(l.added.unwrap(), r.added.unwrap()) {
        Err(Conflict::AddNodeConflict { node_id: id })
    } else if l.replaced is Some && r.replaced is Some && !node_eq(l.replaced.unwrap(), r.replaced.unwrap()) {
        Err(Conflict::ReplaceConflict { node_id: id })
    } else if has_conflict(l.config_delta, r.config_delta) {
        Err(Conflict::ConfigConflict { node_id: id, key: first_conflict(l.config_delta, r.config_delta) })
    } else {
        let merged = r.config_delta.union_prefer_right(l.config_delta);
        Ok(
            (if l.added is Some && r.added is Some {
                seq![OpView::AddNode(l.added.unwrap())]
            } else {
                Seq::empty()
            }) + (if l.replaced is Some {
                seq![OpView::ReplaceNode(l.replaced.unwrap())]
            } else if r.replaced is Some {
                seq![OpView::ReplaceNode(r.replaced.unwrap())]
            } else {
                Seq::empty()
            }) + (if merged == Map::<Seq<char>, ChangeView>::empty() {
                Seq::empty()
            } else {
                seq![OpView::ModifyConfig { node_id: id, delta: merged }]
            }),
        )
    }
}

pub open spec fn merge_node_entry(id: StableId, lm: Map<StableId, NodeSummary>, rm: Map<StableId, NodeSummary>) -> Result<Seq<OpView>, Conflict> {
    if lm.contains_key(id) && rm.contains_key(id) {
        merge_node(id, lm[id], rm[id])
    } else if lm.contains_key(id) {
        Ok(one_side_node_ops(id, lm[id]))
    } else {
        Ok(one_side_node_ops(id, rm[id]))
    }
}

/// The nodes merged in list order: the operations of each, or the first conflict.
pub open spec fn merge_nodes(ks: Seq<StableId>, lm: Map<StableId, NodeSummary>, rm: Map<StableId, NodeSummary>) -> Result<Seq<OpView>, Conflict>
    decreases ks.len(),
{
    if ks.len() == 0 {
        Ok(Seq::empty())
    } else {
        match merge_nodes(ks.drop_last(), lm, rm) {
            Err(c) => Err(c),
            Ok(prev) => match merge_node_entry(ks.last(), lm, rm) {
                Err(c) => Err(c),
                Ok(more) => Ok(prev + more),
            },
        }
    }
}

pub open spec fn opt_delta_view(o: Option<EdgeDelta>) -> Option<EdgeDeltaView> {
    match o {
        Some(d) => Some(d@),
        None => None,
    }
}

/// What one side alone does to an edge, as operations.
pub open spec fn one_side_edge_ops(id: StableId, s: EdgeSummary) -> Seq<OpView> {
    if s.removed {
        seq![OpView::RemoveEdge(id)]
    } else {
        (if s.added is Some {
            seq![OpView::AddEdge(s.added.unwrap())]
        } else {
            Seq::empty()
        }) + (if s.modified is Some {
            seq![OpView::ModifyEdge { edge_id: id, delta: s.modified.unwrap() }]
        } else {
            Seq::empty()
        })
    }
}

/// A side removes the edge and does nothing else to it.
pub open spec fn removes_edge_only(s: EdgeSummary) -> bool {
    s.removed && s.added is None && s.modified is None
}

/// Combines what both sides do to an edge. When both sides only remove it,
/// the removal. Otherwise a removal on either side, two different additions,
/// or changes that are not the same on both sides conflict (checked in that
/// order); else: the addition when both added it, and the change when both
/// made it.
pub open spec fn merge_edge(id: StableId, l: EdgeSummary, r: EdgeSummary) -> Result<Seq<OpView>, Conflict> {
    if removes_edge_only(l) && removes_edge_only(r) {
        Ok(seq![OpView::RemoveEdge(id)])
    } else if l.removed || r.removed {
        Err(Conflict::RemoveModifyConflict { node_id: id })
    } else if l.added is Some && r.added is Some && l.added.unwrap()@ != r.added.unwrap()@ {
        Err(Conflict::AddEdgeConflict { edge_id: id })
    } else if (l.modified is Some || r.modified is Some) && opt_delta_view(l.modified) != opt_delta_view(r.modified) {
        Err(Conflict::EdgeConflict { edge_id: id })
    } else {
        Ok(
            (if l.added is Some && r.added is Some {
                seq![OpView::AddEdge(l.added.unwrap())]
            } else {
                Seq::empty()
            }) + (if l.modified is Some {
                seq![OpView::ModifyEdge { edge_id: id, delta: l.modified.unwrap() }]
            } else {
                Seq::empty()
            }),
        )
    }
}

pub open spec fn merge_edge_entry(id: StableId, lm: Map<StableId, EdgeSummary>, rm: Map<StableId, EdgeSummary>) -> Result<Seq<OpView>, Conflict> {
    if lm.contains_key(id) && rm.contains_key(id) {
        merge_edge(id, lm[id], rm[id])
    } else if lm.contains_key(id) {
        Ok(one_side_edge_ops(id, lm[id]))
    } else {
        Ok(one_side_edge_ops(id, rm[id]))
    }
}

/// The edges merged in list order: the operations of each, or the first conflict.
pub open spec fn merge_edges(ks: Seq<StableId>, lm: Map<StableId, EdgeSummary>, rm: Map<StableId, EdgeSummary>) -> Result<Seq<OpView>, Conflict>
    decreases ks.len(),
{
    if ks.len() == 0 {
        Ok(Seq::empty())
    } else {
        match merge_edges(ks.drop_last(), lm, rm) {
            Err(c) => Err(c),
            Ok(prev) => match merge_edge_entry(ks.last(), lm, rm) {
                Err(c) => Err(c),
                Ok(more) => Ok(prev + more),
            },
        }
    }
}

/// The merge of two sides: every node either side touches, in increasing
/// identifier order, then every edge, likewise; the operations of all, or the
/// first conflict met.
pub open spec fn merge_spec(left: Seq<PatchView>, right: Seq<PatchView>) -> Result<Seq<OpView>, Conflict> {
    let l = op_targets(left);
    let r = op_targets(right);
    match merge_nodes(key_order(l.nodes.dom().union(r.nodes.dom())), l.nodes, r.nodes) {
        Err(c) => Err(c),
        Ok(a) => match merge_edges(key_order(l.edges.dom().union(r.edges.dom())), l.edges, r.edges) {
            Err(c) => Err(c),
            Ok(b) => Ok(a + b),
        },
    }
}

// ──────────────────────────────────────────────
// What the merge keeps of a node only one side touches
// ──────────────────────────────────────────────

/// The node an operation acts on, if any.
pub open spec fn op_node(op: OpView) -> Option<StableId> {
    match op {
        OpView::AddNode(n) => Some(n.id),
        OpView::RemoveNode(id) => Some(id),
        OpView::ReplaceNode(n) => Some(n.id),
        OpView::ModifyConfig { node_id, .. } => Some(node_id),
        _ => None,
    }
}

/// Some operation acts on the node.
pub open spec fn ops_touch_node(ops: Seq<OpView>, id: StableId) -> bool {
    exists|j: int| 0 <= j < ops.len() && op_node(#[trigger] ops[j]) == Some(id)
}

/// Some operation removes the node.
pub open spec fn ops_remove_node(ops: Seq<OpView>, id: StableId) -> bool {
    exists|j: int| 0 <= j < ops.len() && #[trigger] ops[j] == OpView::RemoveNode(id)
}

/// Some operation adds a node under the identifier.
pub open spec fn ops_add_node(ops: Seq<OpView>, id: StableId) -> bool {
    exists|j: int| 0 <= j < ops.len() && (#[trigger] ops[j]) is AddNode && ops[j]->AddNode_0.id == id
}

/// Some operation puts a node in the place of the one under the identifier.
pub open spec fn ops_replace_node(ops: Seq<OpView>, id: StableId) -> bool {
    exists|j: int| 0 <= j < ops.len() && (#[trigger] ops[j]) is ReplaceNode && ops[j]->ReplaceNode_0.id == id
}

/// Some operation changes the node's configuration key.
pub open spec fn ops_set_key(ops: Seq<OpView>, id: StableId, k: Seq<char>) -> bool {
    exists|j: int|
        0 <= j < ops.len() && (#[trigger] ops[j]) is ModifyConfig && ops[j]->ModifyConfig_node_id == id
            && ops[j]->ModifyConfig_delta.contains_key(k)
}

/// The operation sets the node's configuration key to the change.
pub open spec fn sets_to(op: OpView, id: StableId, k: Seq<char>, v: ChangeView) -> bool {
    op is ModifyConfig && op->ModifyConfig_node_id == id && op->ModifyConfig_delta.contains_key(k)
        && op->ModifyConfig_delta[k] == v
}

/// Some operation sets the node's configuration key to the change.
pub open spec fn ops_set_to(ops: Seq<OpView>, id: StableId, k: Seq<char>, v: ChangeView) -> bool {
    exists|j: int| 0 <= j < ops.len() && sets_to(#[trigger] ops[j], id, k, v)
}

/// Some patch sets the node's configuration key to the change.
pub open spec fn side_sets_to(ps: Seq<PatchView>, id: StableId, k: Seq<char>, v: ChangeView) -> bool {
    exists|i: int| 0 <= i < ps.len() && ops_set_to(#[trigger] ps[i].operations, id, k, v)
}

/// Some patch acts on the node.
pub open spec fn side_touches_node(ps: Seq<PatchView>, id: StableId) -> bool {
    exists|i: int| 0 <= i < ps.len() && ops_touch_node(#[trigger] ps[i].operations, id)
}

/// Some patch removes the node.
pub open spec fn side_removes_node(ps: Seq<PatchView>, id: StableId) -> bool {
    exists|i: int| 0 <= i < ps.len() && ops_remove_node(#[trigger] ps[i].operations, id)
}

/// Some patch adds a node under the identifier.
pub open spec fn side_adds_node(ps: Seq<PatchView>, id: StableId) -> bool {
    exists|i: int| 0 <= i < ps.len() && ops_add_node(#[trigger] ps[i].operations, id)
}

/// Some patch replaces the node.
pub open spec fn side_replaces_node(ps: Seq<PatchView>, id: StableId) -> bool {
    exists|i: int| 0 <= i < ps.len() && ops_replace_node(#[trigger] ps[i].operations, id)
}

/// Some patch changes the node's configuration key.
pub open spec fn side_sets_key(ps: Seq<PatchView>, id: StableId, k: Seq<char>) -> bool {
    exists|i: int| 0 <= i < ps.len() && ops_set_key(#[trigger] ps[i].operations, id, k)
}

spec fn node_keyed(m: Map<StableId, NodeSummary>, id: StableId) -> bool {
    m.contains_key(id) ==> (m[id].added matches Some(a) ==> a.id == id) && (m[id].replaced matches Some(r) ==> r.id == id)
}

spec fn node_grows(a: NodeSummary, b: NodeSummary) -> bool {
    &&& a.removed ==> b.removed
    &&& a.added is Some ==> b.added is Some
    &&& a.replaced is Some ==> b.replaced is Some
    &&& forall|k: Seq<char>| a.config_delta.contains_key(k) ==> #[trigger] b.config_delta.contains_key(k)
}

/// What recording operations does to one node's summary.
#[verifier::rlimit(40)]
proof fn lemma_record_ops_node(t: Targets, ops: Seq<OpView>, id: StableId)
    requires
        t.nodes.dom().finite(),
        node_keyed(t.nodes, id),
    ensures
        record_ops(t, ops).nodes.dom().finite(),
        node_keyed(record_ops(t, ops).nodes, id),
        record_ops(t, ops).nodes.contains_key(id) <==> (t.nodes.contains_key(id) || ops_touch_node(ops, id)),
        t.nodes.contains_key(id) ==> node_grows(t.nodes[id], record_ops(t, ops).nodes[id]),
        ops_remove_node(ops, id) ==> record_ops(t, ops).nodes[id].removed,
        record_ops(t, ops).nodes.contains_key(id) && record_ops(t, ops).nodes[id].removed ==> (t.nodes.contains_key(id)
            && t.nodes[id].removed) || ops_remove_node(ops, id),
        ops_add_node(ops, id) ==> record_ops(t, ops).nodes[id].added is Some,
        ops_replace_node(ops, id) ==> record_ops(t, ops).nodes[id].replaced is Some,
        forall|k: Seq<char>| ops_set_key(ops, id, k) ==> #[trigger] record_ops(t, ops).nodes[id].config_delta.contains_key(k),
        forall|k: Seq<char>|
            record_ops(t, ops).nodes.contains_key(id) && #[trigger] record_ops(t, ops).nodes[id].config_delta.contains_key(k)
                ==> ops_set_to(ops, id, k, record_ops(t, ops).nodes[id].config_delta[k]) || (t.nodes.contains_key(id)
                && t.nodes[id].config_delta.contains_key(k) && t.nodes[id].config_delta[k] == record_ops(t, ops).nodes[id].config_delta[k]),
    decreases ops.len(),
{
    if ops.len() > 0 {
        let pre = ops.drop_last();
        let last = ops.last();
        lemma_record_ops_node(t, pre, id);
        let r0 = record_ops(t, pre);
        let r = record_ops(t, ops);
        assert(r == record_op(r0, last));
        let n = ops.len() - 1;
        assert(ops[n] == last);
        // Facts about ops split into those of the prefix and the last one.
        assert(ops_touch_node(ops, id) <==> ops_touch_node(pre, id) || op_node(last) == Some(id)) by {
            if ops_touch_node(ops, id) {
                let j = choose|j: int| 0 <= j < ops.len() && op_node(#[trigger] ops[j]) == Some(id);
                if j < n {
                    assert(pre[j] == ops[j]);
                }
            }
            if ops_touch_node(pre, id) {
                let j = choose|j: int| 0 <= j < pre.len() && op_node(#[trigger] pre[j]) == Some(id);
                assert(ops[j] == pre[j]);
            }
        }
        assert(ops_remove_node(ops, id) <==> ops_remove_node(pre, id) || last == OpView::RemoveNode(id)) by {
            if ops_remove_node(ops, id) {
                let j = choose|j: int| 0 <= j < ops.len() && #[trigger] ops[j] == OpView::RemoveNode(id);
                if j < n {
                    assert(pre[j] == ops[j]);
                }
            }
            if ops_remove_node(pre, id) {
                let j = choose|j: int| 0 <= j < pre.len() && #[trigger] pre[j] == OpView::RemoveNode(id);
                assert(ops[j] == pre[j]);
            }
            if last == OpView::RemoveNode(id) {
                assert(ops[n] == OpView::RemoveNode(id));
            }
        }
        assert(ops_add_node(ops, id) ==> ops_add_node(pre, id) || (last is AddNode && last->AddNode_0.id == id)) by {
            if ops_add_node(ops, id) {
                let j = choose|j: int| 0 <= j < ops.len() && (#[trigger] ops[j]) is AddNode && ops[j]->AddNode_0.id == id;
                if j < n {
                    assert(pre[j] == ops[j]);
                }
            }
        }
        assert(ops_replace_node(ops, id) ==> ops_replace_node(pre, id) || (last is ReplaceNode && last->ReplaceNode_0.id
            == id)) by {
            if ops_replace_node(ops, id) {
                let j = choose|j: int| 0 <= j < ops.len() && (#[trigger] ops[j]) is ReplaceNode && ops[j]->ReplaceNode_0.id == id;
                if j < n {
                    assert(pre[j] == ops[j]);
                }
            }
        }
        assert forall|k: Seq<char>| ops_set_key(ops, id, k) implies ops_set_key(pre, id, k) || (last is ModifyConfig
            && last->ModifyConfig_node_id == id && last->ModifyConfig_delta.contains_key(k)) by {
            let j = choose|j: int|
                0 <= j < ops.len() && (#[trigger] ops[j]) is ModifyConfig && ops[j]->ModifyConfig_node_id == id
                    && ops[j]->ModifyConfig_delta.contains_key(k);
            if j < n {
                assert(pre[j] == ops[j]);
            }
        }
        assert forall|k: Seq<char>, v: ChangeView| ops_set_to(pre, id, k, v) implies ops_set_to(ops, id, k, v) by {
            let j = choose|j: int| 0 <= j < pre.len() && sets_to(#[trigger] pre[j], id, k, v);
            assert(ops[j] == pre[j]);
        }
        if op_node(last) == Some(id) {
            let e = node_entry(r0.nodes, id);
            assert(r.nodes.contains_key(id));
            assert(node_grows(e, r.nodes[id]));
            assert forall|k: Seq<char>| r.nodes.contains_key(id) && #[trigger] r.nodes[id].config_delta.contains_key(k) implies ops_set_to(
                ops,
                id,
                k,
                r.nodes[id].config_delta[k],
            ) || (t.nodes.contains_key(id) && t.nodes[id].config_delta.contains_key(k) && t.nodes[id].config_delta[k]
                == r.nodes[id].config_delta[k]) by {
                if last is ModifyConfig && last->ModifyConfig_delta.contains_key(k) {
                    assert(sets_to(ops[n], id, k, r.nodes[id].config_delta[k]));
                } else {
                    assert(r0.nodes.contains_key(id) && r0.nodes[id].config_delta.contains_key(k));
                    assert(r.nodes[id].config_delta[k] == r0.nodes[id].config_delta[k]);
                }
            }
            assert forall|k: Seq<char>| ops_set_key(ops, id, k) implies #[trigger] r.nodes[id].config_delta.contains_key(k) by {
                if ops_set_key(pre, id, k) {
                    assert(r0.nodes[id].config_delta.contains_key(k));
                }
            }
        } else {
            assert(r.nodes.contains_key(id) == r0.nodes.contains_key(id));
            if r0.nodes.contains_key(id) {
                assert(r.nodes[id] == r0.nodes[id]);
            }
            assert forall|k: Seq<char>| ops_set_key(ops, id, k) implies #[trigger] r.nodes[id].config_delta.contains_key(k) by {
                assert(ops_set_key(pre, id, k));
            }
            assert forall|k: Seq<char>| r.nodes.contains_key(id) && #[trigger] r.nodes[id].config_delta.contains_key(k) implies ops_set_to(
                ops,
                id,
                k,
                r.nodes[id].config_delta[k],
            ) || (t.nodes.contains_key(id) && t.nodes[id].config_delta.contains_key(k) && t.nodes[id].config_delta[k]
                == r.nodes[id].config_delta[k]) by {
                assert(r0.nodes[id].config_delta.contains_key(k));
            }
        }
    }
}

/// What a side's patches do to one node's summary.
proof fn lemma_op_targets_node(ps: Seq<PatchView>, id: StableId)
    ensures
        op_targets(ps).nodes.dom().finite(),
        node_keyed(op_targets(ps).nodes, id),
        op_targets(ps).nodes.contains_key(id) <==> side_touches_node(ps, id),
        side_removes_node(ps, id) ==> op_targets(ps).nodes[id].removed,
        op_targets(ps).nodes.contains_key(id) && op_targets(ps).nodes[id].removed ==> side_removes_node(ps, id),
        side_adds_node(ps, id) ==> op_targets(ps).nodes[id].added is Some,
        side_replaces_node(ps, id) ==> op_targets(ps).nodes[id].replaced is Some,
        forall|k: Seq<char>| side_sets_key(ps, id, k) ==> #[trigger] op_targets(ps).nodes[id].config_delta.contains_key(k),
        forall|k: Seq<char>|
            op_targets(ps).nodes.contains_key(id) && #[trigger] op_targets(ps).nodes[id].config_delta.contains_key(k)
                ==> side_sets_to(ps, id, k, op_targets(ps).nodes[id].config_delta[k]),
    decreases ps.len(),
{
    if ps.len() == 0 {
        assert(op_targets(ps).nodes =~= Map::<StableId, NodeSummary>::empty());
    } else {
        let pre = ps.drop_last();
        let n = ps.len() - 1;
        let ops = ps[n].operations;
        lemma_op_targets_node(pre, id);
        lemma_record_ops_node(op_targets(pre), ops, id);
        assert(ps.last() == ps[n]);
        let t0 = op_targets(pre);
        let t = op_targets(ps);
        assert(t == record_ops(t0, ops));
        assert(side_touches_node(ps, id) <==> side_touches_node(pre, id) || ops_touch_node(ops, id)) by {
            if side_touches_node(ps, id) {
                let i = choose|i: int| 0 <= i < ps.len() && ops_touch_node(#[trigger] ps[i].operations, id);
                if i < n {
                    assert(pre[i] == ps[i]);
                }
            }
            if side_touches_node(pre, id) {
                let i = choose|i: int| 0 <= i < pre.len() && ops_touch_node(#[trigger] pre[i].operations, id);
                assert(ps[i] == pre[i]);
            }
        }
        if side_removes_node(ps, id) {
            let i = choose|i: int| 0 <= i < ps.len() && ops_remove_node(#[trigger] ps[i].operations, id);
            if i < n {
                assert(pre[i] == ps[i]);
                assert(side_removes_node(pre, id));
            }
        }
        if t.nodes.contains_key(id) && t.nodes[id].removed {
            if t0.nodes.contains_key(id) && t0.nodes[id].removed {
                assert(side_removes_node(pre, id));
                let i = choose|i: int| 0 <= i < pre.len() && ops_remove_node(#[trigger] pre[i].operations, id);
                assert(ps[i] == pre[i]);
            } else {
                assert(ops_remove_node(ps[n].operations, id));
            }
        }
        if side_adds_node(ps, id) {
            let i = choose|i: int| 0 <= i < ps.len() && ops_add_node(#[trigger] ps[i].operations, id);
            if i < n {
                assert(pre[i] == ps[i]);
                assert(side_adds_node(pre, id));
            }
        }
        if side_replaces_node(ps, id) {
            let i = choose|i: int| 0 <= i < ps.len() && ops_replace_node(#[trigger] ps[i].operations, id);
            if i < n {
                assert(pre[i] == ps[i]);
                assert(side_replaces_node(pre, id));
            }
        }
        assert forall|k: Seq<char>| t.nodes.contains_key(id) && #[trigger] t.nodes[id].config_delta.contains_key(k) implies side_sets_to(
            ps,
            id,
            k,
            t.nodes[id].config_delta[k],
        ) by {
            let v = t.nodes[id].config_delta[k];
            if ops_set_to(ops, id, k, v) {
                assert(side_sets_to(ps, id, k, v));
            } else {
                assert(t0.nodes[id].config_delta.contains_key(k));
                assert(side_sets_to(pre, id, k, v));
                let i = choose|i: int| 0 <= i < pre.len() && ops_set_to(#[trigger] pre[i].operations, id, k, v);
                assert(ps[i] == pre[i]);
            }
        }
        assert forall|k: Seq<char>| side_sets_key(ps, id, k) implies #[trigger] t.nodes[id].config_delta.contains_key(k) by {
            let i = choose|i: int| 0 <= i < ps.len() && ops_set_key(#[trigger] ps[i].operations, id, k);
            if i < n {
                assert(pre[i] == ps[i]);
                assert(side_sets_key(pre, id, k));
                assert(t0.nodes[id].config_delta.contains_key(k));
            }
        }
    }
}

/// A merge that succeeds holds the operations of every node it lists.
proof fn lemma_merge_nodes_has(ks: Seq<StableId>, lm: Map<StableId, NodeSummary>, rm: Map<StableId, NodeSummary>, id: StableId)
    requires
        merge_nodes(ks, lm, rm) is Ok,
        ks.contains(id),
    ensures
        merge_node_entry(id, lm, rm) is Ok,
        forall|x: OpView| merge_node_entry(id, lm, rm)->Ok_0.contains(x) ==> #[trigger] merge_nodes(ks, lm, rm)->Ok_0.contains(x),
    decreases ks.len(),
{
    let pre = ks.drop_last();
    let a = merge_nodes(ks, lm, rm)->Ok_0;
    if ks.last() == id {
        let prev = merge_nodes(pre, lm, rm)->Ok_0;
        let m = merge_node_entry(id, lm, rm)->Ok_0;
        assert(a == prev + m);
        assert forall|x: OpView| m.contains(x) implies #[trigger] a.contains(x) by {
            let q = choose|q: int| 0 <= q < m.len() && m[q] == x;
            assert(a[prev.len() + q] == x);
        }
    } else {
        let q = choose|q: int| 0 <= q < ks.len() && ks[q] == id;
        assert(pre[q] == id);
        lemma_merge_nodes_has(pre, lm, rm, id);
        let prev = merge_nodes(pre, lm, rm)->Ok_0;
        let m = merge_node_entry(ks.last(), lm, rm)->Ok_0;
        assert(a == prev + m);
        assert forall|x: OpView| prev.contains(x) implies #[trigger] a.contains(x) by {
            let q2 = choose|q2: int| 0 <= q2 < prev.len() && prev[q2] == x;
            assert(a[q2] == x);
        }
    }
}

/// What a merge that succeeds keeps of a node that only `side` touches.
proof fn lemma_merge_one_sided(ops: Seq<OpView>, a: Seq<OpView>, side: Seq<PatchView>, lm: Map<StableId, NodeSummary>, rm: Map<StableId, NodeSummary>, id: StableId)
    requires
        merge_nodes(key_order(lm.dom().union(rm.dom())), lm, rm) == Ok::<Seq<OpView>, Conflict>(a),
        forall|x: OpView| a.contains(x) ==> #[trigger] ops.contains(x),
        lm.dom().finite(),
        rm.dom().finite(),
        (lm.contains_key(id) && !rm.contains_key(id) && lm[id] == op_targets(side).nodes[id]) || (rm.contains_key(id)
            && !lm.contains_key(id) && rm[id] == op_targets(side).nodes[id]),
        node_keyed(op_targets(side).nodes, id),
        op_targets(side).nodes.contains_key(id),
    ensures
        op_targets(side).nodes[id].removed ==> ops.contains(OpView::RemoveNode(id)),
        !op_targets(side).nodes[id].removed && op_targets(side).nodes[id].added is Some ==> exists|n: NodeView|
            n.id == id && #[trigger] ops.contains(OpView::AddNode(n)),
        !op_targets(side).nodes[id].removed && op_targets(side).nodes[id].replaced is Some ==> exists|n: NodeView|
            n.id == id && #[trigger] ops.contains(OpView::ReplaceNode(n)),
        !op_targets(side).nodes[id].removed && op_targets(side).nodes[id].config_delta != Map::<Seq<char>, ChangeView>::empty()
            ==> ops.contains(OpView::ModifyConfig { node_id: id, delta: op_targets(side).nodes[id].config_delta }),
{
    let s = op_targets(side).nodes[id];
    let d = lm.dom().union(rm.dom());
    crate::keyorder::lemma_key_order_exists(d);
    let ks = key_order(d);
    assert(ks.contains(id));
    lemma_merge_nodes_has(ks, lm, rm, id);
    assert(merge_nodes(ks, lm, rm)->Ok_0 == a);
    let m = merge_node_entry(id, lm, rm)->Ok_0;
    assert forall|x: OpView| m.contains(x) implies ops.contains(x) by {
        assert(merge_nodes(ks, lm, rm)->Ok_0.contains(x));
        assert(a.contains(x));
    }
    assert(m == one_side_node_ops(id, s));
    let pa = if s.added is Some { seq![OpView::AddNode(s.added.unwrap())] } else { Seq::<OpView>::empty() };
    let pb = if s.replaced is Some { seq![OpView::ReplaceNode(s.replaced.unwrap())] } else { Seq::<OpView>::empty() };
    let pc = if s.config_delta == Map::<Seq<char>, ChangeView>::empty() {
        Seq::<OpView>::empty()
    } else {
        seq![OpView::ModifyConfig { node_id: id, delta: s.config_delta }]
    };
    if s.removed {
        assert(m[0] == OpView::RemoveNode(id));
        assert(m.contains(OpView::RemoveNode(id)));
        assert(a.contains(OpView::RemoveNode(id)));
    } else {
        assert(m == pa + pb + pc);
        if s.added is Some {
            let x = OpView::AddNode(s.added.unwrap());
            assert(m[0] == x);
            assert(m.contains(x));
            assert(a.contains(x));
            assert(ops.contains(x));
        }
        if s.replaced is Some {
            let x = OpView::ReplaceNode(s.replaced.unwrap());
            assert(m[pa.len() as int] == x);
            assert(m.contains(x));
            assert(a.contains(x));
            assert(ops.contains(x));
        }
        if s.config_delta != Map::<Seq<char>, ChangeView>::empty() {
            let x = OpView::ModifyConfig { node_id: id, delta: s.config_delta };
            assert(m[(pa.len() + pb.len()) as int] == x);
            assert(m.contains(x));
            assert(a.contains(x));
        }
    }
}

/// A merge that succeeds loses nothing of a node that only one side touches:
/// when the side removes it, the merge removes it; otherwise the merge adds
/// a node under that identifier when the side adds one, puts one in its
/// place when the side does, and changes each configuration key the side
/// changes. This holds with the side on the left or on the right.
pub proof fn law_merge_keeps_one_sided_nodes(side: Seq<PatchView>, other: Seq<PatchView>, id: StableId, ops: Seq<OpView>)
    requires
        !side_touches_node(other, id),
        merge_spec(side, other) == Ok::<Seq<OpView>, Conflict>(ops) || merge_spec(other, side) == Ok::<
            Seq<OpView>,
            Conflict,
        >(ops),
    ensures
        side_removes_node(side, id) ==> ops.contains(OpView::RemoveNode(id)),
        !side_removes_node(side, id) && side_adds_node(side, id) ==> exists|n: NodeView|
            n.id == id && #[trigger] ops.contains(OpView::AddNode(n)),
        !side_removes_node(side, id) && side_replaces_node(side, id) ==> exists|n: NodeView|
            n.id == id && #[trigger] ops.contains(OpView::ReplaceNode(n)),
        forall|k: Seq<char>|
            !side_removes_node(side, id) && #[trigger] side_sets_key(side, id, k) ==> exists|d: Map<Seq<char>, ChangeView>|
                d.contains_key(k) && #[trigger] ops.contains(OpView::ModifyConfig { node_id: id, delta: d }) && forall|k2: Seq<char>|
                    #[trigger] d.contains_key(k2) ==> side_sets_to(side, id, k2, d[k2]),
{
    lemma_op_targets_node(side, id);
    lemma_op_targets_node(other, id);
    let st = op_targets(side);
    let ot = op_targets(other);
    if side_touches_node(side, id) {
        let s = st.nodes[id];
        if merge_spec(side, other) == Ok::<Seq<OpView>, Conflict>(ops) {
            let a = merge_nodes(key_order(st.nodes.dom().union(ot.nodes.dom())), st.nodes, ot.nodes)->Ok_0;
            let b = merge_edges(key_order(st.edges.dom().union(ot.edges.dom())), st.edges, ot.edges)->Ok_0;
            assert(ops == a + b);
            assert forall|x: OpView| a.contains(x) implies #[trigger] ops.contains(x) by {
                let q = choose|q: int| 0 <= q < a.len() && a[q] == x;
                assert(ops[q] == x);
            }
            lemma_merge_one_sided(ops, a, side, st.nodes, ot.nodes, id);
        } else {
            let a = merge_nodes(key_order(ot.nodes.dom().union(st.nodes.dom())), ot.nodes, st.nodes)->Ok_0;
            let b = merge_edges(key_order(ot.edges.dom().union(st.edges.dom())), ot.edges, st.edges)->Ok_0;
            assert(ops == a + b);
            assert forall|x: OpView| a.contains(x) implies #[trigger] ops.contains(x) by {
                let q = choose|q: int| 0 <= q < a.len() && a[q] == x;
                assert(ops[q] == x);
            }
            lemma_merge_one_sided(ops, a, side, ot.nodes, st.nodes, id);
        }
        if !s.removed && s.added is Some {
            assert(s.added.unwrap().id == id);
        }
        if !s.removed && s.replaced is Some {
            assert(s.replaced.unwrap().id == id);
        }
        assert forall|k: Seq<char>| !side_removes_node(side, id) && #[trigger] side_sets_key(side, id, k) implies exists|d: Map<
            Seq<char>,
            ChangeView,
        >| d.contains_key(k) && #[trigger] ops.contains(OpView::ModifyConfig { node_id: id, delta: d }) && forall|k2: Seq<char>|
            #[trigger] d.contains_key(k2) ==> side_sets_to(side, id, k2, d[k2]) by {
            assert(s.config_delta.contains_key(k));
            assert(s.config_delta != Map::<Seq<char>, ChangeView>::empty());
            if s.removed {
            }
            assert(ops.contains(OpView::ModifyConfig { node_id: id, delta: s.config_delta }));
        }
    } else {
        if side_removes_node(side, id) {
            let i = choose|i: int| 0 <= i < side.len() && ops_remove_node(#[trigger] side[i].operations, id);
            let j = choose|j: int| 0 <= j < side[i].operations.len() && #[trigger] side[i].operations[j] == OpView::RemoveNode(id);
            assert(op_node(side[i].operations[j]) == Some(id));
        }
        if side_adds_node(side, id) {
            let i = choose|i: int| 0 <= i < side.len() && ops_add_node(#[trigger] side[i].operations, id);
            let j = choose|j: int| 0 <= j < side[i].operations.len() && (#[trigger] side[i].operations[j]) is AddNode && side[i].operations[j]->AddNode_0.id == id;
            assert(op_node(side[i].operations[j]) == Some(id));
        }
        if side_replaces_node(side, id) {
            let i = choose|i: int| 0 <= i < side.len() && ops_replace_node(#[trigger] side[i].operations, id);
            let j = choose|j: int| 0 <= j < side[i].operations.len() && (#[trigger] side[i].operations[j]) is ReplaceNode && side[i].operations[j]->ReplaceNode_0.id == id;
            assert(op_node(side[i].operations[j]) == Some(id));
        }
        assert forall|k: Seq<char>| !side_removes_node(side, id) && #[trigger] side_sets_key(side, id, k) implies exists|d: Map<
            Seq<char>,
            ChangeView,
        >| d.contains_key(k) && #[trigger] ops.contains(OpView::ModifyConfig { node_id: id, delta: d }) && forall|k2: Seq<char>|
            #[trigger] d.contains_key(k2) ==> side_sets_to(side, id, k2, d[k2]) by {
            let i = choose|i: int| 0 <= i < side.len() && ops_set_key(#[trigger] side[i].operations, id, k);
            let j = choose|j: int|
                0 <= j < side[i].operations.len() && (#[trigger] side[i].operations[j]) is ModifyConfig
                    && side[i].operations[j]->ModifyConfig_node_id == id && side[i].operations[j]->ModifyConfig_delta.contains_key(k);
            assert(op_node(side[i].operations[j]) == Some(id));
        }
    }

}

/// The edge an operation acts on, if any.
pub open spec fn op_edge(op: OpView) -> Option<StableId> {
    match op {
        OpView::AddEdge(e) => Some(e.id),
        OpView::RemoveEdge(id) => Some(id),
        OpView::ModifyEdge { edge_id, .. } => Some(edge_id),
        _ => None,
    }
}

/// Some operation acts on the edge.
pub open spec fn ops_touch_edge(ops: Seq<OpView>, id: StableId) -> bool {
    exists|j: int| 0 <= j < ops.len() && op_edge(#[trigger] ops[j]) == Some(id)
}

/// Some operation removes the edge.
pub open spec fn ops_remove_edge(ops: Seq<OpView>, id: StableId) -> bool {
    exists|j: int| 0 <= j < ops.len() && #[trigger] ops[j] == OpView::RemoveEdge(id)
}

/// Some operation adds an edge under the identifier.
pub open spec fn ops_add_edge(ops: Seq<OpView>, id: StableId) -> bool {
    exists|j: int| 0 <= j < ops.len() && (#[trigger] ops[j]) is AddEdge && ops[j]->AddEdge_0.id == id
}

/// Some operation changes the edge.
pub open spec fn ops_modify_edge(ops: Seq<OpView>, id: StableId) -> bool {
    exists|j: int| 0 <= j < ops.len() && (#[trigger] ops[j]) is ModifyEdge && ops[j]->ModifyEdge_edge_id == id
}

/// Some patch acts on the edge.
pub open spec fn side_touches_edge(ps: Seq<PatchView>, id: StableId) -> bool {
    exists|i: int| 0 <= i < ps.len() && ops_touch_edge(#[trigger] ps[i].operations, id)
}

/// Some patch removes the edge.
pub open spec fn side_removes_edge(ps: Seq<PatchView>, id: StableId) -> bool {
    exists|i: int| 0 <= i < ps.len() && ops_remove_edge(#[trigger] ps[i].operations, id)
}

/// Some patch adds an edge under the identifier.
pub open spec fn side_adds_edge(ps: Seq<PatchView>, id: StableId) -> bool {
    exists|i: int| 0 <= i < ps.len() && ops_add_edge(#[trigger] ps[i].operations, id)
}

/// Some patch changes the edge.
pub open spec fn side_modifies_edge(ps: Seq<PatchView>, id: StableId) -> bool {
    exists|i: int| 0 <= i < ps.len() && ops_modify_edge(#[trigger] ps[i].operations, id)
}

spec fn edge_keyed(m: Map<StableId, EdgeSummary>, id: StableId) -> bool {
    m.contains_key(id) ==> (m[id].added matches Some(a) ==> a.id == id)
}

spec fn edge_grows(a: EdgeSummary, b: EdgeSummary) -> bool {
    &&& a.removed ==> b.removed
    &&& a.added is Some ==> b.added is Some
    &&& a.modified is Some ==> b.modified is Some
}

/// What recording operations does to one edge's summary.
#[verifier::rlimit(40)]
proof fn lemma_record_ops_edge(t: Targets, ops: Seq<OpView>, id: StableId)
    requires
        t.edges.dom().finite(),
        edge_keyed(t.edges, id),
    ensures
        record_ops(t, ops).edges.dom().finite(),
        edge_keyed(record_ops(t, ops).edges, id),
        record_ops(t, ops).edges.contains_key(id) <==> (t.edges.contains_key(id) || ops_touch_edge(ops, id)),
        t.edges.contains_key(id) ==> edge_grows(t.edges[id], record_ops(t, ops).edges[id]),
        ops_remove_edge(ops, id) ==> record_ops(t, ops).edges[id].removed,
        record_ops(t, ops).edges.contains_key(id) && record_ops(t, ops).edges[id].removed ==> (t.edges.contains_key(id)
            && t.edges[id].removed) || ops_remove_edge(ops, id),
        ops_add_edge(ops, id) ==> record_ops(t, ops).edges[id].added is Some,
        ops_modify_edge(ops, id) ==> record_ops(t, ops).edges[id].modified is Some,
    decreases ops.len(),
{
    if ops.len() > 0 {
        let pre = ops.drop_last();
        let last = ops.last();
        lemma_record_ops_edge(t, pre, id);
        let r0 = record_ops(t, pre);
        let r = record_ops(t, ops);
        assert(r == record_op(r0, last));
        let n = ops.len() - 1;
        assert(ops[n] == last);
        assert(ops_touch_edge(ops, id) <==> ops_touch_edge(pre, id) || op_edge(last) == Some(id)) by {
            if ops_touch_edge(ops, id) {
                let j = choose|j: int| 0 <= j < ops.len() && op_edge(#[trigger] ops[j]) == Some(id);
                if j < n {
                    assert(pre[j] == ops[j]);
                }
            }
            if ops_touch_edge(pre, id) {
                let j = choose|j: int| 0 <= j < pre.len() && op_edge(#[trigger] pre[j]) == Some(id);
                assert(ops[j] == pre[j]);
            }
        }
        assert(ops_remove_edge(ops, id) <==> ops_remove_edge(pre, id) || last == OpView::RemoveEdge(id)) by {
            if ops_remove_edge(ops, id) {
                let j = choose|j: int| 0 <= j < ops.len() && #[trigger] ops[j] == OpView::RemoveEdge(id);
                if j < n {
                    assert(pre[j] == ops[j]);
                }
            }
            if ops_remove_edge(pre, id) {
                let j = choose|j: int| 0 <= j < pre.len() && #[trigger] pre[j] == OpView::RemoveEdge(id);
                assert(ops[j] == pre[j]);
            }
            if last == OpView::RemoveEdge(id) {
                assert(ops[n] == OpView::RemoveEdge(id));
            }
        }
        assert(ops_add_edge(ops, id) ==> ops_add_edge(pre, id) || (last is AddEdge && last->AddEdge_0.id == id)) by {
            if ops_add_edge(ops, id) {
                let j = choose|j: int| 0 <= j < ops.len() && (#[trigger] ops[j]) is AddEdge && ops[j]->AddEdge_0.id == id;
                if j < n {
                    assert(pre[j] == ops[j]);
                }
            }
        }
        assert(ops_modify_edge(ops, id) ==> ops_modify_edge(pre, id) || (last is ModifyEdge && last->ModifyEdge_edge_id
            == id)) by {
            if ops_modify_edge(ops, id) {
                let j = choose|j: int| 0 <= j < ops.len() && (#[trigger] ops[j]) is ModifyEdge && ops[j]->ModifyEdge_edge_id == id;
                if j < n {
                    assert(pre[j] == ops[j]);
                }
            }
        }
        if op_edge(last) == Some(id) {
            assert(r.edges.contains_key(id));
        } else {
            assert(r.edges.contains_key(id) == r0.edges.contains_key(id));
            if r0.edges.contains_key(id) {
                assert(r.edges[id] == r0.edges[id]);
            }
        }
    }
}

/// What a side's patches do to one edge's summary.
proof fn lemma_op_targets_edge(ps: Seq<PatchView>, id: StableId)
    ensures
        op_targets(ps).edges.dom().finite(),
        edge_keyed(op_targets(ps).edges, id),
        op_targets(ps).edges.contains_key(id) <==> side_touches_edge(ps, id),
        side_removes_edge(ps, id) ==> op_targets(ps).edges[id].removed,
        op_targets(ps).edges.contains_key(id) && op_targets(ps).edges[id].removed ==> side_removes_edge(ps, id),
        side_adds_edge(ps, id) ==> op_targets(ps).edges[id].added is Some,
        side_modifies_edge(ps, id) ==> op_targets(ps).edges[id].modified is Some,
    decreases ps.len(),
{
    if ps.len() == 0 {
        assert(op_targets(ps).edges =~= Map::<StableId, EdgeSummary>::empty());
    } else {
        let pre = ps.drop_last();
        let n = ps.len() - 1;
        let ops = ps[n].operations;
        lemma_op_targets_edge(pre, id);
        lemma_record_ops_edge(op_targets(pre), ops, id);
        assert(ps.last() == ps[n]);
        let t0 = op_targets(pre);
        let t = op_targets(ps);
        assert(t == record_ops(t0, ops));
        assert(side_touches_edge(ps, id) <==> side_touches_edge(pre, id) || ops_touch_edge(ops, id)) by {
            if side_touches_edge(ps, id) {
                let i = choose|i: int| 0 <= i < ps.len() && ops_touch_edge(#[trigger] ps[i].operations, id);
                if i < n {
                    assert(pre[i] == ps[i]);
                }
            }
            if side_touches_edge(pre, id) {
                let i = choose|i: int| 0 <= i < pre.len() && ops_touch_edge(#[trigger] pre[i].operations, id);
                assert(ps[i] == pre[i]);
            }
        }
        if side_removes_edge(ps, id) {
            let i = choose|i: int| 0 <= i < ps.len() && ops_remove_edge(#[trigger] ps[i].operations, id);
            if i < n {
                assert(pre[i] == ps[i]);
                assert(side_removes_edge(pre, id));
            }
        }
        if t.edges.contains_key(id) && t.edges[id].removed {
            if t0.edges.contains_key(id) && t0.edges[id].removed {
                assert(side_removes_edge(pre, id));
                let i = choose|i: int| 0 <= i < pre.len() && ops_remove_edge(#[trigger] pre[i].operations, id);
                assert(ps[i] == pre[i]);
            } else {
                assert(ops_remove_edge(ps[n].operations, id));
            }
        }
        if side_adds_edge(ps, id) {
            let i = choose|i: int| 0 <= i < ps.len() && ops_add_edge(#[trigger] ps[i].operations, id);
            if i < n {
                assert(pre[i] == ps[i]);
                assert(side_adds_edge(pre, id));
            }
        }
        if side_modifies_edge(ps, id) {
            let i = choose|i: int| 0 <= i < ps.len() && ops_modify_edge(#[trigger] ps[i].operations, id);
            if i < n {
                assert(pre[i] == ps[i]);
                assert(side_modifies_edge(pre, id));
            }
        }
    }
}

/// A merge that succeeds holds the operations of every edge it lists.
proof fn lemma_merge_edges_has(ks: Seq<StableId>, lm: Map<StableId, EdgeSummary>, rm: Map<StableId, EdgeSummary>, id: StableId)
    requires
        merge_edges(ks, lm, rm) is Ok,
        ks.contains(id),
    ensures
        merge_edge_entry(id, lm, rm) is Ok,
        forall|x: OpView| merge_edge_entry(id, lm, rm)->Ok_0.contains(x) ==> #[trigger] merge_edges(ks, lm, rm)->Ok_0.contains(x),
    decreases ks.len(),
{
    let pre = ks.drop_last();
    let a = merge_edges(ks, lm, rm)->Ok_0;
    if ks.last() == id {
        let prev = merge_edges(pre, lm, rm)->Ok_0;
        let m = merge_edge_entry(id, lm, rm)->Ok_0;
        assert(a == prev + m);
        assert forall|x: OpView| m.contains(x) implies #[trigger] a.contains(x) by {
            let q = choose|q: int| 0 <= q < m.len() && m[q] == x;
            assert(a[prev.len() + q] == x);
        }
    } else {
        let q = choose|q: int| 0 <= q < ks.len() && ks[q] == id;
        assert(pre[q] == id);
        lemma_merge_edges_has(pre, lm, rm, id);
        let prev = merge_edges(pre, lm, rm)->Ok_0;
        let m = merge_edge_entry(ks.last(), lm, rm)->Ok_0;
        assert(a == prev + m);
        assert forall|x: OpView| prev.contains(x) implies #[trigger] a.contains(x) by {
            let q2 = choose|q2: int| 0 <= q2 < prev.len() && prev[q2] == x;
            assert(a[q2] == x);
        }
    }
}

/// What a merge that succeeds keeps of an edge that only `side` touches.
proof fn lemma_merge_one_sided_edge(ops: Seq<OpView>, b: Seq<OpView>, side: Seq<PatchView>, lm: Map<StableId, EdgeSummary>, rm: Map<StableId, EdgeSummary>, id: StableId)
    requires
        merge_edges(key_order(lm.dom().union(rm.dom())), lm, rm) == Ok::<Seq<OpView>, Conflict>(b),
        forall|x: OpView| b.contains(x) ==> #[trigger] ops.contains(x),
        lm.dom().finite(),
        rm.dom().finite(),
        (lm.contains_key(id) && !rm.contains_key(id) && lm[id] == op_targets(side).edges[id]) || (rm.contains_key(id)
            && !lm.contains_key(id) && rm[id] == op_targets(side).edges[id]),
    ensures
        op_targets(side).edges[id].removed ==> ops.contains(OpView::RemoveEdge(id)),
        !op_targets(side).edges[id].removed && op_targets(side).edges[id].added is Some ==> ops.contains(
            OpView::AddEdge(op_targets(side).edges[id].added.unwrap()),
        ),
        !op_targets(side).edges[id].removed && op_targets(side).edges[id].modified is Some ==> ops.contains(
            OpView::ModifyEdge { edge_id: id, delta: op_targets(side).edges[id].modified.unwrap() },
        ),
{
    let s = op_targets(side).edges[id];
    let d = lm.dom().union(rm.dom());
    crate::keyorder::lemma_key_order_exists(d);
    let ks = key_order(d);
    assert(ks.contains(id));
    lemma_merge_edges_has(ks, lm, rm, id);
    assert(merge_edges(ks, lm, rm)->Ok_0 == b);
    let m = merge_edge_entry(id, lm, rm)->Ok_0;
    assert forall|x: OpView| m.contains(x) implies ops.contains(x) by {
        assert(merge_edges(ks, lm, rm)->Ok_0.contains(x));
        assert(b.contains(x));
    }
    assert(m == one_side_edge_ops(id, s));
    let pa = if s.added is Some { seq![OpView::AddEdge(s.added.unwrap())] } else { Seq::<OpView>::empty() };
    let pb = if s.modified is Some {
        seq![OpView::ModifyEdge { edge_id: id, delta: s.modified.unwrap() }]
    } else {
        Seq::<OpView>::empty()
    };
    if s.removed {
        assert(m[0] == OpView::RemoveEdge(id));
        assert(m.contains(OpView::RemoveEdge(id)));
    } else {
        assert(m == pa + pb);
        if s.added is Some {
            let x = OpView::AddEdge(s.added.unwrap());
            assert(m[0] == x);
            assert(m.contains(x));
        }
        if s.modified is Some {
            let x = OpView::ModifyEdge { edge_id: id, delta: s.modified.unwrap() };
            assert(m[pa.len() as int] == x);
            assert(m.contains(x));
        }
    }
}

/// A merge that succeeds loses nothing of an edge that only one side
/// touches: when the side removes it, the merge removes it; otherwise the
/// merge adds an edge under that identifier when the side adds one, and
/// changes it when the side does. This holds with the side on the left or
/// on the right.
pub proof fn law_merge_keeps_one_sided_edges(side: Seq<PatchView>, other: Seq<PatchView>, id: StableId, ops: Seq<OpView>)
    requires
        !side_touches_edge(other, id),
        merge_spec(side, other) == Ok::<Seq<OpView>, Conflict>(ops) || merge_spec(other, side) == Ok::<
            Seq<OpView>,
            Conflict,
        >(ops),
    ensures
        side_removes_edge(side, id) ==> ops.contains(OpView::RemoveEdge(id)),
        !side_removes_edge(side, id) && side_adds_edge(side, id) ==> exists|e: Edge|
            e.id == id && #[trigger] ops.contains(OpView::AddEdge(e)),
        !side_removes_edge(side, id) && side_modifies_edge(side, id) ==> exists|d: EdgeDelta|
            #[trigger] ops.contains(OpView::ModifyEdge { edge_id: id, delta: d }),
{
    lemma_op_targets_edge(side, id);
    lemma_op_targets_edge(other, id);
    let st = op_targets(side);
    let ot = op_targets(other);
    if side_touches_edge(side, id) {
        let s = st.edges[id];
        if merge_spec(side, other) == Ok::<Seq<OpView>, Conflict>(ops) {
            let a = merge_nodes(key_order(st.nodes.dom().union(ot.nodes.dom())), st.nodes, ot.nodes)->Ok_0;
            let b = merge_edges(key_order(st.edges.dom().union(ot.edges.dom())), st.edges, ot.edges)->Ok_0;
            assert(ops == a + b);
            assert forall|x: OpView| b.contains(x) implies #[trigger] ops.contains(x) by {
                let q = choose|q: int| 0 <= q < b.len() && b[q] == x;
                assert(ops[a.len() + q] == x);
            }
            lemma_merge_one_sided_edge(ops, b, side, st.edges, ot.edges, id);
        } else {
            let a = merge_nodes(key_order(ot.nodes.dom().union(st.nodes.dom())), ot.nodes, st.nodes)->Ok_0;
            let b = merge_edges(key_order(ot.edges.dom().union(st.edges.dom())), ot.edges, st.edges)->Ok_0;
            assert(ops == a + b);
            assert forall|x: OpView| b.contains(x) implies #[trigger] ops.contains(x) by {
                let q = choose|q: int| 0 <= q < b.len() && b[q] == x;
                assert(ops[a.len() + q] == x);
            }
            lemma_merge_one_sided_edge(ops, b, side, ot.edges, st.edges, id);
        }
        if !s.removed && s.added is Some {
            assert(s.added.unwrap().id == id);
        }
        if !s.removed && s.modified is Some {
            assert(ops.contains(OpView::ModifyEdge { edge_id: id, delta: s.modified.unwrap() }));
        }
    } else {
        if side_removes_edge(side, id) {
            let i = choose|i: int| 0 <= i < side.len() && ops_remove_edge(#[trigger] side[i].operations, id);
            let j = choose|j: int| 0 <= j < side[i].operations.len() && #[trigger] side[i].operations[j] == OpView::RemoveEdge(id);
            assert(op_edge(side[i].operations[j]) == Some(id));
        }
        if side_adds_edge(side, id) {
            let i = choose|i: int| 0 <= i < side.len() && ops_add_edge(#[trigger] side[i].operations, id);
            let j = choose|j: int| 0 <= j < side[i].operations.len() && (#[trigger] side[i].operations[j]) is AddEdge && side[i].operations[j]->AddEdge_0.id == id;
            assert(op_edge(side[i].operations[j]) == Some(id));
        }
        if side_modifies_edge(side, id) {
            let i = choose|i: int| 0 <= i < side.len() && ops_modify_edge(#[trigger] side[i].operations, id);
            let j = choose|j: int| 0 <= j < side[i].operations.len() && (#[trigger] side[i].operations[j]) is ModifyEdge && side[i].operations[j]->ModifyEdge_edge_id == id;
            assert(op_edge(side[i].operations[j]) == Some(id));
        }
    }
}

proof fn lemma_first_conflict_unique(l: Map<Seq<char>, ChangeView>, r: Map<Seq<char>, ChangeView>, k: Seq<char>)
    requires
        is_first_conflict(l, r, k),
    ensures
        first_conflict(l, r) == k,
{
    let s = conflicting_keys(l, r);
    assert(s.contains(k));
    assert forall|k2: Seq<char>| #[trigger] s.contains(k2) && k2 != k implies chars_lt(k, k2) by {
        assert(key_conflicts(l, r, k2));
    }
    let c = least_key(s);
    assert(s.contains(c));
    if c != k {
        assert(chars_lt(k, c));
        assert(chars_lt(c, k));
        lemma_chars_lt_asymmetric(k, c);
    }
}

proof fn lemma_ops_view_push(s: Seq<Operation>, o: Operation)
    ensures
        ops_view(s.push(o)) == ops_view(s).push(o@),
{
    assert(ops_view(s.push(o)) =~= ops_view(s).push(o@));
}

/// Appends an operation.
fn push_op(ops: &mut Vec<Operation>, o: Operation)
    ensures
        ops_view(final(ops)@) == ops_view(old(ops)@) + seq![o@],
{
    proof {
        lemma_ops_view_push(ops@, o);
    }
    ops.push(o);
    assert(ops_view(old(ops)@).push(o@) =~= ops_view(old(ops)@) + seq![o@]);
}

/// Appends what one side alone does to a node.
fn push_one_side_node(ops: &mut Vec<Operation>, id: StableId, s: &NodeOpSummary)
    ensures
        ops_view(final(ops)@) == ops_view(old(ops)@) + one_side_node_ops(id, s@),
{
    let ghost start = ops_view(ops@);
    if s.removed {
        push_op(ops, Operation::RemoveNode(id));
    } else {
        let ghost a = if s@.added is Some { seq![OpView::AddNode(s@.added.unwrap())] } else { Seq::<OpView>::empty() };
        let ghost b = if s@.replaced is Some { seq![OpView::ReplaceNode(s@.replaced.unwrap())] } else { Seq::<OpView>::empty() };
        if let Some(node) = &s.added {
            push_op(ops, Operation::AddNode(node.clone()));
        }
        assert(ops_view(ops@) =~= start + a);
        if let Some(node) = &s.replaced {
            push_op(ops, Operation::ReplaceNode(node.clone()));
        }
        assert(ops_view(ops@) =~= start + a + b);
        if !s.config_delta.is_empty() {
            proof {
                assert(delta_model(s.config_delta).contains_key(s.config_delta.entries()[0].0@));
            }
            push_op(ops, Operation::ModifyConfig { node_id: id, delta: delta_clone(&s.config_delta) });
        } else {
            assert(delta_model(s.config_delta) =~= Map::<Seq<char>, ChangeView>::empty());
        }
        assert(ops_view(ops@) =~= start + one_side_node_ops(id, s@));
    }
}

/// Appends what one side alone does to an edge.
fn push_one_side_edge(ops: &mut Vec<Operation>, id: StableId, s: &EdgeOpSummary)
    ensures
        ops_view(final(ops)@) == ops_view(old(ops)@) + one_side_edge_ops(id, s@),
{
    let ghost start = ops_view(ops@);
    if s.removed {
        push_op(ops, Operation::RemoveEdge(id));
    } else {
        let ghost a = if s@.added is Some { seq![OpView::AddEdge(s@.added.unwrap())] } else { Seq::<OpView>::empty() };
        if let Some(edge) = &s.added {
            push_op(ops, Operation::AddEdge(edge.clone()));
        }
        assert(ops_view(ops@) =~= start + a);
        if let Some(delta) = &s.modified {
            push_op(ops, Operation::ModifyEdge { edge_id: id, delta: delta.clone() });
        }
        assert(ops_view(ops@) =~= start + one_side_edge_ops(id, s@));
    }
}

/// The union of two configuration deltas, or the least key that both change
/// differently.
fn merge_config_deltas(id: StableId, l: &ConfigDelta, r: &ConfigDelta) -> (res: Result<ConfigDelta, MergeError>)
    ensures
        match res {
            Ok(m) => !has_conflict(delta_model(*l), delta_model(*r)) && delta_model(m) == delta_model(*r).union_prefer_right(delta_model(*l)),
            Err(e) => has_conflict(delta_model(*l), delta_model(*r)) && e@ == Conflict::ConfigConflict {
                node_id: id,
                key: first_conflict(delta_model(*l), delta_model(*r)),
            },
        },
{
    r.entries_are_sorted();
    let ghost lm = delta_model(*l);
    let ghost rm = delta_model(*r);
    let ghost es = r.entries();
    let mut merged = delta_clone(l);
    let mut i: usize = 0;
    proof {
        assert(entries_map(es.take(0)) =~= Map::<Seq<char>, ConfigChange>::empty());
        assert(entries_map(es.take(0)).map_values(|c: ConfigChange| c@).union_prefer_right(lm) =~= lm);
    }
    while i < r.len()
        invariant
            es == r.entries(),
            keys_sorted(es),
            lm == delta_model(*l),
            rm == delta_model(*r),
            i <= es.len(),
            forall|j: int| 0 <= j < i ==> !key_conflicts(lm, rm, #[trigger] es[j].0@),
            delta_model(merged) == entries_map(es.take(i as int)).map_values(|c: ConfigChange| c@).union_prefer_right(lm),
        decreases es.len() - i,
    {
        let key = r.key_at(i);
        let rc = r.value_at(i);
        let ghost p = entries_map(es.take(i as int)).map_values(|c: ConfigChange| c@);
        let ghost before = delta_model(merged);
        proof {
            lemma_entries_map_index(es, i as int);
            lemma_entries_map_prefix(es, i as int);
            assert(entries_map(es.take(i + 1)).map_values(|c: ConfigChange| c@) =~= p.insert(key@, rc@));
            assert(rm.contains_key(key@) && rm[key@] == rc@);
        }
        match l.get(key.as_str()) {
            Some(lc) => {
                if !lc.same(rc) {
                    proof {
                        assert(key_conflicts(lm, rm, key@));
                        assert forall|k2: Seq<char>| #[trigger] key_conflicts(lm, rm, k2) && k2 != key@ implies chars_lt(key@, k2) by {
                            assert(has_key(es, k2));
                            let j = key_index(es, k2);
                            if j < i {
                                assert(!key_conflicts(lm, rm, es[j].0@));
                            } else if j == i {
                            } else {
                                assert(chars_lt(es[i as int].0@, es[j].0@));
                            }
                        }
                        assert(is_first_conflict(lm, rm, key@));
                        lemma_first_conflict_unique(lm, rm, key@);
                    }
                    return Err(MergeError::ConfigConflict { node_id: id, key: key.clone() });
                }
                proof {
                    assert(p.insert(key@, rc@).union_prefer_right(lm) =~= p.union_prefer_right(lm));
                }
            },
            None => {
                let c = ConfigChange {
                    old: crate::types::opt_value_clone(&rc.old),
                    new: crate::types::opt_value_clone(&rc.new),
                };
                merged.insert(key.clone(), c);
                proof {
                    assert(delta_model(merged) =~= before.insert(key@, rc@));
                    assert(p.insert(key@, rc@).union_prefer_right(lm) =~= p.union_prefer_right(lm).insert(key@, rc@));
                }
            },
        }
        i = i + 1;
    }
    proof {
        assert(es.take(es.len() as int) =~= es);
        assert(entries_map(es).map_values(|c: ConfigChange| c@) =~= rm);
        assert(!has_conflict(lm, rm)) by {
            if has_conflict(lm, rm) {
                let k = choose|k: Seq<char>| key_conflicts(lm, rm, k);
                assert(has_key(es, k));
                let j = key_index(es, k);
                assert(!key_conflicts(lm, rm, es[j].0@));
            }
        }
    }
    Ok(merged)
}

/// Appends the combination of what both sides do to a node, or gives the conflict.
fn push_merged_node(ops: &mut Vec<Operation>, id: StableId, l: &NodeOpSummary, r: &NodeOpSummary) -> (res: Result<(), MergeError>)
    ensures
        match merge_node(id, l@, r@) {
            Ok(s) => res is Ok && ops_view(final(ops)@) == ops_view(old(ops)@) + s,
            Err(c) => res matches Err(e) && e@ == c,
        },
{
    let ghost start = ops_view(ops@);
    let l_empty = l.config_delta.is_empty();
    let r_empty = r.config_delta.is_empty();
    proof {
        if l_empty {
            assert(delta_model(l.config_delta) =~= Map::<Seq<char>, ChangeView>::empty());
        } else {
            assert(delta_model(l.config_delta).contains_key(l.config_delta.entries()[0].0@));
        }
        if r_empty {
            assert(delta_model(r.config_delta) =~= Map::<Seq<char>, ChangeView>::empty());
        } else {
            assert(delta_model(r.config_delta).contains_key(r.config_delta.entries()[0].0@));
        }
    }
    if l.removed && r.removed && l.added.is_none() && r.added.is_none() && l.replaced.is_none() && r.replaced.is_none()
        && l_empty && r_empty {
        push_op(ops, Operation::RemoveNode(id));
        return Ok(());
    }
    if l.removed || r.removed {
        return Err(MergeError::RemoveModifyConflict { node_id: id });
    }
    let ghost a = if l@.added is Some && r@.added is Some { seq![OpView::AddNode(l@.added.unwrap())] } else { Seq::<OpView>::empty() };
    if let (Some(la), Some(ra)) = (&l.added, &r.added) {
        if !la.same(ra) {
            return Err(MergeError::AddNodeConflict { node_id: id });
        }
        push_op(ops, Operation::AddNode(la.clone()));
    }
    assert(ops_view(ops@) =~= start + a);
    let ghost b = if l@.replaced is Some { seq![OpView::ReplaceNode(l@.replaced.unwrap())] } else if r@.replaced is Some { seq![OpView::ReplaceNode(r@.replaced.unwrap())] } else { Seq::<OpView>::empty() };
    if let (Some(lr), Some(rr)) = (&l.replaced, &r.replaced) {
        if !lr.same(rr) {
            return Err(MergeError::ReplaceConflict { node_id: id });
        }
        push_op(ops, Operation::ReplaceNode(lr.clone()));
    } else if let Some(lr) = &l.replaced {
        push_op(ops, Operation::ReplaceNode(lr.clone()));
    } else if let Some(rr) = &r.replaced {
        push_op(ops, Operation::ReplaceNode(rr.clone()));
    }
    assert(ops_view(ops@) =~= start + a + b);
    let merged = merge_config_deltas(id, &l.config_delta, &r.config_delta)?;
    if !merged.is_empty() {
        proof {
            assert(delta_model(merged).contains_key(merged.entries()[0].0@));
        }
        push_op(ops, Operation::ModifyConfig { node_id: id, delta: merged });
    } else {
        assert(delta_model(merged) =~= Map::<Seq<char>, ChangeView>::empty());
    }
    assert(ops_view(ops@) =~= start + merge_node(id, l@, r@)->Ok_0);
    Ok(())
}

/// Appends the combination of what both sides do to an edge, or gives the conflict.
fn push_merged_edge(ops: &mut Vec<Operation>, id: StableId, l: &EdgeOpSummary, r: &EdgeOpSummary) -> (res: Result<(), MergeError>)
    ensures
        match merge_edge(id, l@, r@) {
            Ok(s) => res is Ok && ops_view(final(ops)@) == ops_view(old(ops)@) + s,
            Err(c) => res matches Err(e) && e@ == c,
        },
{
    let ghost start = ops_view(ops@);
    if l.removed && r.removed && l.added.is_none() && r.added.is_none() && l.modified.is_none() && r.modified.is_none() {
        push_op(ops, Operation::RemoveEdge(id));
        return Ok(());
    }
    if l.removed || r.removed {
        return Err(MergeError::RemoveModifyConflict { node_id: id });
    }
    let ghost a = if l@.added is Some && r@.added is Some { seq![OpView::AddEdge(l@.added.unwrap())] } else { Seq::<OpView>::empty() };
    if let (Some(la), Some(ra)) = (&l.added, &r.added) {
        if !la.same(ra) {
            return Err(MergeError::AddEdgeConflict { edge_id: id });
        }
        push_op(ops, Operation::AddEdge(la.clone()));
    }
    assert(ops_view(ops@) =~= start + a);
    if l.modified.is_some() || r.modified.is_some() {
        let same = match (&l.modified, &r.modified) {
            (Some(x), Some(y)) => x.same(y),
            _ => false,
        };
        if !same {
            return Err(MergeError::EdgeConflict { edge_id: id });
        }
        if let Some(delta) = &l.modified {
            push_op(ops, Operation::ModifyEdge { edge_id: id, delta: delta.clone() });
        }
    }
    assert(ops_view(ops@) =~= start + merge_edge(id, l@, r@)->Ok_0);
    Ok(())
}

/// The identifiers that either table holds, in increasing order.
fn union_keys<A, B>(a: &BTreeMap<StableId, A>, b: &BTreeMap<StableId, B>) -> (ks: Vec<StableId>)
    ensures
        ks@ == key_order(a@.dom().union(b@.dom())),
        enumerates(ks@, a@.dom().union(b@.dom())),
{
    let mut u: BTreeMap<StableId, bool> = BTreeMap::new();
    let ka = sorted_keys(a);
    let mut i: usize = 0;
    while i < ka.len()
        invariant
            enumerates(ka@, a@.dom()),
            i <= ka@.len(),
            forall|k: StableId| u@.contains_key(k) <==> ka@.take(i as int).contains(k),
        decreases ka@.len() - i,
    {
        u.insert(ka[i], true);
        proof {
            assert(ka@.take(i + 1) =~= ka@.take(i as int).push(ka@[i as int]));
            assert forall|k: StableId| u@.contains_key(k) <==> ka@.take(i + 1).contains(k) by {
                broadcast use vstd::seq_lib::group_seq_properties;
            }
        }
        i = i + 1;
    }
    proof {
        assert(ka@.take(ka@.len() as int) =~= ka@);
    }
    let kb = sorted_keys(b);
    let mut j: usize = 0;
    while j < kb.len()
        invariant
            enumerates(ka@, a@.dom()),
            enumerates(kb@, b@.dom()),
            j <= kb@.len(),
            forall|k: StableId| u@.contains_key(k) <==> (ka@.contains(k) || kb@.take(j as int).contains(k)),
        decreases kb@.len() - j,
    {
        let ghost u0 = u@;
        let x = kb[j];
        u.insert(x, true);
        proof {
            let t0 = kb@.take(j as int);
            let t1 = kb@.take(j + 1);
            assert(t1 =~= t0.push(x));
            assert forall|k: StableId| u@.contains_key(k) <==> (ka@.contains(k) || t1.contains(k)) by {
                assert(u@.contains_key(k) <==> (u0.contains_key(k) || k == x));
                assert(u0.contains_key(k) <==> (ka@.contains(k) || t0.contains(k)));
                if t1.contains(k) && k != x {
                    let p = choose|p: int| 0 <= p < t1.len() && t1[p] == k;
                    assert(t0[p] == k);
                }
                if t0.contains(k) {
                    let p = choose|p: int| 0 <= p < t0.len() && t0[p] == k;
                    assert(t1[p] == k);
                }
                assert(t1[j as int] == x);
            }
        }
        j = j + 1;
    }
    proof {
        assert(kb@.take(kb@.len() as int) =~= kb@);
        assert(u@.dom() =~= a@.dom().union(b@.dom()));
    }
    sorted_keys(&u)
}

/// Merges two patch sets made from a common base (which is not consulted):
/// one patch, made by the system and trusted, holding the combined
/// operations of both sides (see `merge_spec`), or the first conflict.
pub fn merge_three_way(_base: &PatchSet, left: &PatchSet, right: &PatchSet) -> (r: Result<PatchSet, MergeError>)
    ensures
        match merge_spec(patches_view(left.patches@), patches_view(right.patches@)) {
            Ok(ops) => r matches Ok(ps) && {
                &&& ps.patches@.len() == 1
                &&& ops_view(ps.patches@[0].operations@) == ops
                &&& ps.patches@[0].intent_ref is None
                &&& ps.patches@[0].parents@.len() == 0
                &&& ps.patches@[0].parent_hashes@.len() == 0
                &&& ps.patches@[0].source == PatchSource::System
                &&& ps.patches@[0].trust == TrustLevel::Trusted
                &&& ps.patches@[0].digest_valid()
            },
            Err(c) => r matches Err(e) && e@ == c,
        },
{
    let left_ops = collect_op_targets(left.patches.as_slice());
    let right_ops = collect_op_targets(right.patches.as_slice());
    let ghost lt = left_ops@;
    let ghost rt = right_ops@;
    let mut merged_ops: Vec<Operation> = Vec::new();
    // Nodes.
    let node_ids = union_keys(&left_ops.nodes, &right_ops.nodes);
    proof {
        assert(lt.nodes.dom() =~= left_ops.nodes@.dom());
        assert(rt.nodes.dom() =~= right_ops.nodes@.dom());
    }
    let mut i: usize = 0;
    proof {
        assert(node_ids@.take(0) =~= Seq::<StableId>::empty());
        assert(ops_view(merged_ops@) =~= Seq::<OpView>::empty());
    }
    while i < node_ids.len()
        invariant
            lt == left_ops@,
            rt == right_ops@,
            lt == op_targets(patches_view(left.patches@)),
            rt == op_targets(patches_view(right.patches@)),
            enumerates(node_ids@, lt.nodes.dom().union(rt.nodes.dom())),
            i <= node_ids@.len(),
            merge_nodes(node_ids@.take(i as int), lt.nodes, rt.nodes) == Ok::<Seq<OpView>, Conflict>(ops_view(merged_ops@)),
        decreases node_ids@.len() - i,
    {
        let id = node_ids[i];
        proof {
            assert(node_ids@.contains(id));
            assert(node_ids@.take(i + 1).drop_last() =~= node_ids@.take(i as int));
            assert(node_ids@.take(i + 1).last() == id);
        }
        match (left_ops.nodes.get(&id), right_ops.nodes.get(&id)) {
            (Some(l), Some(r)) => {
                proof {
                    assert(lt.nodes[id] == l@);
                    assert(rt.nodes[id] == r@);
                }
                match push_merged_node(&mut merged_ops, id, l, r) {
                    Ok(()) => {},
                    Err(e) => {
                        proof {
                            assert(lt.nodes.contains_key(id) && rt.nodes.contains_key(id));
                            assert(merge_node_entry(id, lt.nodes, rt.nodes) == merge_node(id, l@, r@));
                            assert(merge_nodes(node_ids@.take(i + 1), lt.nodes, rt.nodes) == Err::<Seq<OpView>, Conflict>(e@));
                            lemma_merge_nodes_err(node_ids@, lt.nodes, rt.nodes, i + 1);
                            assert(node_ids@.take(node_ids@.len() as int) =~= node_ids@);
                            lemma_key_order_of(node_ids@, lt.nodes.dom().union(rt.nodes.dom()));
                        }
                        return Err(e);
                    },
                }
            },
            (Some(l), None) => {
                proof {
                    assert(lt.nodes[id] == l@);
                }
                push_one_side_node(&mut merged_ops, id, l);
            },
            (None, Some(r)) => {
                proof {
                    assert(rt.nodes[id] == r@);
                }
                push_one_side_node(&mut merged_ops, id, r);
            },
            (None, None) => {},
        }
        i = i + 1;
    }
    proof {
        assert(node_ids@.take(node_ids@.len() as int) =~= node_ids@);
    }
    let ghost node_part = ops_view(merged_ops@);
    // Edges.
    let edge_ids = union_keys(&left_ops.edges, &right_ops.edges);
    proof {
        assert(lt.edges.dom() =~= left_ops.edges@.dom());
        assert(rt.edges.dom() =~= right_ops.edges@.dom());
    }
    let mut j: usize = 0;
    proof {
        assert(edge_ids@.take(0) =~= Seq::<StableId>::empty());
        assert(ops_view(merged_ops@) =~= node_part + Seq::<OpView>::empty());
    }
    while j < edge_ids.len()
        invariant
            lt == left_ops@,
            rt == right_ops@,
            lt == op_targets(patches_view(left.patches@)),
            rt == op_targets(patches_view(right.patches@)),
            enumerates(edge_ids@, lt.edges.dom().union(rt.edges.dom())),
            enumerates(node_ids@, lt.nodes.dom().union(rt.nodes.dom())),
            merge_nodes(node_ids@, lt.nodes, rt.nodes) == Ok::<Seq<OpView>, Conflict>(node_part),
            j <= edge_ids@.len(),
            merge_edges(edge_ids@.take(j as int), lt.edges, rt.edges) matches Ok(s) && ops_view(merged_ops@) == node_part + s,
        decreases edge_ids@.len() - j,
    {
        let id = edge_ids[j];
        let ghost before = ops_view(merged_ops@);
        proof {
            assert(edge_ids@.contains(id));
            assert(edge_ids@.take(j + 1).drop_last() =~= edge_ids@.take(j as int));
            assert(edge_ids@.take(j + 1).last() == id);
        }
        match (left_ops.edges.get(&id), right_ops.edges.get(&id)) {
            (Some(l), Some(r)) => {
                proof {
                    assert(lt.edges[id] == l@);
                    assert(rt.edges[id] == r@);
                }
                match push_merged_edge(&mut merged_ops, id, l, r) {
                    Ok(()) => {},
                    Err(e) => {
                        proof {
                            assert(lt.edges.contains_key(id) && rt.edges.contains_key(id));
                            assert(merge_edge_entry(id, lt.edges, rt.edges) == merge_edge(id, l@, r@));
                            assert(merge_edges(edge_ids@.take(j + 1), lt.edges, rt.edges) == Err::<Seq<OpView>, Conflict>(e@));
                            lemma_merge_edges_err(edge_ids@, lt.edges, rt.edges, j + 1);
                            assert(edge_ids@.take(edge_ids@.len() as int) =~= edge_ids@);
                            lemma_key_order_of(edge_ids@, lt.edges.dom().union(rt.edges.dom()));
                            lemma_key_order_of(node_ids@, lt.nodes.dom().union(rt.nodes.dom()));
                        }
                        return Err(e);
                    },
                }
            },
            (Some(l), None) => {
                proof {
                    assert(lt.edges[id] == l@);
                }
                push_one_side_edge(&mut merged_ops, id, l);
            },
            (None, Some(r)) => {
                proof {
                    assert(rt.edges[id] == r@);
                }
                push_one_side_edge(&mut merged_ops, id, r);
            },
            (None, None) => {},
        }
        proof {
            let prev = merge_edges(edge_ids@.take(j as int), lt.edges, rt.edges)->Ok_0;
            assert(ops_view(merged_ops@) =~= node_part + (prev + merge_edge_entry(id, lt.edges, rt.edges)->Ok_0));
        }
        j = j + 1;
    }
    proof {
        assert(edge_ids@.take(edge_ids@.len() as int) =~= edge_ids@);
        lemma_key_order_of(edge_ids@, lt.edges.dom().union(rt.edges.dom()));
        lemma_key_order_of(node_ids@, lt.nodes.dom().union(rt.nodes.dom()));
    }
    let patch = Patch::from_operations_with_provenance(merged_ops, PatchSource::System, TrustLevel::Trusted);
    Ok(PatchSet::single(patch))
}

/// A conflict met among the first nodes is the conflict of the whole list.
proof fn lemma_merge_nodes_err(ks: Seq<StableId>, lm: Map<StableId, NodeSummary>, rm: Map<StableId, NodeSummary>, n: int)
    requires
        0 <= n <= ks.len(),
        merge_nodes(ks.take(n), lm, rm) is Err,
    ensures
        merge_nodes(ks, lm, rm) == merge_nodes(ks.take(n), lm, rm),
    decreases ks.len() - n,
{
    if n == ks.len() {
        assert(ks.take(n) =~= ks);
    } else {
        assert(ks.take(n + 1).drop_last() =~= ks.take(n));
        lemma_merge_nodes_err(ks, lm, rm, n + 1);
    }
}

/// A conflict met among the first edges is the conflict of the whole list.
proof fn lemma_merge_edges_err(ks: Seq<StableId>, lm: Map<StableId, EdgeSummary>, rm: Map<StableId, EdgeSummary>, n: int)
    requires
        0 <= n <= ks.len(),
        merge_edges(ks.take(n), lm, rm) is Err,
    ensures
        merge_edges(ks, lm, rm) == merge_edges(ks.take(n), lm, rm),
    decreases ks.len() - n,
{
    if n == ks.len() {
        assert(ks.take(n) =~= ks);
    } else {
        assert(ks.take(n + 1).drop_last() =~= ks.take(n));
        lemma_merge_edges_err(ks, lm, rm, n + 1);
    }
}

proof fn lemma_key_order_of(ks: Seq<StableId>, d: Set<StableId>)
    requires
        enumerates(ks, d),
    ensures
        key_order(d) == ks,
{
    crate::keyorder::lemma_key_order(ks, d);
}

// ──────────────────────────────────────────────
// Laws
// ──────────────────────────────────────────────

proof fn lemma_node_eq_symmetric(a: NodeView, b: NodeView)
    ensures
        node_eq(a, b) == node_eq(b, a),
{
    crate::types::lemma_config_eq_symmetric(a.config, b.config);
}

proof fn lemma_conflicting_keys_symmetric(l: Map<Seq<char>, ChangeView>, r: Map<Seq<char>, ChangeView>)
    ensures
        conflicting_keys(l, r) == conflicting_keys(r, l),
        has_conflict(l, r) == has_conflict(r, l),
        first_conflict(l, r) == first_conflict(r, l),
{
    assert forall|k: Seq<char>| key_conflicts(l, r, k) == key_conflicts(r, l, k) by {
        if l.contains_key(k) && r.contains_key(k) {
            crate::types::lemma_change_eq_symmetric(l[k], r[k]);
        }
    }
    assert(conflicting_keys(l, r) =~= conflicting_keys(r, l));
    if has_conflict(l, r) {
        let k = choose|k: Seq<char>| key_conflicts(l, r, k);
        assert(key_conflicts(r, l, k));
    }
    if has_conflict(r, l) {
        let k = choose|k: Seq<char>| key_conflicts(r, l, k);
        assert(key_conflicts(l, r, k));
    }
}

proof fn lemma_merge_node_symmetric(id: StableId, a: NodeSummary, b: NodeSummary)
    ensures
        merge_node(id, a, b) is Err <==> merge_node(id, b, a) is Err,
        merge_node(id, a, b) is Err ==> merge_node(id, a, b) == merge_node(id, b, a),
{
    if a.added is Some && b.added is Some {
        lemma_node_eq_symmetric(a.added.unwrap(), b.added.unwrap());
    }
    if a.replaced is Some && b.replaced is Some {
        lemma_node_eq_symmetric(a.replaced.unwrap(), b.replaced.unwrap());
    }
    lemma_conflicting_keys_symmetric(a.config_delta, b.config_delta);
}

proof fn lemma_merge_nodes_symmetric(ks: Seq<StableId>, lm: Map<StableId, NodeSummary>, rm: Map<StableId, NodeSummary>)
    ensures
        merge_nodes(ks, lm, rm) is Err <==> merge_nodes(ks, rm, lm) is Err,
        merge_nodes(ks, lm, rm) is Err ==> merge_nodes(ks, lm, rm) == merge_nodes(ks, rm, lm),
    decreases ks.len(),
{
    if ks.len() > 0 {
        lemma_merge_nodes_symmetric(ks.drop_last(), lm, rm);
        let k = ks.last();
        if lm.contains_key(k) && rm.contains_key(k) {
            lemma_merge_node_symmetric(k, lm[k], rm[k]);
        }
    }
}

proof fn lemma_merge_edges_symmetric(ks: Seq<StableId>, lm: Map<StableId, EdgeSummary>, rm: Map<StableId, EdgeSummary>)
    ensures
        merge_edges(ks, lm, rm) is Err <==> merge_edges(ks, rm, lm) is Err,
        merge_edges(ks, lm, rm) is Err ==> merge_edges(ks, lm, rm) == merge_edges(ks, rm, lm),
    decreases ks.len(),
{
    if ks.len() > 0 {
        lemma_merge_edges_symmetric(ks.drop_last(), lm, rm);
    }
}

/// A merge conflicts exactly when the merge with the sides exchanged
/// conflicts, and the conflict reported is the same.
pub proof fn law_merge_conflict_symmetric(left: Seq<PatchView>, right: Seq<PatchView>)
    ensures
        merge_spec(left, right) is Err <==> merge_spec(right, left) is Err,
        merge_spec(left, right) is Err ==> merge_spec(left, right) == merge_spec(right, left),
{
    let l = op_targets(left);
    let r = op_targets(right);
    assert(l.nodes.dom().union(r.nodes.dom()) =~= r.nodes.dom().union(l.nodes.dom()));
    assert(l.edges.dom().union(r.edges.dom()) =~= r.edges.dom().union(l.edges.dom()));
    lemma_merge_nodes_symmetric(key_order(l.nodes.dom().union(r.nodes.dom())), l.nodes, r.nodes);
    lemma_merge_edges_symmetric(key_order(l.edges.dom().union(r.edges.dom())), l.edges, r.edges);
}

proof fn lemma_merge_nodes_one_side(ks: Seq<StableId>, lm: Map<StableId, NodeSummary>)
    ensures
        merge_nodes(ks, lm, Map::empty()) is Ok,
    decreases ks.len(),
{
    if ks.len() > 0 {
        lemma_merge_nodes_one_side(ks.drop_last(), lm);
    }
}

proof fn lemma_merge_edges_one_side(ks: Seq<StableId>, lm: Map<StableId, EdgeSummary>)
    ensures
        merge_edges(ks, lm, Map::empty()) is Ok,
    decreases ks.len(),
{
    if ks.len() > 0 {
        lemma_merge_edges_one_side(ks.drop_last(), lm);
    }
}

/// Merging with a side that does nothing never conflicts.
pub proof fn law_merge_with_empty_side(left: Seq<PatchView>)
    ensures
        merge_spec(left, Seq::empty()) is Ok,
        merge_spec(Seq::empty(), left) is Ok,
{
    let l = op_targets(left);
    let e = op_targets(Seq::<PatchView>::empty());
    assert(e.nodes == Map::<StableId, NodeSummary>::empty());
    assert(e.edges == Map::<StableId, EdgeSummary>::empty());
    lemma_merge_nodes_one_side(key_order(l.nodes.dom().union(e.nodes.dom())), l.nodes);
    lemma_merge_edges_one_side(key_order(l.edges.dom().union(e.edges.dom())), l.edges);
    law_merge_conflict_symmetric(left, Seq::empty());
}


/// The message of a merge conflict; identifiers as 32 hexadecimal digits.
pub open spec fn merge_error_text(e: MergeError) -> Seq<char> {
    match e {
        MergeError::ConfigConflict { node_id, key } => "Conflict on node "@ + crate::text::id_text(node_id) + ": key '"@
            + key@ + "' modified by both sides"@,
        MergeError::EdgeConflict { edge_id } => "Conflict on edge "@ + crate::text::id_text(edge_id)
            + ": both sides modified this edge"@,
        MergeError::RemoveModifyConflict { node_id } => "Conflict on node "@ + crate::text::id_text(node_id)
            + ": one side removed, other side modified"@,
        MergeError::AddNodeConflict { node_id } => "Conflict: both sides added node "@ + crate::text::id_text(node_id)
            + " with different content"@,
        MergeError::AddEdgeConflict { edge_id } => "Conflict: both sides added edge "@ + crate::text::id_text(edge_id)
            + " with different content"@,
        MergeError::ReplaceConflict { node_id } => "Conflict on node "@ + crate::text::id_text(node_id)
            + ": both sides replaced this node"@,
    }
}

impl MergeError {
    /// The message of the conflict.
    pub fn message(&self) -> (s: String)
        ensures
            s@ == merge_error_text(*self),
    {
        let mut s = String::new();
        match self {
            MergeError::ConfigConflict { node_id, key } => {
                s.append("Conflict on node ");
                crate::text::push_id_text(&mut s, *node_id);
                s.append(": key '");
                s.append(key.as_str());
                s.append("' modified by both sides");
            },
            MergeError::EdgeConflict { edge_id } => {
                s.append("Conflict on edge ");
                crate::text::push_id_text(&mut s, *edge_id);
                s.append(": both sides modified this edge");
            },
            MergeError::RemoveModifyConflict { node_id } => {
                s.append("Conflict on node ");
                crate::text::push_id_text(&mut s, *node_id);
                s.append(": one side removed, other side modified");
            },
            MergeError::AddNodeConflict { node_id } => {
                s.append("Conflict: both sides added node ");
                crate::text::push_id_text(&mut s, *node_id);
                s.append(" with different content");
            },
            MergeError::AddEdgeConflict { edge_id } => {
                s.append("Conflict: both sides added edge ");
                crate::text::push_id_text(&mut s, *edge_id);
                s.append(" with different content");
            },
            MergeError::ReplaceConflict { node_id } => {
                s.append("Conflict on node ");
                crate::text::push_id_text(&mut s, *node_id);
                s.append(": both sides replaced this node");
            },
        }
        assert(s@ =~= merge_error_text(*self));
        s
    }
}

} // verus!
