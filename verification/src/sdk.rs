//! Entry points for users of the library: merging a patch into a workspace,
//! and ready-made nodes.
use vstd::prelude::*;
use crate::types::StableId;
use crate::ir::{Node, Graph, Topology, audio_port, name_config, NodeView};
use crate::patch::{Operation, OpView, Patch, PatchError, ops_view, topo_view, apply_ops, recorded};
use crate::host::Workspace;
use crate::types::{NodeKindView, PortDirection, ConfidenceScore};

verus! {

/// Why a patch could not be merged into a workspace.
#[derive(Debug)]
pub enum SemanticMergeError {
    /// The patch removes a node that the graph does not hold.
    NodeNotFound(StableId),
    /// The patch adds a node that the graph already holds.
    NodeAlreadyExists(StableId),
    /// Applying the patch failed.
    Apply(PatchError),
    /// The graph the patch would produce breaks hard intent constraints; the
    /// violations, in the order they were found.
    IntentViolation(Vec<String>),
}

/// The first structural conflict of the operations with the graph's mirror
/// table of nodes: removing a node it lacks, or adding one it holds.
pub open spec fn first_conflict(ops: Seq<OpView>, nodes: Set<StableId>) -> Option<SemanticMergeError>
    decreases ops.len(),
{
    if ops.len() == 0 {
        None
    } else {
        match ops[0] {
            OpView::RemoveNode(id) => if !nodes.contains(id) {
                Some(SemanticMergeError::NodeNotFound(id))
            } else {
                first_conflict(ops.drop_first(), nodes)
            },
            OpView::AddNode(n) => if nodes.contains(n.id) {
                Some(SemanticMergeError::NodeAlreadyExists(n.id))
            } else {
                first_conflict(ops.drop_first(), nodes)
            },
            _ => first_conflict(ops.drop_first(), nodes),
        }
    }
}

/// Merges patches into a workspace after checking them against it.
pub struct SemanticMerge;

/// The first structural conflict of the patch with the graph, if any.
fn structural_conflict(graph: &Graph, patch: &Patch) -> (r: Option<SemanticMergeError>)
    ensures
        r == first_conflict(patch@.operations, graph.nodes@.dom()),
{
    let ghost ops = patch@.operations;
    let ghost dom = graph.nodes@.dom();
    let mut i: usize = 0;
    proof {
        assert(ops.skip(0) =~= ops);
    }
    while i < patch.operations.len()
        invariant
            ops == patch@.operations,
            ops.len() == patch.operations@.len(),
            dom == graph.nodes@.dom(),
            i <= ops.len(),
            first_conflict(ops, dom) == first_conflict(ops.skip(i as int), dom),
        decreases ops.len() - i,
    {
        proof {
            assert(ops.skip(i as int)[0] == patch.operations@[i as int]@);
            assert(ops.skip(i as int).drop_first() =~= ops.skip(i + 1));
        }
        match &patch.operations[i] {
            Operation::RemoveNode(id) => {
                if !graph.nodes.contains_key(id) {
                    return Some(SemanticMergeError::NodeNotFound(*id));
                }
            },
            Operation::AddNode(node) => {
                if graph.nodes.contains_key(&node.id) {
                    return Some(SemanticMergeError::NodeAlreadyExists(node.id));
                }
            },
            _ => {},
        }
        i = i + 1;
    }
    proof {
        assert(ops.skip(ops.len() as int) =~= Seq::<OpView>::empty());
    }
    None
}

impl SemanticMerge {
    /// The graph that merging the patch would produce, for checking intent
    /// constraints against it: the structural check of `run`, then the patch
    /// applied to a copy of the workspace's topology. The workspace is not
    /// changed.
    pub fn preview(ws: &Workspace, patch: &Patch) -> (r: Result<Graph, SemanticMergeError>)
        ensures
            match first_conflict(patch@.operations, ws.graph_spec().nodes@.dom()) {
                Some(c) => r == Err::<Graph, SemanticMergeError>(c),
                None => {
                    let (t, err) = apply_ops(topo_view(ws.graph_spec().topology), patch@.operations);
                    match err {
                        Some(e) => r == Err::<Graph, SemanticMergeError>(SemanticMergeError::Apply(e)),
                        None => r matches Ok(g) && {
                            &&& topo_view(g.topology) == t
                            &&& g.nodes@ == g.topology.nodes@
                            &&& g.edges@ == g.topology.edges@
                            &&& g.modulations@ == g.topology.modulations@
                        },
                    }
                },
            },
    {
        let graph = ws.graph();
        match structural_conflict(graph, patch) {
            Some(c) => {
                return Err(c);
            },
            None => {},
        }
        let mut scratch = Graph::new();
        scratch.topology = Topology {
            nodes: graph.topology.nodes.clone(),
            edges: graph.topology.edges.clone(),
            modulations: graph.topology.modulations.clone(),
        };
        proof {
            assert(topo_view(scratch.topology) == topo_view(ws.graph_spec().topology));
        }
        match scratch.apply_patch(patch) {
            Ok(()) => Ok(scratch),
            Err(e) => Err(SemanticMergeError::Apply(e)),
        }
    }

    /// Checks every operation of the patch against the graph (as it stands
    /// before the patch); when none conflicts, refuses the patch if
    /// `violations` (the broken hard intent constraints of the graph the
    /// patch would produce, see `preview`) is not empty, and otherwise
    /// applies it to the workspace's graph. A refused patch leaves the
    /// workspace as it was. Saving the workspace is left to the caller.
    pub fn run(ws: &mut Workspace, patch: Patch, violations: &Vec<String>) -> (r: Result<(), SemanticMergeError>)
        requires
            old(ws).graph_spec().revision.0 < u64::MAX,
        ensures
            final(ws).root_spec() == old(ws).root_spec(),
            final(ws).intents_spec() == old(ws).intents_spec(),
            match first_conflict(patch@.operations, old(ws).graph_spec().nodes@.dom()) {
                Some(c) => r == Err::<(), SemanticMergeError>(c) && final(ws).graph_spec() == old(ws).graph_spec(),
                None => if violations@.len() > 0 {
                    &&& r matches Err(SemanticMergeError::IntentViolation(v)) && v@ == violations@
                    &&& final(ws).graph_spec() == old(ws).graph_spec()
                } else {
                    let (t, err) = apply_ops(topo_view(old(ws).graph_spec().topology), patch@.operations);
                    match err {
                        Some(e) => {
                            &&& r == Err::<(), SemanticMergeError>(SemanticMergeError::Apply(e))
                            &&& topo_view(final(ws).graph_spec().topology) == topo_view(
                                old(ws).graph_spec().topology,
                            )
                            &&& final(ws).graph_spec().revision == old(ws).graph_spec().revision
                            &&& final(ws).graph_spec().lineage == old(ws).graph_spec().lineage
                        },
                        None => r is Ok && topo_view(final(ws).graph_spec().topology) == t && recorded(
                            old(ws).graph_spec(),
                            final(ws).graph_spec(),
                            patch@,
                        ),
                    }
                },
            },
    {
        match structural_conflict(ws.graph(), &patch) {
            Some(c) => {
                return Err(c);
            },
            None => {},
        }
        if violations.len() > 0 {
            return Err(SemanticMergeError::IntentViolation(violations.clone()));
        }
        match ws.apply_patch(patch) {
            Ok(()) => Ok(()),
            Err(e) => Err(SemanticMergeError::Apply(e)),
        }
    }
}

/// Ready-made nodes.
pub struct NodeFactory;

/// A processor node of the given name with audio `in` and `out`.
pub open spec fn named_processor(n: NodeView, name: Seq<char>) -> bool {
    &&& n.kind == NodeKindView::Processor
    &&& n.ports == seq![audio_port("in"@, PortDirection::Input), audio_port("out"@, PortDirection::Output)]
    &&& n.config == name_config(name)
    &&& n.metadata is None
    &&& n.confidence == ConfidenceScore::Verified
}

impl NodeFactory {
    /// A spectral freeze processor.
    pub fn spectral_freeze() -> (n: Node)
        ensures
            named_processor(n@, "SpectralFreeze"@),
    {
        Node::new_processor("SpectralFreeze")
    }

    /// A tape machine processor.
    pub fn tape_machine() -> (n: Node)
        ensures
            named_processor(n@, "TapeMachine"@),
    {
        Node::new_processor("TapeMachine")
    }

    /// A Chua circuit processor.
    pub fn chua_circuit() -> (n: Node)
        ensures
            named_processor(n@, "Chua"@),
    {
        Node::new_processor("Chua")
    }

    /// A diode clipper processor.
    pub fn diode_clipper() -> (n: Node)
        ensures
            named_processor(n@, "DiodeClipper"@),
    {
        Node::new_processor("DiodeClipper")
    }
}


/// The message of a semantic merge error; identifiers as 32 hexadecimal digits.
pub open spec fn semantic_merge_error_text(e: SemanticMergeError) -> Seq<char> {
    match e {
        SemanticMergeError::NodeNotFound(id) => "Merge Conflict: Node "@ + crate::text::id_text(id) + " not found for removal"@,
        SemanticMergeError::NodeAlreadyExists(id) => "Merge Conflict: Node "@ + crate::text::id_text(id) + " already exists"@,
        SemanticMergeError::Apply(p) => "Failed to apply patch: "@ + crate::patch::patch_error_text(p),
        SemanticMergeError::IntentViolation(v) => "Intent constraints violated: "@ + joined(
            v@.map_values(|m: String| m@),
        ),
    }
}

/// The messages, separated by "; ".
pub open spec fn joined(ms: Seq<Seq<char>>) -> Seq<char>
    decreases ms.len(),
{
    if ms.len() == 0 {
        Seq::empty()
    } else if ms.len() == 1 {
        ms[0]
    } else {
        joined(ms.drop_last()) + "; "@ + ms.last()
    }
}

impl SemanticMergeError {
    /// The message of the error.
    pub fn message(&self) -> (s: String)
        ensures
            s@ == semantic_merge_error_text(*self),
    {
        let mut s = String::new();
        match self {
            SemanticMergeError::NodeNotFound(id) => {
                s.append("Merge Conflict: Node ");
                crate::text::push_id_text(&mut s, *id);
                s.append(" not found for removal");
            },
            SemanticMergeError::NodeAlreadyExists(id) => {
                s.append("Merge Conflict: Node ");
                crate::text::push_id_text(&mut s, *id);
                s.append(" already exists");
            },
            SemanticMergeError::Apply(p) => {
                s.append("Failed to apply patch: ");
                let m = p.message();
                s.append(m.as_str());
            },
            SemanticMergeError::IntentViolation(v) => {
                s.append("Intent constraints violated: ");
                let ghost start = s@;
                let ghost ms = v@.map_values(|m: String| m@);
                let mut i: usize = 0;
                proof {
                    assert(ms.take(0) =~= Seq::<Seq<char>>::empty());
                    assert(s@ =~= start + joined(ms.take(0)));
                }
                while i < v.len()
                    invariant
                        ms == v@.map_values(|m: String| m@),
                        i <= v@.len(),
                        s@ == start + joined(ms.take(i as int)),
                    decreases v@.len() - i,
                {
                    proof {
                        assert(ms.take(i + 1).drop_last() =~= ms.take(i as int));
                        assert(ms.take(i + 1).last() == v@[i as int]@);
                    }
                    if i > 0 {
                        s.append("; ");
                    }
                    s.append(v[i].as_str());
                    proof {
                        if i == 0 {
                            assert(ms.take(1)[0] == v@[0]@);
                        }
                    }
                    i = i + 1;
                }
                proof {
                    assert(ms.take(v@.len() as int) =~= ms);
                }
            },
        }
        assert(s@ =~= semantic_merge_error_text(*self));
        s
    }
}

} // verus!
