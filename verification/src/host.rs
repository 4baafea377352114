//! The workspace: a graph, its intents and where they are kept, with the
//! digest that seals them and the audit of their integrity.
use vstd::prelude::*;
use crate::types::PatchId;
use crate::ir::Graph;
use crate::intent::IntentState;
use crate::patch::{Patch, PatchError, hex_chars, encode, apply_ops, topo_view, recorded, ops_view, OpView};
use crate::actions::{UserPatchFile, ActionError, ActionErrorView, compiled, step_error, compile_actions};
use crate::types::StableId;
use crate::hash::{blake3_digest, blake3_of};
use crate::text::{id_text, push_id_text};

verus! {

broadcast use vstd::laws_cmp::group_laws_cmp;

/// The outcome of an audit.
#[derive(Debug)]
pub struct AuditReport {
    pub root_hash_valid: bool,
    pub manifest_valid: bool,
    pub lineage_intact: bool,
    pub cas_complete: bool,
    pub determinism_verified: bool,
    pub issues: Vec<String>,
}

impl AuditReport {
    /// The root digest matches, the lineage is intact and the store is complete.
    pub fn is_healthy(&self) -> (b: bool)
        ensures
            b == (self.root_hash_valid && self.lineage_intact && self.cas_complete),
    {
        self.root_hash_valid && self.lineage_intact && self.cas_complete
    }
}

/// A command sent to a plugin worker process.
#[derive(Clone, Copy, PartialEq, Eq, Structural, Debug)]
pub enum HostCommand {
    Process,
    SetParameter,
    GetState,
    SetState,
}

impl HostCommand {
    /// The byte that stands for the command on the wire.
    pub fn code(&self) -> (b: u8)
        ensures
            b == match *self {
                HostCommand::Process => 0u8,
                HostCommand::SetParameter => 1u8,
                HostCommand::GetState => 2u8,
                HostCommand::SetState => 3u8,
            },
    {
        match self {
            HostCommand::Process => 0,
            HostCommand::SetParameter => 1,
            HostCommand::GetState => 2,
            HostCommand::SetState => 3,
        }
    }
}

/// A self-contained session: a graph, its intents, and the directory that
/// holds them.
pub struct Workspace {
    root: String,
    graph: Graph,
    intent_state: IntentState,
}

/// The digest of the last applied patch, when the history holds it.
pub open spec fn tip_digest(g: Graph) -> Seq<u8> {
    let ap = g.lineage.applied_patches@;
    if ap.len() > 0 && g.lineage.history@.contains_key(ap.last()) {
        g.lineage.history@[ap.last()].deterministic_hash@
    } else {
        Seq::empty()
    }
}

/// The message for a patch whose stored digest is not that of its content.
pub open spec fn corrupted_message(id: PatchId) -> Seq<char> {
    "Patch "@ + id_text(id) + " has corrupted hash"@
}

/// The messages for the corrupted patches of the applied list, in order
/// (a patch missing from the history is skipped).
pub open spec fn lineage_issues(g: Graph, ids: Seq<PatchId>) -> Seq<Seq<char>>
    decreases ids.len(),
{
    if ids.len() == 0 {
        Seq::empty()
    } else {
        let id = ids.last();
        lineage_issues(g, ids.drop_last()) + if g.lineage.history@.contains_key(id)
            && !g.lineage.history@[id].digest_valid() {
            seq![corrupted_message(id)]
        } else {
            Seq::empty()
        }
    }
}

/// Every applied patch that the history holds carries the digest of its content.
pub open spec fn lineage_intact(g: Graph) -> bool {
    forall|i: int|
        0 <= i < g.lineage.applied_patches@.len() && #[trigger] g.lineage.history@.contains_key(
            g.lineage.applied_patches@[i],
        ) ==> g.lineage.history@[g.lineage.applied_patches@[i]].digest_valid()
}

/// The message for a root digest that differs from the manifest's.
pub open spec fn root_mismatch_message(manifest: Seq<char>, actual: Seq<u8>) -> Seq<char> {
    "Root hash mismatch! Manifest: "@ + manifest + ", Actual: "@ + hex_chars(actual)
}

impl Workspace {
    /// A workspace rooted at `root` holding the graph and the intents.
    pub fn new(root: String, graph: Graph, intent_state: IntentState) -> (w: Workspace)
        ensures
            w.root_spec() == root,
            w.graph_spec() == graph,
            w.intents_spec() == intent_state,
    {
        Workspace { root, graph, intent_state }
    }

    pub closed spec fn root_spec(&self) -> String {
        self.root
    }

    pub closed spec fn graph_spec(&self) -> Graph {
        self.graph
    }

    pub closed spec fn intents_spec(&self) -> IntentState {
        self.intent_state
    }

    /// The graph.
    pub fn graph(&self) -> (g: &Graph)
        ensures
            *g == self.graph_spec(),
    {
        &self.graph
    }

    /// The graph, for changing it.
    pub fn graph_mut(&mut self) -> (g: &mut Graph)
        ensures
            *g == old(self).graph_spec(),
            final(self).graph_spec() == *final(g),
            final(self).root_spec() == old(self).root_spec(),
            final(self).intents_spec() == old(self).intents_spec(),
    {
        &mut self.graph
    }

    /// The intents.
    pub fn intent_state(&self) -> (s: &IntentState)
        ensures
            *s == self.intents_spec(),
    {
        &self.intent_state
    }

    /// The intents, for changing them.
    pub fn intent_state_mut(&mut self) -> (s: &mut IntentState)
        ensures
            *s == old(self).intents_spec(),
            final(self).intents_spec() == *final(s),
            final(self).root_spec() == old(self).root_spec(),
            final(self).graph_spec() == old(self).graph_spec(),
    {
        &mut self.intent_state
    }

    /// The directory that holds the workspace.
    pub fn root(&self) -> (r: &String)
        ensures
            *r == self.root_spec(),
    {
        &self.root
    }

    /// The root digest that seals the workspace: the digest of the encoded
    /// topology, lineage and intents (in that order), followed by the digest
    /// of the last applied patch when the history holds it.
    pub fn calculate_root_hash(&self, topology: &[u8], lineage: &[u8], intents: &[u8]) -> (h: crate::types::Hash)
        ensures
            h@ == blake3_digest(topology@ + lineage@ + intents@ + tip_digest(self.graph_spec())),
    {
        let mut bytes: Vec<u8> = Vec::new();
        let ghost g = self.graph;
        let mut i: usize = 0;
        while i < topology.len()
            invariant
                i <= topology@.len(),
                bytes@ == topology@.take(i as int),
            decreases topology@.len() - i,
        {
            bytes.push(topology[i]);
            proof {
                assert(topology@.take(i + 1) =~= topology@.take(i as int).push(topology@[i as int]));
            }
            i = i + 1;
        }
        proof {
            assert(topology@.take(topology@.len() as int) =~= topology@);
        }
        let ghost b1 = bytes@;
        let mut j: usize = 0;
        while j < lineage.len()
            invariant
                j <= lineage@.len(),
                bytes@ == b1 + lineage@.take(j as int),
            decreases lineage@.len() - j,
        {
            bytes.push(lineage[j]);
            proof {
                assert(lineage@.take(j + 1) =~= lineage@.take(j as int).push(lineage@[j as int]));
            }
            j = j + 1;
        }
        proof {
            assert(lineage@.take(lineage@.len() as int) =~= lineage@);
        }
        let ghost b2 = bytes@;
        let mut k: usize = 0;
        while k < intents.len()
            invariant
                k <= intents@.len(),
                bytes@ == b2 + intents@.take(k as int),
            decreases intents@.len() - k,
        {
            bytes.push(intents[k]);
            proof {
                assert(intents@.take(k + 1) =~= intents@.take(k as int).push(intents@[k as int]));
            }
            k = k + 1;
        }
        proof {
            assert(intents@.take(intents@.len() as int) =~= intents@);
        }
        let ghost b3 = bytes@;
        let n = self.graph.lineage.applied_patches.len();
        if n > 0 {
            let last_id = self.graph.lineage.applied_patches[n - 1];
            match self.graph.lineage.history.get(&last_id) {
                Some(patch) => {
                    let mut q: usize = 0;
                    while q < 32
                        invariant
                            q <= 32,
                            patch.deterministic_hash@.len() == 32,
                            bytes@ == b3 + patch.deterministic_hash@.take(q as int),
                        decreases 32 - q,
                    {
                        bytes.push(patch.deterministic_hash[q]);
                        proof {
                            assert(patch.deterministic_hash@.take(q + 1) =~= patch.deterministic_hash@.take(q as int).push(
                                patch.deterministic_hash@[q as int],
                            ));
                        }
                        q = q + 1;
                    }
                    proof {
                        assert(patch.deterministic_hash@.take(32) =~= patch.deterministic_hash@);
                    }
                },
                None => {},
            }
        }
        proof {
            assert(bytes@ =~= topology@ + lineage@ + intents@ + tip_digest(g));
        }
        blake3_of(&bytes)
    }

    /// Audits the workspace: the root digest against the manifest's (when
    /// there is a manifest), and the digest of every applied patch.
    pub fn audit(&self, manifest_hash: Option<&str>, actual_hash: &crate::types::Hash) -> (r: AuditReport)
        ensures
            r.root_hash_valid == (manifest_hash matches Some(m) && m@ == hex_chars(actual_hash@)),
            r.manifest_valid,
            r.lineage_intact == lineage_intact(self.graph_spec()),
            r.cas_complete,
            !r.determinism_verified,
            r.issues@.map_values(|s: String| s@) == (match manifest_hash {
                Some(m) => if m@ == hex_chars(actual_hash@) {
                    Seq::<Seq<char>>::empty()
                } else {
                    seq![root_mismatch_message(m@, actual_hash@)]
                },
                None => Seq::<Seq<char>>::empty(),
            }) + lineage_issues(self.graph_spec(), self.graph_spec().lineage.applied_patches@),
    {
        let ghost g = self.graph;
        let mut report = AuditReport {
            root_hash_valid: false,
            manifest_valid: true,
            lineage_intact: true,
            cas_complete: true,
            determinism_verified: false,
            issues: Vec::new(),
        };
        let actual = encode(actual_hash.as_slice());
        match manifest_hash {
            Some(m) => {
                let ms = String::from_str(m);
                if actual == ms {
                    report.root_hash_valid = true;
                } else {
                    let mut msg = String::from_str("Root hash mismatch! Manifest: ");
                    msg.append(m);
                    msg.append(", Actual: ");
                    msg.append(actual.as_str());
                    report.issues.push(msg);
                }
            },
            None => {},
        }
        let ghost root_part = report.issues@.map_values(|s: String| s@);
        proof {
            assert(root_part =~= (match manifest_hash {
                Some(m) => if m@ == hex_chars(actual_hash@) {
                    Seq::<Seq<char>>::empty()
                } else {
                    seq![root_mismatch_message(m@, actual_hash@)]
                },
                None => Seq::<Seq<char>>::empty(),
            }));
        }
        let ghost ap = self.graph.lineage.applied_patches@;
        let mut i: usize = 0;
        proof {
            assert(ap.take(0) =~= Seq::<PatchId>::empty());
            assert(report.issues@.map_values(|s: String| s@) =~= root_part + lineage_issues(g, ap.take(0)));
        }
        while i < self.graph.lineage.applied_patches.len()
            invariant
                g == self.graph,
                ap == g.lineage.applied_patches@,
                i <= ap.len(),
                report.issues@.map_values(|s: String| s@) == root_part + lineage_issues(g, ap.take(i as int)),
                report.lineage_intact == forall|j: int|
                    0 <= j < i && #[trigger] g.lineage.history@.contains_key(ap[j]) ==> g.lineage.history@[ap[j]].digest_valid(),
                report.manifest_valid,
                report.cas_complete,
                !report.determinism_verified,
                report.root_hash_valid == (manifest_hash matches Some(m) && m@ == hex_chars(actual_hash@)),
            decreases ap.len() - i,
        {
            let patch_id = self.graph.lineage.applied_patches[i];
            let ghost before = report.issues@;
            let ghost was = report.lineage_intact;
            proof {
                assert(ap.take(i + 1).drop_last() =~= ap.take(i as int));
                assert(ap.take(i + 1).last() == patch_id);
            }
            match self.graph.lineage.history.get(&patch_id) {
                Some(patch) => {
                    if !patch.verify_hash() {
                        report.lineage_intact = false;
                        let mut msg = String::from_str("Patch ");
                        push_id_text(&mut msg, patch_id);
                        msg.append(" has corrupted hash");
                        report.issues.push(msg);
                        proof {
                            assert(report.issues@.map_values(|s: String| s@) =~= before.map_values(|s: String| s@).push(
                                corrupted_message(patch_id),
                            ));
                        }
                    }
                },
                None => {},
            }
            proof {
                assert(report.issues@.map_values(|s: String| s@) =~= root_part + lineage_issues(g, ap.take(i + 1)));
                assert(report.lineage_intact == forall|j: int|
                    0 <= j < i + 1 && #[trigger] g.lineage.history@.contains_key(ap[j]) ==> g.lineage.history@[ap[j]].digest_valid()) by {
                    if report.lineage_intact {
                        assert forall|j: int| 0 <= j < i + 1 && #[trigger] g.lineage.history@.contains_key(ap[j]) implies g.lineage.history@[ap[j]].digest_valid() by {
                            if j < i {
                                assert(was);
                            }
                        }
                    } else {
                        if !was {
                            let j = choose|j: int| !(0 <= j < i && #[trigger] g.lineage.history@.contains_key(ap[j]) ==> g.lineage.history@[ap[j]].digest_valid());
                            assert(0 <= j < i + 1 && g.lineage.history@.contains_key(ap[j]) && !g.lineage.history@[ap[j]].digest_valid());
                        } else {
                            assert(0 <= i < i + 1 && g.lineage.history@.contains_key(ap[i as int]) && !g.lineage.history@[ap[i as int]].digest_valid());
                        }
                    }
                }
            }
            i = i + 1;
        }
        proof {
            assert(ap.take(ap.len() as int) =~= ap);
        }
        report
    }
}


/// Why a file of actions could not be applied to the workspace.
#[derive(Debug)]
pub enum WorkspaceError {
    /// An action names a node that does not resolve.
    Actions(ActionError),
    /// The compiled patch could not be applied.
    Patch(PatchError),
}

impl Workspace {
    /// Applies a patch to the workspace's graph (see `Graph::apply_patch`);
    /// saving the workspace is left to the caller.
    pub fn apply_patch(&mut self, patch: Patch) -> (r: Result<(), PatchError>)
        requires
            old(self).graph_spec().revision.0 < u64::MAX,
        ensures
            final(self).root_spec() == old(self).root_spec(),
            final(self).intents_spec() == old(self).intents_spec(),
            ({
                let (t, err) = apply_ops(topo_view(old(self).graph_spec().topology), patch@.operations);
                match err {
                    Some(e) => {
                        &&& r == Err::<(), PatchError>(e)
                        &&& final(self).graph_spec().topology.nodes@ == old(self).graph_spec().topology.nodes@
                        &&& final(self).graph_spec().topology.edges@ == old(self).graph_spec().topology.edges@
                        &&& final(self).graph_spec().topology.modulations@
                            == old(self).graph_spec().topology.modulations@
                        &&& final(self).graph_spec().revision == old(self).graph_spec().revision
                        &&& final(self).graph_spec().lineage == old(self).graph_spec().lineage
                        &&& final(self).graph_spec().nodes == old(self).graph_spec().nodes
                        &&& final(self).graph_spec().edges == old(self).graph_spec().edges
                        &&& final(self).graph_spec().modulations == old(self).graph_spec().modulations
                    },
                    None => r is Ok && topo_view(final(self).graph_spec().topology) == t && recorded(
                        old(self).graph_spec(),
                        final(self).graph_spec(),
                        patch@,
                    ),
                }
            }),
    {
        let g = self.graph_mut();
        g.apply_patch(&patch)
    }

    /// Compiles a file of actions against the graph (see `compile_actions`)
    /// and applies the resulting patch; saving is left to the caller.
    pub fn apply_user_patch<F: Fn(u64) -> u64>(&mut self, patch_file: &UserPatchFile, jitter: F) -> (r: Result<(), WorkspaceError>)
        requires
            old(self).graph_spec().revision.0 < u64::MAX,
            forall|b: u64| jitter.requires((b,)),
        ensures
            final(self).root_spec() == old(self).root_spec(),
            final(self).intents_spec() == old(self).intents_spec(),
            r matches Err(WorkspaceError::Actions(e)) ==> {
                &&& final(self).graph_spec() == old(self).graph_spec()
                &&& exists|i: int, ops: Seq<OpView>, c: Map<Seq<char>, StableId>|
                    #![trigger compiled(patch_file.actions@.take(i), old(self).graph_spec().nodes@, old(self).graph_spec().edges@, jitter, ops, c)]
                    0 <= i < patch_file.actions@.len() && compiled(
                        patch_file.actions@.take(i),
                        old(self).graph_spec().nodes@,
                        old(self).graph_spec().edges@,
                        jitter,
                        ops,
                        c,
                    ) && step_error(patch_file.actions@[i], old(self).graph_spec().nodes@, c) == Some(e@)
            },
            !(r matches Err(WorkspaceError::Actions(_))) ==> exists|ops: Seq<OpView>, c: Map<Seq<char>, StableId>|
                #![trigger compiled(patch_file.actions@, old(self).graph_spec().nodes@, old(self).graph_spec().edges@, jitter, ops, c)]
                {
                    let (t, err) = apply_ops(topo_view(old(self).graph_spec().topology), ops);
                    &&& compiled(
                        patch_file.actions@,
                        old(self).graph_spec().nodes@,
                        old(self).graph_spec().edges@,
                        jitter,
                        ops,
                        c,
                    )
                    &&& (r is Ok <==> err is None)
                    &&& (err is None ==> topo_view(final(self).graph_spec().topology) == t)
                    &&& (err matches Some(e) ==> {
                        &&& r == Err::<(), WorkspaceError>(WorkspaceError::Patch(e))
                        &&& topo_view(final(self).graph_spec().topology) == topo_view(
                            old(self).graph_spec().topology,
                        )
                        &&& final(self).graph_spec().revision == old(self).graph_spec().revision
                    })
                },
    {
        let ops = match compile_actions(patch_file.actions.as_slice(), &self.graph, jitter) {
            Ok(ops) => ops,
            Err(e) => {
                return Err(WorkspaceError::Actions(e));
            },
        };
        let ghost ov = ops_view(ops@);
        let patch = Patch::from_operations(ops);
        assert(patch@.operations == ov);
        match self.apply_patch(patch) {
            Ok(()) => Ok(()),
            Err(e) => Err(WorkspaceError::Patch(e)),
        }
    }
}


// ──────────────────────────────────────────────
// The plugin worker protocol
// ──────────────────────────────────────────────

/// The bytes of a `SetParameter` command: the command byte, the parameter
/// number and the value (binary32 bits), little-endian.
pub open spec fn set_parameter_bytes(param_id: u32, value: u32) -> Seq<u8> {
    seq![1u8] + crate::hash::enc_u32(param_id) + crate::hash::enc_u32(value)
}

/// The samples (binary32 bits) as little-endian bytes.
pub open spec fn samples_bytes(samples: Seq<u32>) -> Seq<u8>
    decreases samples.len(),
{
    if samples.len() == 0 {
        Seq::empty()
    } else {
        samples_bytes(samples.drop_last()) + crate::hash::enc_u32(samples.last())
    }
}

/// The bytes of a `Process` command: the command byte, the number of
/// samples (truncated to 32 bits) and the samples, little-endian.
pub open spec fn process_bytes(samples: Seq<u32>) -> Seq<u8> {
    seq![0u8] + crate::hash::enc_u32(samples.len() as u32) + samples_bytes(samples)
}

/// A binary32 bit pattern is a NaN: all exponent bits set, some fraction bit set.
pub open spec fn f32_bits_nan(b: u32) -> bool {
    b & 0x7f80_0000u32 == 0x7f80_0000u32 && b & 0x007f_ffffu32 != 0
}

/// The frame that sets a parameter of the plugin.
pub fn set_parameter_frame(param_id: u32, value: u32) -> (out: Vec<u8>)
    ensures
        out@ == set_parameter_bytes(param_id, value),
{
    let mut out: Vec<u8> = Vec::new();
    out.push(HostCommand::SetParameter.code());
    crate::hash::push_u32(&mut out, param_id);
    crate::hash::push_u32(&mut out, value);
    assert(out@ =~= set_parameter_bytes(param_id, value));
    out
}

/// The frame that sends a block of samples to the plugin.
pub fn process_frame(samples: &Vec<u32>) -> (out: Vec<u8>)
    ensures
        out@ == process_bytes(samples@),
{
    let mut out: Vec<u8> = Vec::new();
    out.push(HostCommand::Process.code());
    #[verifier::truncate]
    let size = samples.len() as u32;
    crate::hash::push_u32(&mut out, size);
    let ghost head = out@;
    let mut i: usize = 0;
    proof {
        assert(samples@.take(0) =~= Seq::<u32>::empty());
    }
    while i < samples.len()
        invariant
            head == seq![0u8] + crate::hash::enc_u32(samples@.len() as u32),
            i <= samples@.len(),
            out@ == head + samples_bytes(samples@.take(i as int)),
        decreases samples@.len() - i,
    {
        proof {
            assert(samples@.take(i + 1).drop_last() =~= samples@.take(i as int));
            assert(samples@.take(i + 1).last() == samples@[i as int]);
        }
        crate::hash::push_u32(&mut out, samples[i]);
        proof {
            assert(out@ =~= head + samples_bytes(samples@.take(i + 1)));
        }
        i = i + 1;
    }
    proof {
        assert(samples@.take(samples@.len() as int) =~= samples@);
        assert(out@ =~= process_bytes(samples@));
    }
    out
}

/// Whether a block of samples (binary32 bits) holds a NaN: the plugin's
/// output is then refused.
pub fn has_nan(samples: &Vec<u32>) -> (b: bool)
    ensures
        b == exists|i: int| 0 <= i < samples@.len() && #[trigger] f32_bits_nan(samples@[i]),
{
    let mut i: usize = 0;
    while i < samples.len()
        invariant
            i <= samples@.len(),
            forall|j: int| 0 <= j < i ==> !#[trigger] f32_bits_nan(samples@[j]),
        decreases samples@.len() - i,
    {
        let b = samples[i];
        if b & 0x7f80_0000u32 == 0x7f80_0000u32 && b & 0x007f_ffffu32 != 0 {
            assert(f32_bits_nan(samples@[i as int]));
            return true;
        }
        i = i + 1;
    }
    false
}

} // verus!
