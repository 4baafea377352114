//! Intents: what a change is meant to achieve, with constraints on
//! parameters, and the patches that realise it.
use vstd::prelude::*;
use std::collections::{BTreeMap, HashMap};
use crate::types::{
    StableId, IntentId, PatchId, IntentStatus, IntentConstraint, ParamBound, NodeKind, ConfigSnapshot,
    ConfigValue, CValue,
};
use crate::ir::{Node, Graph, fresh_id};
use crate::actions::{node_name, node_name_text};
use crate::text::{id_text, push_id_text};
use crate::keyorder::{sorted_keys, key_order, enumerates};

verus! {

broadcast use {vstd::laws_cmp::group_laws_cmp, vstd::std_specs::hash::group_hash_axioms};

/// How an intent is to be realised.
#[derive(Debug)]
pub enum IntentStrategy {
    /// The user applies patches and attaches them.
    Manual,
    /// A node of the given kind, name and configuration is inserted.
    InsertNode { kind: NodeKind, name: String, config: ConfigSnapshot },
    /// Two existing nodes are connected.
    Bridge { from_node: String, to_node: String },
    /// A node is replaced by a frozen asset.
    Freeze { target_node: String },
}

impl Default for IntentStrategy {
    fn default() -> (s: IntentStrategy)
        ensures
            s is Manual,
    {
        IntentStrategy::Manual
    }
}

/// An intent: what is to be achieved, under which constraints.
#[derive(Debug)]
pub struct IntentNode {
    pub id: IntentId,
    pub description: String,
    pub constraints: Vec<IntentConstraint>,
    pub status: IntentStatus,
    pub strategy: IntentStrategy,
    pub attached_patches: Vec<PatchId>,
}

/// The intents of a project, by identifier.
#[derive(Debug)]
pub struct IntentState {
    pub intents: HashMap<IntentId, IntentNode>,
}

/// The message for an unknown intent.
pub open spec fn intent_not_found(id: IntentId) -> Seq<char> {
    "Intent "@ + id_text(id) + " not found"@
}

fn not_found_message(id: IntentId) -> (s: String)
    ensures
        s@ == intent_not_found(id),
{
    let mut s = String::from_str("Intent ");
    push_id_text(&mut s, id);
    s.append(" not found");
    s
}

impl Default for IntentState {
    fn default() -> (s: IntentState)
        ensures
            s.intents@ == Map::<IntentId, IntentNode>::empty(),
    {
        IntentState { intents: HashMap::new() }
    }
}

impl IntentState {
    /// Records a new intent with a fresh identifier: a proposal, realised
    /// manually, with no patches attached. Returns its identifier.
    pub fn add(&mut self, description: String, constraints: Vec<IntentConstraint>) -> (id: IntentId)
        ensures
            final(self).intents@.dom() == old(self).intents@.dom().insert(id),
            forall|k: IntentId| k != id && #[trigger] old(self).intents@.contains_key(k) ==> final(self).intents@[k]
                == old(self).intents@[k],
            final(self).intents@[id].id == id,
            final(self).intents@[id].description == description,
            final(self).intents@[id].constraints == constraints,
            final(self).intents@[id].status == IntentStatus::Proposal,
            final(self).intents@[id].strategy is Manual,
            final(self).intents@[id].attached_patches@.len() == 0,
    {
        let id = fresh_id();
        self.intents.insert(
            id,
            IntentNode {
                id,
                description,
                constraints,
                status: IntentStatus::Proposal,
                strategy: IntentStrategy::Manual,
                attached_patches: Vec::new(),
            },
        );
        id
    }

    /// Attaches a patch to an intent: the patch is recorded once, and a
    /// proposal becomes attached. Fails when the intent is unknown.
    pub fn attach(&mut self, id: IntentId, patch_id: PatchId) -> (r: Result<(), String>)
        ensures
            match r {
                Err(msg) => !old(self).intents@.contains_key(id) && msg@ == intent_not_found(id)
                    && final(self).intents@ == old(self).intents@,
                Ok(()) => {
                    let before = old(self).intents@[id];
                    let after = final(self).intents@[id];
                    &&& old(self).intents@.contains_key(id)
                    &&& final(self).intents@.dom() == old(self).intents@.dom()
                    &&& forall|k: IntentId| k != id && #[trigger] old(self).intents@.contains_key(k)
                        ==> final(self).intents@[k] == old(self).intents@[k]
                    &&& after.id == before.id
                    &&& after.description == before.description
                    &&& after.constraints == before.constraints
                    &&& after.strategy == before.strategy
                    &&& after.attached_patches@ == if before.attached_patches@.contains(patch_id) {
                        before.attached_patches@
                    } else {
                        before.attached_patches@.push(patch_id)
                    }
                    &&& after.status == if before.status == IntentStatus::Proposal {
                        IntentStatus::Attached
                    } else {
                        before.status
                    }
                },
            },
    {
        let ghost m0 = self.intents@;
        let mut intent = match self.intents.remove(&id) {
            Some(i) => i,
            None => {
                return Err(not_found_message(id));
            },
        };
        let mut found = false;
        let mut i: usize = 0;
        while i < intent.attached_patches.len()
            invariant
                i <= intent.attached_patches@.len(),
                found == intent.attached_patches@.take(i as int).contains(patch_id),
            decreases intent.attached_patches@.len() - i,
        {
            if intent.attached_patches[i] == patch_id {
                found = true;
            }
            proof {
                assert(intent.attached_patches@.take(i + 1) =~= intent.attached_patches@.take(i as int).push(
                    intent.attached_patches@[i as int],
                ));
                broadcast use vstd::seq_lib::group_seq_properties;
            }
            i = i + 1;
        }
        proof {
            assert(intent.attached_patches@.take(intent.attached_patches@.len() as int) =~= intent.attached_patches@);
        }
        if !found {
            intent.attached_patches.push(patch_id);
        }
        if intent.status == IntentStatus::Proposal {
            intent.status = IntentStatus::Attached;
        }
        self.intents.insert(id, intent);
        proof {
            assert(self.intents@.dom() =~= m0.dom());
        }
        Ok(())
    }
}

// ──────────────────────────────────────────────
// Parameter constraints
// ──────────────────────────────────────────────

/// How often `.` occurs.
pub open spec fn dot_count(p: Seq<char>) -> nat
    decreases p.len(),
{
    if p.len() == 0 {
        0
    } else {
        dot_count(p.drop_last()) + if p.last() == '.' {
            1nat
        } else {
            0nat
        }
    }
}

/// Where the first `.` stands.
pub open spec fn first_dot(p: Seq<char>) -> int {
    choose|i: int| 0 <= i < p.len() && p[i] == '.' && forall|j: int| 0 <= j < i ==> p[j] != '.'
}

/// The first node, in identifier order, with the given name whose
/// configuration holds a floating-point value under `key`; that value.
pub open spec fn param_in(ks: Seq<u128>, m: Map<u128, Node>, name: Seq<char>, key: Seq<char>) -> Option<u64>
    decreases ks.len(),
{
    if ks.len() == 0 {
        None
    } else {
        let n = m[ks[0]];
        if node_name_text(n) == name && n.config@.contains_key(key) && n.config@[key] is Float {
            Some(n.config@[key]->Float_0)
        } else {
            param_in(ks.drop_first(), m, name, key)
        }
    }
}

/// The floating-point parameter that a path `node.param` names: none unless
/// the path holds exactly one `.`; otherwise that of the first node (in
/// identifier order of the mirror table) with that name and a floating-point
/// value under that key.
pub open spec fn param_value(g: Graph, path: Seq<char>) -> Option<u64> {
    if dot_count(path) != 1 {
        None
    } else {
        let d = first_dot(path);
        param_in(key_order(g.nodes@.dom()), g.nodes@, path.subrange(0, d), path.subrange(d + 1, path.len() as int))
    }
}

proof fn lemma_dot_count_take(p: Seq<char>, i: int)
    requires
        0 <= i < p.len(),
    ensures
        dot_count(p.take(i + 1)) == dot_count(p.take(i)) + if p[i] == '.' { 1nat } else { 0nat },
{
    assert(p.take(i + 1).drop_last() =~= p.take(i));
}

/// The value of the floating-point parameter that the path names, as the
/// bits of a binary64 value.
pub fn get_param_value(graph: &Graph, path: &str) -> (r: Option<u64>)
    ensures
        r == param_value(*graph, path@),
{
    let cs = crate::strmap::chars_of(path);
    let mut dots: usize = 0;
    let mut pos: usize = 0;
    let mut i: usize = 0;
    while i < cs.len()
        invariant
            cs@ == path@,
            i <= cs@.len(),
            dots == dot_count(cs@.take(i as int)),
            dots <= i,
            dots >= 1 ==> pos < i && cs@[pos as int] == '.' && forall|j: int| 0 <= j < pos ==> cs@[j] != '.',
            dots == 0 ==> forall|j: int| 0 <= j < i ==> cs@[j] != '.',
        decreases cs@.len() - i,
    {
        proof {
            lemma_dot_count_take(cs@, i as int);
        }
        if cs[i] == '.' {
            if dots == 0 {
                pos = i;
            }
            dots = dots + 1;
        }
        i = i + 1;
    }
    proof {
        assert(cs@.take(cs@.len() as int) =~= cs@);
    }
    if dots != 1 {
        return None;
    }
    proof {
        assert(first_dot(path@) == pos) by {
            let d = first_dot(path@);
            assert(0 <= d < path@.len() && path@[d] == '.' && forall|j: int| 0 <= j < d ==> path@[j] != '.');
            if d < pos {
                assert(cs@[d] != '.');
            } else if d > pos {
                assert(path@[pos as int] != '.');
            }
        }
    }
    let name = String::from_str(path.substring_char(0, pos));
    let key_str = path.substring_char(pos + 1, cs.len());
    let ks = sorted_keys(&graph.nodes);
    let ghost name_v = path@.subrange(0, pos as int);
    let ghost key_v = path@.subrange(pos + 1, path@.len() as int);
    let mut k: usize = 0;
    proof {
        assert(ks@.skip(0) =~= ks@);
    }
    while k < ks.len()
        invariant
            enumerates(ks@, graph.nodes@.dom()),
            ks@ == key_order(graph.nodes@.dom()),
            name@ == name_v,
            key_str@ == key_v,
            dot_count(path@) == 1,
            first_dot(path@) == pos,
            k <= ks@.len(),
            param_value(*graph, path@) == param_in(ks@.skip(k as int), graph.nodes@, name_v, key_v),
        decreases ks@.len() - k,
    {
        let id = ks[k];
        proof {
            assert(ks@.contains(id));
            assert(ks@.skip(k as int)[0] == id);
            assert(ks@.skip(k as int).drop_first() =~= ks@.skip(k + 1));
        }
        match graph.nodes.get(&id) {
            Some(n) => {
                let nm = node_name(n);
                if nm == name {
                    match n.config.get(key_str) {
                        Some(v) => match v {
                            ConfigValue::Float(f) => {
                                return Some(*f);
                            },
                            _ => {},
                        },
                        None => {},
                    }
                }
            },
            None => {},
        }
        k = k + 1;
    }
    None
}

/// Whether a value must fall inside its range or outside it.
#[derive(Clone, Copy, PartialEq, Eq, Structural, Debug)]
pub enum BoundKind {
    Must,
    Never,
}

/// A hard constraint whose parameter was found: the kind, the parameter
/// path, its value (binary64 bits) and the inclusive range (binary32 bits).
#[derive(Debug)]
pub struct ConstraintProbe {
    pub kind: BoundKind,
    pub target: String,
    pub value: u64,
    pub range_start: u32,
    pub range_end: u32,
}

/// The probe of a constraint: hard constraints whose parameter is found give
/// one; soft constraints (`Prefer`, `Avoid`) and unknown parameters give none.
pub open spec fn probe_of(c: IntentConstraint, g: Graph) -> Option<(BoundKind, ParamBound, u64)> {
    match c {
        IntentConstraint::Must(b) => match param_value(g, b.target@) {
            Some(v) => Some((BoundKind::Must, b, v)),
            None => None,
        },
        IntentConstraint::Never(b) => match param_value(g, b.target@) {
            Some(v) => Some((BoundKind::Never, b, v)),
            None => None,
        },
        _ => None,
    }
}

/// The probes of the constraints, in order.
pub open spec fn probes_of(cs: Seq<IntentConstraint>, g: Graph) -> Seq<(BoundKind, ParamBound, u64)>
    decreases cs.len(),
{
    if cs.len() == 0 {
        Seq::empty()
    } else {
        probes_of(cs.drop_last(), g) + match probe_of(cs.last(), g) {
            Some(p) => seq![p],
            None => Seq::empty(),
        }
    }
}

/// Every probe of an intent's constraints comes from a hard constraint of the
/// same kind: a `Must` constraint gives a `Must` probe and a `Never`
/// constraint a `Never` probe, with its own bound and the parameter's current
/// value; soft constraints give none. Conversely every hard constraint whose
/// parameter is found gives such a probe.
pub proof fn law_probes_keep_constraint_kinds(cs: Seq<IntentConstraint>, g: Graph)
    ensures
        forall|i: int|
            0 <= i < probes_of(cs, g).len() ==> exists|j: int|
                #![trigger cs[j]]
                0 <= j < cs.len() && param_value(g, (#[trigger] probes_of(cs, g)[i]).1.target@) == Some(probes_of(cs, g)[i].2)
                    && ((cs[j] == IntentConstraint::Must(probes_of(cs, g)[i].1) && probes_of(cs, g)[i].0 == BoundKind::Must)
                    || (cs[j] == IntentConstraint::Never(probes_of(cs, g)[i].1) && probes_of(cs, g)[i].0 == BoundKind::Never)),
        forall|j: int|
            0 <= j < cs.len() && (#[trigger] cs[j]) is Must && param_value(g, cs[j]->Must_0.target@) is Some ==> probes_of(
                cs,
                g,
            ).contains((BoundKind::Must, cs[j]->Must_0, param_value(g, cs[j]->Must_0.target@).unwrap())),
        forall|j: int|
            0 <= j < cs.len() && (#[trigger] cs[j]) is Never && param_value(g, cs[j]->Never_0.target@) is Some ==> probes_of(
                cs,
                g,
            ).contains((BoundKind::Never, cs[j]->Never_0, param_value(g, cs[j]->Never_0.target@).unwrap())),
    decreases cs.len(),
{
    if cs.len() > 0 {
        let pre = cs.drop_last();
        law_probes_keep_constraint_kinds(pre, g);
        let ps = probes_of(cs, g);
        let pp = probes_of(pre, g);
        let last = cs.last();
        let extra = match probe_of(last, g) {
            Some(p) => seq![p],
            None => Seq::<(BoundKind, ParamBound, u64)>::empty(),
        };
        assert(ps == pp + extra);
        assert forall|i: int| 0 <= i < ps.len() implies exists|j: int|
            #![trigger cs[j]]
            0 <= j < cs.len() && param_value(g, (#[trigger] ps[i]).1.target@) == Some(ps[i].2) && ((cs[j]
                == IntentConstraint::Must(ps[i].1) && ps[i].0 == BoundKind::Must) || (cs[j] == IntentConstraint::Never(
                ps[i].1,
            ) && ps[i].0 == BoundKind::Never)) by {
            if i < pp.len() {
                assert(ps[i] == pp[i]);
                let j = choose|j: int|
                    #![trigger pre[j]]
                    0 <= j < pre.len() && param_value(g, pp[i].1.target@) == Some(pp[i].2) && ((pre[j]
                        == IntentConstraint::Must(pp[i].1) && pp[i].0 == BoundKind::Must) || (pre[j]
                        == IntentConstraint::Never(pp[i].1) && pp[i].0 == BoundKind::Never));
                assert(cs[j] == pre[j]);
            } else {
                let j = cs.len() - 1;
                assert(cs[j] == last);
            }
        }
        assert forall|j: int|
            0 <= j < cs.len() && (#[trigger] cs[j]) is Must && param_value(g, cs[j]->Must_0.target@) is Some implies ps.contains(
            (BoundKind::Must, cs[j]->Must_0, param_value(g, cs[j]->Must_0.target@).unwrap()),
        ) by {
            let x = (BoundKind::Must, cs[j]->Must_0, param_value(g, cs[j]->Must_0.target@).unwrap());
            if j < pre.len() {
                assert(pre[j] == cs[j]);
                let q = choose|q: int| 0 <= q < pp.len() && pp[q] == x;
                assert(ps[q] == x);
            } else {
                assert(ps[pp.len() as int] == x);
            }
        }
        assert forall|j: int|
            0 <= j < cs.len() && (#[trigger] cs[j]) is Never && param_value(g, cs[j]->Never_0.target@) is Some implies ps.contains(
            (BoundKind::Never, cs[j]->Never_0, param_value(g, cs[j]->Never_0.target@).unwrap()),
        ) by {
            let x = (BoundKind::Never, cs[j]->Never_0, param_value(g, cs[j]->Never_0.target@).unwrap());
            if j < pre.len() {
                assert(pre[j] == cs[j]);
                let q = choose|q: int| 0 <= q < pp.len() && pp[q] == x;
                assert(ps[q] == x);
            } else {
                assert(ps[pp.len() as int] == x);
            }
        }
    }
}

pub open spec fn probe_view(p: ConstraintProbe) -> (BoundKind, ParamBound, u64) {
    (p.kind, ParamBound { target: p.target, range_start: p.range_start, range_end: p.range_end }, p.value)
}

impl IntentState {
    /// The hard constraints of an intent with the current value of their
    /// parameter, in order; the comparison with the range is left to the
    /// caller. Fails when the intent is unknown.
    pub fn constraint_probes(&self, id: IntentId, graph: &Graph) -> (r: Result<Vec<ConstraintProbe>, String>)
        ensures
            match r {
                Err(msg) => !self.intents@.contains_key(id) && msg@ == intent_not_found(id),
                Ok(ps) => self.intents@.contains_key(id) && ps@.map_values(|p: ConstraintProbe| probe_view(p))
                    == probes_of(self.intents@[id].constraints@, *graph),
            },
    {
        let intent = match self.intents.get(&id) {
            Some(i) => i,
            None => {
                return Err(not_found_message(id));
            },
        };
        let ghost cs = intent.constraints@;
        let mut out: Vec<ConstraintProbe> = Vec::new();
        let mut i: usize = 0;
        proof {
            assert(cs.take(0) =~= Seq::<IntentConstraint>::empty());
            assert(out@.map_values(|p: ConstraintProbe| probe_view(p)) =~= probes_of(cs.take(0), *graph));
        }
        while i < intent.constraints.len()
            invariant
                cs == intent.constraints@,
                i <= cs.len(),
                out@.map_values(|p: ConstraintProbe| probe_view(p)) == probes_of(cs.take(i as int), *graph),
            decreases cs.len() - i,
        {
            let ghost before = out@;
            proof {
                assert(cs.take(i + 1).drop_last() =~= cs.take(i as int));
                assert(cs.take(i + 1).last() == cs[i as int]);
            }
            let (kind, bound) = match &intent.constraints[i] {
                IntentConstraint::Must(b) => (Some(BoundKind::Must), b),
                IntentConstraint::Never(b) => (Some(BoundKind::Never), b),
                IntentConstraint::Prefer(b) => (None, b),
                IntentConstraint::Avoid(b) => (None, b),
            };
            match kind {
                Some(k) => {
                    match get_param_value(graph, bound.target.as_str()) {
                        Some(v) => {
                            out.push(ConstraintProbe {
                                kind: k,
                                target: bound.target.clone(),
                                value: v,
                                range_start: bound.range_start,
                                range_end: bound.range_end,
                            });
                            proof {
                                assert(out@.map_values(|p: ConstraintProbe| probe_view(p)) =~= before.map_values(
                                    |p: ConstraintProbe| probe_view(p),
                                ).push(probe_view(out@.last())));
                            }
                        },
                        None => {},
                    }
                },
                None => {},
            }
            proof {
                assert(out@.map_values(|p: ConstraintProbe| probe_view(p)) =~= probes_of(cs.take(i + 1), *graph));
            }
            i = i + 1;
        }
        proof {
            assert(cs.take(cs.len() as int) =~= cs);
        }
        Ok(out)
    }
}

} // verus!
