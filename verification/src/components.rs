//! The parameter-free parts of the signal-processing components, builds and
//! evolutionary search: their kinds, their state, and how they are made.
use vstd::prelude::*;
use crate::types::{StableId, ConfigValue, ConfigChange, PatchSource, TrustLevel, CValue, float_entries, float_params};
use crate::ir::{Node, Graph};
use crate::patch::{Operation, OpView, Patch, ops_view};
use crate::strmap::{StrMap, chars_of};
use crate::text::{id_text, id_string};
use crate::keyorder::{sorted_keys, key_order, enumerates};

verus! {

broadcast use vstd::laws_cmp::group_laws_cmp;

/// A comparator with hysteresis; its state is whether it is high.
pub struct Comparator {
    state: bool,
}

impl Comparator {
    /// Whether the comparator is high.
    pub closed spec fn is_high(&self) -> bool {
        self.state
    }

    /// A comparator that starts low.
    pub fn new() -> (c: Comparator)
        ensures
            !c.is_high(),
    {
        Comparator { state: false }
    }
}

/// How a clipper shapes its input.
#[derive(Clone, Copy, PartialEq, Eq, Structural, Debug)]
pub enum ClipMode {
    Soft,
    Hard,
    Tube,
    Diode,
    FoldBack,
}

/// A window function for spectral analysis.
#[derive(Clone, Copy, PartialEq, Eq, Structural, Debug)]
pub enum WindowType {
    Rectangular,
    Hann,
    Hamming,
    Blackman,
}

/// A stateless wave shaper.
pub struct WaveShaper {}

/// The wave shaper as a graph processing node.
pub struct WaveShaperNode {
    inner: WaveShaper,
}

impl WaveShaperNode {
    /// The shaper inside the node.
    pub closed spec fn shaper(&self) -> WaveShaper {
        self.inner
    }

    /// A wave shaper node.
    pub fn new() -> (n: WaveShaperNode)
        ensures
            n.shaper() == (WaveShaper {}),
    {
        WaveShaperNode { inner: WaveShaper {} }
    }
}

/// A wavelet family.
#[derive(Clone, Copy, PartialEq, Eq, Structural, Debug)]
pub enum WaveletType {
    Haar,
    Daubechies2,
    Daubechies4,
    Daubechies6,
    Daubechies8,
    Daubechies10,
    Coiflet1,
    Symlet4,
}

/// A one-level discrete wavelet transform.
pub struct Dwt {
    wavelet: WaveletType,
}

impl Dwt {
    /// The wavelet family used.
    pub closed spec fn wavelet_spec(&self) -> WaveletType {
        self.wavelet
    }

    /// A transform with the given wavelet.
    pub fn new(wavelet: WaveletType) -> (d: Dwt)
        ensures
            d.wavelet_spec() == wavelet,
    {
        Dwt { wavelet }
    }
}

/// A multi-level discrete wavelet transform.
pub struct MultiLevelDwt {
    dwt: Dwt,
    levels: usize,
}

impl MultiLevelDwt {
    /// The wavelet family used.
    pub closed spec fn wavelet_spec(&self) -> WaveletType {
        self.dwt.wavelet
    }

    /// The number of levels.
    pub closed spec fn levels_spec(&self) -> usize {
        self.levels
    }

    /// A transform of the given number of levels with the given wavelet.
    pub fn new(wavelet: WaveletType, levels: usize) -> (d: MultiLevelDwt)
        ensures
            d.wavelet_spec() == wavelet,
            d.levels_spec() == levels,
    {
        MultiLevelDwt { dwt: Dwt::new(wavelet), levels }
    }
}

/// How serious a diagnostic is.
#[derive(Clone, Copy, PartialEq, Eq, Structural, Debug)]
pub enum DiagnosticSeverity {
    Info,
    Warning,
    Error,
}

/// A diagnostic message from the engine, with the sample index at which it arose.
#[derive(Debug)]
pub struct DiagnosticRecord {
    pub message: String,
    pub severity: DiagnosticSeverity,
    pub timestamp: u64,
}

/// What a graph is built into.
#[derive(Clone, Copy, PartialEq, Eq, Structural, Debug)]
pub enum BuildTarget {
    Vst3,
    Clap,
    Standalone,
}

/// What a build is made from.
#[derive(Debug)]
pub struct BuildManifest {
    pub project_name: String,
    pub target: BuildTarget,
    pub revision: u64,
    pub root_hash: String,
}

/// Turns a graph into a buildable project.
pub struct Transmuter;

/// Explores the parameter space of circuits.
pub struct ExplorationEngine;

// ──────────────────────────────────────────────
// Evolutionary search
// ──────────────────────────────────────────────

/// Searches for better patches by mutating parameters.
pub struct Mutator;

/// `pat` occurs in `s` at some position.
pub open spec fn contains_text(s: Seq<char>, pat: Seq<char>) -> bool {
    exists|i: int| 0 <= i <= s.len() - pat.len() && #[trigger] s.subrange(i, i + pat.len()) == pat
}

/// The first listed node whose identifier text contains `pat`.
pub open spec fn first_matching(ks: Seq<u128>, pat: Seq<char>) -> Option<u128>
    decreases ks.len(),
{
    if ks.len() == 0 {
        None
    } else if contains_text(id_text(ks[0]), pat) {
        Some(ks[0])
    } else {
        first_matching(ks.drop_first(), pat)
    }
}

/// Whether `pat` occurs in `s`.
fn text_contains(s: &Vec<char>, pat: &Vec<char>) -> (b: bool)
    ensures
        b == contains_text(s@, pat@),
{
    if pat.len() > s.len() {
        proof {
            assert forall|i: int| !(0 <= i <= s@.len() - pat@.len() && #[trigger] s@.subrange(i, i + pat@.len()) == pat@) by {}
        }
        return false;
    }
    if pat.len() == 0 {
        proof {
            assert(s@.subrange(0int, 0int + pat@.len()) =~= pat@);
        }
        return true;
    }
    let slen = s.len();
    let limit = slen - pat.len();
    let mut i: usize = 0;
    while i <= limit
        invariant
            0 < pat@.len() <= s@.len(),
            slen == s@.len(),
            limit == s@.len() - pat@.len(),
            i <= s@.len() - pat@.len() + 1,
            forall|q: int| 0 <= q < i ==> #[trigger] s@.subrange(q, q + pat@.len()) != pat@,
        decreases s@.len() - i,
    {
        let mut j: usize = 0;
        let mut same = true;
        while j < pat.len()
            invariant
                i <= limit,
                slen == s@.len(),
                limit == s@.len() - pat@.len(),
                pat@.len() <= s@.len(),
                j <= pat@.len(),
                same == forall|q: int| 0 <= q < j ==> s@[i + q] == pat@[q],
            decreases pat@.len() - j,
        {
            assert(i + j < s@.len());
            if s[i + j] != pat[j] {
                same = false;
            }
            j = j + 1;
        }
        if same {
            proof {
                assert(s@.subrange(i as int, i + pat@.len()) =~= pat@);
            }
            return true;
        }
        proof {
            let q = choose|q: int| !(0 <= q < pat@.len() ==> s@[i + q] == pat@[q]);
            assert(s@.subrange(i as int, i + pat@.len())[q] != pat@[q]);
        }
        i = i + 1;
    }
    proof {
        assert forall|q: int| !(0 <= q <= s@.len() - pat@.len() && #[trigger] s@.subrange(q, q + pat@.len()) == pat@) by {
            if 0 <= q <= s@.len() - pat@.len() {
                assert(q < i);
            }
        }
    }
    false
}

impl Mutator {
    /// What the search mutates: the first node (in identifier order of the
    /// topology) whose identifier text contains the given text, and its
    /// floating-point parameters in key order.
    pub fn mutation_sites(graph: &Graph, target_node_id: &str) -> (r: Option<(StableId, Vec<(String, u64)>)>)
        ensures
            match first_matching(key_order(graph.topology.nodes@.dom()), target_node_id@) {
                None => r is None,
                Some(id) => r matches Some((rid, sites)) && rid == id && sites@.map_values(
                    |e: (String, u64)| (e.0@, e.1),
                ) == float_entries(graph.topology.nodes@[id].config.entries()),
            },
    {
        let pat = chars_of(target_node_id);
        let ks = sorted_keys(&graph.topology.nodes);
        let mut k: usize = 0;
        proof {
            assert(ks@.skip(0) =~= ks@);
        }
        while k < ks.len()
            invariant
                enumerates(ks@, graph.topology.nodes@.dom()),
                ks@ == key_order(graph.topology.nodes@.dom()),
                pat@ == target_node_id@,
                k <= ks@.len(),
                first_matching(ks@, pat@) == first_matching(ks@.skip(k as int), pat@),
            decreases ks@.len() - k,
        {
            let id = ks[k];
            proof {
                assert(ks@.contains(id));
                assert(ks@.skip(k as int)[0] == id);
                assert(ks@.skip(k as int).drop_first() =~= ks@.skip(k + 1));
            }
            let id_chars = chars_of(id_string(id).as_str());
            if text_contains(&id_chars, &pat) {
                match graph.topology.nodes.get(&id) {
                    Some(node) => {
                        let sites = float_params(&node.config);
                        return Some((id, sites));
                    },
                    None => {},
                }
            }
            k = k + 1;
        }
        None
    }

    /// The patch of one search step: for each site, a change from its old
    /// value to the new value given in the same position; made by the user,
    /// untrusted.
    pub fn evolve_patch(node_id: StableId, sites: &Vec<(String, u64)>, new_values: &Vec<u64>) -> (p: Patch)
        requires
            sites@.len() == new_values@.len(),
        ensures
            p.operations@.len() == sites@.len(),
            forall|i: int|
                0 <= i < sites@.len() ==> (#[trigger] ops_view(p.operations@)[i]) == (OpView::ModifyConfig {
                    node_id,
                    delta: Map::empty().insert(
                        sites@[i].0@,
                        crate::types::ChangeView {
                            old: Some(CValue::Float(sites@[i].1)),
                            new: Some(CValue::Float(new_values@[i])),
                        },
                    ),
                }),
            p.source == PatchSource::UserDirect,
            p.trust == TrustLevel::Untrusted,
            p.intent_ref is None,
            p.digest_valid(),
    {
        let mut ops: Vec<Operation> = Vec::new();
        let mut i: usize = 0;
        while i < sites.len()
            invariant
                sites@.len() == new_values@.len(),
                i <= sites@.len(),
                ops@.len() == i,
                forall|j: int|
                    0 <= j < i ==> (#[trigger] ops@[j])@ == (OpView::ModifyConfig {
                        node_id,
                        delta: Map::empty().insert(
                            sites@[j].0@,
                            crate::types::ChangeView {
                                old: Some(CValue::Float(sites@[j].1)),
                                new: Some(CValue::Float(new_values@[j])),
                            },
                        ),
                    }),
            decreases sites@.len() - i,
        {
            let mut delta: StrMap<ConfigChange> = StrMap::new();
            delta.insert(
                sites[i].0.clone(),
                ConfigChange { old: Some(ConfigValue::Float(sites[i].1)), new: Some(ConfigValue::Float(new_values[i])) },
            );
            let op = Operation::ModifyConfig { node_id, delta };
            proof {
                assert(crate::types::delta_model(delta) =~= Map::empty().insert(
                    sites@[i as int].0@,
                    crate::types::ChangeView {
                        old: Some(CValue::Float(sites@[i as int].1)),
                        new: Some(CValue::Float(new_values@[i as int])),
                    },
                ));
            }
            ops.push(op);
            i = i + 1;
        }
        Patch::from_operations_with_provenance(ops, PatchSource::UserDirect, TrustLevel::Untrusted)
    }
}

} // verus!
