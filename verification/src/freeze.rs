//! Freezing: replacing a node and everything upstream of it by a rendered
//! asset, and a cache of rendered assets.
use vstd::prelude::*;
use vstd::std_specs::iter::IteratorSpec;
use std::collections::{BTreeMap, HashSet};
use crate::types::{StableId, ConfigValue, CValue, PortRef, config_model};
use crate::ir::{Node, NodeView, Edge, EdgeKind, Graph, name_config, audio_port, fresh_id};
use crate::types::{PortDirection, ConfidenceScore, PatchSource, TrustLevel, NodeKindView};
use crate::patch::{Operation, OpView, Patch, PatchError, TopoView, ops_view, apply_op, apply_ops, detach, topo_view};
use crate::hash::{blake3_digest, blake3_of, enc_tables, encode_tables};
use crate::text::{id_text, id_string};
use crate::keyorder::{sorted_keys, key_order, enumerates};

verus! {

broadcast use {vstd::laws_cmp::group_laws_cmp, vstd::std_specs::hash::group_hash_axioms};

// ──────────────────────────────────────────────
// The asset cache
// ──────────────────────────────────────────────

/// The key under which a graph's asset is cached: the digest of its content,
/// the nodes, edges and modulations of its tables (where `clone_subgraph`
/// puts a subgraph; after `apply_patch` they hold the topology).
pub open spec fn cache_key(g: Graph) -> Seq<u8> {
    blake3_digest(enc_tables(g.nodes@, g.edges@, g.modulations@))
}

/// The entries as a map from key to asset path.
pub open spec fn cache_map(es: Seq<(crate::types::Hash, String)>) -> Map<Seq<u8>, Seq<char>>
    decreases es.len(),
{
    if es.len() == 0 {
        Map::empty()
    } else {
        cache_map(es.drop_last()).insert(es.last().0@, es.last().1@)
    }
}

/// Rendered assets by graph key.
pub struct DifferentialCache {
    entries: Vec<(crate::types::Hash, String)>,
}

impl View for DifferentialCache {
    type V = Map<Seq<u8>, Seq<char>>;

    closed spec fn view(&self) -> Map<Seq<u8>, Seq<char>> {
        cache_map(self.entries@)
    }
}

/// The position of the last entry under key `k`, or -1.
pub open spec fn last_index(es: Seq<(crate::types::Hash, String)>, k: Seq<u8>) -> int
    decreases es.len(),
{
    if es.len() == 0 {
        -1
    } else if es.last().0@ == k {
        es.len() - 1
    } else {
        last_index(es.drop_last(), k)
    }
}

proof fn lemma_cache_map_lookup(es: Seq<(crate::types::Hash, String)>, k: Seq<u8>)
    ensures
        -1 <= last_index(es, k) < es.len(),
        cache_map(es).contains_key(k) <==> last_index(es, k) >= 0,
        last_index(es, k) >= 0 ==> es[last_index(es, k)].0@ == k && cache_map(es)[k] == es[last_index(es, k)].1@,
        forall|j: int| last_index(es, k) < j < es.len() ==> (#[trigger] es[j]).0@ != k,
    decreases es.len(),
{
    if es.len() > 0 {
        let rest = es.drop_last();
        lemma_cache_map_lookup(rest, k);
        if es.last().0@ != k {
            assert forall|j: int| last_index(es, k) < j < es.len() implies (#[trigger] es[j]).0@ != k by {
                if j < es.len() - 1 {
                    assert(es[j] == rest[j]);
                }
            }
            if last_index(es, k) >= 0 {
                assert(es[last_index(es, k)] == rest[last_index(es, k)]);
            }
        }
    }
}

/// The key under which a graph's asset is cached.
fn compute_graph_hash(graph: &Graph) -> (h: crate::types::Hash)
    ensures
        h@ == cache_key(*graph),
{
    let bytes = encode_tables(&graph.nodes, &graph.edges, &graph.modulations);
    blake3_of(&bytes)
}

impl DifferentialCache {
    /// An empty cache.
    pub fn new() -> (c: DifferentialCache)
        ensures
            c@ == Map::<Seq<u8>, Seq<char>>::empty(),
    {
        DifferentialCache { entries: Vec::new() }
    }

    /// The path of the asset cached for the graph, if any.
    pub fn get_cached_asset(&self, graph: &Graph) -> (r: Option<String>)
        ensures
            match r {
                Some(p) => self@.contains_key(cache_key(*graph)) && p@ == self@[cache_key(*graph)],
                None => !self@.contains_key(cache_key(*graph)),
            },
    {
        let hash = compute_graph_hash(graph);
        let ghost k = cache_key(*graph);
        let ghost es = self.entries@;
        proof {
            lemma_cache_map_lookup(es, k);
        }
        let mut i: usize = self.entries.len();
        while i > 0
            invariant
                es == self.entries@,
                k == cache_key(*graph),
                hash@ == k,
                i <= es.len(),
                last_index(es, k) < i,
            decreases i,
        {
            proof {
                lemma_cache_map_lookup(es, k);
            }
            i = i - 1;
            if crate::patch::digest_eq(&self.entries[i].0, &hash) {
                proof {
                    assert(last_index(es, k) == i) by {
                        if last_index(es, k) < i {
                            assert(es[i as int].0@ != k);
                        }
                    }
                }
                let found = self.entries[i].1.clone();
                proof {
                    assert(found@ == es[i as int].1@);
                    assert(self@ == cache_map(es));
                    assert(cache_map(es)[k] == es[last_index(es, k)].1@);
                }
                return Some(found);
            }
            proof {
                if last_index(es, k) == i {
                    assert(es[i as int].0@ == k);
                }
            }
        }
        None
    }

    /// Caches the asset path for the graph, replacing any earlier one.
    pub fn insert(&mut self, graph: &Graph, path: String)
        ensures
            final(self)@ == old(self)@.insert(cache_key(*graph), path@),
    {
        let hash = compute_graph_hash(graph);
        let ghost es = self.entries@;
        self.entries.push((hash, path));
        proof {
            assert(self.entries@.drop_last() =~= es);
        }
    }
}

/// What a read of the cache gives back after a write: the path written for
/// a graph is the one found for it, whatever the cache held before.
pub proof fn law_cache_read_after_write(cache: Map<Seq<u8>, Seq<char>>, g: Graph, path: Seq<char>)
    ensures
        cache.insert(cache_key(g), path).contains_key(cache_key(g)),
        cache.insert(cache_key(g), path)[cache_key(g)] == path,
{
}

// ──────────────────────────────────────────────
// Freezing a node
// ──────────────────────────────────────────────

/// The edges (in identifier order) that leave the frozen set: their source
/// is frozen and their target is not.
pub open spec fn leaving_edges(ks: Seq<u128>, edges: Map<u128, Edge>, frozen: Set<u128>) -> Seq<Edge>
    decreases ks.len(),
{
    if ks.len() == 0 {
        Seq::empty()
    } else {
        let e = edges[ks.last()];
        leaving_edges(ks.drop_last(), edges, frozen) + if frozen.contains(e.source.node_id) && !frozen.contains(
            e.target.node_id,
        ) {
            seq![e]
        } else {
            Seq::empty()
        }
    }
}

/// From position `start` on, the operations add one edge per listed edge,
/// from port `out` of node `src` to the same target, of the same kind.
pub open spec fn redirects_from(ops: Seq<OpView>, start: int, out_edges: Seq<Edge>, src: StableId) -> bool {
    forall|j: int|
        0 <= j < out_edges.len() ==> ((#[trigger] ops[start + j]) matches OpView::AddEdge(e) && e.source@.node_id == src
            && e.source@.port_name == "out"@ && e.target == out_edges[j].target && e.kind == out_edges[j].kind)
}

/// From position `start` on, every operation adds an edge under an identifier
/// that `used` lacks, no two of them the same.
pub open spec fn fresh_edges(ops: Seq<OpView>, start: int, used: Set<StableId>) -> bool {
    &&& forall|j: int| start <= j < ops.len() ==> (#[trigger] ops[j]) is AddEdge && !used.contains(ops[j]->AddEdge_0.id)
    &&& forall|i: int, j: int|
        start <= i < j < ops.len() ==> (#[trigger] ops[i])->AddEdge_0.id != (#[trigger] ops[j])->AddEdge_0.id
}

/// The identifiers the first `n` operations remove.
pub open spec fn removed_ids(ops: Seq<OpView>, n: int) -> Seq<StableId> {
    ops.take(n).map_values(|o: OpView| o->RemoveNode_0)
}

proof fn lemma_leaving_edges_members(ks: Seq<u128>, edges: Map<u128, Edge>, frozen: Set<u128>)
    ensures
        forall|j: int|
            0 <= j < leaving_edges(ks, edges, frozen).len() ==> !frozen.contains(
                (#[trigger] leaving_edges(ks, edges, frozen)[j]).target.node_id,
            ) && exists|q: int| 0 <= q < ks.len() && leaving_edges(ks, edges, frozen)[j] == edges[ks[q]],
    decreases ks.len(),
{
    if ks.len() > 0 {
        lemma_leaving_edges_members(ks.drop_last(), edges, frozen);
        let prev = leaving_edges(ks.drop_last(), edges, frozen);
        let all = leaving_edges(ks, edges, frozen);
        assert forall|j: int| 0 <= j < all.len() implies !frozen.contains((#[trigger] all[j]).target.node_id) && exists|q: int|
            0 <= q < ks.len() && all[j] == edges[ks[q]] by {
            if j < prev.len() {
                assert(all[j] == prev[j]);
                let q = choose|q: int| 0 <= q < ks.drop_last().len() && prev[j] == edges[ks.drop_last()[q]];
                assert(ks[q] == ks.drop_last()[q]);
            } else {
                assert(all[j] == edges[ks[ks.len() - 1]]);
            }
        }
    }
}

/// Removing distinct nodes that the topology holds succeeds: what follows
/// runs on the topology without them, whose edges are among the old ones.
proof fn lemma_apply_removals(t: TopoView, ops: Seq<OpView>, n: int) -> (t2: TopoView)
    requires
        0 <= n <= ops.len(),
        forall|i: int| 0 <= i < n ==> (#[trigger] ops[i]) is RemoveNode,
        removed_ids(ops, n).no_duplicates(),
        forall|i: int| 0 <= i < n ==> t.nodes.contains_key((#[trigger] ops[i])->RemoveNode_0),
    ensures
        apply_ops(t, ops) == apply_ops(t2, ops.skip(n)),
        forall|x: StableId| t2.nodes.contains_key(x) <==> t.nodes.contains_key(x) && !removed_ids(ops, n).contains(x),
        forall|k: StableId| t2.edges.contains_key(k) ==> t.edges.contains_key(k),
    decreases n,
{
    if n == 0 {
        assert(ops.skip(0) =~= ops);
        assert(removed_ids(ops, 0) =~= Seq::<StableId>::empty());
        t
    } else {
        let id = ops[0]->RemoveNode_0;
        let t1 = TopoView { nodes: t.nodes.remove(id), edges: detach(t.edges, id), ..t };
        assert(ops[0] is RemoveNode);
        assert(t.nodes.contains_key(id));
        assert(apply_op(t, ops[0]) == Ok::<TopoView, PatchError>(t1));
        let rest = ops.drop_first();
        let ms = removed_ids(ops, n);
        assert(removed_ids(rest, n - 1) =~= ms.drop_first());
        assert(ms[0] == id);
        assert forall|i: int| 0 <= i < n - 1 implies t1.nodes.contains_key((#[trigger] rest[i])->RemoveNode_0) by {
            assert(rest[i] == ops[i + 1]);
            assert(ms[i + 1] == rest[i]->RemoveNode_0);
            assert(ms[i + 1] != ms[0]);
        }
        assert forall|i: int| 0 <= i < n - 1 implies (#[trigger] rest[i]) is RemoveNode by {
            assert(rest[i] == ops[i + 1]);
        }
        let t2 = lemma_apply_removals(t1, rest, n - 1);
        assert(rest.skip(n - 1) =~= ops.skip(n));
        assert forall|x: StableId| t2.nodes.contains_key(x) <==> t.nodes.contains_key(x) && !ms.contains(x) by {
            if ms.contains(x) && x != id {
                let q = choose|q: int| 0 <= q < ms.len() && ms[q] == x;
                assert(ms.drop_first()[q - 1] == x);
            }
            if ms.drop_first().contains(x) {
                let q = choose|q: int| 0 <= q < ms.drop_first().len() && ms.drop_first()[q] == x;
                assert(ms[q + 1] == x);
            }
        }
        t2
    }
}

/// Adding edges under fresh, distinct identifiers between nodes the topology
/// holds succeeds.
proof fn lemma_apply_add_edges(t: TopoView, ops: Seq<OpView>)
    requires
        fresh_edges(ops, 0, t.edges.dom()),
        forall|j: int| 0 <= j < ops.len() ==> t.nodes.contains_key((#[trigger] ops[j])->AddEdge_0.source.node_id)
            && t.nodes.contains_key(ops[j]->AddEdge_0.target.node_id),
    ensures
        apply_ops(t, ops).1 is None,
    decreases ops.len(),
{
    if ops.len() > 0 {
        let e = ops[0]->AddEdge_0;
        assert(ops[0] is AddEdge);
        let t1 = TopoView { edges: t.edges.insert(e.id, e), ..t };
        assert(apply_op(t, ops[0]) == Ok::<TopoView, PatchError>(t1));
        let rest = ops.drop_first();
        assert forall|j: int| 0 <= j < rest.len() implies (#[trigger] rest[j]) is AddEdge && !t1.edges.dom().contains(
            rest[j]->AddEdge_0.id,
        ) by {
            assert(rest[j] == ops[j + 1]);
            assert(ops[0]->AddEdge_0.id != ops[j + 1]->AddEdge_0.id);
        }
        assert forall|i: int, j: int| 0 <= i < j < rest.len() implies (#[trigger] rest[i])->AddEdge_0.id != (#[trigger] rest[j])->AddEdge_0.id by {
            assert(rest[i] == ops[i + 1]);
            assert(rest[j] == ops[j + 1]);
        }
        assert forall|j: int| 0 <= j < rest.len() implies t1.nodes.contains_key((#[trigger] rest[j])->AddEdge_0.source.node_id)
            && t1.nodes.contains_key(rest[j]->AddEdge_0.target.node_id) by {
            assert(rest[j] == ops[j + 1]);
        }
        lemma_apply_add_edges(t1, rest);
    }
}

/// A freeze patch applies: when the frozen nodes are nodes of the topology,
/// each edge that leaves them ends at a node of the topology, and the asset
/// node's and the new edges' identifiers are unused, removing the frozen
/// nodes, adding the asset node and redirecting the edges raises no error.
pub proof fn law_freeze_patch_applies(t: TopoView, ops: Seq<OpView>, frozen: Set<StableId>, out_edges: Seq<Edge>)
    requires
        frozen.finite(),
        ops.len() == frozen.len() + 1 + out_edges.len(),
        forall|i: int| 0 <= i < frozen.len() ==> (#[trigger] ops[i]) is RemoveNode,
        removed_ids(ops, frozen.len() as int).no_duplicates(),
        removed_ids(ops, frozen.len() as int).to_set() == frozen,
        ops[frozen.len() as int] is AddNode,
        redirects_from(ops, frozen.len() + 1int, out_edges, ops[frozen.len() as int]->AddNode_0.id),
        frozen.subset_of(t.nodes.dom()),
        forall|j: int|
            0 <= j < out_edges.len() ==> t.nodes.contains_key((#[trigger] out_edges[j]).target.node_id) && !frozen.contains(
                out_edges[j].target.node_id,
            ),
        !t.nodes.contains_key(ops[frozen.len() as int]->AddNode_0.id),
        fresh_edges(ops, frozen.len() + 1int, t.edges.dom()),
    ensures
        apply_ops(t, ops).1 is None,
{
    let na = frozen.len() as int;
    let ms = removed_ids(ops, na);
    assert forall|i: int| 0 <= i < na implies t.nodes.contains_key((#[trigger] ops[i])->RemoveNode_0) by {
        assert(ms[i] == ops[i]->RemoveNode_0);
        assert(ms.to_set().contains(ms[i]));
    }
    let t2 = lemma_apply_removals(t, ops, na);
    let after = ops.skip(na);
    let n = ops[na]->AddNode_0;
    assert(after[0] == ops[na]);
    assert(!t2.nodes.contains_key(n.id));
    let t3 = TopoView { nodes: t2.nodes.insert(n.id, n), ..t2 };
    assert(apply_op(t2, after[0]) == Ok::<TopoView, PatchError>(t3));
    let edges_ops = after.drop_first();
    assert(edges_ops =~= ops.skip(na + 1));
    assert forall|j: int| 0 <= j < edges_ops.len() implies (#[trigger] edges_ops[j]) is AddEdge && !t3.edges.dom().contains(
        edges_ops[j]->AddEdge_0.id,
    ) by {
        assert(edges_ops[j] == ops[na + 1 + j]);
    }
    assert forall|i: int, j: int| 0 <= i < j < edges_ops.len() implies (#[trigger] edges_ops[i])->AddEdge_0.id
        != (#[trigger] edges_ops[j])->AddEdge_0.id by {
        assert(edges_ops[i] == ops[na + 1 + i]);
        assert(edges_ops[j] == ops[na + 1 + j]);
    }
    assert forall|j: int| 0 <= j < edges_ops.len() implies t3.nodes.contains_key((#[trigger] edges_ops[j])->AddEdge_0.source.node_id)
        && t3.nodes.contains_key(edges_ops[j]->AddEdge_0.target.node_id) by {
        assert(edges_ops[j] == ops[na + 1 + j]);
        assert(j < out_edges.len());
        let x = out_edges[j].target.node_id;
        assert(t.nodes.contains_key(x) && !frozen.contains(x));
        assert(!ms.contains(x)) by {
            if ms.contains(x) {
                assert(ms.to_set().contains(x));
            }
        }
    }
    lemma_apply_add_edges(t3, edges_ops);
}

/// The name of the asset node that stands for a frozen node: `Frozen_` and
/// the first four characters of the node's identifier.
pub open spec fn frozen_name(target: StableId) -> Seq<char> {
    "Frozen_"@ + id_text(target).take(4)
}

/// The patch that replaces the frozen nodes by an asset: the removal of each
/// frozen node (in the set's iteration order), the addition of a source node
/// reading the asset, and for each edge that left the frozen set an edge from
/// that asset node's `out` port to the same target (each edge with a fresh
/// identifier).
pub fn freeze_patch(graph: &Graph, target_node_id: StableId, ancestors: &HashSet<StableId>, asset_path: &str) -> (p: Patch)
    ensures
        ({
            let ops = ops_view(p.operations@);
            let na = ancestors@.len();
            let out_edges = leaving_edges(key_order(graph.edges@.dom()), graph.edges@, ancestors@);
            &&& ops.len() == na + 1 + out_edges.len()
            &&& forall|i: int| 0 <= i < na ==> (#[trigger] ops[i]) is RemoveNode
            &&& ops.take(na as int).map_values(|o: OpView| o->RemoveNode_0).no_duplicates()
            &&& ops.take(na as int).map_values(|o: OpView| o->RemoveNode_0).to_set() == ancestors@
            &&& ops[na as int] matches OpView::AddNode(n) && {
                &&& n.kind == NodeKindView::Source
                &&& n.ports == seq![audio_port("out"@, PortDirection::Output)]
                &&& n.config == name_config("FrozenAsset"@).insert("path"@, CValue::Str(asset_path@)).insert(
                    "name"@,
                    CValue::Str(frozen_name(target_node_id)),
                )
                &&& n.metadata is None
                &&& n.confidence == ConfidenceScore::Verified
            }
            &&& redirects_from(ops, na + 1int, out_edges, ops[na as int]->AddNode_0.id)
        }),
        ({
            let ops = ops_view(p.operations@);
            let na = ancestors@.len();
            (ancestors@.subset_of(graph.topology.nodes@.dom()) && (forall|k: StableId|
                #[trigger] graph.edges@.contains_key(k) ==> graph.topology.nodes@.contains_key(graph.edges@[k].target.node_id))
                && !graph.topology.nodes@.contains_key(ops[na as int]->AddNode_0.id) && fresh_edges(
                ops,
                na + 1int,
                graph.topology.edges@.dom(),
            )) ==> apply_ops(topo_view(graph.topology), ops).1 is None
        }),
        p.intent_ref is None,
        p.source == PatchSource::System,
        p.trust == TrustLevel::Trusted,
        p.digest_valid(),
{
    let mut operations: Vec<Operation> = Vec::new();
    let ghost na = ancestors@.len();
    let iter = ancestors.iter();
    let ghost all = iter.remaining();
    proof {
        assert(all.unref().to_set() == ancestors@);
        assert(all.no_duplicates());
        assert(all.len() == na);
    }
    for id in it: iter
        invariant
            it.seq() == all,
            operations@.len() == it.index(),
            forall|i: int| 0 <= i < it.index() ==> (#[trigger] operations@[i]) == Operation::RemoveNode(*all[i]),
    {
        operations.push(Operation::RemoveNode(*id));
    }
    let ghost removals = operations@;
    proof {
        assert(ops_view(removals).map_values(|o: OpView| o->RemoveNode_0) =~= all.unref());
    }
    let mut asset_node = Node::new_source("FrozenAsset");
    let asset_node_id = asset_node.id;
    asset_node.config.insert(String::from_str("path"), ConfigValue::String(String::from_str(asset_path)));
    let mut name = String::from_str("Frozen_");
    let id_str = id_string(target_node_id);
    name.append(id_str.as_str().substring_char(0, 4));
    asset_node.config.insert(String::from_str("name"), ConfigValue::String(name));
    let ghost asset_view = asset_node@;
    operations.push(Operation::AddNode(asset_node));
    let ghost old_asset_op = operations@[na as int];
    let ghost base = operations@.len();
    proof {
        assert(operations@.take(na as int) =~= removals);
    }
    let ks = sorted_keys(&graph.edges);
    let mut i: usize = 0;
    proof {
        assert(ks@.take(0) =~= Seq::<u128>::empty());
    }
    while i < ks.len()
        invariant
            enumerates(ks@, graph.edges@.dom()),
            i <= ks@.len(),
            base <= operations@.len(),
            base == na + 1,
            operations@.take(na as int) == removals,
            operations@[na as int] == old_asset_op,
            operations@.len() == base + leaving_edges(ks@.take(i as int), graph.edges@, ancestors@).len(),
            forall|j: int|
                0 <= j < leaving_edges(ks@.take(i as int), graph.edges@, ancestors@).len() ==> ((#[trigger] operations@[base + j])
                    matches Operation::AddEdge(e) && e.source@.node_id == asset_node_id && e.source@.port_name == "out"@
                    && e.target == leaving_edges(ks@.take(i as int), graph.edges@, ancestors@)[j].target && e.kind
                    == leaving_edges(ks@.take(i as int), graph.edges@, ancestors@)[j].kind),
        decreases ks@.len() - i,
    {
        let k = ks[i];
        proof {
            assert(ks@.contains(k));
            assert(ks@.take(i + 1).drop_last() =~= ks@.take(i as int));
            assert(ks@.take(i + 1).last() == k);
        }
        let ghost prev = leaving_edges(ks@.take(i as int), graph.edges@, ancestors@);
        match graph.edges.get(&k) {
            Some(edge) => {
                if ancestors.contains(&edge.source.node_id) && !ancestors.contains(&edge.target.node_id) {
                    let mut redirected = edge.clone();
                    redirected.id = fresh_id();
                    redirected.source = PortRef { node_id: asset_node_id, port_name: String::from_str("out") };
                    operations.push(Operation::AddEdge(redirected));
                    proof {
                        let now = leaving_edges(ks@.take(i + 1), graph.edges@, ancestors@);
                        assert(now =~= prev.push(*edge));
                    }
                } else {
                    proof {
                        let now = leaving_edges(ks@.take(i + 1), graph.edges@, ancestors@);
                        assert(now =~= prev);
                    }
                }
            },
            None => {},
        }
        i = i + 1;
    }
    proof {
        assert(ks@.take(ks@.len() as int) =~= ks@);
    }
    let ghost ops_exec = operations@;
    let patch = Patch::from_operations(operations);
    proof {
        let ops = ops_view(patch.operations@);
        assert(ops.take(na as int) =~= ops_view(removals));
        assert forall|i: int| 0 <= i < na implies (#[trigger] ops[i]) is RemoveNode by {
            assert(ops[i] == ops_view(removals)[i]);
        }
        let out_edges = leaving_edges(key_order(graph.edges@.dom()), graph.edges@, ancestors@);
        assert forall|j: int| 0 <= j < out_edges.len() implies ((#[trigger] ops[na + 1 + j]) matches OpView::AddEdge(e)
            && e.source@.node_id == asset_node_id && e.source@.port_name == "out"@ && e.target == out_edges[j].target
            && e.kind == out_edges[j].kind) by {
            assert(ops[na + 1 + j] == ops_exec[base + j]@);
        }
        assert(redirects_from(ops, (na + 1) as int, out_edges, asset_node_id));
        let t = topo_view(graph.topology);
        if ancestors@.subset_of(graph.topology.nodes@.dom()) && (forall|k: StableId|
            #[trigger] graph.edges@.contains_key(k) ==> graph.topology.nodes@.contains_key(graph.edges@[k].target.node_id))
            && !graph.topology.nodes@.contains_key(ops[na as int]->AddNode_0.id) && fresh_edges(
            ops,
            na + 1int,
            graph.topology.edges@.dom(),
        ) {
            let ek = key_order(graph.edges@.dom());
            crate::keyorder::lemma_key_order_exists(graph.edges@.dom());
            lemma_leaving_edges_members(ek, graph.edges@, ancestors@);
            assert forall|j: int| 0 <= j < out_edges.len() implies t.nodes.contains_key((#[trigger] out_edges[j]).target.node_id)
                && !ancestors@.contains(out_edges[j].target.node_id) by {
                let q = choose|q: int| 0 <= q < ek.len() && out_edges[j] == graph.edges@[ek[q]];
                assert(ek.contains(ek[q]));
                assert(graph.edges@.contains_key(ek[q]));
            }
            assert(t.nodes.dom() =~= graph.topology.nodes@.dom());
            assert(t.edges.dom() == graph.topology.edges@.dom());
            assert(ancestors@.subset_of(t.nodes.dom()));
            law_freeze_patch_applies(t, ops, ancestors@, out_edges);
        }
    }
    patch
}


/// The graph that is rendered to freeze a node: the frozen nodes and the
/// edges and modulations among them (see `clone_subgraph`), and a capture
/// sink, under a fresh identifier, fed from the node's `out` port by a new
/// edge.
pub fn freeze_render_graph(graph: &Graph, target_node_id: StableId, ancestors: &HashSet<StableId>) -> (r: Graph)
    ensures
        exists|sink_id: StableId, e: Edge|
            #![trigger r.nodes@[sink_id], r.edges@[e.id]]
            {
                &&& r.nodes@.contains_key(sink_id)
                &&& r.nodes@[sink_id]@.kind == NodeKindView::Sink
                &&& r.nodes@[sink_id]@.config == name_config("FreezeCaptureSink"@)
                &&& r.nodes@.dom() == graph.nodes@.dom().intersect(ancestors@).insert(sink_id)
                &&& forall|k: StableId| #[trigger] r.nodes@.contains_key(k) && k != sink_id ==> r.nodes@[k]@ == graph.nodes@[k]@
                &&& e.source@.node_id == target_node_id && e.source@.port_name == "out"@
                &&& e.target@.node_id == sink_id && e.target@.port_name == "in"@
                &&& e.kind == EdgeKind::Normal
                &&& r.edges@ == Map::new(
                    |k: StableId|
                        graph.edges@.contains_key(k) && ancestors@.contains(graph.edges@[k].source.node_id)
                            && ancestors@.contains(graph.edges@[k].target.node_id),
                    |k: StableId| graph.edges@[k],
                ).insert(e.id, e)
            },
{
    let mut render_graph = crate::graph_utils::clone_subgraph(graph, ancestors);
    let sink_id = fresh_id();
    let sink_node = Node::new_sink("FreezeCaptureSink");
    render_graph.nodes.insert(sink_id, sink_node);
    let edge = Edge::new(
        PortRef { node_id: target_node_id, port_name: String::from_str("out") },
        PortRef { node_id: sink_id, port_name: String::from_str("in") },
    );
    let ghost e = edge;
    render_graph.edges.insert(edge.id, edge);
    proof {
        assert(render_graph.nodes@.dom() =~= graph.nodes@.dom().intersect(ancestors@).insert(sink_id)) by {
            assert(render_graph.nodes@.contains_key(sink_id));
        }
        assert(render_graph.nodes@[sink_id]@.kind == NodeKindView::Sink);
        assert(render_graph.edges@[e.id] == e);
    }
    render_graph
}

} // verus!
