//! Ordering and slicing of graphs. These work on the mirror tables
//! (`Graph::nodes`, `Graph::edges`, `Graph::modulations`).
use vstd::prelude::*;
use std::collections::{BTreeMap, HashSet};
use crate::types::StableId;
use crate::ir::{Graph, Edge, EdgeKind, Node, Modulation};
use crate::keyorder::{sorted_keys, key_order, enumerates, increasing};

verus! {

broadcast use vstd::laws_cmp::group_laws_cmp;

// ──────────────────────────────────────────────
// Feed-forward edges
// ──────────────────────────────────────────────

/// A feed-forward (`Normal`) edge runs from node `u` to node `v`.
pub open spec fn normal_edge(edges: Map<StableId, Edge>, u: StableId, v: StableId) -> bool {
    exists|k: StableId|
        #[trigger] edges.contains_key(k) && edges[k].kind == EdgeKind::Normal && edges[k].source.node_id == u
            && edges[k].target.node_id == v
}

/// Every feed-forward edge connects two nodes of the graph.
pub open spec fn normal_edges_connect_nodes(g: Graph) -> bool {
    forall|k: StableId|
        #[trigger] g.edges@.contains_key(k) && g.edges@[k].kind == EdgeKind::Normal ==> g.nodes@.contains_key(
            g.edges@[k].source.node_id,
        ) && g.nodes@.contains_key(g.edges@[k].target.node_id)
}

/// The (source, target) node pairs of the feed-forward edges listed.
pub open spec fn normal_pairs(ks: Seq<StableId>, m: Map<StableId, Edge>) -> Seq<(StableId, StableId)>
    decreases ks.len(),
{
    if ks.len() == 0 {
        Seq::empty()
    } else {
        let e = m[ks.last()];
        normal_pairs(ks.drop_last(), m) + if e.kind == EdgeKind::Normal {
            seq![(e.source.node_id, e.target.node_id)]
        } else {
            Seq::empty()
        }
    }
}

proof fn lemma_normal_pairs(ks: Seq<StableId>, m: Map<StableId, Edge>)
    requires
        forall|k: StableId| ks.contains(k) ==> m.contains_key(k),
    ensures
        forall|i: int|
            0 <= i < normal_pairs(ks, m).len() ==> normal_edge(
                m,
                #[trigger] normal_pairs(ks, m)[i].0,
                normal_pairs(ks, m)[i].1,
            ),
        forall|k: StableId|
            ks.contains(k) && #[trigger] m[k].kind == EdgeKind::Normal ==> exists|i: int|
                0 <= i < normal_pairs(ks, m).len() && #[trigger] normal_pairs(ks, m)[i] == (
                    m[k].source.node_id,
                    m[k].target.node_id,
                ),
    decreases ks.len(),
{
    if ks.len() > 0 {
        let rest = ks.drop_last();
        let last = ks.last();
        assert forall|k: StableId| rest.contains(k) implies m.contains_key(k) by {
            let p = choose|p: int| 0 <= p < rest.len() && rest[p] == k;
            assert(ks[p] == k);
            assert(ks.contains(k));
        }
        lemma_normal_pairs(rest, m);
        let prev = normal_pairs(rest, m);
        let all = normal_pairs(ks, m);
        assert(ks.contains(last));
        assert forall|i: int| 0 <= i < all.len() implies normal_edge(m, #[trigger] all[i].0, all[i].1) by {
            if i < prev.len() {
                assert(all[i] == prev[i]);
                assert(normal_edge(m, prev[i].0, prev[i].1));
            } else {
                assert(m.contains_key(last));
            }
        }
        assert forall|k: StableId| ks.contains(k) && #[trigger] m[k].kind == EdgeKind::Normal implies exists|i: int|
            0 <= i < all.len() && #[trigger] all[i] == (m[k].source.node_id, m[k].target.node_id) by {
            if k == last {
                assert(all[prev.len() as int] == (m[k].source.node_id, m[k].target.node_id));
            } else {
                let p = choose|p: int| 0 <= p < ks.len() && ks[p] == k;
                assert(p < ks.len() - 1);
                assert(rest[p] == k);
                assert(rest.contains(k));
                let i = choose|i: int| 0 <= i < prev.len() && #[trigger] prev[i] == (m[k].source.node_id, m[k].target.node_id);
                assert(all[i] == prev[i]);
            }
        }
    }
}

/// The feed-forward edges of the mirror table as (source, target) pairs, in
/// edge identifier order.
fn collect_normal_pairs(edges: &BTreeMap<StableId, Edge>) -> (es: Vec<(StableId, StableId)>)
    ensures
        es@ == normal_pairs(key_order(edges@.dom()), edges@),
        enumerates(key_order(edges@.dom()), edges@.dom()),
{
    let ks = sorted_keys(edges);
    let mut es: Vec<(StableId, StableId)> = Vec::new();
    let mut i: usize = 0;
    proof {
        assert(ks@.take(0) =~= Seq::<StableId>::empty());
    }
    while i < ks.len()
        invariant
            enumerates(ks@, edges@.dom()),
            i <= ks@.len(),
            es@ == normal_pairs(ks@.take(i as int), edges@),
        decreases ks@.len() - i,
    {
        let k = ks[i];
        proof {
            assert(ks@.contains(k));
            assert(ks@.take(i + 1).drop_last() =~= ks@.take(i as int));
            assert(ks@.take(i + 1).last() == k);
        }
        match edges.get(&k) {
            Some(e) => {
                if e.kind == EdgeKind::Normal {
                    es.push((e.source.node_id, e.target.node_id));
                    proof {
                        assert(es@ =~= normal_pairs(ks@.take(i + 1), edges@));
                    }
                } else {
                    proof {
                        assert(es@ =~= normal_pairs(ks@.take(i + 1), edges@));
                    }
                }
            },
            None => {},
        }
        i = i + 1;
    }
    proof {
        assert(ks@.take(ks@.len() as int) =~= ks@);
    }
    es
}

// ──────────────────────────────────────────────
// Counting
// ──────────────────────────────────────────────

/// The number of edges into `v` whose source is not yet `done`.
pub open spec fn pending_in(es: Seq<(StableId, StableId)>, v: StableId, done: Seq<StableId>) -> nat
    decreases es.len(),
{
    if es.len() == 0 {
        0
    } else {
        pending_in(es.drop_last(), v, done) + if es.last().1 == v && !done.contains(es.last().0) {
            1nat
        } else {
            0nat
        }
    }
}

/// The targets of the edges out of `u`, in order, one per edge.
pub open spec fn targets_from(es: Seq<(StableId, StableId)>, u: StableId) -> Seq<StableId>
    decreases es.len(),
{
    if es.len() == 0 {
        Seq::empty()
    } else {
        targets_from(es.drop_last(), u) + if es.last().0 == u {
            seq![es.last().1]
        } else {
            Seq::empty()
        }
    }
}

/// How often `v` occurs.
pub open spec fn occ(s: Seq<StableId>, v: StableId) -> nat
    decreases s.len(),
{
    if s.len() == 0 {
        0
    } else {
        occ(s.drop_last(), v) + if s.last() == v {
            1nat
        } else {
            0nat
        }
    }
}

proof fn lemma_occ_push(s: Seq<StableId>, x: StableId, v: StableId)
    ensures
        occ(s.push(x), v) == occ(s, v) + if x == v { 1nat } else { 0nat },
{
    assert(s.push(x).drop_last() =~= s);
}

proof fn lemma_occ_empty_tail(s: Seq<StableId>, v: StableId)
    ensures
        occ(s + Seq::<StableId>::empty(), v) == occ(s, v),
{
    assert(s + Seq::<StableId>::empty() =~= s);
}

/// Moving `u` into the done set removes exactly the edges out of `u`.
proof fn lemma_pending_step(es: Seq<(StableId, StableId)>, v: StableId, done: Seq<StableId>, u: StableId)
    requires
        !done.contains(u),
    ensures
        pending_in(es, v, done) == pending_in(es, v, done.push(u)) + occ(targets_from(es, u), v),
    decreases es.len(),
{
    if es.len() > 0 {
        lemma_pending_step(es.drop_last(), v, done, u);
        let x = es.last();
        let prev = targets_from(es.drop_last(), u);
        assert(done.push(u).contains(x.0) <==> (done.contains(x.0) || x.0 == u)) by {
            if done.push(u).contains(x.0) {
                let p = choose|p: int| 0 <= p < done.push(u).len() && done.push(u)[p] == x.0;
                if p < done.len() {
                    assert(done[p] == x.0);
                }
            }
            if done.contains(x.0) {
                let p = choose|p: int| 0 <= p < done.len() && done[p] == x.0;
                assert(done.push(u)[p] == x.0);
            }
            assert(done.push(u)[done.len() as int] == u);
        }
        if x.0 == u {
            assert(prev + seq![x.1] == prev.push(x.1));
            lemma_occ_push(prev, x.1, v);
        } else {
            lemma_occ_empty_tail(prev, v);
        }
    }
}

/// A positive count has a witness edge.
proof fn lemma_pending_witness(es: Seq<(StableId, StableId)>, v: StableId, done: Seq<StableId>)
    requires
        pending_in(es, v, done) > 0,
    ensures
        exists|i: int| 0 <= i < es.len() && (#[trigger] es[i]).1 == v && !done.contains(es[i].0),
    decreases es.len(),
{
    let x = es.last();
    if x.1 == v && !done.contains(x.0) {
        assert(es[es.len() - 1] == x);
    } else {
        lemma_pending_witness(es.drop_last(), v, done);
        let i = choose|i: int| 0 <= i < es.drop_last().len() && (#[trigger] es.drop_last()[i]).1 == v && !done.contains(es.drop_last()[i].0);
        assert(es[i] == es.drop_last()[i]);
    }
}

/// A zero count means every edge into `v` starts at a done node.
proof fn lemma_pending_zero(es: Seq<(StableId, StableId)>, v: StableId, done: Seq<StableId>)
    requires
        pending_in(es, v, done) == 0,
    ensures
        forall|i: int| 0 <= i < es.len() && (#[trigger] es[i]).1 == v ==> done.contains(es[i].0),
    decreases es.len(),
{
    if es.len() > 0 {
        lemma_pending_zero(es.drop_last(), v, done);
        assert forall|i: int| 0 <= i < es.len() && (#[trigger] es[i]).1 == v implies done.contains(es[i].0) by {
            if i < es.len() - 1 {
                assert(es[i] == es.drop_last()[i]);
            }
        }
    }
}

/// The count of a prefix grows by one occurrence at a time.
proof fn lemma_occ_take(s: Seq<StableId>, j: int, v: StableId)
    requires
        0 <= j < s.len(),
    ensures
        occ(s.take(j + 1), v) == occ(s.take(j), v) + if s[j] == v { 1nat } else { 0nat },
{
    assert(s.take(j + 1).drop_last() =~= s.take(j));
}

/// A prefix has no more occurrences than the whole.
proof fn lemma_occ_prefix(s: Seq<StableId>, j: int, v: StableId)
    requires
        0 <= j <= s.len(),
    ensures
        occ(s.take(j), v) <= occ(s, v),
    decreases s.len() - j,
{
    if j == s.len() {
        assert(s.take(j) =~= s);
    } else {
        lemma_occ_take(s, j, v);
        lemma_occ_prefix(s, j + 1, v);
    }
}

/// A list without repetitions drawn from the keys has at most as many entries.
proof fn lemma_unique_len(s: Seq<StableId>, ks: Seq<StableId>, d: Set<StableId>)
    requires
        s.no_duplicates(),
        forall|x: StableId| s.contains(x) ==> d.contains(x),
        enumerates(ks, d),
    ensures
        s.len() <= ks.len(),
{
    broadcast use vstd::seq_lib::seq_to_set_is_finite;
    assert(ks.no_duplicates()) by {
        assert forall|i: int, j: int| 0 <= i < ks.len() && 0 <= j < ks.len() && i != j implies ks[i] != ks[j] by {
            if i < j {
                assert(ks[i] < ks[j]);
            } else {
                assert(ks[j] < ks[i]);
            }
        }
    }
    s.unique_seq_to_set();
    ks.unique_seq_to_set();
    assert(s.to_set().subset_of(ks.to_set()));
    vstd::set_lib::lemma_len_subset(s.to_set(), ks.to_set());
}

proof fn lemma_targets_from_members(es: Seq<(StableId, StableId)>, u: StableId)
    ensures
        forall|j: int|
            #![trigger targets_from(es, u)[j]]
            0 <= j < targets_from(es, u).len() ==> exists|i: int|
                0 <= i < es.len() && #[trigger] es[i] == (u, targets_from(es, u)[j]),
    decreases es.len(),
{
    if es.len() > 0 {
        lemma_targets_from_members(es.drop_last(), u);
        let prev = targets_from(es.drop_last(), u);
        let all = targets_from(es, u);
        assert forall|j: int| #![trigger all[j]] 0 <= j < all.len() implies exists|i: int| 0 <= i < es.len() && #[trigger] es[i] == (u, all[j]) by {
            if j < prev.len() {
                assert(all[j] == prev[j]);
                let i = choose|i: int| 0 <= i < es.drop_last().len() && #[trigger] es.drop_last()[i] == (u, prev[j]);
                assert(es[i] == es.drop_last()[i]);
            } else {
                assert(es[es.len() - 1] == (u, all[j]));
            }
        }
    }
}

proof fn lemma_pending_bound(es: Seq<(StableId, StableId)>, v: StableId, done: Seq<StableId>)
    ensures
        pending_in(es, v, done) <= es.len(),
    decreases es.len(),
{
    if es.len() > 0 {
        lemma_pending_bound(es.drop_last(), v, done);
    }
}

/// Every feed-forward predecessor of a listed node is listed before it.
pub open spec fn preds_first(order: Seq<StableId>, edges: Map<StableId, Edge>) -> bool {
    forall|p: int, k: StableId|
        #![trigger order[p], edges[k]]
        0 <= p < order.len() && edges.contains_key(k) && edges[k].kind == EdgeKind::Normal
            && edges[k].target.node_id == order[p] ==> order.take(p).contains(edges[k].source.node_id)
}

/// Every feed-forward predecessor of a listed node that is itself listed
/// comes before it.
pub open spec fn ff_ordered(order: Seq<StableId>, edges: Map<StableId, Edge>) -> bool {
    forall|p: int, k: StableId|
        #![trigger order[p], edges[k]]
        0 <= p < order.len() && edges.contains_key(k) && edges[k].kind == EdgeKind::Normal
            && edges[k].target.node_id == order[p] && order.contains(edges[k].source.node_id)
            ==> order.take(p).contains(edges[k].source.node_id)
}

/// `u` reaches `w` by one to `k` steps of the relation.
pub open spec fn reach_by(step: spec_fn(StableId, StableId) -> bool, u: StableId, w: StableId, k: nat) -> bool
    decreases k,
{
    if k == 0 {
        false
    } else {
        step(u, w) || exists|x: StableId| #[trigger] step(u, x) && reach_by(step, x, w, (k - 1) as nat)
    }
}

/// `u` reaches `w` by one or more steps of the relation.
pub open spec fn reaches(step: spec_fn(StableId, StableId) -> bool, u: StableId, w: StableId) -> bool {
    exists|k: nat| #[trigger] reach_by(step, u, w, k)
}

/// A step along a feed-forward edge.
pub open spec fn ff_step(edges: Map<StableId, Edge>) -> spec_fn(StableId, StableId) -> bool {
    |a: StableId, b: StableId| normal_edge(edges, a, b)
}

/// The node lies on a cycle of feed-forward edges.
pub open spec fn on_ff_cycle(edges: Map<StableId, Edge>, v: StableId) -> bool {
    reaches(ff_step(edges), v, v)
}

proof fn lemma_reach_append(step: spec_fn(StableId, StableId) -> bool, u: StableId, y: StableId, z: StableId, k: nat)
    requires
        reach_by(step, u, y, k),
        step(y, z),
    ensures
        reach_by(step, u, z, k + 1),
    decreases k,
{
    if step(u, y) {
        assert(reach_by(step, y, z, 1));
        lemma_reach_mono(step, y, z, 1, k);
    } else {
        let x = choose|x: StableId| #[trigger] step(u, x) && reach_by(step, x, y, (k - 1) as nat);
        lemma_reach_append(step, x, y, z, (k - 1) as nat);
    }
}

proof fn lemma_reach_mono(step: spec_fn(StableId, StableId) -> bool, u: StableId, w: StableId, j: nat, k: nat)
    requires
        reach_by(step, u, w, j),
        j <= k,
    ensures
        reach_by(step, u, w, k),
    decreases j,
{
    if !step(u, w) {
        let x = choose|x: StableId| #[trigger] step(u, x) && reach_by(step, x, w, (j - 1) as nat);
        lemma_reach_mono(step, x, w, (j - 1) as nat, (k - 1) as nat);
    }
}

/// What a set closed under the relation holds, it holds of all that its
/// members reach.
proof fn lemma_reach_closed(step: spec_fn(StableId, StableId) -> bool, set: Seq<StableId>, u: StableId, w: StableId, k: nat)
    requires
        forall|z: StableId| #[trigger] step(u, z) ==> set.contains(z),
        forall|y: StableId, z: StableId| set.contains(y) && #[trigger] step(y, z) ==> set.contains(z),
        reach_by(step, u, w, k),
    ensures
        set.contains(w),
    decreases k,
{
    if !step(u, w) {
        let x = choose|x: StableId| #[trigger] step(u, x) && reach_by(step, x, w, (k - 1) as nat);
        lemma_reach_closed(step, set, x, w, (k - 1) as nat);
    }
}

/// In an order where every listed node follows its feed-forward
/// predecessors, whatever reaches a listed node is listed before it.
proof fn lemma_reach_listed_before(edges: Map<StableId, Edge>, order: Seq<StableId>, u: StableId, p: int, k: nat)
    requires
        preds_first(order, edges),
        0 <= p < order.len(),
        reach_by(ff_step(edges), u, order[p], k),
    ensures
        order.take(p).contains(u),
    decreases k,
{
    let w = order[p];
    if normal_edge(edges, u, w) {
        let kk = choose|kk: StableId|
            #[trigger] edges.contains_key(kk) && edges[kk].kind == EdgeKind::Normal && edges[kk].source.node_id == u
                && edges[kk].target.node_id == w;
        assert(edges[kk].target.node_id == order[p]);
    } else {
        let x = choose|x: StableId| #[trigger] ff_step(edges)(u, x) && reach_by(ff_step(edges), x, w, (k - 1) as nat);
        lemma_reach_listed_before(edges, order, x, p, (k - 1) as nat);
        let q = choose|q: int| 0 <= q < order.take(p).len() && order.take(p)[q] == x;
        assert(order[q] == x);
        assert(normal_edge(edges, u, x));
        let kk = choose|kk: StableId|
            #[trigger] edges.contains_key(kk) && edges[kk].kind == EdgeKind::Normal && edges[kk].source.node_id == u
                && edges[kk].target.node_id == x;
        assert(edges[kk].target.node_id == order[q]);
        assert(order.take(q).contains(u));
        let q2 = choose|q2: int| 0 <= q2 < order.take(q).len() && order.take(q)[q2] == u;
        assert(order.take(p)[q2] == u);
    }
}

/// A node listed where every listed node follows its feed-forward
/// predecessors lies on no feed-forward cycle.
proof fn lemma_listed_not_on_cycle(edges: Map<StableId, Edge>, order: Seq<StableId>, p: int)
    requires
        preds_first(order, edges),
        order.no_duplicates(),
        0 <= p < order.len(),
    ensures
        !on_ff_cycle(edges, order[p]),
{
    if on_ff_cycle(edges, order[p]) {
        let k = choose|k: nat| #[trigger] reach_by(ff_step(edges), order[p], order[p], k);
        lemma_reach_listed_before(edges, order, order[p], p, k);
        let q = choose|q: int| 0 <= q < order.take(p).len() && order.take(p)[q] == order[p];
        assert(order[q] == order[p]);
    }
}

/// Walking back from `x` through predecessors inside `set`, `i` steps.
spec fn walk_back(step: spec_fn(StableId, StableId) -> bool, set: Set<StableId>, x: StableId, i: nat) -> StableId
    decreases i,
{
    if i == 0 {
        x
    } else {
        choose|u: StableId| set.contains(u) && #[trigger] step(u, walk_back(step, set, x, (i - 1) as nat))
    }
}

proof fn lemma_walk_back(step: spec_fn(StableId, StableId) -> bool, set: Set<StableId>, x: StableId, i: nat)
    requires
        set.contains(x),
        forall|y: StableId| #[trigger] set.contains(y) ==> exists|u: StableId| set.contains(u) && #[trigger] step(u, y),
    ensures
        set.contains(walk_back(step, set, x, i)),
        set.contains(walk_back(step, set, x, i + 1)),
        step(walk_back(step, set, x, i + 1), walk_back(step, set, x, i)),
    decreases i,
{
    if i > 0 {
        lemma_walk_back(step, set, x, (i - 1) as nat);
    }
    let y = walk_back(step, set, x, i);
    assert(set.contains(y));
    assert(walk_back(step, set, x, i + 1) == choose|u: StableId| set.contains(u) && #[trigger] step(u, y));
}

proof fn lemma_walk_back_reach(step: spec_fn(StableId, StableId) -> bool, set: Set<StableId>, x: StableId, i: nat, j: nat)
    requires
        set.contains(x),
        forall|y: StableId| #[trigger] set.contains(y) ==> exists|u: StableId| set.contains(u) && #[trigger] step(u, y),
        i < j,
    ensures
        reach_by(step, walk_back(step, set, x, j), walk_back(step, set, x, i), (j - i) as nat),
    decreases j - i,
{
    lemma_walk_back(step, set, x, (j - 1) as nat);
    if j > i + 1 {
        lemma_walk_back_reach(step, set, x, i, (j - 1) as nat);
        let a = walk_back(step, set, x, j);
        let b = walk_back(step, set, x, (j - 1) as nat);
        assert(step(a, b) && reach_by(step, b, walk_back(step, set, x, i), ((j - i) - 1) as nat));
    }
}

/// A finite set in which every member has a predecessor in the set holds a
/// node that reaches itself.
proof fn lemma_back_walk_cycle(step: spec_fn(StableId, StableId) -> bool, set: Set<StableId>, x: StableId)
    requires
        set.finite(),
        set.contains(x),
        forall|y: StableId| #[trigger] set.contains(y) ==> exists|u: StableId| set.contains(u) && #[trigger] step(u, y),
    ensures
        exists|y: StableId, k: nat| set.contains(y) && #[trigger] reach_by(step, y, y, k),
{
    let n = set.len();
    let w = Seq::new(n + 1, |i: int| walk_back(step, set, x, i as nat));
    assert forall|i: int| 0 <= i < w.len() implies set.contains(#[trigger] w[i]) by {
        lemma_walk_back(step, set, x, i as nat);
    }
    if w.no_duplicates() {
        w.unique_seq_to_set();
        assert(w.to_set().subset_of(set));
        vstd::set_lib::lemma_len_subset(w.to_set(), set);
        assert(false);
    }
    let (i, j) = choose|i: int, j: int| 0 <= i < w.len() && 0 <= j < w.len() && i != j && w[i] == w[j];
    let (a, b) = if i < j { (i, j) } else { (j, i) };
    lemma_walk_back_reach(step, set, x, a as nat, b as nat);
    let y = walk_back(step, set, x, b as nat);
    assert(w[a] == w[b]);
    assert(set.contains(w[b]));
    assert(reach_by(step, y, y, (b - a) as nat));
}

/// The state of Kahn's algorithm: `order[..head]` is done, `order[head..]`
/// is queued, and each node's count is the number of its incoming edges from
/// nodes not yet done.
spec fn kahn_inv(
    dom: Set<StableId>,
    es: Seq<(StableId, StableId)>,
    indeg: Map<StableId, usize>,
    order: Seq<StableId>,
    head: int,
) -> bool {
    &&& indeg.dom() == dom
    &&& forall|i: int| 0 <= i < es.len() ==> dom.contains((#[trigger] es[i]).0) && dom.contains(es[i].1)
    &&& order.no_duplicates()
    &&& forall|x: StableId| order.contains(x) ==> dom.contains(x)
    &&& 0 <= head <= order.len()
    &&& forall|v: StableId| #[trigger] dom.contains(v) ==> indeg[v] == pending_in(es, v, order.take(head))
    &&& forall|v: StableId| #[trigger] dom.contains(v) ==> (order.contains(v) <==> indeg[v] == 0)
    &&& forall|p: int, i: int|
        0 <= p < order.len() && 0 <= i < es.len() && (#[trigger] es[i]).1 == #[trigger] order[p]
            ==> order.take(p).contains(es[i].0)
    &&& forall|p: int| head <= p < order.len() ==> pending_in(es, #[trigger] order[p], order.take(head)) == 0
}

/// A zero count and an empty adjacency list for each node.
fn zero_counts(ks: &Vec<StableId>, Ghost(dom): Ghost<Set<StableId>>) -> (r: (BTreeMap<StableId, usize>, BTreeMap<StableId, Vec<StableId>>))
    requires
        enumerates(ks@, dom),
    ensures
        r.0@.dom() == dom,
        r.1@.dom() == dom,
        forall|v: StableId| #[trigger] dom.contains(v) ==> r.0@[v] == 0 && r.1@[v]@ == Seq::<StableId>::empty(),
{
    let mut indeg: BTreeMap<StableId, usize> = BTreeMap::new();
    let mut adj: BTreeMap<StableId, Vec<StableId>> = BTreeMap::new();
    let mut i: usize = 0;
    while i < ks.len()
        invariant
            enumerates(ks@, dom),
            i <= ks@.len(),
            forall|v: StableId| indeg@.contains_key(v) <==> ks@.take(i as int).contains(v),
            forall|v: StableId| adj@.contains_key(v) <==> ks@.take(i as int).contains(v),
            forall|v: StableId| #[trigger] indeg@.contains_key(v) ==> indeg@[v] == 0,
            forall|v: StableId| #[trigger] adj@.contains_key(v) ==> adj@[v]@ == Seq::<StableId>::empty(),
        decreases ks@.len() - i,
    {
        let v = ks[i];
        indeg.insert(v, 0);
        adj.insert(v, Vec::new());
        proof {
            assert(ks@.take(i + 1) =~= ks@.take(i as int).push(v));
            assert forall|q: StableId| ks@.take(i + 1).contains(q) <==> (ks@.take(i as int).contains(q) || q == v) by {
                broadcast use vstd::seq_lib::group_seq_properties;
            }
        }
        i = i + 1;
    }
    proof {
        assert(ks@.take(ks@.len() as int) =~= ks@);
        assert(indeg@.dom() =~= dom);
        assert(adj@.dom() =~= dom);
    }
    (indeg, adj)
}

/// Counts each node's incoming edges and lists each node's outgoing targets.
fn count_edges(
    es: &Vec<(StableId, StableId)>,
    indeg: &mut BTreeMap<StableId, usize>,
    adj: &mut BTreeMap<StableId, Vec<StableId>>,
    Ghost(dom): Ghost<Set<StableId>>,
)
    requires
        old(indeg)@.dom() == dom,
        old(adj)@.dom() == dom,
        forall|i: int| 0 <= i < es@.len() ==> dom.contains((#[trigger] es@[i]).0) && dom.contains(es@[i].1),
        forall|v: StableId| #[trigger] dom.contains(v) ==> old(indeg)@[v] == 0 && old(adj)@[v]@ == Seq::<StableId>::empty(),
    ensures
        final(indeg)@.dom() == dom,
        final(adj)@.dom() == dom,
        forall|v: StableId| #[trigger] dom.contains(v) ==> final(indeg)@[v] == pending_in(es@, v, Seq::empty())
            && final(adj)@[v]@ == targets_from(es@, v),
{
    proof {
        assert(es@.take(0) =~= Seq::<(StableId, StableId)>::empty());
    }
    let mut e: usize = 0;
    while e < es.len()
        invariant
            indeg@.dom() == dom,
            adj@.dom() == dom,
            e <= es@.len(),
            forall|i: int| 0 <= i < es@.len() ==> dom.contains((#[trigger] es@[i]).0) && dom.contains(es@[i].1),
            forall|v: StableId| #[trigger] dom.contains(v) ==> indeg@[v] == pending_in(es@.take(e as int), v, Seq::empty())
                && adj@[v]@ == targets_from(es@.take(e as int), v),
        decreases es@.len() - e,
    {
        let (src, tgt) = es[e];
        proof {
            assert(dom.contains(es@[e as int].0) && dom.contains(es@[e as int].1));
            assert(es@.take(e + 1).drop_last() =~= es@.take(e as int));
            assert(es@.take(e + 1).last() == (src, tgt));
            lemma_pending_bound(es@.take(e as int), tgt, Seq::empty());
        }
        let c = match indeg.get(&tgt) {
            Some(c) => *c,
            None => 0,
        };
        indeg.insert(tgt, c + 1);
        let mut list = match adj.remove(&src) {
            Some(l) => l,
            None => Vec::new(),
        };
        list.push(tgt);
        adj.insert(src, list);
        proof {
            assert(indeg@.dom() =~= dom);
            assert(adj@.dom() =~= dom);
            assert forall|v: StableId| #[trigger] dom.contains(v) implies indeg@[v] == pending_in(es@.take(e + 1), v, Seq::empty())
                && adj@[v]@ == targets_from(es@.take(e + 1), v) by {
                if v == src {
                    assert(adj@[v]@ =~= targets_from(es@.take(e as int), v) + seq![tgt]);
                } else {
                    assert(targets_from(es@.take(e as int), v) + Seq::<StableId>::empty() =~= targets_from(es@.take(e as int), v));
                }
            }
        }
        e = e + 1;
    }
    proof {
        assert(es@.take(es@.len() as int) =~= es@);
    }
}

/// The nodes with a zero count, in increasing order.
fn zero_count_nodes(ks: &Vec<StableId>, indeg: &BTreeMap<StableId, usize>, Ghost(dom): Ghost<Set<StableId>>) -> (order: Vec<StableId>)
    requires
        enumerates(ks@, dom),
        indeg@.dom() == dom,
    ensures
        increasing(order@),
        forall|x: StableId| order@.contains(x) <==> (dom.contains(x) && indeg@[x] == 0),
{
    let mut order: Vec<StableId> = Vec::new();
    let mut j: usize = 0;
    while j < ks.len()
        invariant
            enumerates(ks@, dom),
            indeg@.dom() == dom,
            j <= ks@.len(),
            increasing(order@),
            forall|x: StableId| order@.contains(x) <==> (ks@.take(j as int).contains(x) && indeg@[x] == 0),
        decreases ks@.len() - j,
    {
        let v = ks[j];
        proof {
            assert(ks@.contains(v));
            assert(ks@.take(j + 1) =~= ks@.take(j as int).push(v));
            assert forall|q: StableId| ks@.take(j + 1).contains(q) <==> (ks@.take(j as int).contains(q) || q == v) by {
                broadcast use vstd::seq_lib::group_seq_properties;
            }
            assert(!ks@.take(j as int).contains(v)) by {
                if ks@.take(j as int).contains(v) {
                    let p = choose|p: int| 0 <= p < j && ks@.take(j as int)[p] == v;
                    assert(ks@[p] < ks@[j as int]);
                }
            }
        }
        let d = match indeg.get(&v) {
            Some(d) => *d,
            None => 1,
        };
        if d == 0 {
            proof {
                assert forall|a: int| 0 <= a < order@.len() implies order@[a] < v by {
                    assert(order@.contains(order@[a]));
                    assert(ks@.take(j as int).contains(order@[a]));
                    let p = choose|p: int| 0 <= p < j && ks@.take(j as int)[p] == order@[a];
                    assert(ks@[p] < ks@[j as int]);
                }
            }
            let ghost o0 = order@;
            order.push(v);
            proof {
                assert forall|x: StableId| order@.contains(x) <==> (ks@.take(j + 1).contains(x) && indeg@[x] == 0) by {
                    assert(order@.contains(x) <==> (o0.contains(x) || x == v)) by {
                        broadcast use vstd::seq_lib::group_seq_properties;
                    }
                    assert(o0.contains(x) <==> (ks@.take(j as int).contains(x) && indeg@[x] == 0));
                    assert(ks@.take(j + 1).contains(x) <==> (ks@.take(j as int).contains(x) || x == v));
                }
            }
        } else {
            proof {
                assert forall|x: StableId| order@.contains(x) <==> (ks@.take(j + 1).contains(x) && indeg@[x] == 0) by {
                    assert(order@.contains(x) <==> (ks@.take(j as int).contains(x) && indeg@[x] == 0));
                    assert(ks@.take(j + 1).contains(x) <==> (ks@.take(j as int).contains(x) || x == v));
                }
            }
        }
        j = j + 1;
    }
    proof {
        assert(ks@.take(ks@.len() as int) =~= ks@);
    }
    order
}

/// The nodes with a nonzero count, in increasing order.
fn nonzero_count_nodes(ks: &Vec<StableId>, indeg: &BTreeMap<StableId, usize>, Ghost(dom): Ghost<Set<StableId>>) -> (rest: Vec<StableId>)
    requires
        enumerates(ks@, dom),
        indeg@.dom() == dom,
    ensures
        increasing(rest@),
        forall|x: StableId| rest@.contains(x) <==> (dom.contains(x) && indeg@[x] != 0),
{
    let mut rest: Vec<StableId> = Vec::new();
    let mut q: usize = 0;
    while q < ks.len()
        invariant
            enumerates(ks@, dom),
            indeg@.dom() == dom,
            q <= ks@.len(),
            increasing(rest@),
            forall|x: StableId| rest@.contains(x) <==> (ks@.take(q as int).contains(x) && indeg@[x] != 0),
        decreases ks@.len() - q,
    {
        let v = ks[q];
        proof {
            assert(ks@.contains(v));
            assert(ks@.take(q + 1) =~= ks@.take(q as int).push(v));
            assert forall|x: StableId| ks@.take(q + 1).contains(x) <==> (ks@.take(q as int).contains(x) || x == v) by {
                broadcast use vstd::seq_lib::group_seq_properties;
            }
            assert(!ks@.take(q as int).contains(v)) by {
                if ks@.take(q as int).contains(v) {
                    let p = choose|p: int| 0 <= p < q && ks@.take(q as int)[p] == v;
                    assert(ks@[p] < ks@[q as int]);
                }
            }
        }
        let d = match indeg.get(&v) {
            Some(d) => *d,
            None => 0,
        };
        if d != 0 {
            proof {
                assert forall|a: int| 0 <= a < rest@.len() implies rest@[a] < v by {
                    assert(rest@.contains(rest@[a]));
                    let p = choose|p: int| 0 <= p < q && ks@.take(q as int)[p] == rest@[a];
                    assert(ks@[p] < ks@[q as int]);
                }
            }
            let ghost r0 = rest@;
            rest.push(v);
            proof {
                assert forall|x: StableId| rest@.contains(x) <==> (ks@.take(q + 1).contains(x) && indeg@[x] != 0) by {
                    assert(rest@.contains(x) <==> (r0.contains(x) || x == v)) by {
                        broadcast use vstd::seq_lib::group_seq_properties;
                    }
                    assert(r0.contains(x) <==> (ks@.take(q as int).contains(x) && indeg@[x] != 0));
                    assert(ks@.take(q + 1).contains(x) <==> (ks@.take(q as int).contains(x) || x == v));
                }
            }
        } else {
            proof {
                assert forall|x: StableId| rest@.contains(x) <==> (ks@.take(q + 1).contains(x) && indeg@[x] != 0) by {
                    assert(rest@.contains(x) <==> (ks@.take(q as int).contains(x) && indeg@[x] != 0));
                    assert(ks@.take(q + 1).contains(x) <==> (ks@.take(q as int).contains(x) || x == v));
                }
            }
        }
        q = q + 1;
    }
    proof {
        assert(ks@.take(ks@.len() as int) =~= ks@);
    }
    rest
}

/// Marks the node at `head` done: each of its outgoing edges lowers the count
/// of its target, and a target whose count reaches zero is queued.
fn finish_node(
    es: &Vec<(StableId, StableId)>,
    ts: &Vec<StableId>,
    indeg: &mut BTreeMap<StableId, usize>,
    order: &mut Vec<StableId>,
    head: usize,
    Ghost(dom): Ghost<Set<StableId>>,
)
    requires
        kahn_inv(dom, es@, old(indeg)@, old(order)@, head as int),
        head < old(order)@.len(),
        ts@ == targets_from(es@, old(order)@[head as int]),
    ensures
        kahn_inv(dom, es@, final(indeg)@, final(order)@, head + 1),
{
    let u = order[head];
    let ghost done = order@.take(head as int);
    let ghost done2 = order@.take(head + 1);
    let ghost n0 = order@.len();
    proof {
        assert(order@.contains(u));
        assert(done2 =~= done.push(u));
        assert(!done.contains(u)) by {
            if done.contains(u) {
                let p = choose|p: int| 0 <= p < done.len() && done[p] == u;
                assert(order@[p] == order@[head as int]);
            }
        }
        assert forall|v: StableId| pending_in(es@, v, done) == pending_in(es@, v, done2) + occ(targets_from(es@, u), v) by {
            lemma_pending_step(es@, v, done, u);
        }
        lemma_targets_from_members(es@, u);
        assert(ts@.take(0) =~= Seq::<StableId>::empty());
        assert forall|p: int| head + 1 <= p < order@.len() implies pending_in(es@, #[trigger] order@[p], done2) == 0 by {
            assert(pending_in(es@, order@[p], done) == 0);
        }
    }
    let mut t: usize = 0;
    while t < ts.len()
        invariant
            indeg@.dom() == dom,
            forall|i: int| 0 <= i < es@.len() ==> dom.contains((#[trigger] es@[i]).0) && dom.contains(es@[i].1),
            ts@ == targets_from(es@, u),
            forall|j: int|
                #![trigger ts@[j]]
                0 <= j < ts@.len() ==> exists|i: int| 0 <= i < es@.len() && #[trigger] es@[i] == (u, ts@[j]),
            forall|v: StableId| pending_in(es@, v, done) == pending_in(es@, v, done2) + occ(ts@, v),
            done == order@.take(head as int),
            done2 == order@.take(head + 1),
            head < n0 <= order@.len(),
            order@.no_duplicates(),
            forall|x: StableId| order@.contains(x) ==> dom.contains(x),
            t <= ts@.len(),
            forall|v: StableId| #[trigger] dom.contains(v) ==> indeg@[v] as int == pending_in(es@, v, done) - occ(ts@.take(t as int), v),
            forall|v: StableId| #[trigger] dom.contains(v) ==> (order@.contains(v) <==> indeg@[v] == 0),
            forall|p: int, i: int|
                0 <= p < order@.len() && 0 <= i < es@.len() && (#[trigger] es@[i]).1 == #[trigger] order@[p]
                    ==> order@.take(p).contains(es@[i].0),
            forall|p: int| head + 1 <= p < order@.len() ==> pending_in(es@, #[trigger] order@[p], done2) == 0,
        decreases ts@.len() - t,
    {
        let w = ts[t];
        proof {
            let i = choose|i: int| 0 <= i < es@.len() && #[trigger] es@[i] == (u, ts@[t as int]);
            assert(dom.contains(es@[i].1));
            assert forall|v: StableId| occ(ts@.take(t + 1), v) == occ(ts@.take(t as int), v) + if ts@[t as int] == v { 1nat } else { 0nat } by {
                lemma_occ_take(ts@, t as int, v);
            }
            lemma_occ_prefix(ts@, t + 1, w);
        }
        let c = match indeg.get(&w) {
            Some(c) => *c,
            None => 1,
        };
        let d = c - 1;
        let ghost before = order@;
        indeg.insert(w, d);
        if d == 0 {
            proof {
                assert(!order@.contains(w));
                assert(pending_in(es@, w, done2) == 0);
                lemma_pending_zero(es@, w, done2);
            }
            order.push(w);
            proof {
                assert forall|x: StableId| order@.contains(x) <==> (before.contains(x) || x == w) by {
                    broadcast use vstd::seq_lib::group_seq_properties;
                }
                assert forall|p: int| 0 <= p < before.len() implies order@.take(p) == before.take(p) by {
                    assert(order@.take(p) =~= before.take(p));
                }
                assert forall|p: int, i: int|
                    0 <= p < order@.len() && 0 <= i < es@.len() && (#[trigger] es@[i]).1 == #[trigger] order@[p]
                    implies order@.take(p).contains(es@[i].0) by {
                    if p < before.len() {
                        assert(order@[p] == before[p]);
                        assert(order@.take(p) == before.take(p));
                    } else {
                        assert(done2.contains(es@[i].0));
                        let q = choose|q: int| 0 <= q < done2.len() && done2[q] == es@[i].0;
                        assert(order@.take(p)[q] == es@[i].0);
                    }
                }
                assert(order@.take(head as int) =~= done);
                assert(order@.take(head + 1) =~= done2);
            }
        }
        proof {
            assert(indeg@.dom() =~= dom);
        }
        t = t + 1;
    }
    proof {
        assert(ts@.take(ts@.len() as int) =~= ts@);
    }
}

proof fn lemma_pairs_connect(graph: Graph, es: Seq<(StableId, StableId)>)
    requires
        normal_edges_connect_nodes(graph),
        es == normal_pairs(key_order(graph.edges@.dom()), graph.edges@),
        enumerates(key_order(graph.edges@.dom()), graph.edges@.dom()),
    ensures
        forall|i: int| 0 <= i < es.len() ==> graph.nodes@.dom().contains((#[trigger] es[i]).0) && graph.nodes@.dom().contains(es[i].1),
        forall|i: int| 0 <= i < es.len() ==> normal_edge(graph.edges@, (#[trigger] es[i]).0, es[i].1),
        forall|k: StableId| graph.edges@.contains_key(k) && #[trigger] graph.edges@[k].kind == EdgeKind::Normal ==> exists|i: int|
            0 <= i < es.len() && #[trigger] es[i] == (graph.edges@[k].source.node_id, graph.edges@[k].target.node_id),
{
    let eks = key_order(graph.edges@.dom());
    lemma_normal_pairs(eks, graph.edges@);
    assert forall|i: int| 0 <= i < es.len() implies graph.nodes@.dom().contains((#[trigger] es[i]).0) && graph.nodes@.dom().contains(es[i].1) by {
        assert(normal_edge(graph.edges@, es[i].0, es[i].1));
        let k = choose|k: StableId| #[trigger] graph.edges@.contains_key(k) && graph.edges@[k].kind == EdgeKind::Normal
            && graph.edges@[k].source.node_id == es[i].0 && graph.edges@[k].target.node_id == es[i].1;
    }
    assert forall|k: StableId| graph.edges@.contains_key(k) && #[trigger] graph.edges@[k].kind == EdgeKind::Normal implies exists|i: int|
        0 <= i < es.len() && #[trigger] es[i] == (graph.edges@[k].source.node_id, graph.edges@[k].target.node_id) by {
        assert(eks.contains(k));
    }
}

proof fn lemma_kahn_start(
    dom: Set<StableId>,
    es: Seq<(StableId, StableId)>,
    indeg: Map<StableId, usize>,
    order: Seq<StableId>,
)
    requires
        indeg.dom() == dom,
        forall|i: int| 0 <= i < es.len() ==> dom.contains((#[trigger] es[i]).0) && dom.contains(es[i].1),
        forall|v: StableId| #[trigger] dom.contains(v) ==> indeg[v] == pending_in(es, v, Seq::empty()),
        increasing(order),
        forall|x: StableId| order.contains(x) <==> (dom.contains(x) && indeg[x] == 0),
    ensures
        kahn_inv(dom, es, indeg, order, 0),
{
    assert(order.no_duplicates()) by {
        assert forall|a: int, b: int| 0 <= a < order.len() && 0 <= b < order.len() && a != b implies order[a] != order[b] by {
            if a < b {
                assert(order[a] < order[b]);
            } else {
                assert(order[b] < order[a]);
            }
        }
    }
    assert(order.take(0) =~= Seq::<StableId>::empty());
    assert forall|p: int, i: int| 0 <= p < order.len() && 0 <= i < es.len() && (#[trigger] es[i]).1 == #[trigger] order[p]
        implies order.take(p).contains(es[i].0) by {
        assert(order.contains(order[p]));
        assert(dom.contains(order[p]));
        lemma_pending_zero(es, order[p], Seq::empty());
    }
    assert forall|p: int| 0 <= p < order.len() implies pending_in(es, #[trigger] order[p], order.take(0)) == 0 by {
        assert(order.contains(order[p]));
        assert(dom.contains(order[p]));
    }
}

proof fn lemma_targets_from_complete(es: Seq<(StableId, StableId)>, i: int)
    requires
        0 <= i < es.len(),
    ensures
        targets_from(es, es[i].0).contains(es[i].1),
    decreases es.len(),
{
    let u = es[i].0;
    if i < es.len() - 1 {
        assert(es.drop_last()[i] == es[i]);
        lemma_targets_from_complete(es.drop_last(), i);
        let prev = targets_from(es.drop_last(), u);
        let j = choose|j: int| 0 <= j < prev.len() && prev[j] == es[i].1;
        assert(targets_from(es, u)[j] == prev[j]);
    } else {
        let prev = targets_from(es.drop_last(), u);
        assert(targets_from(es, u)[prev.len() as int] == es[i].1);
    }
}

/// The state of a search for what `x` reaches: `seen` lists without
/// repetition nodes of `dom` that `x` reaches, and `mark` holds exactly them.
spec fn search_inv(
    step: spec_fn(StableId, StableId) -> bool,
    x: StableId,
    dom: Set<StableId>,
    seen: Seq<StableId>,
    mark: Map<StableId, bool>,
) -> bool {
    &&& seen.no_duplicates()
    &&& forall|z: StableId| mark.contains_key(z) <==> seen.contains(z)
    &&& forall|z: StableId| seen.contains(z) ==> dom.contains(z)
    &&& forall|z: StableId| seen.contains(z) ==> reaches(step, x, z)
}

/// Adds the targets not yet seen.
fn visit_targets(
    ts: &Vec<StableId>,
    seen: &mut Vec<StableId>,
    mark: &mut BTreeMap<StableId, bool>,
    Ghost(step): Ghost<spec_fn(StableId, StableId) -> bool>,
    Ghost(x): Ghost<StableId>,
    Ghost(dom): Ghost<Set<StableId>>,
)
    requires
        search_inv(step, x, dom, old(seen)@, old(mark)@),
        forall|j: int| 0 <= j < ts@.len() ==> dom.contains(#[trigger] ts@[j]),
        forall|j: int| 0 <= j < ts@.len() ==> reaches(step, x, #[trigger] ts@[j]),
    ensures
        search_inv(step, x, dom, final(seen)@, final(mark)@),
        final(seen)@.take(old(seen)@.len() as int) == old(seen)@,
        old(seen)@.len() <= final(seen)@.len(),
        forall|j: int| 0 <= j < ts@.len() ==> final(seen)@.contains(#[trigger] ts@[j]),
{
    let ghost s0 = seen@;
    let mut j: usize = 0;
    while j < ts.len()
        invariant
            search_inv(step, x, dom, seen@, mark@),
            s0.len() <= seen@.len(),
            seen@.take(s0.len() as int) == s0,
            j <= ts@.len(),
            forall|q: int| 0 <= q < ts@.len() ==> dom.contains(#[trigger] ts@[q]),
            forall|q: int| 0 <= q < ts@.len() ==> reaches(step, x, #[trigger] ts@[q]),
            forall|q: int| 0 <= q < j ==> seen@.contains(#[trigger] ts@[q]),
        decreases ts@.len() - j,
    {
        let t = ts[j];
        if !mark.contains_key(&t) {
            let ghost before = seen@;
            seen.push(t);
            mark.insert(t, true);
            proof {
                assert(seen@.take(s0.len() as int) =~= before.take(s0.len() as int));
                assert(seen@ == before.push(t));
                assert(!before.contains(t));
                assert forall|z: StableId| seen@.contains(z) implies reaches(step, x, z) by {
                    if z != t {
                        let q = choose|q: int| 0 <= q < seen@.len() && seen@[q] == z;
                        assert(before[q] == z);
                        assert(before.contains(z));
                    } else {
                        assert(reaches(step, x, ts@[j as int]));
                    }
                }
                assert forall|z: StableId| mark@.contains_key(z) <==> seen@.contains(z) by {
                    if z != t {
                        if seen@.contains(z) {
                            let q = choose|q: int| 0 <= q < seen@.len() && seen@[q] == z;
                            assert(before[q] == z);
                        }
                        if before.contains(z) {
                            let q = choose|q: int| 0 <= q < before.len() && before[q] == z;
                            assert(seen@[q] == z);
                        }
                    } else {
                        assert(seen@[seen@.len() - 1] == t);
                    }
                }
                assert forall|z: StableId| seen@.contains(z) implies dom.contains(z) by {
                    if z != t {
                        let q = choose|q: int| 0 <= q < seen@.len() && seen@[q] == z;
                        assert(before[q] == z);
                    }
                }
                assert forall|q: int| 0 <= q < j + 1 implies seen@.contains(#[trigger] ts@[q]) by {
                    if q < j {
                        assert(before.contains(ts@[q]));
                        let q2 = choose|q2: int| 0 <= q2 < before.len() && before[q2] == ts@[q];
                        assert(seen@[q2] == ts@[q]);
                    } else {
                        assert(seen@[seen@.len() - 1] == t);
                    }
                }
            }
        }
        j = j + 1;
    }
}

/// Whether `x` reaches itself along the pairs `es` (whose targets out of each
/// node `adj` lists).
#[verifier::spinoff_prover]
fn reaches_itself(
    adj: &BTreeMap<StableId, Vec<StableId>>,
    ks: &Vec<StableId>,
    x: StableId,
    Ghost(es): Ghost<Seq<(StableId, StableId)>>,
    Ghost(dom): Ghost<Set<StableId>>,
    Ghost(step): Ghost<spec_fn(StableId, StableId) -> bool>,
) -> (r: bool)
    requires
        enumerates(ks@, dom),
        dom.contains(x),
        adj@.dom() == dom,
        forall|v: StableId| #[trigger] dom.contains(v) ==> adj@[v]@ == targets_from(es, v),
        forall|i: int| 0 <= i < es.len() ==> dom.contains((#[trigger] es[i]).0) && dom.contains(es[i].1),
        forall|a: StableId, b: StableId| #[trigger] step(a, b) <==> exists|i: int| 0 <= i < es.len() && es[i] == (a, b),
    ensures
        r == reaches(step, x, x),
{
    let mut seen: Vec<StableId> = Vec::new();
    let mut mark: BTreeMap<StableId, bool> = BTreeMap::new();
    proof {
        assert(mark@ =~= Map::<StableId, bool>::empty());
    }
    let first = match adj.get(&x) {
        Some(ts) => ts,
        None => {
            proof {
                assert(false);
            }
            return false;
        },
    };
    proof {
        lemma_targets_from_members(es, x);
        assert forall|j: int| 0 <= j < first@.len() implies dom.contains(#[trigger] first@[j]) && reach_by(step, x, first@[j], 1) by {
            let i = choose|i: int| 0 <= i < es.len() && #[trigger] es[i] == (x, targets_from(es, x)[j]);
            assert(step(x, first@[j]));
        }
        assert forall|j: int| 0 <= j < first@.len() implies reaches(step, x, #[trigger] first@[j]) by {
            assert(reach_by(step, x, first@[j], 1));
        }
    }
    visit_targets(first, &mut seen, &mut mark, Ghost(step), Ghost(x), Ghost(dom));
    proof {
        assert forall|z: StableId| #[trigger] step(x, z) implies seen@.contains(z) by {
            let i = choose|i: int| 0 <= i < es.len() && es[i] == (x, z);
            lemma_targets_from_complete(es, i);
            let j = choose|j: int| 0 <= j < first@.len() && first@[j] == z;
        }
    }
    let mut head: usize = 0;
    while head < seen.len()
        invariant
            enumerates(ks@, dom),
            adj@.dom() == dom,
            forall|v: StableId| #[trigger] dom.contains(v) ==> adj@[v]@ == targets_from(es, v),
            forall|i: int| 0 <= i < es.len() ==> dom.contains((#[trigger] es[i]).0) && dom.contains(es[i].1),
            forall|a: StableId, b: StableId| #[trigger] step(a, b) <==> exists|i: int| 0 <= i < es.len() && es[i] == (a, b),
            search_inv(step, x, dom, seen@, mark@),
            head <= seen@.len(),
            forall|z: StableId| #[trigger] step(x, z) ==> seen@.contains(z),
            forall|q: int, z: StableId| 0 <= q < head && #[trigger] step(seen@[q], z) ==> seen@.contains(z),
        decreases ks@.len() - head,
    {
        proof {
            lemma_unique_len(seen@, ks@, dom);
        }
        let y = seen[head];
        proof {
            assert(seen@.contains(y));
        }
        let ts = match adj.get(&y) {
            Some(ts) => ts,
            None => {
                proof {
                    assert(false);
                }
                return false;
            },
        };
        proof {
            lemma_targets_from_members(es, y);
            assert(reaches(step, x, y));
            let ky = choose|k: nat| #[trigger] reach_by(step, x, y, k);
            assert forall|j: int| 0 <= j < ts@.len() implies dom.contains(#[trigger] ts@[j]) && reach_by(step, x, ts@[j], ky + 1) by {
                let i = choose|i: int| 0 <= i < es.len() && #[trigger] es[i] == (y, targets_from(es, y)[j]);
                assert(step(y, ts@[j]));
                lemma_reach_append(step, x, y, ts@[j], ky);
            }
            assert forall|j: int| 0 <= j < ts@.len() implies reaches(step, x, #[trigger] ts@[j]) by {
                assert(reach_by(step, x, ts@[j], ky + 1));
            }
        }
        let ghost before = seen@;
        visit_targets(ts, &mut seen, &mut mark, Ghost(step), Ghost(x), Ghost(dom));
        proof {
            assert forall|z: StableId| #[trigger] step(x, z) implies seen@.contains(z) by {
                assert(before.contains(z));
                let q = choose|q: int| 0 <= q < before.len() && before[q] == z;
                assert(seen@[q] == before[q]);
            }
            assert forall|q: int, z: StableId| 0 <= q < head + 1 && #[trigger] step(seen@[q], z) implies seen@.contains(z) by {
                assert(seen@[q] == before[q]);
                if q < head {
                    assert(before.contains(z));
                    let q2 = choose|q2: int| 0 <= q2 < before.len() && before[q2] == z;
                    assert(seen@[q2] == before[q2]);
                } else {
                    let i = choose|i: int| 0 <= i < es.len() && es[i] == (y, z);
                    lemma_targets_from_complete(es, i);
                    let j = choose|j: int| 0 <= j < ts@.len() && ts@[j] == z;
                }
            }
        }
        head = head + 1;
    }
    let found = mark.contains_key(&x);
    proof {
        if found {
            assert(seen@.contains(x));
        } else {
            if reaches(step, x, x) {
                let k = choose|k: nat| #[trigger] reach_by(step, x, x, k);
                assert forall|y: StableId, z: StableId| seen@.contains(y) && #[trigger] step(y, z) implies seen@.contains(z) by {
                    let q = choose|q: int| 0 <= q < seen@.len() && seen@[q] == y;
                }
                lemma_reach_closed(step, seen@, x, x, k);
            }
        }
    }
    found
}

/// Kahn's algorithm over the pairs `es` on the nodes `ks` (listed in
/// increasing order), starting from the nodes without predecessors in that
/// order. Returns the sorted nodes and, in increasing order, the rest.
#[verifier::spinoff_prover]
#[verifier::rlimit(40)]
fn kahn(ks: &Vec<StableId>, es: &Vec<(StableId, StableId)>, Ghost(dom): Ghost<Set<StableId>>) -> (r: (
    Vec<StableId>,
    Vec<StableId>,
))
    requires
        enumerates(ks@, dom),
        forall|i: int| 0 <= i < es@.len() ==> dom.contains((#[trigger] es@[i]).0) && dom.contains(es@[i].1),
    ensures
        r.0@.no_duplicates(),
        forall|x: StableId| r.0@.contains(x) ==> dom.contains(x),
        forall|p: int, i: int|
            0 <= p < r.0@.len() && 0 <= i < es@.len() && (#[trigger] es@[i]).1 == #[trigger] r.0@[p]
                ==> r.0@.take(p).contains(es@[i].0),
        forall|x: StableId|
            dom.contains(x) && !r.0@.contains(x) ==> exists|i: int|
                0 <= i < es@.len() && (#[trigger] es@[i]).1 == x && !r.0@.contains(es@[i].0),
        increasing(r.1@),
        forall|x: StableId| r.1@.contains(x) <==> (dom.contains(x) && !r.0@.contains(x)),
{
    let (mut indeg, mut adj) = zero_counts(ks, Ghost(dom));
    count_edges(es, &mut indeg, &mut adj, Ghost(dom));
    let mut order = zero_count_nodes(ks, &indeg, Ghost(dom));
    proof {
        lemma_kahn_start(dom, es@, indeg@, order@);
    }
    let mut head: usize = 0;
    while head < order.len()
        invariant
            enumerates(ks@, dom),
            adj@.dom() == dom,
            forall|v: StableId| #[trigger] dom.contains(v) ==> adj@[v]@ == targets_from(es@, v),
            kahn_inv(dom, es@, indeg@, order@, head as int),
        decreases ks@.len() - head,
    {
        proof {
            lemma_unique_len(order@, ks@, dom);
        }
        let u = order[head];
        proof {
            assert(order@.contains(u));
        }
        match adj.get(&u) {
            Some(ts) => {
                finish_node(es, ts, &mut indeg, &mut order, head, Ghost(dom));
            },
            None => {
                proof {
                    assert(false);
                }
            },
        }
        head = head + 1;
    }
    let rest = nonzero_count_nodes(ks, &indeg, Ghost(dom));
    proof {
        assert(order@.take(order@.len() as int) =~= order@);
        assert forall|x: StableId| dom.contains(x) && !order@.contains(x) implies exists|i: int|
            0 <= i < es@.len() && (#[trigger] es@[i]).1 == x && !order@.contains(es@[i].0) by {
            assert(indeg@[x] != 0);
            lemma_pending_witness(es@, x, order@);
        }
    }
    (order, rest)
}

/// Splits the nodes left over by the first pass into those that reach
/// themselves (`cyc`) and the others (`down`, also held by `mark`), both in
/// increasing order.
#[verifier::spinoff_prover]
fn split_on_cycle(
    rest: &Vec<StableId>,
    adj: &BTreeMap<StableId, Vec<StableId>>,
    ks: &Vec<StableId>,
    Ghost(es): Ghost<Seq<(StableId, StableId)>>,
    Ghost(dom): Ghost<Set<StableId>>,
    Ghost(step): Ghost<spec_fn(StableId, StableId) -> bool>,
) -> (r: (Vec<StableId>, Vec<StableId>, BTreeMap<StableId, bool>))
    requires
        increasing(rest@),
        forall|z: StableId| rest@.contains(z) ==> dom.contains(z),
        enumerates(ks@, dom),
        adj@.dom() == dom,
        forall|v: StableId| #[trigger] dom.contains(v) ==> adj@[v]@ == targets_from(es, v),
        forall|i: int| 0 <= i < es.len() ==> dom.contains((#[trigger] es[i]).0) && dom.contains(es[i].1),
        forall|a: StableId, b: StableId| #[trigger] step(a, b) <==> exists|i: int| 0 <= i < es.len() && es[i] == (a, b),
    ensures
        increasing(r.0@),
        increasing(r.1@),
        forall|z: StableId| r.0@.contains(z) <==> rest@.contains(z) && reaches(step, z, z),
        forall|z: StableId| r.1@.contains(z) <==> rest@.contains(z) && !reaches(step, z, z),
        forall|z: StableId| r.2@.contains_key(z) <==> r.1@.contains(z),
{
    let mut cyc: Vec<StableId> = Vec::new();
    let mut down: Vec<StableId> = Vec::new();
    let mut mark: BTreeMap<StableId, bool> = BTreeMap::new();
    let mut i: usize = 0;
    proof {
        assert(mark@ =~= Map::<StableId, bool>::empty());
        assert(rest@.take(0) =~= Seq::<StableId>::empty());
    }
    while i < rest.len()
        invariant
            increasing(rest@),
            forall|z: StableId| rest@.contains(z) ==> dom.contains(z),
            enumerates(ks@, dom),
            adj@.dom() == dom,
            forall|v: StableId| #[trigger] dom.contains(v) ==> adj@[v]@ == targets_from(es, v),
            forall|i: int| 0 <= i < es.len() ==> dom.contains((#[trigger] es[i]).0) && dom.contains(es[i].1),
            forall|a: StableId, b: StableId| #[trigger] step(a, b) <==> exists|i: int| 0 <= i < es.len() && es[i] == (a, b),
            i <= rest@.len(),
            increasing(cyc@),
            increasing(down@),
            forall|q: int, j: int| 0 <= q < cyc@.len() && i <= j < rest@.len() ==> #[trigger] cyc@[q] < #[trigger] rest@[j],
            forall|q: int, j: int| 0 <= q < down@.len() && i <= j < rest@.len() ==> #[trigger] down@[q] < #[trigger] rest@[j],
            forall|z: StableId| cyc@.contains(z) <==> rest@.take(i as int).contains(z) && reaches(step, z, z),
            forall|z: StableId| down@.contains(z) <==> rest@.take(i as int).contains(z) && !reaches(step, z, z),
            forall|z: StableId| mark@.contains_key(z) <==> down@.contains(z),
        decreases rest@.len() - i,
    {
        let x = rest[i];
        let ghost t0 = rest@.take(i as int);
        let ghost t1 = rest@.take(i + 1);
        proof {
            assert(rest@.contains(x));
            assert(t1 =~= t0.push(x));
            assert forall|z: StableId| t1.contains(z) <==> (t0.contains(z) || z == x) by {
                if t1.contains(z) {
                    let q = choose|q: int| 0 <= q < t1.len() && t1[q] == z;
                    if q < i {
                        assert(t0[q] == z);
                    }
                }
                if t0.contains(z) {
                    let q = choose|q: int| 0 <= q < t0.len() && t0[q] == z;
                    assert(t1[q] == z);
                }
                if z == x {
                    assert(t1[i as int] == z);
                }
            }
            assert(!t0.contains(x)) by {
                if t0.contains(x) {
                    let q = choose|q: int| 0 <= q < t0.len() && t0[q] == x;
                    assert(rest@[q] < rest@[i as int]);
                }
            }
        }
        let on_cycle = reaches_itself(adj, ks, x, Ghost(es), Ghost(dom), Ghost(step));
        let ghost c0 = cyc@;
        let ghost d0 = down@;
        if on_cycle {
            let ghost before = cyc@;
            cyc.push(x);
            proof {
                assert forall|z: StableId| cyc@.contains(z) <==> before.contains(z) || z == x by {
                    if cyc@.contains(z) {
                        let q = choose|q: int| 0 <= q < cyc@.len() && cyc@[q] == z;
                        if q < before.len() {
                            assert(before[q] == z);
                        }
                    }
                    if before.contains(z) {
                        let q = choose|q: int| 0 <= q < before.len() && before[q] == z;
                        assert(cyc@[q] == z);
                    }
                    if z == x {
                        assert(cyc@[before.len() as int] == z);
                    }
                }
                assert forall|q: int, j: int| 0 <= q < cyc@.len() && i + 1 <= j < rest@.len() implies #[trigger] cyc@[q] < #[trigger] rest@[j] by {
                    if q < before.len() {
                        assert(cyc@[q] == before[q]);
                        assert(before[q] < rest@[j]);
                    } else {
                        assert(rest@[i as int] < rest@[j]);
                    }
                }
                assert forall|a: int, b: int| 0 <= a < b < cyc@.len() implies #[trigger] cyc@[a] < #[trigger] cyc@[b] by {
                    assert(cyc@[a] == before[a]);
                    if b < before.len() {
                        assert(cyc@[b] == before[b]);
                    } else {
                        assert(before[a] < rest@[i as int]);
                    }
                }
                assert forall|q: int, j: int| 0 <= q < down@.len() && i + 1 <= j < rest@.len() implies #[trigger] down@[q] < #[trigger] rest@[j] by {
                    assert(down@[q] < rest@[j]);
                }
            }
        } else {
            let ghost before = down@;
            down.push(x);
            mark.insert(x, true);
            proof {
                assert forall|z: StableId| down@.contains(z) <==> before.contains(z) || z == x by {
                    if down@.contains(z) {
                        let q = choose|q: int| 0 <= q < down@.len() && down@[q] == z;
                        if q < before.len() {
                            assert(before[q] == z);
                        }
                    }
                    if before.contains(z) {
                        let q = choose|q: int| 0 <= q < before.len() && before[q] == z;
                        assert(down@[q] == z);
                    }
                    if z == x {
                        assert(down@[before.len() as int] == z);
                    }
                }
                assert forall|z: StableId| mark@.contains_key(z) <==> down@.contains(z) by {
                    assert(down@.contains(z) <==> before.contains(z) || z == x);
                }
                assert forall|q: int, j: int| 0 <= q < down@.len() && i + 1 <= j < rest@.len() implies #[trigger] down@[q] < #[trigger] rest@[j] by {
                    if q < before.len() {
                        assert(down@[q] == before[q]);
                        assert(before[q] < rest@[j]);
                    } else {
                        assert(rest@[i as int] < rest@[j]);
                    }
                }
                assert forall|a: int, b: int| 0 <= a < b < down@.len() implies #[trigger] down@[a] < #[trigger] down@[b] by {
                    assert(down@[a] == before[a]);
                    if b < before.len() {
                        assert(down@[b] == before[b]);
                    } else {
                        assert(before[a] < rest@[i as int]);
                    }
                }
                assert forall|q: int, j: int| 0 <= q < cyc@.len() && i + 1 <= j < rest@.len() implies #[trigger] cyc@[q] < #[trigger] rest@[j] by {
                    assert(cyc@[q] < rest@[j]);
                }
            }
        }
        proof {
            assert forall|z: StableId| cyc@.contains(z) <==> t1.contains(z) && reaches(step, z, z) by {
                assert(t1.contains(z) <==> (t0.contains(z) || z == x));
                assert(c0.contains(z) <==> t0.contains(z) && reaches(step, z, z));
                if on_cycle {
                    assert(cyc@.contains(z) <==> c0.contains(z) || z == x);
                } else {
                    assert(cyc@ == c0);
                }
            }
            assert forall|z: StableId| down@.contains(z) <==> t1.contains(z) && !reaches(step, z, z) by {
                assert(t1.contains(z) <==> (t0.contains(z) || z == x));
                assert(d0.contains(z) <==> t0.contains(z) && !reaches(step, z, z));
                if !on_cycle {
                    assert(down@.contains(z) <==> d0.contains(z) || z == x);
                } else {
                    assert(down@ == d0);
                }
            }
        }
        i = i + 1;
    }
    proof {
        assert(rest@.take(rest@.len() as int) =~= rest@);
    }
    (cyc, down, mark)
}

/// The pairs whose both ends `mark` holds, in order.
fn pairs_within(es: &Vec<(StableId, StableId)>, mark: &BTreeMap<StableId, bool>) -> (r: Vec<(StableId, StableId)>)
    ensures
        forall|i: int| 0 <= i < r@.len() ==> es@.contains(#[trigger] r@[i]) && mark@.contains_key(r@[i].0)
            && mark@.contains_key(r@[i].1),
        forall|j: int|
            0 <= j < es@.len() && mark@.contains_key(es@[j].0) && mark@.contains_key(es@[j].1) ==> r@.contains(
                #[trigger] es@[j],
            ),
{
    let mut r: Vec<(StableId, StableId)> = Vec::new();
    let mut j: usize = 0;
    while j < es.len()
        invariant
            j <= es@.len(),
            forall|i: int| 0 <= i < r@.len() ==> es@.contains(#[trigger] r@[i]) && mark@.contains_key(r@[i].0)
                && mark@.contains_key(r@[i].1),
            forall|q: int|
                0 <= q < j && mark@.contains_key(es@[q].0) && mark@.contains_key(es@[q].1) ==> r@.contains(
                    #[trigger] es@[q],
                ),
        decreases es@.len() - j,
    {
        let (a, b) = es[j];
        proof {
            assert(es@.contains(es@[j as int]));
        }
        if mark.contains_key(&a) && mark.contains_key(&b) {
            let ghost before = r@;
            r.push((a, b));
            proof {
                assert forall|i: int| 0 <= i < r@.len() implies es@.contains(#[trigger] r@[i]) && mark@.contains_key(r@[i].0)
                    && mark@.contains_key(r@[i].1) by {
                    if i < before.len() {
                        assert(r@[i] == before[i]);
                    }
                }
                assert forall|q: int|
                    0 <= q < j + 1 && mark@.contains_key(es@[q].0) && mark@.contains_key(es@[q].1) implies r@.contains(
                        #[trigger] es@[q],
                    ) by {
                    if q < j {
                        let i = choose|i: int| 0 <= i < before.len() && before[i] == es@[q];
                        assert(r@[i] == before[i]);
                    } else {
                        assert(r@[before.len() as int] == es@[q]);
                    }
                }
            }
        }
        j = j + 1;
    }
    r
}

/// The second pass sorts every node that reaches no cycle of its own.
proof fn lemma_second_pass_complete(
    step: spec_fn(StableId, StableId) -> bool,
    es: Seq<(StableId, StableId)>,
    es2: Seq<(StableId, StableId)>,
    down: Seq<StableId>,
    order2: Seq<StableId>,
)
    requires
        forall|i: int| 0 <= i < es2.len() ==> es.contains(#[trigger] es2[i]) && down.contains(es2[i].0),
        forall|a: StableId, b: StableId| #[trigger] step(a, b) <==> exists|i: int| 0 <= i < es.len() && es[i] == (a, b),
        forall|z: StableId| down.contains(z) ==> !reaches(step, z, z),
        forall|x: StableId|
            down.to_set().contains(x) && !order2.contains(x) ==> exists|i: int|
                0 <= i < es2.len() && (#[trigger] es2[i]).1 == x && !order2.contains(es2[i].0),
    ensures
        forall|z: StableId| down.contains(z) ==> order2.contains(z),
{
    let left = Set::new(|z: StableId| down.contains(z) && !order2.contains(z));
    assert(left.subset_of(down.to_set()));
    vstd::seq_lib::seq_to_set_is_finite(down);
    vstd::set_lib::lemma_len_subset(left, down.to_set());
    assert(left.finite()) by {
        vstd::set_lib::lemma_set_subset_finite(down.to_set(), left);
    }
    assert forall|y: StableId| #[trigger] left.contains(y) implies exists|u: StableId| left.contains(u) && #[trigger] step(u, y) by {
        assert(down.to_set().contains(y));
        let i = choose|i: int| 0 <= i < es2.len() && (#[trigger] es2[i]).1 == y && !order2.contains(es2[i].0);
        assert(es.contains(es2[i]));
        let j = choose|j: int| 0 <= j < es.len() && es[j] == es2[i];
        assert(step(es2[i].0, y));
        assert(left.contains(es2[i].0));
    }
    assert forall|z: StableId| down.contains(z) implies order2.contains(z) by {
        if !order2.contains(z) {
            assert(left.contains(z));
            lemma_back_walk_cycle(step, left, z);
            let (y, k) = choose|y: StableId, k: nat| left.contains(y) && #[trigger] reach_by(step, y, y, k);
            assert(reaches(step, y, y));
        }
    }
}

proof fn lemma_concat_contains(a: Seq<StableId>, b: Seq<StableId>, x: StableId)
    ensures
        (a + b).contains(x) <==> a.contains(x) || b.contains(x),
{
    let c = a + b;
    if c.contains(x) {
        let q = choose|q: int| 0 <= q < c.len() && c[q] == x;
        if q >= a.len() {
            assert(b[q - a.len()] == x);
        }
    }
    if a.contains(x) {
        let q = choose|q: int| 0 <= q < a.len() && a[q] == x;
        assert(c[q] == x);
    }
    if b.contains(x) {
        let q = choose|q: int| 0 <= q < b.len() && b[q] == x;
        assert(c[q + a.len()] == x);
    }
}

/// The two passes together: the sorted nodes are exactly those on no
/// feed-forward cycle, each after its sorted predecessors.
proof fn lemma_sorted_parts(
    graph: Graph,
    step: spec_fn(StableId, StableId) -> bool,
    es: Seq<(StableId, StableId)>,
    es2: Seq<(StableId, StableId)>,
    o1: Seq<StableId>,
    o2: Seq<StableId>,
    rest: Seq<StableId>,
    down: Seq<StableId>,
    cyc: Seq<StableId>,
    sorted: Seq<StableId>,
)
    requires
        sorted == o1 + o2,
        step == ff_step(graph.edges@),
        o1.no_duplicates(),
        o2.no_duplicates(),
        forall|x: StableId| o1.contains(x) ==> graph.nodes@.dom().contains(x),
        preds_first(o1, graph.edges@),
        forall|x: StableId| rest.contains(x) <==> (graph.nodes@.dom().contains(x) && !o1.contains(x)),
        forall|x: StableId| o2.contains(x) ==> down.to_set().contains(x),
        forall|z: StableId| down.contains(z) ==> o2.contains(z),
        forall|p: int, i: int|
            0 <= p < o2.len() && 0 <= i < es2.len() && (#[trigger] es2[i]).1 == #[trigger] o2[p]
                ==> o2.take(p).contains(es2[i].0),
        forall|k: StableId| graph.edges@.contains_key(k) && #[trigger] graph.edges@[k].kind == EdgeKind::Normal ==> exists|i: int|
            0 <= i < es.len() && #[trigger] es[i] == (graph.edges@[k].source.node_id, graph.edges@[k].target.node_id),
        forall|j: int| 0 <= j < es.len() && down.contains(es[j].0) && down.contains(es[j].1) ==> es2.contains(#[trigger] es[j]),
        forall|z: StableId| cyc.contains(z) <==> rest.contains(z) && reaches(step, z, z),
        forall|z: StableId| down.contains(z) <==> rest.contains(z) && !reaches(step, z, z),
    ensures
        sorted.no_duplicates(),
        forall|x: StableId| sorted.contains(x) ==> graph.nodes@.contains_key(x),
        ff_ordered(sorted, graph.edges@),
        forall|x: StableId| graph.nodes@.contains_key(x) ==> (sorted.contains(x) <==> !on_ff_cycle(graph.edges@, x)),
        forall|x: StableId| cyc.contains(x) <==> graph.nodes@.contains_key(x) && on_ff_cycle(graph.edges@, x),
{
    let edges = graph.edges@;
    let n1 = o1.len();
    assert forall|x: StableId| #[trigger] sorted.contains(x) <==> o1.contains(x) || o2.contains(x) by {
        lemma_concat_contains(o1, o2, x);
    }
    assert forall|x: StableId| o1.contains(x) implies !on_ff_cycle(edges, x) by {
        let p = choose|p: int| 0 <= p < o1.len() && o1[p] == x;
        lemma_listed_not_on_cycle(edges, o1, p);
    }
    assert(sorted.no_duplicates()) by {
        assert forall|a: int, b: int| 0 <= a < sorted.len() && 0 <= b < sorted.len() && a != b implies sorted[a] != sorted[b] by {
            if a < n1 && b >= n1 {
                assert(o2.contains(sorted[b]));
                assert(down.to_set().contains(sorted[b]));
                assert(o1.contains(sorted[a]));
                if sorted[a] == sorted[b] {
                    assert(rest.contains(sorted[b]));
                }
            } else if a >= n1 && b < n1 {
                assert(o2.contains(sorted[a]));
                assert(down.to_set().contains(sorted[a]));
                assert(o1.contains(sorted[b]));
                if sorted[a] == sorted[b] {
                    assert(rest.contains(sorted[a]));
                }
            } else if a >= n1 {
                assert(sorted[a] == o2[a - n1] && sorted[b] == o2[b - n1]);
            }
        }
    }
    assert forall|x: StableId| graph.nodes@.contains_key(x) implies (sorted.contains(x) <==> !on_ff_cycle(edges, x)) by {
        if o2.contains(x) {
            assert(down.to_set().contains(x));
        }
        if !o1.contains(x) {
            assert(rest.contains(x));
            if !reaches(step, x, x) {
                assert(down.contains(x));
            }
        }
    }
    assert forall|x: StableId| sorted.contains(x) implies graph.nodes@.contains_key(x) by {
        if o2.contains(x) {
            assert(down.to_set().contains(x));
            assert(rest.contains(x));
        }
    }
    assert forall|x: StableId| cyc.contains(x) <==> graph.nodes@.contains_key(x) && on_ff_cycle(edges, x) by {
        if graph.nodes@.contains_key(x) && on_ff_cycle(edges, x) {
            if o1.contains(x) {
            } else {
                assert(rest.contains(x));
            }
        }
    }
    assert forall|p: int, k: StableId|
        #![trigger sorted[p], edges[k]]
        0 <= p < sorted.len() && edges.contains_key(k) && edges[k].kind == EdgeKind::Normal
            && edges[k].target.node_id == sorted[p] && sorted.contains(edges[k].source.node_id)
            implies sorted.take(p).contains(edges[k].source.node_id) by {
        let u = edges[k].source.node_id;
        let v = edges[k].target.node_id;
        if p < n1 {
            assert(sorted[p] == o1[p]);
            assert(o1.take(p).contains(u));
            let q = choose|q: int| 0 <= q < o1.take(p).len() && o1.take(p)[q] == u;
            assert(sorted.take(p)[q] == u);
        } else if o1.contains(u) {
            let q = choose|q: int| 0 <= q < o1.len() && o1[q] == u;
            assert(sorted.take(p)[q] == u);
        } else {
            assert(o2.contains(u));
            assert(down.to_set().contains(u));
            assert(sorted[p] == o2[p - n1]);
            assert(o2.contains(v));
            assert(down.to_set().contains(v));
            let i = choose|i: int| 0 <= i < es.len() && #[trigger] es[i] == (u, v);
            assert(es2.contains(es[i]));
            let i2 = choose|i2: int| 0 <= i2 < es2.len() && es2[i2] == es[i];
            assert(es2[i2].1 == o2[p - n1]);
            let o2p = o2.take(p - n1);
            assert(o2p.contains(u));
            let q = choose|q: int| 0 <= q < o2p.len() && o2p[q] == u;
            assert(sorted.take(p)[q + n1] == u);
        }
    }
}

/// Sorts the nodes of the graph topologically along the feed-forward edges
/// and returns the nodes that lie on feed-forward cycles as one group, in
/// increasing identifier order. The sort is Kahn's algorithm, starting from
/// the nodes without predecessors in increasing identifier order; the nodes
/// that a cycle feeds without lying on one follow, sorted the same way among
/// themselves.
#[verifier::spinoff_prover]
#[verifier::rlimit(60)]
pub fn topological_sort(graph: &Graph) -> (r: (Vec<StableId>, Vec<Vec<StableId>>))
    requires
        normal_edges_connect_nodes(*graph),
    ensures
        r.0@.no_duplicates(),
        forall|x: StableId| r.0@.contains(x) ==> graph.nodes@.contains_key(x),
        ff_ordered(r.0@, graph.edges@),
        forall|x: StableId| graph.nodes@.contains_key(x) ==> (r.0@.contains(x) <==> !on_ff_cycle(graph.edges@, x)),
        r.1@.len() <= 1,
        r.1@.len() == 0 <==> forall|x: StableId| graph.nodes@.contains_key(x) ==> !on_ff_cycle(graph.edges@, x),
        r.1@.len() == 1 ==> increasing(r.1@[0]@),
        r.1@.len() == 1 ==> forall|x: StableId|
            r.1@[0]@.contains(x) <==> graph.nodes@.contains_key(x) && on_ff_cycle(graph.edges@, x),
{
    let ghost dom = graph.nodes@.dom();
    let ghost step = ff_step(graph.edges@);
    let ks = sorted_keys(&graph.nodes);
    let es = collect_normal_pairs(&graph.edges);
    proof {
        lemma_pairs_connect(*graph, es@);
        assert forall|a: StableId, b: StableId| #[trigger] step(a, b) <==> exists|i: int| 0 <= i < es@.len() && es@[i] == (a, b) by {
            if step(a, b) {
                let k = choose|k: StableId|
                    #[trigger] graph.edges@.contains_key(k) && graph.edges@[k].kind == EdgeKind::Normal
                        && graph.edges@[k].source.node_id == a && graph.edges@[k].target.node_id == b;
                let i = choose|i: int| 0 <= i < es@.len() && #[trigger] es@[i] == (graph.edges@[k].source.node_id, graph.edges@[k].target.node_id);
            }
            if exists|i: int| 0 <= i < es@.len() && es@[i] == (a, b) {
                let i = choose|i: int| 0 <= i < es@.len() && es@[i] == (a, b);
                assert(normal_edge(graph.edges@, es@[i].0, es@[i].1));
            }
        }
    }
    let (order, rest) = kahn(&ks, &es, Ghost(dom));
    proof {
        assert forall|p: int, k: StableId|
            #![trigger order@[p], graph.edges@[k]]
            0 <= p < order@.len() && graph.edges@.contains_key(k) && graph.edges@[k].kind == EdgeKind::Normal
                && graph.edges@[k].target.node_id == order@[p] implies order@.take(p).contains(graph.edges@[k].source.node_id) by {
            let i = choose|i: int| 0 <= i < es@.len() && #[trigger] es@[i] == (graph.edges@[k].source.node_id, graph.edges@[k].target.node_id);
        }
        assert(preds_first(order@, graph.edges@));
    }
    let (mut indeg, mut adj) = zero_counts(&ks, Ghost(dom));
    count_edges(&es, &mut indeg, &mut adj, Ghost(dom));
    let (cyc, down, mark) = split_on_cycle(&rest, &adj, &ks, Ghost(es@), Ghost(dom), Ghost(step));
    let es2 = pairs_within(&es, &mark);
    let ghost dom2 = down@.to_set();
    proof {
        assert forall|i: int| 0 <= i < es2@.len() implies dom2.contains((#[trigger] es2@[i]).0) && dom2.contains(es2@[i].1) by {
            assert(mark@.contains_key(es2@[i].0));
            assert(mark@.contains_key(es2@[i].1));
        }
    }
    let (order2, _rest2) = kahn(&down, &es2, Ghost(dom2));
    proof {
        assert forall|z: StableId| down@.contains(z) implies !reaches(step, z, z) by {}
        assert forall|i: int| 0 <= i < es2@.len() implies es@.contains(#[trigger] es2@[i]) && down@.contains(es2@[i].0) by {
            assert(mark@.contains_key(es2@[i].0));
        }
        lemma_second_pass_complete(step, es@, es2@, down@, order2@);
    }
    let ghost o1 = order@;
    let ghost o2 = order2@;
    let mut sorted = order;
    let mut tail = order2;
    sorted.append(&mut tail);
    proof {
        lemma_sorted_parts(*graph, step, es@, es2@, o1, o2, rest@, down@, cyc@, sorted@);
    }
    let mut cycles: Vec<Vec<StableId>> = Vec::new();
    if cyc.len() > 0 {
        proof {
            assert(cyc@.contains(cyc@[0]));
        }
        cycles.push(cyc);
    }
    (sorted, cycles)
}

// ──────────────────────────────────────────────
// Upstream nodes and subgraphs
// ──────────────────────────────────────────────

/// The set holds the source of every feed-forward edge into one of its members.
pub open spec fn closed_upstream(edges: Map<StableId, Edge>, s: Set<StableId>) -> bool {
    forall|k: StableId|
        #[trigger] edges.contains_key(k) && edges[k].kind == EdgeKind::Normal && s.contains(edges[k].target.node_id)
            ==> s.contains(edges[k].source.node_id)
}

/// A feed-forward edge runs from `x` into `current`.
spec fn feeds(em: Map<StableId, Edge>, x: StableId, current: StableId) -> bool {
    exists|k: StableId|
        #[trigger] em.contains_key(k) && em[k].kind == EdgeKind::Normal && em[k].target.node_id == current
            && em[k].source.node_id == x
}

/// The node and everything upstream of it along feed-forward edges (the
/// sources of edges into it, their sources, and so on); feedback edges are
/// not followed.
pub fn get_upstream_nodes(graph: &Graph, target_node: StableId) -> (r: HashSet<StableId>)
    ensures
        r@.contains(target_node),
        closed_upstream(graph.edges@, r@),
        forall|s: Set<StableId>| s.contains(target_node) && #[trigger] closed_upstream(graph.edges@, s) ==> r@.subset_of(s),
{
    broadcast use vstd::std_specs::hash::group_hash_axioms;
    let ks = sorted_keys(&graph.edges);
    let ghost em = graph.edges@;
    let ghost cands = ks@.map_values(|k: StableId| em[k].source.node_id).to_set().insert(target_node);
    proof {
        vstd::seq_lib::seq_to_set_is_finite(ks@.map_values(|k: StableId| em[k].source.node_id));
        assert(cands.finite());
    }
    let mut upstream: HashSet<StableId> = HashSet::new();
    let mut stack: Vec<StableId> = Vec::new();
    stack.push(target_node);
    proof {
        assert(stack@[0] == target_node);
        assert(stack@.contains(target_node));
        assert(upstream@ =~= Set::<StableId>::empty());
    }
    while stack.len() > 0
        invariant
            em == graph.edges@,
            enumerates(ks@, em.dom()),
            cands == ks@.map_values(|k: StableId| em[k].source.node_id).to_set().insert(target_node),
            cands.finite(),
            upstream@.subset_of(cands),
            forall|x: StableId| stack@.contains(x) ==> cands.contains(x),
            upstream@.contains(target_node) || stack@.contains(target_node),
            forall|k: StableId|
                #[trigger] em.contains_key(k) && em[k].kind == EdgeKind::Normal && upstream@.contains(em[k].target.node_id)
                    ==> upstream@.contains(em[k].source.node_id) || stack@.contains(em[k].source.node_id),
            forall|s: Set<StableId>|
                s.contains(target_node) && #[trigger] closed_upstream(em, s) ==> upstream@.subset_of(s)
                    && forall|x: StableId| stack@.contains(x) ==> s.contains(x),
        decreases cands.difference(upstream@).len(), stack@.len(),
    {
        let ghost st0 = stack@;
        let ghost up0 = upstream@;
        let current = match stack.pop() {
            Some(c) => c,
            None => target_node,
        };
        proof {
            assert(st0 =~= stack@.push(current));
            assert forall|x: StableId| st0.contains(x) <==> (stack@.contains(x) || x == current) by {
                broadcast use vstd::seq_lib::group_seq_properties;
            }
        }
        let is_new = upstream.insert(current);
        if is_new {
            proof {
                assert(cands.difference(upstream@) =~= cands.difference(up0).remove(current));
                vstd::set_lib::lemma_len_subset(cands.difference(up0), cands);
            }
            let ghost st1 = stack@;
            let mut i: usize = 0;
            while i < ks.len()
                invariant
                    em == graph.edges@,
                    enumerates(ks@, em.dom()),
                    cands == ks@.map_values(|k: StableId| em[k].source.node_id).to_set().insert(target_node),
                    i <= ks@.len(),
                    stack@.len() >= st1.len(),
                    stack@.take(st1.len() as int) == st1,
                    forall|j: int| st1.len() <= j < stack@.len() ==> feeds(em, #[trigger] stack@[j], current),
                    forall|k: StableId|
                        ks@.take(i as int).contains(k) && #[trigger] em[k].kind == EdgeKind::Normal && em[k].target.node_id == current
                            ==> stack@.contains(em[k].source.node_id),
                decreases ks@.len() - i,
            {
                let k = ks[i];
                proof {
                    assert(ks@.contains(k));
                    assert(ks@.take(i + 1) =~= ks@.take(i as int).push(k));
                }
                let ghost sb = stack@;
                match graph.edges.get(&k) {
                    Some(e) => {
                        if e.target.node_id == current && e.kind == EdgeKind::Normal {
                            stack.push(e.source.node_id);
                            proof {
                                assert(em.contains_key(k) && em[k] == *e);
                                assert(stack@[sb.len() as int] == em[k].source.node_id);
                                assert forall|j: int| st1.len() <= j < stack@.len() implies feeds(em, #[trigger] stack@[j], current) by {
                                    if j < sb.len() {
                                        assert(stack@[j] == sb[j]);
                                    } else {
                                        assert(j == sb.len());
                                        assert(em.contains_key(k) && em[k].kind == EdgeKind::Normal && em[k].target.node_id == current
                                            && em[k].source.node_id == stack@[j]);
                                    }
                                }
                            }
                        }
                    },
                    None => {},
                }
                proof {
                    assert(stack@.take(st1.len() as int) =~= st1);
                    assert forall|q: StableId| ks@.take(i + 1).contains(q) <==> (ks@.take(i as int).contains(q) || q == k) by {
                        broadcast use vstd::seq_lib::group_seq_properties;
                    }
                    assert forall|x: StableId| sb.contains(x) ==> stack@.contains(x) by {
                        if sb.contains(x) {
                            let p = choose|p: int| 0 <= p < sb.len() && sb[p] == x;
                            assert(stack@[p] == x);
                        }
                    }
                    if stack@.len() > sb.len() {
                        assert(stack@[sb.len() as int] == em[k].source.node_id);
                    }
                    assert forall|j: int| st1.len() <= j < stack@.len() implies feeds(em, #[trigger] stack@[j], current) by {
                        if j < sb.len() {
                            assert(stack@[j] == sb[j]);
                        }
                    }
                }
                i = i + 1;
            }
            proof {
                assert(ks@.take(ks@.len() as int) =~= ks@);
                let sm = ks@.map_values(|k: StableId| em[k].source.node_id);
                assert forall|x: StableId| stack@.contains(x) implies cands.contains(x) by {
                    let j = choose|j: int| 0 <= j < stack@.len() && stack@[j] == x;
                    if j < st1.len() {
                        assert(stack@.take(st1.len() as int)[j] == x);
                        assert(st1.contains(x));
                    } else {
                        assert(feeds(em, stack@[j], current));
                        let kk = choose|kk: StableId| #[trigger] em.contains_key(kk) && em[kk].kind == EdgeKind::Normal
                            && em[kk].target.node_id == current && em[kk].source.node_id == stack@[j];
                        assert(ks@.contains(kk));
                        let p = choose|p: int| 0 <= p < ks@.len() && ks@[p] == kk;
                        assert(sm[p] == x);
                        assert(sm.to_set().contains(x));
                    }
                }
                assert forall|x: StableId| st1.contains(x) implies stack@.contains(x) by {
                    let p = choose|p: int| 0 <= p < st1.len() && st1[p] == x;
                    assert(stack@.take(st1.len() as int)[p] == x);
                }
                assert forall|s: Set<StableId>| s.contains(target_node) && #[trigger] closed_upstream(em, s)
                    implies upstream@.subset_of(s) && forall|x: StableId| stack@.contains(x) ==> s.contains(x) by {
                    assert(st0.contains(current));
                    assert forall|x: StableId| stack@.contains(x) implies s.contains(x) by {
                        let j = choose|j: int| 0 <= j < stack@.len() && stack@[j] == x;
                        if j < st1.len() {
                            assert(stack@.take(st1.len() as int)[j] == x);
                            assert(st1.contains(x));
                        } else {
                            assert(feeds(em, stack@[j], current));
                            let kk = choose|kk: StableId| #[trigger] em.contains_key(kk) && em[kk].kind == EdgeKind::Normal
                                && em[kk].target.node_id == current && em[kk].source.node_id == stack@[j];
                        }
                    }
                }
                assert forall|k: StableId|
                    #[trigger] em.contains_key(k) && em[k].kind == EdgeKind::Normal && upstream@.contains(em[k].target.node_id)
                    implies upstream@.contains(em[k].source.node_id) || stack@.contains(em[k].source.node_id) by {
                    if em[k].target.node_id == current {
                        assert(ks@.contains(k));
                    } else if up0.contains(em[k].source.node_id) {
                    } else {
                        assert(st0.contains(em[k].source.node_id));
                        if em[k].source.node_id != current {
                            assert(st1.contains(em[k].source.node_id));
                        }
                    }
                }
            }
        } else {
            proof {
                assert(upstream@ =~= up0);
                assert forall|k: StableId|
                    #[trigger] em.contains_key(k) && em[k].kind == EdgeKind::Normal && upstream@.contains(em[k].target.node_id)
                    implies upstream@.contains(em[k].source.node_id) || stack@.contains(em[k].source.node_id) by {
                    if !up0.contains(em[k].source.node_id) {
                        assert(st0.contains(em[k].source.node_id));
                    }
                }
            }
        }
    }
    proof {
        assert forall|k: StableId|
            #[trigger] em.contains_key(k) && em[k].kind == EdgeKind::Normal && upstream@.contains(em[k].target.node_id)
            implies upstream@.contains(em[k].source.node_id) by {
            assert(!stack@.contains(em[k].source.node_id));
        }
    }
    upstream
}

/// A new graph whose mirror tables hold the listed nodes of this graph's
/// mirror tables, the edges between two of them, and the modulations from one
/// of them to another. Its topology and lineage are those of an empty graph.
pub fn clone_subgraph(graph: &Graph, node_ids: &HashSet<StableId>) -> (r: Graph)
    ensures
        r.nodes@.dom() == graph.nodes@.dom().intersect(node_ids@),
        forall|k: StableId| #[trigger] r.nodes@.contains_key(k) ==> r.nodes@[k]@ == graph.nodes@[k]@,
        r.edges@ == Map::new(
            |k: StableId|
                graph.edges@.contains_key(k) && node_ids@.contains(graph.edges@[k].source.node_id)
                    && node_ids@.contains(graph.edges@[k].target.node_id),
            |k: StableId| graph.edges@[k],
        ),
        r.modulations@ == Map::new(
            |k: StableId|
                graph.modulations@.contains_key(k) && node_ids@.contains(graph.modulations@[k].source.node_id)
                    && node_ids@.contains(graph.modulations@[k].target_node),
            |k: StableId| graph.modulations@[k],
        ),
        r.topology.nodes@ == Map::<StableId, Node>::empty(),
        r.topology.edges@ == Map::<StableId, Edge>::empty(),
        r.topology.modulations@ == Map::<StableId, Modulation>::empty(),
        r.lineage.applied_patches@ == Seq::<StableId>::empty(),
        r.revision.0 == 0,
{
    broadcast use vstd::std_specs::hash::group_hash_axioms;
    let mut new_graph = Graph::new();
    let nk = sorted_keys(&graph.nodes);
    let mut i: usize = 0;
    while i < nk.len()
        invariant
            enumerates(nk@, graph.nodes@.dom()),
            i <= nk@.len(),
            new_graph.nodes@.dom() == graph.nodes@.dom().intersect(node_ids@).intersect(nk@.take(i as int).to_set()),
            forall|k: StableId| #[trigger] new_graph.nodes@.contains_key(k) ==> new_graph.nodes@[k]@ == graph.nodes@[k]@,
            new_graph.edges@ == Map::<StableId, Edge>::empty(),
            new_graph.modulations@ == Map::<StableId, Modulation>::empty(),
            new_graph.topology.nodes@ == Map::<StableId, Node>::empty(),
            new_graph.topology.edges@ == Map::<StableId, Edge>::empty(),
            new_graph.topology.modulations@ == Map::<StableId, Modulation>::empty(),
            new_graph.lineage.applied_patches@ == Seq::<StableId>::empty(),
            new_graph.revision.0 == 0,
        decreases nk@.len() - i,
    {
        let k = nk[i];
        proof {
            assert(nk@.contains(k));
            assert(nk@.take(i + 1) =~= nk@.take(i as int).push(k));
            assert(nk@.take(i + 1).to_set() =~= nk@.take(i as int).to_set().insert(k)) by {
                broadcast use vstd::seq_lib::group_seq_properties;
            }
        }
        if node_ids.contains(&k) {
            match graph.nodes.get(&k) {
                Some(n) => {
                    new_graph.nodes.insert(k, n.clone());
                },
                None => {},
            }
        }
        proof {
            assert(new_graph.nodes@.dom() =~= graph.nodes@.dom().intersect(node_ids@).intersect(nk@.take(i + 1).to_set()));
        }
        i = i + 1;
    }
    proof {
        assert(nk@.take(nk@.len() as int) =~= nk@);
        assert(new_graph.nodes@.dom() =~= graph.nodes@.dom().intersect(node_ids@));
    }
    let ek = sorted_keys(&graph.edges);
    proof {
        assert(ek@.take(0).to_set() =~= Set::<StableId>::empty());
    }
    let ghost want_e = Map::new(
        |k: StableId|
            graph.edges@.contains_key(k) && node_ids@.contains(graph.edges@[k].source.node_id)
                && node_ids@.contains(graph.edges@[k].target.node_id),
        |k: StableId| graph.edges@[k],
    );
    let mut j: usize = 0;
    while j < ek.len()
        invariant
            enumerates(ek@, graph.edges@.dom()),
            want_e == Map::new(
                |k: StableId|
                    graph.edges@.contains_key(k) && node_ids@.contains(graph.edges@[k].source.node_id)
                        && node_ids@.contains(graph.edges@[k].target.node_id),
                |k: StableId| graph.edges@[k],
            ),
            j <= ek@.len(),
            new_graph.edges@ == want_e.restrict(ek@.take(j as int).to_set()),
            new_graph.nodes@.dom() == graph.nodes@.dom().intersect(node_ids@),
            forall|k: StableId| #[trigger] new_graph.nodes@.contains_key(k) ==> new_graph.nodes@[k]@ == graph.nodes@[k]@,
            new_graph.modulations@ == Map::<StableId, Modulation>::empty(),
            new_graph.topology.nodes@ == Map::<StableId, Node>::empty(),
            new_graph.topology.edges@ == Map::<StableId, Edge>::empty(),
            new_graph.topology.modulations@ == Map::<StableId, Modulation>::empty(),
            new_graph.lineage.applied_patches@ == Seq::<StableId>::empty(),
            new_graph.revision.0 == 0,
        decreases ek@.len() - j,
    {
        let k = ek[j];
        proof {
            assert(ek@.contains(k));
            assert(ek@.take(j + 1) =~= ek@.take(j as int).push(k));
            assert(ek@.take(j + 1).to_set() =~= ek@.take(j as int).to_set().insert(k)) by {
                broadcast use vstd::seq_lib::group_seq_properties;
            }
        }
        let ghost before = new_graph.edges@;
        match graph.edges.get(&k) {
            Some(e) => {
                proof {
                    assert(graph.edges@[k] == *e);
                }
                if node_ids.contains(&e.source.node_id) && node_ids.contains(&e.target.node_id) {
                    new_graph.edges.insert(k, e.clone());
                    proof {
                        assert(want_e.contains_key(k));
                        assert(new_graph.edges@ == before.insert(k, want_e[k]));
                    }
                } else {
                    proof {
                        assert(!want_e.contains_key(k));
                    }
                }
            },
            None => {},
        }
        proof {
            assert(new_graph.edges@ =~= want_e.restrict(ek@.take(j + 1).to_set()));
        }
        j = j + 1;
    }
    proof {
        assert(ek@.take(ek@.len() as int) =~= ek@);
        assert(new_graph.edges@ =~= want_e);
    }
    let mk = sorted_keys(&graph.modulations);
    proof {
        assert(mk@.take(0).to_set() =~= Set::<StableId>::empty());
    }
    let ghost want_m = Map::new(
        |k: StableId|
            graph.modulations@.contains_key(k) && node_ids@.contains(graph.modulations@[k].source.node_id)
                && node_ids@.contains(graph.modulations@[k].target_node),
        |k: StableId| graph.modulations@[k],
    );
    let mut q: usize = 0;
    while q < mk.len()
        invariant
            enumerates(mk@, graph.modulations@.dom()),
            want_m == Map::new(
                |k: StableId|
                    graph.modulations@.contains_key(k) && node_ids@.contains(graph.modulations@[k].source.node_id)
                        && node_ids@.contains(graph.modulations@[k].target_node),
                |k: StableId| graph.modulations@[k],
            ),
            q <= mk@.len(),
            new_graph.modulations@ == want_m.restrict(mk@.take(q as int).to_set()),
            new_graph.edges@ == want_e,
            new_graph.nodes@.dom() == graph.nodes@.dom().intersect(node_ids@),
            forall|k: StableId| #[trigger] new_graph.nodes@.contains_key(k) ==> new_graph.nodes@[k]@ == graph.nodes@[k]@,
            new_graph.topology.nodes@ == Map::<StableId, Node>::empty(),
            new_graph.topology.edges@ == Map::<StableId, Edge>::empty(),
            new_graph.topology.modulations@ == Map::<StableId, Modulation>::empty(),
            new_graph.lineage.applied_patches@ == Seq::<StableId>::empty(),
            new_graph.revision.0 == 0,
        decreases mk@.len() - q,
    {
        let k = mk[q];
        proof {
            assert(mk@.contains(k));
            assert(mk@.take(q + 1) =~= mk@.take(q as int).push(k));
            assert(mk@.take(q + 1).to_set() =~= mk@.take(q as int).to_set().insert(k)) by {
                broadcast use vstd::seq_lib::group_seq_properties;
            }
        }
        let ghost before = new_graph.modulations@;
        match graph.modulations.get(&k) {
            Some(m) => {
                proof {
                    assert(graph.modulations@[k] == *m);
                }
                if node_ids.contains(&m.source.node_id) && node_ids.contains(&m.target_node) {
                    new_graph.modulations.insert(k, m.clone());
                    proof {
                        assert(want_m.contains_key(k));
                        assert(new_graph.modulations@ == before.insert(k, want_m[k]));
                    }
                } else {
                    proof {
                        assert(!want_m.contains_key(k));
                    }
                }
            },
            None => {},
        }
        proof {
            assert(new_graph.modulations@ =~= want_m.restrict(mk@.take(q + 1).to_set()));
        }
        q = q + 1;
    }
    proof {
        assert(mk@.take(mk@.len() as int) =~= mk@);
        assert(new_graph.modulations@ =~= want_m);
    }
    new_graph
}

} // verus!
