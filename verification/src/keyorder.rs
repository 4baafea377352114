//! Identifiers in increasing order, the order in which a `BTreeMap` yields them.
use vstd::prelude::*;
use std::collections::BTreeMap;
use vstd::std_specs::iter::IteratorSpec;
use vstd::std_specs::cmp::OrdSpec;

verus! {

broadcast use vstd::laws_cmp::group_laws_cmp;

/// Strictly increasing.
pub open spec fn increasing(ks: Seq<u128>) -> bool {
    forall|i: int, j: int| 0 <= i < j < ks.len() ==> #[trigger] ks[i] < #[trigger] ks[j]
}

/// `ks` lists the elements of `d` in increasing order.
pub open spec fn enumerates(ks: Seq<u128>, d: Set<u128>) -> bool {
    &&& increasing(ks)
    &&& forall|k: u128| d.contains(k) <==> ks.contains(k)
}

/// The elements of a finite set of identifiers in increasing order.
pub open spec fn key_order(d: Set<u128>) -> Seq<u128> {
    choose|ks: Seq<u128>| enumerates(ks, d)
}

/// At most one sequence lists a set in increasing order.
pub proof fn lemma_enumerates_unique(a: Seq<u128>, b: Seq<u128>, d: Set<u128>)
    requires
        enumerates(a, d),
        enumerates(b, d),
    ensures
        a == b,
    decreases a.len() + b.len(),
{
    if a.len() == 0 {
        if b.len() > 0 {
            assert(b.contains(b[0]));
        }
        assert(a =~= b);
    } else if b.len() == 0 {
        assert(a.contains(a[0]));
    } else {
        let x = a.last();
        let y = b.last();
        assert(a.contains(x));
        assert(b.contains(y));
        assert(b.contains(x));
        assert(a.contains(y));
        let i = choose|i: int| 0 <= i < a.len() && a[i] == y;
        let j = choose|j: int| 0 <= j < b.len() && b[j] == x;
        if x < y {
            assert(j < b.len() - 1 || b[j] == y);
        } else if y < x {
            assert(i < a.len() - 1 || a[i] == x);
        }
        assert(x == y);
        let d2 = d.remove(x);
        assert forall|k: u128| d2.contains(k) <==> a.drop_last().contains(k) by {
            if a.drop_last().contains(k) {
                let p = choose|p: int| 0 <= p < a.drop_last().len() && a.drop_last()[p] == k;
                assert(a[p] == k);
                assert(a[p] < a[a.len() - 1]);
            }
            if d2.contains(k) {
                assert(a.contains(k));
                let p = choose|p: int| 0 <= p < a.len() && a[p] == k;
                assert(p != a.len() - 1);
                assert(a.drop_last()[p] == k);
            }
        }
        assert forall|k: u128| d2.contains(k) <==> b.drop_last().contains(k) by {
            if b.drop_last().contains(k) {
                let p = choose|p: int| 0 <= p < b.drop_last().len() && b.drop_last()[p] == k;
                assert(b[p] == k);
                assert(b[p] < b[b.len() - 1]);
            }
            if d2.contains(k) {
                assert(b.contains(k));
                let p = choose|p: int| 0 <= p < b.len() && b[p] == k;
                assert(p != b.len() - 1);
                assert(b.drop_last()[p] == k);
            }
        }
        lemma_enumerates_unique(a.drop_last(), b.drop_last(), d2);
        assert(a =~= a.drop_last().push(x));
        assert(b =~= b.drop_last().push(y));
    }
}

/// Once some sequence lists `d` in increasing order, `key_order(d)` is it.
pub proof fn lemma_key_order(ks: Seq<u128>, d: Set<u128>)
    requires
        enumerates(ks, d),
    ensures
        key_order(d) == ks,
{
    lemma_enumerates_unique(key_order(d), ks, d);
}

/// The keys of a map, in increasing order.
pub fn sorted_keys<V>(m: &BTreeMap<u128, V>) -> (ks: Vec<u128>)
    ensures
        ks@ == key_order(m@.dom()),
        enumerates(ks@, m@.dom()),
{
    broadcast use vstd::std_specs::btree::group_btree_axioms;
    let mut ks: Vec<u128> = Vec::new();
    let iter = m.iter();
    let ghost rem = iter.remaining();
    let ghost keys = rem.map_values(|kv: (&u128, &V)| *kv.0);
    proof {
        assert(vstd::std_specs::btree::increasing_seq(keys));
        assert(rem.len() == m@.dom().len());
    }
    for kv in it: iter
        invariant
            it.seq() == rem,
            ks@.len() == it.index(),
            forall|i: int| 0 <= i < ks@.len() ==> ks@[i] == *(#[trigger] it.seq()[i]).0,
    {
        ks.push(*kv.0);
    }
    proof {
        assert(ks@ =~= keys);
        assert forall|i: int, j: int| 0 <= i < j < ks@.len() implies #[trigger] ks@[i] < #[trigger] ks@[j] by {
            assert(keys[i].cmp_spec(&keys[j]) is Less);
        }
        assert forall|k: u128| m@.dom().contains(k) <==> ks@.contains(k) by {
            if m@.dom().contains(k) {
                assert(rem.contains((&k, &m@[k])));
                let p = choose|p: int| 0 <= p < rem.len() && rem[p] == (&k, &m@[k]);
                assert(keys[p] == k);
            }
            if ks@.contains(k) {
                let p = choose|p: int| 0 <= p < ks@.len() && ks@[p] == k;
                assert(m@.contains_key(*rem[p].0));
            }
        }
        lemma_key_order(ks@, m@.dom());
    }
    ks
}


/// A finite non-empty set of identifiers has a greatest element.
proof fn lemma_max_exists(d: Set<u128>) -> (m: u128)
    requires
        d.finite(),
        d.len() > 0,
    ensures
        d.contains(m),
        forall|k: u128| d.contains(k) ==> k <= m,
    decreases d.len(),
{
    let a = d.choose();
    let rest = d.remove(a);
    if rest.len() == 0 {
        assert forall|k: u128| d.contains(k) implies k <= a by {
            if k != a {
                assert(rest.contains(k));
            }
        }
        a
    } else {
        let m2 = lemma_max_exists(rest);
        if a < m2 {
            m2
        } else {
            a
        }
    }
}

/// Every finite set of identifiers is listed in increasing order by `key_order`.
pub proof fn lemma_key_order_exists(d: Set<u128>)
    requires
        d.finite(),
    ensures
        enumerates(key_order(d), d),
    decreases d.len(),
{
    if d.len() == 0 {
        let e = Seq::<u128>::empty();
        assert forall|k: u128| d.contains(k) <==> e.contains(k) by {
            if d.contains(k) {
                assert(d.remove(k).len() < d.len());
            }
        }
        lemma_key_order(e, d);
    } else {
        let m = lemma_max_exists(d);
        let rest = d.remove(m);
        lemma_key_order_exists(rest);
        let ks = key_order(rest);
        let full = ks.push(m);
        assert forall|i: int, j: int| 0 <= i < j < full.len() implies #[trigger] full[i] < #[trigger] full[j] by {
            if j == full.len() - 1 {
                assert(ks.contains(ks[i]));
                assert(rest.contains(ks[i]));
            } else {
                assert(full[i] == ks[i] && full[j] == ks[j]);
            }
        }
        assert forall|k: u128| d.contains(k) <==> full.contains(k) by {
            if d.contains(k) && k != m {
                assert(rest.contains(k));
                let p = choose|p: int| 0 <= p < ks.len() && ks[p] == k;
                assert(full[p] == k);
            }
            if d.contains(k) && k == m {
                assert(full[full.len() - 1] == m);
            }
            if full.contains(k) {
                let p = choose|p: int| 0 <= p < full.len() && full[p] == k;
                if p < full.len() - 1 {
                    assert(ks[p] == k);
                    assert(ks.contains(k));
                }
            }
        }
        lemma_key_order(full, d);
    }
}

} // verus!
