//! An ordered map with string keys, kept sorted by key.
//!
//! Keys are ordered the way `str` orders them: lexicographically by bytes,
//! which for UTF-8 is the same as lexicographically by code point.
use vstd::prelude::*;

verus! {

/// Strict lexicographic order on character sequences, by code point.
pub open spec fn chars_lt(a: Seq<char>, b: Seq<char>) -> bool
    decreases a.len(),
{
    if a.len() == 0 {
        b.len() > 0
    } else if b.len() == 0 {
        false
    } else if (a[0] as int) < (b[0] as int) {
        true
    } else if a[0] == b[0] {
        chars_lt(a.drop_first(), b.drop_first())
    } else {
        false
    }
}

pub proof fn lemma_chars_lt_irreflexive(a: Seq<char>)
    ensures
        !chars_lt(a, a),
    decreases a.len(),
{
    if a.len() > 0 {
        lemma_chars_lt_irreflexive(a.drop_first());
    }
}

pub proof fn lemma_chars_lt_transitive(a: Seq<char>, b: Seq<char>, c: Seq<char>)
    requires
        chars_lt(a, b),
        chars_lt(b, c),
    ensures
        chars_lt(a, c),
    decreases a.len(),
{
    if a.len() > 0 && b.len() > 0 && c.len() > 0 {
        if a[0] == b[0] && b[0] == c[0] {
            lemma_chars_lt_transitive(a.drop_first(), b.drop_first(), c.drop_first());
        }
    }
}

pub proof fn lemma_chars_lt_total(a: Seq<char>, b: Seq<char>)
    ensures
        a == b || chars_lt(a, b) || chars_lt(b, a),
    decreases a.len(),
{
    if a.len() > 0 && b.len() > 0 {
        if a[0] == b[0] {
            lemma_chars_lt_total(a.drop_first(), b.drop_first());
            if a.drop_first() == b.drop_first() {
                assert(a =~= seq![a[0]] + a.drop_first());
                assert(b =~= seq![b[0]] + b.drop_first());
            }
        } else {
            assert((a[0] as int) != (b[0] as int));
        }
    } else if a.len() == 0 && b.len() == 0 {
        assert(a =~= b);
    }
}

pub proof fn lemma_chars_lt_asymmetric(a: Seq<char>, b: Seq<char>)
    ensures
        !(chars_lt(a, b) && chars_lt(b, a)),
{
    if chars_lt(a, b) && chars_lt(b, a) {
        lemma_chars_lt_transitive(a, b, a);
        lemma_chars_lt_irreflexive(a);
    }
}

/// The characters of a string, in order.
pub fn chars_of(s: &str) -> (v: Vec<char>)
    ensures
        v@ == s@,
{
    broadcast use vstd::string::group_string_axioms;
    let mut v: Vec<char> = Vec::new();
    for c in it: s.chars()
        invariant
            v@.len() == it.index(),
            forall|i: int| 0 <= i < v@.len() ==> v@[i] == it.seq()[i],
    {
        v.push(c);
    }
    assert(v@ =~= s@);
    v
}

/// `(a < b)` on strings, by code point.
pub fn chars_less(a: &Vec<char>, b: &Vec<char>) -> (r: bool)
    ensures
        r == chars_lt(a@, b@),
{
    let mut i: usize = 0;
    assert(a@.skip(0) =~= a@);
    assert(b@.skip(0) =~= b@);
    while i < a.len() && i < b.len()
        invariant
            i <= a@.len(),
            i <= b@.len(),
            chars_lt(a@, b@) == chars_lt(a@.skip(i as int), b@.skip(i as int)),
        decreases a@.len() - i,
    {
        let x = a[i];
        let y = b[i];
        assert(a@.skip(i as int)[0] == x);
        assert(b@.skip(i as int)[0] == y);
        assert(a@.skip(i as int).len() > 0 && b@.skip(i as int).len() > 0);
        if x < y {
            return true;
        }
        if x != y {
            return false;
        }
        assert(a@.skip(i as int).drop_first() =~= a@.skip(i + 1));
        assert(b@.skip(i as int).drop_first() =~= b@.skip(i + 1));
        i = i + 1;
    }
    i == a.len() && i < b.len()
}

/// Three-way comparison of two strings: -1, 0 or 1.
pub fn chars_order(a: &Vec<char>, b: &Vec<char>) -> (r: i8)
    ensures
        r == -1 <==> chars_lt(a@, b@),
        r == 1 <==> chars_lt(b@, a@),
        r == 0 <==> a@ == b@,
        r == -1 || r == 0 || r == 1,
{
    proof {
        lemma_chars_lt_total(a@, b@);
        lemma_chars_lt_asymmetric(a@, b@);
        lemma_chars_lt_irreflexive(a@);
    }
    if chars_less(a, b) {
        -1
    } else if chars_less(b, a) {
        1
    } else {
        0
    }
}

/// Keys strictly increasing.
pub open spec fn keys_sorted<V>(s: Seq<(String, V)>) -> bool {
    forall|i: int, j: int| 0 <= i < j < s.len() ==> chars_lt(#[trigger] s[i].0@, #[trigger] s[j].0@)
}

/// Whether `k` is one of the keys of an entry sequence.
pub open spec fn has_key<V>(s: Seq<(String, V)>, k: Seq<char>) -> bool {
    exists|i: int| 0 <= i < s.len() && #[trigger] s[i].0@ == k
}

/// The value stored under `k`, when `k` occurs.
pub open spec fn key_index<V>(s: Seq<(String, V)>, k: Seq<char>) -> int {
    choose|i: int| 0 <= i < s.len() && #[trigger] s[i].0@ == k
}

/// The value stored under `k`, when `k` occurs.
pub open spec fn value_of<V>(s: Seq<(String, V)>, k: Seq<char>) -> V {
    s[key_index(s, k)].1
}

/// The map that an entry sequence with distinct keys stands for.
pub open spec fn entries_map<V>(s: Seq<(String, V)>) -> Map<Seq<char>, V> {
    Map::new(|k: Seq<char>| has_key(s, k), |k: Seq<char>| value_of(s, k))
}

pub proof fn lemma_sorted_unique<V>(s: Seq<(String, V)>, i: int, j: int)
    requires
        keys_sorted(s),
        0 <= i < s.len(),
        0 <= j < s.len(),
        s[i].0@ == s[j].0@,
    ensures
        i == j,
{
    if i < j {
        lemma_chars_lt_irreflexive(s[i].0@);
    } else if j < i {
        lemma_chars_lt_irreflexive(s[i].0@);
    }
}

pub proof fn lemma_entries_map_index<V>(s: Seq<(String, V)>, i: int)
    requires
        keys_sorted(s),
        0 <= i < s.len(),
    ensures
        entries_map(s).contains_key(s[i].0@),
        entries_map(s)[s[i].0@] == s[i].1,
{
    let k = s[i].0@;
    assert(has_key(s, k));
    let j = key_index(s, k);
    lemma_sorted_unique(s, i, j);
    assert(entries_map(s).contains_key(k));
    assert(entries_map(s)[k] == value_of(s, k));
}

/// An ordered map from strings to values.
#[derive(Debug)]
pub struct StrMap<V> {
    entries: Vec<(String, V)>,
}

/// An entry sequence with distinct keys stands for exactly the map that agrees
/// with each entry and has no other key.
pub proof fn lemma_entries_map_eq<V>(s: Seq<(String, V)>, m: Map<Seq<char>, V>)
    requires
        keys_sorted(s),
        forall|i: int|
            0 <= i < s.len() ==> m.contains_key(#[trigger] s[i].0@) && m[s[i].0@] == s[i].1,
        forall|q: Seq<char>| #[trigger] m.contains_key(q) ==> has_key(s, q),
    ensures
        entries_map(s) == m,
{
    assert forall|q: Seq<char>| entries_map(s).contains_key(q) <==> m.contains_key(q) by {
        if has_key(s, q) {
            let j = key_index(s, q);
            lemma_entries_map_index(s, j);
        }
    }
    assert forall|q: Seq<char>| #[trigger] entries_map(s).contains_key(q) implies entries_map(s)[q]
        == m[q] by {
        let j = key_index(s, q);
        lemma_entries_map_index(s, j);
    }
    assert(entries_map(s) =~= m);
}

pub proof fn lemma_drop_last_dom<V>(s: Seq<(String, V)>)
    requires
        keys_sorted(s),
        s.len() > 0,
    ensures
        entries_map(s.drop_last()).dom() == entries_map(s).dom().remove(s.last().0@),
        keys_sorted(s.drop_last()),
{
    let t = s.drop_last();
    let k = s.last().0@;
    assert forall|q: Seq<char>| entries_map(t).dom().contains(q) <==> entries_map(s).dom().remove(
        k,
    ).contains(q) by {
        if has_key(t, q) {
            let j = key_index(t, q);
            assert(s[j].0@ == q);
            assert(has_key(s, q));
            lemma_chars_lt_irreflexive(q);
            assert(chars_lt(s[j].0@, s[s.len() - 1].0@));
        }
        if has_key(s, q) && q != k {
            let j = key_index(s, q);
            assert(j != s.len() - 1);
            assert(t[j].0@ == q);
        }
    }
    assert(entries_map(t).dom() =~= entries_map(s).dom().remove(k));
}

/// Two sorted entry sequences over the same key set have the same keys in the
/// same positions.
pub proof fn lemma_sorted_same_keys<V, W>(s1: Seq<(String, V)>, s2: Seq<(String, W)>)
    requires
        keys_sorted(s1),
        keys_sorted(s2),
        entries_map(s1).dom() == entries_map(s2).dom(),
    ensures
        s1.len() == s2.len(),
        forall|i: int| 0 <= i < s1.len() ==> (#[trigger] s1[i]).0@ == s2[i].0@,
    decreases s1.len() + s2.len(),
{
    if s1.len() == 0 {
        if s2.len() > 0 {
            assert(has_key(s2, s2[0].0@));
            assert(entries_map(s2).dom().contains(s2[0].0@));
        }
    } else if s2.len() == 0 {
        assert(has_key(s1, s1[0].0@));
        assert(entries_map(s1).dom().contains(s1[0].0@));
    } else {
        let n1 = s1.len() - 1;
        let n2 = s2.len() - 1;
        let k1 = s1[n1].0@;
        let k2 = s2[n2].0@;
        assert(has_key(s1, k1));
        assert(entries_map(s1).dom().contains(k1));
        assert(entries_map(s2).dom().contains(k1));
        let j = key_index(s2, k1);
        assert(has_key(s2, k2));
        assert(entries_map(s1).dom().contains(k2));
        let i = key_index(s1, k2);
        if k1 != k2 {
            if j < n2 {
                assert(chars_lt(k1, k2));
                if i < n1 {
                    assert(chars_lt(k2, k1));
                    lemma_chars_lt_asymmetric(k1, k2);
                }
            } else {
                assert(j == n2);
            }
        }
        lemma_drop_last_dom(s1);
        lemma_drop_last_dom(s2);
        lemma_sorted_same_keys(s1.drop_last(), s2.drop_last());
        assert forall|a: int| 0 <= a < s1.len() implies (#[trigger] s1[a]).0@ == s2[a].0@ by {
            if a < n1 {
                assert(s1.drop_last()[a] == s1[a]);
                assert(s2.drop_last()[a] == s2[a]);
            }
        }
    }
}

/// Growing a sorted prefix by one entry inserts that entry.
pub proof fn lemma_entries_map_prefix<V>(s: Seq<(String, V)>, i: int)
    requires
        keys_sorted(s),
        0 <= i < s.len(),
    ensures
        entries_map(s.take(i + 1)) == entries_map(s.take(i)).insert(s[i].0@, s[i].1),
        entries_map(s.take(0)) == Map::<Seq<char>, V>::empty(),
        entries_map(s.take(s.len() as int)) == entries_map(s),
{
    let a = s.take(i);
    let b = s.take(i + 1);
    assert(keys_sorted(a));
    assert(keys_sorted(b));
    let m = entries_map(a).insert(s[i].0@, s[i].1);
    assert forall|j: int| 0 <= j < b.len() implies m.contains_key(#[trigger] b[j].0@) && m[b[j].0@]
        == b[j].1 by {
        if j < i {
            assert(b[j] == a[j]);
            lemma_entries_map_index(a, j);
            if b[j].0@ == s[i].0@ {
                lemma_sorted_unique(s, j, i);
            }
        }
    }
    assert forall|q: Seq<char>| #[trigger] m.contains_key(q) implies has_key(b, q) by {
        if q == s[i].0@ {
            assert(b[i].0@ == q);
        } else {
            let j = key_index(a, q);
            assert(b[j].0@ == q);
        }
    }
    lemma_entries_map_eq(b, m);
    assert(entries_map(s.take(0)) =~= Map::<Seq<char>, V>::empty());
    assert(s.take(s.len() as int) =~= s);
}

/// Two entry sequences with the same keys in the same positions stand for
/// maps with the same key set.
pub proof fn lemma_sorted_same_keys_eq<V, W>(s1: Seq<(String, V)>, s2: Seq<(String, W)>)
    requires
        keys_sorted(s1),
        s1.len() == s2.len(),
        forall|i: int| 0 <= i < s1.len() ==> (#[trigger] s1[i]).0 == s2[i].0,
    ensures
        keys_sorted(s2),
        entries_map(s1).dom() == entries_map(s2).dom(),
{
    assert forall|a: int, b: int| 0 <= a < b < s2.len() implies chars_lt(
        #[trigger] s2[a].0@,
        #[trigger] s2[b].0@,
    ) by {
        assert(s1[a].0 == s2[a].0);
        assert(s1[b].0 == s2[b].0);
    }
    assert forall|q: Seq<char>| entries_map(s1).dom().contains(q) <==> entries_map(s2).dom().contains(q) by {
        if has_key(s1, q) {
            let j = key_index(s1, q);
            assert(s2[j].0@ == q);
        }
        if has_key(s2, q) {
            let j = key_index(s2, q);
            assert(s1[j].0 == s2[j].0);
        }
    }
    assert(entries_map(s1).dom() =~= entries_map(s2).dom());
}

/// A map is larger than its entry sequence (for recursion over nested maps).
pub proof fn lemma_entries_decrease<V>(m: StrMap<V>)
    ensures
        decreases_to!(m => m.entries()),
{
    broadcast use vstd::std_specs::vec::axiom_vec_decreases_to_view;
    assert(decreases_to!(m => m.entries));
    assert(decreases_to!(m.entries => m.entries@));
}

impl<V> View for StrMap<V> {
    type V = Map<Seq<char>, V>;

    open spec fn view(&self) -> Map<Seq<char>, V> {
        entries_map(self.entries())
    }
}

impl<V> StrMap<V> {
    /// The entries, in increasing key order.
    pub closed spec fn entries(self) -> Seq<(String, V)> {
        self.entries@
    }

    #[verifier::type_invariant]
    closed spec fn sorted(self) -> bool {
        keys_sorted(self.entries@)
    }

    /// The entries are always in strictly increasing key order.
    pub fn entries_are_sorted(&self)
        ensures
            keys_sorted(self.entries()),
    {
        proof {
            use_type_invariant(self);
        }
    }

    /// An empty map.
    pub fn new() -> (m: Self)
        ensures
            m.entries() == Seq::<(String, V)>::empty(),
            m@ == Map::<Seq<char>, V>::empty(),
    {
        let m = StrMap { entries: Vec::new() };
        assert(m@ =~= Map::<Seq<char>, V>::empty());
        m
    }

    pub fn len(&self) -> (n: usize)
        ensures
            n == self.entries().len(),
    {
        self.entries.len()
    }

    pub fn is_empty(&self) -> (b: bool)
        ensures
            b == (self.entries().len() == 0),
            b == (self@ == Map::<Seq<char>, V>::empty()),
            !b ==> self@.contains_key(self.entries()[0].0@),
    {
        if self.entries.len() == 0 {
            assert(self@ =~= Map::<Seq<char>, V>::empty());
            true
        } else {
            assert(has_key(self.entries@, self.entries@[0].0@));
            assert(self@.contains_key(self.entries@[0].0@));
            false
        }
    }

    /// The key of the `i`-th entry in key order.
    pub fn key_at(&self, i: usize) -> (k: &String)
        requires
            i < self.entries().len(),
        ensures
            *k == self.entries()[i as int].0,
    {
        &self.entries[i].0
    }

    /// The value of the `i`-th entry in key order.
    pub fn value_at(&self, i: usize) -> (v: &V)
        requires
            i < self.entries().len(),
        ensures
            *v == self.entries()[i as int].1,
    {
        &self.entries[i].1
    }

    /// Where `key` stands, or where it would be inserted.
    fn position(&self, key: &Vec<char>) -> (r: (usize, bool))
        ensures
            r.0 <= self.entries().len(),
            r.1 ==> r.0 < self.entries().len() && self.entries()[r.0 as int].0@ == key@,
            forall|i: int| 0 <= i < r.0 ==> chars_lt(#[trigger] self.entries()[i].0@, key@),
            !r.1 ==> forall|i: int|
                r.0 <= i < self.entries().len() ==> chars_lt(key@, #[trigger] self.entries()[i].0@),
    {
        proof {
            use_type_invariant(self);
        }
        let mut i: usize = 0;
        while i < self.entries.len()
            invariant
                i <= self.entries@.len(),
                keys_sorted(self.entries@),
                forall|j: int| 0 <= j < i ==> chars_lt(#[trigger] self.entries@[j].0@, key@),
            decreases self.entries@.len() - i,
        {
            let kc = chars_of(self.entries[i].0.as_str());
            let o = chars_order(&kc, key);
            if o == 0 {
                return (i, true);
            }
            if o == 1 {
                assert forall|j: int| i <= j < self.entries@.len() implies chars_lt(
                    key@,
                    #[trigger] self.entries@[j].0@,
                ) by {
                    if j > i {
                        lemma_chars_lt_transitive(key@, self.entries@[i as int].0@, self.entries@[j].0@);
                    }
                }
                return (i, false);
            }
            i = i + 1;
        }
        (i, false)
    }

    /// Whether `key` has an entry.
    pub fn contains_key(&self, key: &str) -> (b: bool)
        ensures
            b == self@.contains_key(key@),
    {
        proof {
            use_type_invariant(self);
        }
        let kc = chars_of(key);
        let (i, found) = self.position(&kc);
        proof {
            if !found && has_key(self.entries(), key@) {
                let j = choose|j: int| 0 <= j < self.entries().len() && #[trigger] self.entries()[j].0@ == key@;
                if j < i {
                    lemma_chars_lt_irreflexive(key@);
                } else {
                    lemma_chars_lt_irreflexive(key@);
                }
            }
        }
        found
    }

    /// The value under `key`, if any.
    pub fn get(&self, key: &str) -> (r: Option<&V>)
        ensures
            match r {
                Some(v) => self@.contains_key(key@) && self@[key@] == *v,
                None => !self@.contains_key(key@),
            },
    {
        proof {
            use_type_invariant(self);
        }
        let kc = chars_of(key);
        let (i, found) = self.position(&kc);
        if found {
            proof {
                lemma_entries_map_index(self.entries(), i as int);
            }
            Some(&self.entries[i].1)
        } else {
            proof {
                if has_key(self.entries(), key@) {
                    let j = choose|j: int| 0 <= j < self.entries().len() && #[trigger] self.entries()[j].0@ == key@;
                    lemma_chars_lt_irreflexive(key@);
                }
            }
            None
        }
    }

    /// Sets the value under `key`, keeping the keys sorted.
    pub fn insert(&mut self, key: String, value: V)
        ensures
            final(self)@ == old(self)@.insert(key@, value),
    {
        proof {
            use_type_invariant(&*self);
        }
        let kc = chars_of(key.as_str());
        let (i, found) = self.position(&kc);
        let mut e: Vec<(String, V)> = Vec::new();
        std::mem::swap(&mut e, &mut self.entries);
        let ghost old_e = e@;
        let ghost k = key@;
        let ghost m = entries_map(old_e).insert(k, value);
        if found {
            e.set(i, (key, value));
        } else {
            e.insert(i, (key, value));
        }
        proof {
            let ne = e@;
            if found {
                assert forall|a: int, b: int| 0 <= a < b < ne.len() implies chars_lt(
                    #[trigger] ne[a].0@,
                    #[trigger] ne[b].0@,
                ) by {
                    assert(old_e[a].0@ == ne[a].0@ || a == i);
                    assert(old_e[b].0@ == ne[b].0@ || b == i);
                }
                assert forall|a: int| 0 <= a < ne.len() implies m.contains_key(
                    #[trigger] ne[a].0@,
                ) && m[ne[a].0@] == ne[a].1 by {
                    if a != i {
                        lemma_entries_map_index(old_e, a);
                        if ne[a].0@ == k {
                            lemma_sorted_unique(old_e, a, i as int);
                        }
                    }
                }
                assert forall|q: Seq<char>| #[trigger] m.contains_key(q) implies has_key(ne, q) by {
                    if q == k {
                        assert(ne[i as int].0@ == q);
                    } else {
                        let j = key_index(old_e, q);
                        assert(ne[j].0@ == q);
                    }
                }
            } else {
                assert forall|a: int, b: int| 0 <= a < b < ne.len() implies chars_lt(
                    #[trigger] ne[a].0@,
                    #[trigger] ne[b].0@,
                ) by {
                    if b < i {
                        assert(ne[a] == old_e[a] && ne[b] == old_e[b]);
                    } else if b == i {
                        assert(ne[a] == old_e[a]);
                    } else if a < i {
                        assert(ne[a] == old_e[a] && ne[b] == old_e[b - 1]);
                        lemma_chars_lt_transitive(ne[a].0@, k, ne[b].0@);
                    } else if a == i {
                        assert(ne[b] == old_e[b - 1]);
                    } else {
                        assert(ne[a] == old_e[a - 1] && ne[b] == old_e[b - 1]);
                    }
                }
                assert forall|a: int| 0 <= a < ne.len() implies m.contains_key(
                    #[trigger] ne[a].0@,
                ) && m[ne[a].0@] == ne[a].1 by {
                    if a < i {
                        assert(ne[a] == old_e[a]);
                        lemma_entries_map_index(old_e, a);
                        if ne[a].0@ == k {
                            lemma_chars_lt_irreflexive(k);
                        }
                    } else if a > i {
                        assert(ne[a] == old_e[a - 1]);
                        lemma_entries_map_index(old_e, a - 1);
                        if ne[a].0@ == k {
                            lemma_chars_lt_irreflexive(k);
                        }
                    }
                }
                assert forall|q: Seq<char>| #[trigger] m.contains_key(q) implies has_key(ne, q) by {
                    if q == k {
                        assert(ne[i as int].0@ == q);
                    } else {
                        let j = key_index(old_e, q);
                        if j < i {
                            assert(ne[j].0@ == q);
                        } else {
                            assert(ne[j + 1].0@ == q);
                        }
                    }
                }
            }
            lemma_entries_map_eq(ne, m);
        }
        self.entries = e;
    }


    /// Appends an entry whose key is greater than every key present.
    pub fn push_last(&mut self, key: String, value: V)
        requires
            forall|i: int|
                0 <= i < old(self).entries().len() ==> chars_lt(
                    #[trigger] old(self).entries()[i].0@,
                    key@,
                ),
        ensures
            final(self).entries() == old(self).entries().push((key, value)),
            final(self)@ == old(self)@.insert(key@, value),
    {
        proof {
            use_type_invariant(&*self);
        }
        let mut e: Vec<(String, V)> = Vec::new();
        std::mem::swap(&mut e, &mut self.entries);
        let ghost old_e = e@;
        let ghost k = key@;
        let ghost m = entries_map(old_e).insert(k, value);
        assert(old_e == old(self).entries());
        e.push((key, value));
        proof {
            let ne = e@;
            assert(forall|i: int| 0 <= i < old_e.len() ==> chars_lt(#[trigger] old_e[i].0@, k));
            assert forall|a: int, b: int| 0 <= a < b < ne.len() implies chars_lt(
                #[trigger] ne[a].0@,
                #[trigger] ne[b].0@,
            ) by {
                assert(ne[a] == old_e[a]);
                if b < old_e.len() {
                    assert(ne[b] == old_e[b]);
                }
            }
            assert forall|a: int| 0 <= a < ne.len() implies m.contains_key(#[trigger] ne[a].0@)
                && m[ne[a].0@] == ne[a].1 by {
                if a < old_e.len() {
                    assert(ne[a] == old_e[a]);
                    lemma_entries_map_index(old_e, a);
                    if ne[a].0@ == k {
                        lemma_chars_lt_irreflexive(k);
                    }
                }
            }
            assert forall|q: Seq<char>| #[trigger] m.contains_key(q) implies has_key(ne, q) by {
                if q == k {
                    assert(ne[old_e.len() as int].0@ == q);
                } else {
                    let j = key_index(old_e, q);
                    assert(ne[j].0@ == q);
                }
            }
            lemma_entries_map_eq(ne, m);
        }
        self.entries = e;
    }

    /// Removes the entry under `key`, returning its value.
    pub fn remove(&mut self, key: &str) -> (r: Option<V>)
        ensures
            final(self)@ == old(self)@.remove(key@),
            match r {
                Some(v) => old(self)@.contains_key(key@) && old(self)@[key@] == v,
                None => !old(self)@.contains_key(key@),
            },
    {
        proof {
            use_type_invariant(&*self);
        }
        let kc = chars_of(key);
        let (i, found) = self.position(&kc);
        if !found {
            proof {
                if has_key(self.entries(), key@) {
                    lemma_chars_lt_irreflexive(key@);
                }
                assert(self@.remove(key@) =~= self@);
            }
            return None;
        }
        let mut e: Vec<(String, V)> = Vec::new();
        std::mem::swap(&mut e, &mut self.entries);
        let ghost old_e = e@;
        let ghost k = key@;
        let ghost m = entries_map(old_e).remove(k);
        proof {
            lemma_entries_map_index(old_e, i as int);
        }
        let (_, v) = e.remove(i);
        proof {
            let ne = e@;
            assert forall|a: int, b: int| 0 <= a < b < ne.len() implies chars_lt(
                #[trigger] ne[a].0@,
                #[trigger] ne[b].0@,
            ) by {
                if b < i {
                    assert(ne[a] == old_e[a] && ne[b] == old_e[b]);
                } else if a < i {
                    assert(ne[a] == old_e[a] && ne[b] == old_e[b + 1]);
                } else {
                    assert(ne[a] == old_e[a + 1] && ne[b] == old_e[b + 1]);
                }
            }
            assert forall|a: int| 0 <= a < ne.len() implies m.contains_key(#[trigger] ne[a].0@)
                && m[ne[a].0@] == ne[a].1 by {
                if a < i {
                    assert(ne[a] == old_e[a]);
                    lemma_entries_map_index(old_e, a);
                    if ne[a].0@ == k {
                        lemma_sorted_unique(old_e, a, i as int);
                    }
                } else {
                    assert(ne[a] == old_e[a + 1]);
                    lemma_entries_map_index(old_e, a + 1);
                    if ne[a].0@ == k {
                        lemma_sorted_unique(old_e, a + 1, i as int);
                    }
                }
            }
            assert forall|q: Seq<char>| #[trigger] m.contains_key(q) implies has_key(ne, q) by {
                let j = key_index(old_e, q);
                if j < i {
                    assert(ne[j].0@ == q);
                } else {
                    assert(j != i);
                    assert(ne[j - 1].0@ == q);
                }
            }
            lemma_entries_map_eq(ne, m);
        }
        self.entries = e;
        Some(v)
    }
}

impl<V: Clone> StrMap<V> {
    /// An entry-by-entry copy.
    pub fn copy(&self) -> (r: Self)
        ensures
            r.entries().len() == self.entries().len(),
            forall|i: int|
                0 <= i < self.entries().len() ==> (#[trigger] r.entries()[i]).0 == self.entries()[i].0
                    && cloned::<V>(self.entries()[i].1, r.entries()[i].1),
    {
        proof {
            use_type_invariant(self);
        }
        let mut e: Vec<(String, V)> = Vec::new();
        let mut i: usize = 0;
        while i < self.entries.len()
            invariant
                i <= self.entries@.len(),
                e@.len() == i,
                keys_sorted(self.entries@),
                forall|j: int|
                    0 <= j < i ==> (#[trigger] e@[j]).0 == self.entries@[j].0 && cloned::<V>(
                        self.entries@[j].1,
                        e@[j].1,
                    ),
            decreases self.entries@.len() - i,
        {
            let k = self.entries[i].0.clone();
            let v = self.entries[i].1.clone();
            e.push((k, v));
            i = i + 1;
        }
        assert forall|a: int, b: int| 0 <= a < b < e@.len() implies chars_lt(
            #[trigger] e@[a].0@,
            #[trigger] e@[b].0@,
        ) by {
            assert(e@[a].0 == self.entries@[a].0);
            assert(e@[b].0 == self.entries@[b].0);
        }
        StrMap { entries: e }
    }
}

} // verus!
