//! Core vocabulary of the canonical IR: identifiers, configuration values,
//! ports and provenance.
use vstd::prelude::*;
use crate::strmap::{
    StrMap, lemma_entries_decrease, keys_sorted, chars_lt, entries_map, has_key, key_index,
    lemma_entries_map_index, lemma_sorted_same_keys, lemma_sorted_same_keys_eq,
};

verus! {

broadcast use vstd::std_specs::vec::axiom_vec_decreases_to_view;

/// Identifier of a node, an edge or a modulation.
pub type StableId = u128;

/// Identifier of a patch.
pub type PatchId = u128;

/// Identifier of an intent.
pub type IntentId = u128;

/// A 32-byte digest.
pub type Hash = [u8; 32];

/// Revision counter of a graph.
#[derive(Clone, Copy, PartialEq, Eq, Structural, Debug)]
pub struct Revision(pub u64);

impl Revision {
    pub fn zero() -> (r: Revision)
        ensures
            r.0 == 0,
    {
        Revision(0)
    }

    pub fn next(&self) -> (r: Revision)
        requires
            self.0 < u64::MAX,
        ensures
            r.0 == self.0 + 1,
    {
        Revision(self.0 + 1)
    }
}

/// Seconds since the Unix epoch.
#[derive(Clone, Copy, PartialEq, Eq, Structural, Debug)]
pub struct Timestamp(pub u64);

#[verifier::external_type_specification]
#[verifier::external_body]
pub struct ExSystemTime(std::time::SystemTime);

#[verifier::external_type_specification]
#[verifier::external_body]
pub struct ExSystemTimeError(std::time::SystemTimeError);

/// `std::time::SystemTime::now`: the machine's clock. Nothing is stated of
/// the value.
#[verifier::external_body]
fn system_now() -> (t: std::time::SystemTime) {
    std::time::SystemTime::now()
}

/// `SystemTime::duration_since` with the Unix epoch as the earlier time: an
/// error for a clock set before the epoch. Nothing is stated of the outcome,
/// which depends on the clock.
#[verifier::external_body]
fn since_unix_epoch(t: &std::time::SystemTime) -> (r: Result<core::time::Duration, std::time::SystemTimeError>) {
    t.duration_since(std::time::UNIX_EPOCH)
}

/// `Duration::as_secs`: the whole seconds of a duration. A `Duration` is
/// opaque here, so nothing is stated of the number.
#[verifier::external_body]
fn whole_seconds(d: &core::time::Duration) -> (s: u64) {
    d.as_secs()
}

impl Timestamp {
    /// The machine's clock, as whole seconds since the Unix epoch (zero for a
    /// clock set before the epoch).
    pub fn now() -> (t: Timestamp) {
        let now = system_now();
        match since_unix_epoch(&now) {
            Ok(d) => Timestamp(whole_seconds(&d)),
            Err(_) => Timestamp(0),
        }
    }
}

// ──────────────────────────────────────────────
// IEEE-754 equality on bit patterns
// ──────────────────────────────────────────────

/// The bit pattern of a binary64 value is a NaN.
pub open spec fn f64_bits_nan(b: u64) -> bool {
    (b / 0x10_0000_0000_0000) % 0x800 == 0x7ff && b % 0x10_0000_0000_0000 != 0
}

/// The bit pattern of a binary64 value is +0.0 or -0.0.
pub open spec fn f64_bits_zero(b: u64) -> bool {
    b % 0x8000_0000_0000_0000 == 0
}

/// `==` on the binary64 values with these bit patterns: NaN equals nothing,
/// and the two zeros are equal.
pub open spec fn f64_bits_eq(a: u64, b: u64) -> bool {
    &&& !f64_bits_nan(a)
    &&& !f64_bits_nan(b)
    &&& (a == b || (f64_bits_zero(a) && f64_bits_zero(b)))
}

pub fn f64_eq(a: u64, b: u64) -> (r: bool)
    ensures
        r == f64_bits_eq(a, b),
{
    let a_nan = (a / 0x10_0000_0000_0000) % 0x800 == 0x7ff && a % 0x10_0000_0000_0000 != 0;
    let b_nan = (b / 0x10_0000_0000_0000) % 0x800 == 0x7ff && b % 0x10_0000_0000_0000 != 0;
    if a_nan || b_nan {
        return false;
    }
    a == b || (a % 0x8000_0000_0000_0000 == 0 && b % 0x8000_0000_0000_0000 == 0)
}

// ──────────────────────────────────────────────
// Configuration values
// ──────────────────────────────────────────────

/// A configuration value. A float is held as the bit pattern of a binary64.
#[derive(Debug)]
pub enum ConfigValue {
    Float(u64),
    Int(i64),
    Bool(bool),
    String(String),
    List(Vec<ConfigValue>),
    Table(StrMap<ConfigValue>),
}

/// The mathematical value of a `ConfigValue`; a map is its entries in key order.
pub enum CValue {
    Float(u64),
    Int(i64),
    Bool(bool),
    Str(Seq<char>),
    List(Seq<CValue>),
    Table(Seq<(Seq<char>, CValue)>),
}

pub open spec fn cv_view(v: ConfigValue) -> CValue
    decreases v, 0int,
{
    match v {
        ConfigValue::Float(f) => CValue::Float(f),
        ConfigValue::Int(i) => CValue::Int(i),
        ConfigValue::Bool(b) => CValue::Bool(b),
        ConfigValue::String(s) => CValue::Str(s@),
        ConfigValue::List(l) => CValue::List(cv_list_view(l@)),
        ConfigValue::Table(m) => {
            proof {
                lemma_entries_decrease(m);
            }
            CValue::Table(cv_entries_view(m.entries()))
        },
    }
}

pub open spec fn cv_list_view(s: Seq<ConfigValue>) -> Seq<CValue>
    decreases s, 1int,
{
    if s.len() == 0 {
        Seq::empty()
    } else {
        cv_list_view(s.drop_last()).push(cv_view(s.last()))
    }
}

pub open spec fn cv_entries_view(s: Seq<(String, ConfigValue)>) -> Seq<(Seq<char>, CValue)>
    decreases s, 1int,
{
    if s.len() == 0 {
        Seq::empty()
    } else {
        cv_entries_view(s.drop_last()).push((s.last().0@, cv_view(s.last().1)))
    }
}

impl View for ConfigValue {
    type V = CValue;

    open spec fn view(&self) -> CValue {
        cv_view(*self)
    }
}

/// `==` on configuration values: floats compare as IEEE-754 values,
/// lists element by element, maps entry by entry in key order.
pub open spec fn cvalue_eq(a: CValue, b: CValue) -> bool
    decreases a,
{
    match (a, b) {
        (CValue::Float(x), CValue::Float(y)) => f64_bits_eq(x, y),
        (CValue::Int(x), CValue::Int(y)) => x == y,
        (CValue::Bool(x), CValue::Bool(y)) => x == y,
        (CValue::Str(x), CValue::Str(y)) => x == y,
        (CValue::List(x), CValue::List(y)) => {
            &&& x.len() == y.len()
            &&& forall|i: int| 0 <= i < x.len() ==> cvalue_eq(#[trigger] x[i], y[i])
        },
        (CValue::Table(x), CValue::Table(y)) => {
            &&& x.len() == y.len()
            &&& forall|i: int|
                0 <= i < x.len() ==> (#[trigger] x[i]).0 == y[i].0 && cvalue_eq(x[i].1, y[i].1)
        },
        _ => false,
    }
}

/// IEEE equality of configuration values is symmetric.
pub proof fn lemma_cvalue_eq_symmetric(a: CValue, b: CValue)
    ensures
        cvalue_eq(a, b) == cvalue_eq(b, a),
    decreases a,
{
    match (a, b) {
        (CValue::List(x), CValue::List(y)) => {
            assert forall|i: int| 0 <= i < x.len() && i < y.len() implies cvalue_eq(x[i], y[i]) == cvalue_eq(y[i], x[i]) by {
                assert(decreases_to!(a => x));
                assert(decreases_to!(x => x[i]));
                lemma_cvalue_eq_symmetric(x[i], y[i]);
            }
            if cvalue_eq(a, b) {
                assert forall|i: int| 0 <= i < y.len() implies cvalue_eq(#[trigger] y[i], x[i]) by {
                    assert(cvalue_eq(x[i], y[i]));
                }
            }
            if cvalue_eq(b, a) {
                assert forall|i: int| 0 <= i < x.len() implies cvalue_eq(#[trigger] x[i], y[i]) by {
                    assert(cvalue_eq(y[i], x[i]));
                }
            }
        },
        (CValue::Table(x), CValue::Table(y)) => {
            assert forall|i: int| 0 <= i < x.len() && i < y.len() implies cvalue_eq(x[i].1, y[i].1) == cvalue_eq(y[i].1, x[i].1) by {
                assert(decreases_to!(a => x));
                assert(decreases_to!(x => x[i]));
                assert(decreases_to!(x[i] => x[i].1));
                lemma_cvalue_eq_symmetric(x[i].1, y[i].1);
            }
            if cvalue_eq(a, b) {
                assert forall|i: int| 0 <= i < y.len() implies (#[trigger] y[i]).0 == x[i].0 && cvalue_eq(y[i].1, x[i].1) by {
                    assert(x[i].0 == y[i].0 && cvalue_eq(x[i].1, y[i].1));
                }
            }
            if cvalue_eq(b, a) {
                assert forall|i: int| 0 <= i < x.len() implies (#[trigger] x[i]).0 == y[i].0 && cvalue_eq(x[i].1, y[i].1) by {
                    assert(y[i].0 == x[i].0 && cvalue_eq(y[i].1, x[i].1));
                }
            }
        },
        _ => {},
    }
}

/// IEEE equality of configurations is symmetric.
pub proof fn lemma_config_eq_symmetric(a: Map<Seq<char>, CValue>, b: Map<Seq<char>, CValue>)
    ensures
        config_eq(a, b) == config_eq(b, a),
{
    if config_eq(a, b) {
        assert forall|k: Seq<char>| #[trigger] b.contains_key(k) implies cvalue_eq(b[k], a[k]) by {
            lemma_cvalue_eq_symmetric(a[k], b[k]);
        }
    }
    if config_eq(b, a) {
        assert forall|k: Seq<char>| #[trigger] a.contains_key(k) implies cvalue_eq(a[k], b[k]) by {
            lemma_cvalue_eq_symmetric(a[k], b[k]);
        }
    }
}

/// Equality of configuration changes is symmetric.
pub proof fn lemma_change_eq_symmetric(a: ChangeView, b: ChangeView)
    ensures
        change_eq(a, b) == change_eq(b, a),
{
    if a.old is Some && b.old is Some {
        lemma_cvalue_eq_symmetric(a.old.unwrap(), b.old.unwrap());
    }
    if a.new is Some && b.new is Some {
        lemma_cvalue_eq_symmetric(a.new.unwrap(), b.new.unwrap());
    }
}

pub proof fn lemma_cv_entries_view<V>(s: Seq<(String, ConfigValue)>)
    ensures
        cv_entries_view(s).len() == s.len(),
        forall|i: int|
            0 <= i < s.len() ==> (#[trigger] cv_entries_view(s)[i]) == (s[i].0@, cv_view(s[i].1)),
    decreases s.len(),
{
    if s.len() > 0 {
        lemma_cv_entries_view::<V>(s.drop_last());
    }
}

pub proof fn lemma_cv_list_view(s: Seq<ConfigValue>)
    ensures
        cv_list_view(s).len() == s.len(),
        forall|i: int| 0 <= i < s.len() ==> (#[trigger] cv_list_view(s)[i]) == cv_view(s[i]),
    decreases s.len(),
{
    if s.len() > 0 {
        lemma_cv_list_view(s.drop_last());
    }
}

impl Clone for ConfigValue {
    fn clone(&self) -> (r: Self)
        ensures
            r@ == self@,
        decreases self,
    {
        match self {
            ConfigValue::Float(f) => ConfigValue::Float(*f),
            ConfigValue::Int(i) => ConfigValue::Int(*i),
            ConfigValue::Bool(b) => ConfigValue::Bool(*b),
            ConfigValue::String(s) => ConfigValue::String(s.clone()),
            ConfigValue::List(l) => {
                let mut out: Vec<ConfigValue> = Vec::new();
                let mut i: usize = 0;
                while i < l.len()
                    invariant
                        *self == ConfigValue::List(*l),
                        i <= l@.len(),
                        out@.len() == i,
                        forall|j: int| 0 <= j < i ==> cv_view(#[trigger] out@[j]) == cv_view(l@[j]),
                    decreases l@.len() - i,
                {
                    proof {
                        vstd::std_specs::vec::axiom_vec_index_decreases(*l, i as int);
                        assert(decreases_to!(*self => (*self)->List_0));
                    }
                    let c = l[i].clone();
                    out.push(c);
                    i = i + 1;
                }
                proof {
                    lemma_cv_list_view(out@);
                    lemma_cv_list_view(l@);
                    assert(cv_list_view(out@) =~= cv_list_view(l@));
                }
                ConfigValue::List(out)
            },
            ConfigValue::Table(m) => {
                m.entries_are_sorted();
                let mut out: StrMap<ConfigValue> = StrMap::new();
                let mut i: usize = 0;
                while i < m.len()
                    invariant
                        *self == ConfigValue::Table(*m),
                        keys_sorted(m.entries()),
                        i <= m.entries().len(),
                        out.entries().len() == i,
                        forall|j: int|
                            0 <= j < i ==> (#[trigger] out.entries()[j]).0 == m.entries()[j].0
                                && cv_view(out.entries()[j].1) == cv_view(m.entries()[j].1),
                    decreases m.entries().len() - i,
                {
                    proof {
                        lemma_entries_decrease(*m);
                        assert(decreases_to!(*self => (*self)->Table_0));
                        assert(decreases_to!(m.entries() => m.entries()[i as int]));
                    }
                    let k = m.key_at(i).clone();
                    let v = m.value_at(i).clone();
                    proof {
                        assert forall|j: int| 0 <= j < out.entries().len() implies chars_lt(
                            #[trigger] out.entries()[j].0@,
                            k@,
                        ) by {
                            assert(out.entries()[j].0 == m.entries()[j].0);
                        }
                    }
                    out.push_last(k, v);
                    i = i + 1;
                }
                proof {
                    lemma_cv_entries_view::<ConfigValue>(out.entries());
                    lemma_cv_entries_view::<ConfigValue>(m.entries());
                    assert(cv_entries_view(out.entries()) =~= cv_entries_view(m.entries()));
                }
                ConfigValue::Table(out)
            },
        }
    }
}

impl ConfigValue {
    /// The text of a string value.
    pub fn as_string(&self) -> (r: Option<&String>)
        ensures
            match *self {
                ConfigValue::String(s) => r == Some(&s),
                _ => r is None,
            },
    {
        match self {
            ConfigValue::String(s) => Some(s),
            _ => None,
        }
    }

    /// The bits of a floating-point value.
    pub fn as_float(&self) -> (r: Option<u64>)
        ensures
            match *self {
                ConfigValue::Float(b) => r == Some(b),
                _ => r is None,
            },
    {
        match self {
            ConfigValue::Float(b) => Some(*b),
            _ => None,
        }
    }
}

/// IEEE-aware equality of configuration values.
pub fn config_value_eq(a: &ConfigValue, b: &ConfigValue) -> (r: bool)
    ensures
        r == cvalue_eq(a@, b@),
    decreases a,
{
    match (a, b) {
        (ConfigValue::Float(x), ConfigValue::Float(y)) => f64_eq(*x, *y),
        (ConfigValue::Int(x), ConfigValue::Int(y)) => *x == *y,
        (ConfigValue::Bool(x), ConfigValue::Bool(y)) => *x == *y,
        (ConfigValue::String(x), ConfigValue::String(y)) => *x == *y,
        (ConfigValue::List(x), ConfigValue::List(y)) => {
            proof {
                lemma_cv_list_view(x@);
                lemma_cv_list_view(y@);
            }
            if x.len() != y.len() {
                return false;
            }
            let mut i: usize = 0;
            while i < x.len()
                invariant
                    *a == ConfigValue::List(*x),
                    *b == ConfigValue::List(*y),
                    x@.len() == y@.len(),
                    i <= x@.len(),
                    cv_list_view(x@).len() == x@.len(),
                    cv_list_view(y@).len() == y@.len(),
                    forall|j: int| 0 <= j < x@.len() ==> (#[trigger] cv_list_view(x@)[j]) == cv_view(x@[j]),
                    forall|j: int| 0 <= j < y@.len() ==> (#[trigger] cv_list_view(y@)[j]) == cv_view(y@[j]),
                    forall|j: int| 0 <= j < i ==> cvalue_eq(#[trigger] cv_list_view(x@)[j], cv_list_view(y@)[j]),
                decreases x@.len() - i,
            {
                proof {
                    vstd::std_specs::vec::axiom_vec_index_decreases(*x, i as int);
                    assert(decreases_to!(*a => (*a)->List_0));
                }
                if !config_value_eq(&x[i], &y[i]) {
                    assert(!cvalue_eq(cv_list_view(x@)[i as int], cv_list_view(y@)[i as int]));
                    return false;
                }
                i = i + 1;
            }
            true
        },
        (ConfigValue::Table(x), ConfigValue::Table(y)) => {
            proof {
                lemma_cv_entries_view::<ConfigValue>(x.entries());
                lemma_cv_entries_view::<ConfigValue>(y.entries());
            }
            if x.len() != y.len() {
                return false;
            }
            let mut i: usize = 0;
            while i < x.len()
                invariant
                    *a == ConfigValue::Table(*x),
                    *b == ConfigValue::Table(*y),
                    x.entries().len() == y.entries().len(),
                    i <= x.entries().len(),
                    cv_entries_view(x.entries()).len() == x.entries().len(),
                    cv_entries_view(y.entries()).len() == y.entries().len(),
                    forall|j: int|
                        0 <= j < x.entries().len() ==> (#[trigger] cv_entries_view(x.entries())[j])
                            == (x.entries()[j].0@, cv_view(x.entries()[j].1)),
                    forall|j: int|
                        0 <= j < y.entries().len() ==> (#[trigger] cv_entries_view(y.entries())[j])
                            == (y.entries()[j].0@, cv_view(y.entries()[j].1)),
                    forall|j: int|
                        0 <= j < i ==> (#[trigger] cv_entries_view(x.entries())[j]).0
                            == cv_entries_view(y.entries())[j].0 && cvalue_eq(
                            cv_entries_view(x.entries())[j].1,
                            cv_entries_view(y.entries())[j].1,
                        ),
                decreases x.entries().len() - i,
            {
                proof {
                    lemma_entries_decrease(*x);
                    assert(decreases_to!(*a => (*a)->Table_0));
                    assert(decreases_to!(x.entries() => x.entries()[i as int]));
                }
                if *x.key_at(i) != *y.key_at(i) {
                    assert(cv_entries_view(x.entries())[i as int].0 != cv_entries_view(y.entries())[i as int].0);
                    return false;
                }
                if !config_value_eq(x.value_at(i), y.value_at(i)) {
                    assert(!cvalue_eq(cv_entries_view(x.entries())[i as int].1, cv_entries_view(y.entries())[i as int].1));
                    return false;
                }
                i = i + 1;
            }
            true
        },
        _ => false,
    }
}

/// A configuration snapshot: the configuration of a node.
pub type ConfigSnapshot = StrMap<ConfigValue>;

/// The floating-point entries of a configuration, in key order.
pub open spec fn float_entries(es: Seq<(String, ConfigValue)>) -> Seq<(Seq<char>, u64)>
    decreases es.len(),
{
    if es.len() == 0 {
        Seq::empty()
    } else {
        float_entries(es.drop_last()) + match es.last().1 {
            ConfigValue::Float(b) => seq![(es.last().0@, b)],
            _ => Seq::empty(),
        }
    }
}

/// The floating-point parameters of a configuration, in key order.
pub fn float_params(config: &ConfigSnapshot) -> (sites: Vec<(String, u64)>)
    ensures
        sites@.map_values(|e: (String, u64)| (e.0@, e.1)) == float_entries(config.entries()),
{
    let es = config.len();
    let mut sites: Vec<(String, u64)> = Vec::new();
    let ghost entries = config.entries();
    let mut i: usize = 0;
    proof {
        assert(entries.take(0) =~= Seq::<(String, ConfigValue)>::empty());
        assert(sites@.map_values(|e: (String, u64)| (e.0@, e.1)) =~= float_entries(entries.take(0)));
    }
    while i < es
        invariant
            entries == config.entries(),
            es == entries.len(),
            i <= es,
            sites@.map_values(|e: (String, u64)| (e.0@, e.1)) == float_entries(entries.take(i as int)),
        decreases es - i,
    {
        let ghost before = sites@;
        proof {
            assert(entries.take(i + 1).drop_last() =~= entries.take(i as int));
            assert(entries.take(i + 1).last() == entries[i as int]);
        }
        match config.value_at(i) {
            ConfigValue::Float(b) => {
                sites.push((config.key_at(i).clone(), *b));
                proof {
                    assert(sites@.map_values(|e: (String, u64)| (e.0@, e.1)) =~= before.map_values(
                        |e: (String, u64)| (e.0@, e.1),
                    ).push((entries[i as int].0@, *b)));
                }
            },
            _ => {},
        }
        proof {
            assert(sites@.map_values(|e: (String, u64)| (e.0@, e.1)) =~= float_entries(entries.take(i + 1)));
        }
        i = i + 1;
    }
    proof {
        assert(entries.take(entries.len() as int) =~= entries);
    }
    sites
}

/// The mathematical contents of a configuration snapshot.
pub open spec fn config_model(m: StrMap<ConfigValue>) -> Map<Seq<char>, CValue> {
    m@.map_values(|v: ConfigValue| v@)
}

/// `==` on configuration snapshots: the same keys, with equal values.
pub open spec fn config_eq(a: Map<Seq<char>, CValue>, b: Map<Seq<char>, CValue>) -> bool {
    &&& a.dom() == b.dom()
    &&& forall|k: Seq<char>| #[trigger] a.contains_key(k) ==> cvalue_eq(a[k], b[k])
}

/// `==` on configuration snapshots.
pub fn snapshot_eq(a: &ConfigSnapshot, b: &ConfigSnapshot) -> (r: bool)
    ensures
        r == config_eq(config_model(*a), config_model(*b)),
{
    a.entries_are_sorted();
    b.entries_are_sorted();
    let ghost ea = a.entries();
    let ghost eb = b.entries();
    if a.len() != b.len() {
        proof {
            if config_eq(config_model(*a), config_model(*b)) {
                assert(entries_map(ea).dom() =~= config_model(*a).dom());
                assert(entries_map(eb).dom() =~= config_model(*b).dom());
                lemma_sorted_same_keys(ea, eb);
            }
        }
        return false;
    }
    let mut i: usize = 0;
    while i < a.len()
        invariant
            ea == a.entries(),
            eb == b.entries(),
            keys_sorted(ea),
            keys_sorted(eb),
            ea.len() == eb.len(),
            i <= ea.len(),
            forall|j: int|
                0 <= j < i ==> (#[trigger] ea[j]).0@ == eb[j].0@ && cvalue_eq(ea[j].1@, eb[j].1@),
        decreases ea.len() - i,
    {
        if *a.key_at(i) != *b.key_at(i) {
            proof {
                if config_eq(config_model(*a), config_model(*b)) {
                    assert(entries_map(ea).dom() =~= config_model(*a).dom());
                    assert(entries_map(eb).dom() =~= config_model(*b).dom());
                    lemma_sorted_same_keys(ea, eb);
                    assert(ea[i as int].0@ == eb[i as int].0@);
                }
            }
            return false;
        }
        if !config_value_eq(a.value_at(i), b.value_at(i)) {
            proof {
                let k = ea[i as int].0@;
                lemma_entries_map_index(ea, i as int);
                lemma_entries_map_index(eb, i as int);
                assert(config_model(*a).contains_key(k));
                assert(config_model(*a)[k] == ea[i as int].1@);
                assert(config_model(*b)[k] == eb[i as int].1@);
            }
            return false;
        }
        i = i + 1;
    }
    proof {
        assert forall|k: Seq<char>| config_model(*a).dom().contains(k) <==> config_model(*b).dom().contains(k) by {
            if has_key(ea, k) {
                let j = key_index(ea, k);
                assert(eb[j].0@ == k);
            }
            if has_key(eb, k) {
                let j = key_index(eb, k);
                assert(ea[j].0@ == k);
            }
        }
        assert(config_model(*a).dom() =~= config_model(*b).dom());
        assert forall|k: Seq<char>| #[trigger] config_model(*a).contains_key(k) implies cvalue_eq(
            config_model(*a)[k],
            config_model(*b)[k],
        ) by {
            let j = key_index(ea, k);
            lemma_entries_map_index(ea, j);
            assert(eb[j].0@ == k);
            lemma_entries_map_index(eb, j);
        }
    }
    true
}

/// A copy of a configuration snapshot.
pub fn snapshot_clone(a: &ConfigSnapshot) -> (r: ConfigSnapshot)
    ensures
        config_model(r) == config_model(*a),
        r.entries().len() == a.entries().len(),
        forall|i: int|
            0 <= i < a.entries().len() ==> (#[trigger] r.entries()[i]).0 == a.entries()[i].0
                && r.entries()[i].1@ == a.entries()[i].1@,
{
    a.entries_are_sorted();
    let r = a.copy();
    r.entries_are_sorted();
    proof {
        assert forall|i: int| 0 <= i < a.entries().len() implies (#[trigger] r.entries()[i]).0
            == a.entries()[i].0 && r.entries()[i].1@ == a.entries()[i].1@ by {
            assert(cloned::<ConfigValue>(a.entries()[i].1, r.entries()[i].1));
        }
        lemma_sorted_same_keys_eq(r.entries(), a.entries());
        assert forall|k: Seq<char>| #[trigger] r@.contains_key(k) implies config_model(r)[k] == config_model(*a)[k] by {
            let j = key_index(r.entries(), k);
            lemma_entries_map_index(r.entries(), j);
            lemma_entries_map_index(a.entries(), j);
        }
        assert(config_model(r) =~= config_model(*a));
    }
    r
}

/// A change of one configuration key.
#[derive(Debug)]
pub struct ConfigChange {
    pub old: Option<ConfigValue>,
    pub new: Option<ConfigValue>,
}

pub open spec fn opt_cv_view(o: Option<ConfigValue>) -> Option<CValue> {
    match o {
        Some(v) => Some(v@),
        None => None,
    }
}

pub open spec fn opt_cvalue_eq(a: Option<CValue>, b: Option<CValue>) -> bool {
    match (a, b) {
        (Some(x), Some(y)) => cvalue_eq(x, y),
        (None, None) => true,
        _ => false,
    }
}

/// The mathematical value of a `ConfigChange`.
pub struct ChangeView {
    pub old: Option<CValue>,
    pub new: Option<CValue>,
}

impl View for ConfigChange {
    type V = ChangeView;

    open spec fn view(&self) -> ChangeView {
        ChangeView { old: opt_cv_view(self.old), new: opt_cv_view(self.new) }
    }
}

/// `==` on configuration changes.
pub open spec fn change_eq(a: ChangeView, b: ChangeView) -> bool {
    opt_cvalue_eq(a.old, b.old) && opt_cvalue_eq(a.new, b.new)
}

pub fn opt_value_clone(o: &Option<ConfigValue>) -> (r: Option<ConfigValue>)
    ensures
        opt_cv_view(r) == opt_cv_view(*o),
{
    match o {
        Some(v) => Some(v.clone()),
        None => None,
    }
}

pub fn opt_value_eq(a: &Option<ConfigValue>, b: &Option<ConfigValue>) -> (r: bool)
    ensures
        r == opt_cvalue_eq(opt_cv_view(*a), opt_cv_view(*b)),
{
    match (a, b) {
        (Some(x), Some(y)) => config_value_eq(x, y),
        (None, None) => true,
        _ => false,
    }
}

impl Clone for ConfigChange {
    fn clone(&self) -> (r: Self)
        ensures
            r@ == self@,
    {
        ConfigChange { old: opt_value_clone(&self.old), new: opt_value_clone(&self.new) }
    }
}

impl ConfigChange {
    /// `==` on changes.
    pub fn same(&self, other: &ConfigChange) -> (r: bool)
        ensures
            r == change_eq(self@, other@),
    {
        opt_value_eq(&self.old, &other.old) && opt_value_eq(&self.new, &other.new)
    }
}

/// A configuration delta: the changes of several keys.
pub type ConfigDelta = StrMap<ConfigChange>;

/// The mathematical contents of a configuration delta.
pub open spec fn delta_model(m: StrMap<ConfigChange>) -> Map<Seq<char>, ChangeView> {
    m@.map_values(|c: ConfigChange| c@)
}

/// A copy of a configuration delta.
pub fn delta_clone(a: &ConfigDelta) -> (r: ConfigDelta)
    ensures
        delta_model(r) == delta_model(*a),
        r.entries().len() == a.entries().len(),
        forall|i: int|
            0 <= i < a.entries().len() ==> (#[trigger] r.entries()[i]).0 == a.entries()[i].0
                && r.entries()[i].1@ == a.entries()[i].1@,
{
    a.entries_are_sorted();
    let r = a.copy();
    r.entries_are_sorted();
    proof {
        assert forall|i: int| 0 <= i < a.entries().len() implies (#[trigger] r.entries()[i]).0
            == a.entries()[i].0 && r.entries()[i].1@ == a.entries()[i].1@ by {
            assert(cloned::<ConfigChange>(a.entries()[i].1, r.entries()[i].1));
        }
        lemma_sorted_same_keys_eq(r.entries(), a.entries());
        assert forall|k: Seq<char>| #[trigger] r@.contains_key(k) implies delta_model(r)[k] == delta_model(*a)[k] by {
            let j = key_index(r.entries(), k);
            lemma_entries_map_index(r.entries(), j);
            lemma_entries_map_index(a.entries(), j);
        }
        assert(delta_model(r) =~= delta_model(*a));
    }
    r
}

// ──────────────────────────────────────────────
// Ports
// ──────────────────────────────────────────────

/// A reference to a named port of a node.
#[derive(Debug)]
pub struct PortRef {
    pub node_id: StableId,
    pub port_name: String,
}

/// The mathematical value of a `PortRef`.
pub struct PortRefView {
    pub node_id: StableId,
    pub port_name: Seq<char>,
}

impl View for PortRef {
    type V = PortRefView;

    open spec fn view(&self) -> PortRefView {
        PortRefView { node_id: self.node_id, port_name: self.port_name@ }
    }
}

impl Clone for PortRef {
    fn clone(&self) -> (r: Self)
        ensures
            r == *self,
    {
        PortRef { node_id: self.node_id, port_name: self.port_name.clone() }
    }
}

impl PortRef {
    /// `==` on port references.
    pub fn same(&self, other: &PortRef) -> (r: bool)
        ensures
            r == (self@ == other@),
    {
        self.node_id == other.node_id && self.port_name == other.port_name
    }
}

pub open spec fn opt_port_view(o: Option<PortRef>) -> Option<PortRefView> {
    match o {
        Some(p) => Some(p@),
        None => None,
    }
}

pub fn opt_port_clone(o: &Option<PortRef>) -> (r: Option<PortRef>)
    ensures
        r == *o,
{
    match o {
        Some(p) => Some(p.clone()),
        None => None,
    }
}

pub fn opt_port_same(a: &Option<PortRef>, b: &Option<PortRef>) -> (r: bool)
    ensures
        r == (opt_port_view(*a) == opt_port_view(*b)),
{
    match (a, b) {
        (Some(x), Some(y)) => x.same(y),
        (None, None) => true,
        _ => false,
    }
}

/// Direction of a port.
#[derive(Clone, Copy, PartialEq, Eq, Structural, Debug)]
pub enum PortDirection {
    Input,
    Output,
}

/// The clock domain in which a port is evaluated.
#[derive(Clone, Copy, PartialEq, Eq, Structural, Debug)]
pub enum ExecutionDomain {
    Sample,
    Block,
    Timeline,
    Background,
}

/// The type of the data that flows through a port.
#[derive(Clone, Copy, PartialEq, Eq, Structural, Debug)]
pub enum DataType {
    Audio { channels: u32 },
    Control,
    Midi,
    Spectral { bins: u32 },
    Blob,
    Meta,
}

/// What the signal on a port means.
#[derive(Clone, Copy, PartialEq, Eq, Structural, Debug)]
pub enum PortSemantic {
    Signal,
}

/// The value range of the signal on a port.
#[derive(Clone, Copy, PartialEq, Eq, Structural, Debug)]
pub enum PortPolarity {
    Bipolar,
}

/// A typed port of a node.
#[derive(Debug)]
pub struct TypedPort {
    pub name: String,
    pub direction: PortDirection,
    pub domain: ExecutionDomain,
    pub data_type: DataType,
    pub semantic: PortSemantic,
    pub polarity: PortPolarity,
}

/// The mathematical value of a `TypedPort`.
pub struct PortView {
    pub name: Seq<char>,
    pub direction: PortDirection,
    pub domain: ExecutionDomain,
    pub data_type: DataType,
    pub semantic: PortSemantic,
    pub polarity: PortPolarity,
}

impl View for TypedPort {
    type V = PortView;

    open spec fn view(&self) -> PortView {
        PortView {
            name: self.name@,
            direction: self.direction,
            domain: self.domain,
            data_type: self.data_type,
            semantic: self.semantic,
            polarity: self.polarity,
        }
    }
}

impl Clone for TypedPort {
    fn clone(&self) -> (r: Self)
        ensures
            r == *self,
    {
        TypedPort {
            name: self.name.clone(),
            direction: self.direction,
            domain: self.domain,
            data_type: self.data_type,
            semantic: self.semantic,
            polarity: self.polarity,
        }
    }
}

impl TypedPort {
    /// `==` on ports.
    pub fn same(&self, other: &TypedPort) -> (r: bool)
        ensures
            r == (self@ == other@),
    {
        self.name == other.name && self.direction == other.direction && self.domain
            == other.domain && self.data_type == other.data_type && self.semantic
            == other.semantic && self.polarity == other.polarity
    }
}

/// The mathematical value of a list of ports.
pub open spec fn ports_view(s: Seq<TypedPort>) -> Seq<PortView> {
    s.map_values(|p: TypedPort| p@)
}

/// An element-by-element copy of a port list.
pub fn ports_clone(v: &Vec<TypedPort>) -> (r: Vec<TypedPort>)
    ensures
        r@ == v@,
{
    let mut out: Vec<TypedPort> = Vec::new();
    let mut i: usize = 0;
    while i < v.len()
        invariant
            i <= v@.len(),
            out@ == v@.take(i as int),
        decreases v@.len() - i,
    {
        out.push(v[i].clone());
        assert(v@.take(i + 1) =~= v@.take(i as int).push(v@[i as int]));
        i = i + 1;
    }
    assert(v@.take(v@.len() as int) =~= v@);
    out
}

/// `==` on port lists.
pub fn ports_same(a: &Vec<TypedPort>, b: &Vec<TypedPort>) -> (r: bool)
    ensures
        r == (ports_view(a@) == ports_view(b@)),
{
    if a.len() != b.len() {
        assert(ports_view(a@).len() != ports_view(b@).len());
        return false;
    }
    let mut i: usize = 0;
    while i < a.len()
        invariant
            a@.len() == b@.len(),
            i <= a@.len(),
            forall|j: int| 0 <= j < i ==> (#[trigger] a@[j])@ == b@[j]@,
        decreases a@.len() - i,
    {
        if !a[i].same(&b[i]) {
            assert(ports_view(a@)[i as int] != ports_view(b@)[i as int]);
            return false;
        }
        i = i + 1;
    }
    assert(ports_view(a@) =~= ports_view(b@));
    true
}

// ──────────────────────────────────────────────
// Node kinds and provenance
// ──────────────────────────────────────────────

/// What a node is.
#[derive(Debug)]
pub enum NodeKind {
    Source,
    Processor,
    Analyzer,
    Sink,
    Junction,
    Foreign(String),
    Intent,
    Metadata,
    Boundary,
    SubGraph,
    InputProxy,
    OutputProxy,
    CircuitModule { circuit_id: StableId },
}

/// The mathematical value of a `NodeKind`.
pub enum NodeKindView {
    Source,
    Processor,
    Analyzer,
    Sink,
    Junction,
    Foreign(Seq<char>),
    Intent,
    Metadata,
    Boundary,
    SubGraph,
    InputProxy,
    OutputProxy,
    CircuitModule { circuit_id: StableId },
}

impl View for NodeKind {
    type V = NodeKindView;

    open spec fn view(&self) -> NodeKindView {
        match self {
            NodeKind::Source => NodeKindView::Source,
            NodeKind::Processor => NodeKindView::Processor,
            NodeKind::Analyzer => NodeKindView::Analyzer,
            NodeKind::Sink => NodeKindView::Sink,
            NodeKind::Junction => NodeKindView::Junction,
            NodeKind::Foreign(s) => NodeKindView::Foreign(s@),
            NodeKind::Intent => NodeKindView::Intent,
            NodeKind::Metadata => NodeKindView::Metadata,
            NodeKind::Boundary => NodeKindView::Boundary,
            NodeKind::SubGraph => NodeKindView::SubGraph,
            NodeKind::InputProxy => NodeKindView::InputProxy,
            NodeKind::OutputProxy => NodeKindView::OutputProxy,
            NodeKind::CircuitModule { circuit_id } => NodeKindView::CircuitModule {
                circuit_id: *circuit_id,
            },
        }
    }
}

impl Clone for NodeKind {
    fn clone(&self) -> (r: Self)
        ensures
            r == *self,
    {
        match self {
            NodeKind::Source => NodeKind::Source,
            NodeKind::Processor => NodeKind::Processor,
            NodeKind::Analyzer => NodeKind::Analyzer,
            NodeKind::Sink => NodeKind::Sink,
            NodeKind::Junction => NodeKind::Junction,
            NodeKind::Foreign(s) => NodeKind::Foreign(s.clone()),
            NodeKind::Intent => NodeKind::Intent,
            NodeKind::Metadata => NodeKind::Metadata,
            NodeKind::Boundary => NodeKind::Boundary,
            NodeKind::SubGraph => NodeKind::SubGraph,
            NodeKind::InputProxy => NodeKind::InputProxy,
            NodeKind::OutputProxy => NodeKind::OutputProxy,
            NodeKind::CircuitModule { circuit_id } => NodeKind::CircuitModule {
                circuit_id: *circuit_id,
            },
        }
    }
}

impl NodeKind {
    /// `==` on node kinds.
    pub fn same(&self, other: &NodeKind) -> (r: bool)
        ensures
            r == (self@ == other@),
    {
        match (self, other) {
            (NodeKind::Source, NodeKind::Source) => true,
            (NodeKind::Processor, NodeKind::Processor) => true,
            (NodeKind::Analyzer, NodeKind::Analyzer) => true,
            (NodeKind::Sink, NodeKind::Sink) => true,
            (NodeKind::Junction, NodeKind::Junction) => true,
            (NodeKind::Foreign(a), NodeKind::Foreign(b)) => *a == *b,
            (NodeKind::Intent, NodeKind::Intent) => true,
            (NodeKind::Metadata, NodeKind::Metadata) => true,
            (NodeKind::Boundary, NodeKind::Boundary) => true,
            (NodeKind::SubGraph, NodeKind::SubGraph) => true,
            (NodeKind::InputProxy, NodeKind::InputProxy) => true,
            (NodeKind::OutputProxy, NodeKind::OutputProxy) => true,
            (
                NodeKind::CircuitModule { circuit_id: a },
                NodeKind::CircuitModule { circuit_id: b },
            ) => *a == *b,
            _ => false,
        }
    }
}

/// An optional reference to external metadata.
#[derive(Debug)]
pub struct MetadataRef(pub Option<String>);

impl View for MetadataRef {
    type V = Option<Seq<char>>;

    open spec fn view(&self) -> Option<Seq<char>> {
        match self.0 {
            Some(s) => Some(s@),
            None => None,
        }
    }
}

impl Clone for MetadataRef {
    fn clone(&self) -> (r: Self)
        ensures
            r == *self,
    {
        match &self.0 {
            Some(s) => MetadataRef(Some(s.clone())),
            None => MetadataRef(None),
        }
    }
}

impl MetadataRef {
    /// `==` on metadata references.
    pub fn same(&self, other: &MetadataRef) -> (r: bool)
        ensures
            r == (self@ == other@),
    {
        match (&self.0, &other.0) {
            (Some(a), Some(b)) => *a == *b,
            (None, None) => true,
            _ => false,
        }
    }
}

/// How far a node's behaviour has been confirmed.
#[derive(Clone, Copy, PartialEq, Eq, Structural, Debug)]
pub enum ConfidenceScore {
    Verified,
}

/// Who produced a patch.
#[derive(Clone, Copy, PartialEq, Eq, Structural, Debug)]
pub enum PatchSource {
    System,
    UserDirect,
}

/// How far a patch is trusted.
#[derive(Clone, Copy, PartialEq, Eq, Structural, Debug)]
pub enum TrustLevel {
    Trusted,
    Untrusted,
}

/// The verification record of a graph.
#[derive(Debug)]
pub struct Verification {
    pub null_test: bool,
    pub hash: String,
    pub trust_state: String,
}

impl Clone for Verification {
    fn clone(&self) -> (r: Self)
        ensures
            r == *self,
    {
        Verification {
            null_test: self.null_test,
            hash: self.hash.clone(),
            trust_state: self.trust_state.clone(),
        }
    }
}

// ──────────────────────────────────────────────
// Intents
// ──────────────────────────────────────────────

/// Life cycle of an intent.
#[derive(Clone, Copy, PartialEq, Eq, Structural, Debug)]
pub enum IntentStatus {
    Proposal,
    Attached,
}

/// A parameter path (`node.param`) and an inclusive range, the bounds held as
/// binary32 bit patterns.
#[derive(Debug)]
pub struct ParamBound {
    pub target: String,
    pub range_start: u32,
    pub range_end: u32,
}

impl Clone for ParamBound {
    fn clone(&self) -> (r: Self)
        ensures
            r == *self,
    {
        ParamBound {
            target: self.target.clone(),
            range_start: self.range_start,
            range_end: self.range_end,
        }
    }
}

/// A constraint that an intent places on a parameter.
#[derive(Debug)]
pub enum IntentConstraint {
    Must(ParamBound),
    Never(ParamBound),
    Prefer(ParamBound),
    Avoid(ParamBound),
}

impl Clone for IntentConstraint {
    fn clone(&self) -> (r: Self)
        ensures
            r == *self,
    {
        match self {
            IntentConstraint::Must(b) => IntentConstraint::Must(b.clone()),
            IntentConstraint::Never(b) => IntentConstraint::Never(b.clone()),
            IntentConstraint::Prefer(b) => IntentConstraint::Prefer(b.clone()),
            IntentConstraint::Avoid(b) => IntentConstraint::Avoid(b.clone()),
        }
    }
}

} // verus!
