//! The registry of foreign types: types from other crates that the
//! configuration tells how to write in each output.

use vstd::prelude::*;
use crate::config::{ForeignTypeConfig, ForeignTypeConfigV};
use crate::named_map::{
    NamedMap, entries_view, lemma_put, lemma_put_map, lemma_text_less_irreflexive, lemma_value_of_at,
    lemma_value_of_map, map_entry_values, put, sorted_names, text_less, value_of,
};

verus! {

/// The names and canonical names of a name table, as texts.
pub open spec fn name_texts(s: Seq<(Seq<char>, String)>) -> Seq<(Seq<char>, Seq<char>)> {
    s.map_values(|e: (Seq<char>, String)| (e.0, e.1@))
}

/// The names and models of a table of configurations.
pub open spec fn config_views(s: Seq<(Seq<char>, ForeignTypeConfig)>) -> Seq<(Seq<char>, ForeignTypeConfigV)> {
    s.map_values(|e: (Seq<char>, ForeignTypeConfig)| (e.0, e.1@))
}

/// `s` with each of `names` mapped to `canonical`, in order.
pub open spec fn put_names(
    s: Seq<(Seq<char>, Seq<char>)>,
    names: Seq<Seq<char>>,
    canonical: Seq<char>,
) -> Seq<(Seq<char>, Seq<char>)>
    decreases names.len(),
{
    if names.len() == 0 {
        s
    } else {
        put(put_names(s, names.drop_last(), canonical), names.last(), canonical)
    }
}

/// The name table of the configurations `cfgs`, taken in order: each
/// configuration maps its Rust names, then its canonical name, to its
/// canonical name.
pub open spec fn name_table(cfgs: Seq<(Seq<char>, ForeignTypeConfigV)>) -> Seq<(Seq<char>, Seq<char>)>
    decreases cfgs.len(),
{
    if cfgs.len() == 0 {
        Seq::empty()
    } else {
        let e = cfgs.last();
        put(put_names(name_table(cfgs.drop_last()), e.1.rust_type_names, e.0), e.0, e.0)
    }
}

/// The configuration that the name `n` finds through `names` and `cfgs`.
pub open spec fn found_config(
    names: Seq<(Seq<char>, Seq<char>)>,
    cfgs: Seq<(Seq<char>, ForeignTypeConfigV)>,
    n: Seq<char>,
) -> Option<ForeignTypeConfigV> {
    match value_of(names, n) {
        Some(c) => value_of(cfgs, c),
        None => None,
    }
}

/// A registry that maps Rust type names to their foreign type
/// configurations, built from the `[general.foreign_types]` section.
#[derive(Debug)]
pub struct ForeignTypeRegistry {
    /// Maps each Rust type name (e.g. "DateTime", "chrono::DateTime") to
    /// its canonical name.
    name_to_canonical: NamedMap<String>,
    /// Maps each canonical name to its configuration.
    configs: NamedMap<ForeignTypeConfig>,
}

proof fn lemma_name_put(s: Seq<(Seq<char>, String)>, k: Seq<char>, v: String)
    ensures
        name_texts(put(s, k, v)) == put(name_texts(s), k, v@),
        sorted_names(s) ==> sorted_names(name_texts(s)),
{
    let f = |x: String| x@;
    lemma_put_map(s, k, v, f);
    assert(name_texts(put(s, k, v)) =~= map_entry_values(put(s, k, v), f));
    assert(name_texts(s) =~= map_entry_values(s, f));
}

proof fn lemma_config_put(s: Seq<(Seq<char>, ForeignTypeConfig)>, k: Seq<char>, v: ForeignTypeConfig)
    ensures
        config_views(put(s, k, v)) == put(config_views(s), k, v@),
{
    let f = |x: ForeignTypeConfig| x@;
    lemma_put_map(s, k, v, f);
    assert(config_views(put(s, k, v)) =~= map_entry_values(put(s, k, v), f));
    assert(config_views(s) =~= map_entry_values(s, f));
}

/// Putting a name that comes after every name of `s` appends it.
proof fn lemma_put_after<V>(s: Seq<(Seq<char>, V)>, k: Seq<char>, v: V)
    requires
        forall|i: int| 0 <= i < s.len() ==> text_less(#[trigger] s[i].0, k),
    ensures
        put(s, k, v) == s.push((k, v)),
    decreases s.len(),
{
    if s.len() > 0 {
        let t = s.drop_first();
        assert forall|i: int| 0 <= i < t.len() implies text_less(#[trigger] t[i].0, k) by {
            assert(t[i] == s[i + 1]);
        }
        lemma_put_after(t, k, v);
        lemma_place_all_less(s, k);
    }
    assert(s.insert(s.len() as int, (k, v)) =~= s.push((k, v)));
}

proof fn lemma_place_all_less<V>(s: Seq<(Seq<char>, V)>, k: Seq<char>)
    requires
        forall|i: int| 0 <= i < s.len() ==> text_less(#[trigger] s[i].0, k),
    ensures
        crate::named_map::place_of(s, k) == s.len(),
    decreases s.len(),
{
    if s.len() > 0 {
        let t = s.drop_first();
        assert forall|i: int| 0 <= i < t.len() implies text_less(#[trigger] t[i].0, k) by {
            assert(t[i] == s[i + 1]);
        }
        lemma_place_all_less(t, k);
    }
}

impl ForeignTypeRegistry {
    /// The name table, as texts.
    pub closed spec fn names(self) -> Seq<(Seq<char>, Seq<char>)> {
        name_texts(self.name_to_canonical@)
    }

    /// The configurations by canonical name, as models.
    pub closed spec fn configs(self) -> Seq<(Seq<char>, ForeignTypeConfigV)> {
        config_views(self.configs@)
    }

    /// An empty registry.
    pub fn empty() -> (r: ForeignTypeRegistry)
        ensures
            r.names() == Seq::<(Seq<char>, Seq<char>)>::empty(),
            r.configs() == Seq::<(Seq<char>, ForeignTypeConfigV)>::empty(),
    {
        let r = ForeignTypeRegistry { name_to_canonical: NamedMap::new(), configs: NamedMap::new() };
        assert(name_texts(r.name_to_canonical@) =~= Seq::<(Seq<char>, Seq<char>)>::empty());
        assert(config_views(r.configs@) =~= Seq::<(Seq<char>, ForeignTypeConfigV)>::empty());
        r
    }

    /// Builds a registry from the configured foreign types, keyed by
    /// canonical name. With no foreign types the registry is empty.
    pub fn from_config(foreign_types: &NamedMap<ForeignTypeConfig>) -> (r: ForeignTypeRegistry)
        ensures
            r.names() == name_table(config_views(foreign_types@)),
            r.configs() == config_views(foreign_types@),
    {
        let mut registry = ForeignTypeRegistry::empty();
        let entries = foreign_types.entries();
        let ghost cfgs = config_views(foreign_types@);
        let mut i: usize = 0;
        while i < entries.len()
            invariant
                i <= entries@.len(),
                entries_view(entries@) == foreign_types@,
                sorted_names(foreign_types@),
                cfgs == config_views(foreign_types@),
                registry.names() == name_table(cfgs.take(i as int)),
                registry.configs() == cfgs.take(i as int),
            decreases entries.len() - i,
        {
            let canonical = &entries[i].0;
            let config = &entries[i].1;
            let ghost before = registry.names();
            let ghost cn = canonical@;
            let ghost names_v = config@.rust_type_names;
            assert(foreign_types@[i as int] == (cn, entries@[i as int].1));
            assert(cfgs[i as int] == (cn, config@));
            let mut j: usize = 0;
            while j < config.rust_type_names.len()
                invariant
                    j <= config.rust_type_names@.len(),
                    names_v == config.rust_type_names@.map_values(|s: String| s@),
                    cn == canonical@,
                    registry.names() == put_names(before, names_v.take(j as int), cn),
                    registry.configs() == cfgs.take(i as int),
                decreases config.rust_type_names.len() - j,
            {
                let name = config.rust_type_names[j].clone();
                let target = canonical.clone();
                proof {
                    lemma_name_put(registry.name_to_canonical@, name@, target);
                    assert(names_v.take(j + 1).drop_last() == names_v.take(j as int));
                    assert(names_v.take(j + 1).last() == name@);
                }
                registry.name_to_canonical.insert(name, target);
                j = j + 1;
            }
            assert(names_v.take(names_v.len() as int) == names_v);
            let target = canonical.clone();
            let copy = config.duplicate();
            proof {
                lemma_name_put(registry.name_to_canonical@, cn, target);
                lemma_config_put(registry.configs@, cn, copy);
                assert(cfgs.take(i + 1).drop_last() == cfgs.take(i as int));
                assert(cfgs.take(i + 1).last() == cfgs[i as int]);
                assert forall|k: int| 0 <= k < cfgs.take(i as int).len() implies text_less(
                    #[trigger] cfgs.take(i as int)[k].0,
                    cn,
                ) by {
                    assert(cfgs.take(i as int)[k].0 == foreign_types@[k].0);
                }
                lemma_put_after(cfgs.take(i as int), cn, config@);
                assert(cfgs.take(i as int).push((cn, config@)) == cfgs.take(i + 1));
            }
            registry.name_to_canonical.insert(canonical.clone(), target);
            registry.configs.insert(canonical.clone(), copy);
            i = i + 1;
        }
        assert(cfgs.take(cfgs.len() as int) == cfgs);
        registry
    }

    /// The configuration of the foreign type that goes by `rust_type_name`,
    /// if it is one.
    pub fn lookup(&self, rust_type_name: &str) -> (r: Option<&ForeignTypeConfig>)
        ensures
            match r {
                Some(c) => found_config(self.names(), self.configs(), rust_type_name@) == Some(c@),
                None => found_config(self.names(), self.configs(), rust_type_name@) is None,
            },
    {
        proof {
            lemma_value_of_map(self.name_to_canonical@, rust_type_name@, |x: String| x@);
            assert(name_texts(self.name_to_canonical@) =~= map_entry_values(
                self.name_to_canonical@,
                |x: String| x@,
            ));
        }
        match self.name_to_canonical.get(rust_type_name) {
            Some(canonical) => {
                proof {
                    lemma_value_of_map(self.configs@, canonical@, |x: ForeignTypeConfig| x@);
                    assert(config_views(self.configs@) =~= map_entry_values(
                        self.configs@,
                        |x: ForeignTypeConfig| x@,
                    ));
                }
                self.configs.get(canonical.as_str())
            },
            None => None,
        }
    }

    /// Whether `name` is the name of a configured foreign type.
    pub fn is_foreign(&self, name: &str) -> (r: bool)
        ensures
            r == (value_of(self.names(), name@) is Some),
    {
        proof {
            lemma_value_of_map(self.name_to_canonical@, name@, |x: String| x@);
            assert(name_texts(self.name_to_canonical@) =~= map_entry_values(
                self.name_to_canonical@,
                |x: String| x@,
            ));
        }
        self.name_to_canonical.contains_key(name)
    }

    /// All configured foreign types, by canonical name.
    pub fn all(&self) -> (r: &NamedMap<ForeignTypeConfig>)
        ensures
            config_views(r@) == self.configs(),
    {
        &self.configs
    }
}

/// Mapping names never removes one: every name of `s` keeps a value.
proof fn lemma_put_names_keeps(
    s: Seq<(Seq<char>, Seq<char>)>,
    names: Seq<Seq<char>>,
    c: Seq<char>,
    n: Seq<char>,
)
    requires
        sorted_names(s),
        value_of(s, n) is Some || names.contains(n),
    ensures
        sorted_names(put_names(s, names, c)),
        value_of(put_names(s, names, c), n) is Some,
    decreases names.len(),
{
    if names.len() > 0 {
        let t = put_names(s, names.drop_last(), c);
        if names.last() == n {
            if value_of(s, n) is Some || names.drop_last().contains(n) {
                lemma_put_names_keeps(s, names.drop_last(), c, n);
            } else {
                lemma_put_names_sorted(s, names.drop_last(), c);
            }
            lemma_put(t, names.last(), c);
        } else {
            if !(value_of(s, n) is Some) {
                let w = choose|w: int| 0 <= w < names.len() && names[w] == n;
                assert(names.drop_last()[w] == n);
            }
            lemma_put_names_keeps(s, names.drop_last(), c, n);
            lemma_put(t, names.last(), c);
        }
    }
}

proof fn lemma_put_names_sorted(s: Seq<(Seq<char>, Seq<char>)>, names: Seq<Seq<char>>, c: Seq<char>)
    requires
        sorted_names(s),
    ensures
        sorted_names(put_names(s, names, c)),
    decreases names.len(),
{
    if names.len() > 0 {
        lemma_put_names_sorted(s, names.drop_last(), c);
        lemma_put(put_names(s, names.drop_last(), c), names.last(), c);
    }
}

/// Every canonical name and every Rust name of a configuration is the name
/// of a foreign type in the registry built from it.
pub proof fn lemma_configured_names_are_foreign(cfgs: Seq<(Seq<char>, ForeignTypeConfigV)>, i: int, n: Seq<char>)
    requires
        0 <= i < cfgs.len(),
        n == cfgs[i].0 || cfgs[i].1.rust_type_names.contains(n),
    ensures
        sorted_names(name_table(cfgs)),
        value_of(name_table(cfgs), n) is Some,
    decreases cfgs.len(),
{
    let e = cfgs.last();
    let prev = name_table(cfgs.drop_last());
    lemma_name_table_sorted(cfgs.drop_last());
    if i < cfgs.len() - 1 {
        assert(cfgs.drop_last()[i] == cfgs[i]);
        lemma_configured_names_are_foreign(cfgs.drop_last(), i, n);
        lemma_put_names_keeps(prev, e.1.rust_type_names, e.0, n);
        lemma_put(put_names(prev, e.1.rust_type_names, e.0), e.0, e.0);
    } else if n == e.0 {
        lemma_put_names_sorted(prev, e.1.rust_type_names, e.0);
        lemma_put(put_names(prev, e.1.rust_type_names, e.0), e.0, e.0);
    } else {
        lemma_put_names_keeps(prev, e.1.rust_type_names, e.0, n);
        lemma_put(put_names(prev, e.1.rust_type_names, e.0), e.0, e.0);
    }
}

proof fn lemma_name_table_sorted(cfgs: Seq<(Seq<char>, ForeignTypeConfigV)>)
    ensures
        sorted_names(name_table(cfgs)),
    decreases cfgs.len(),
{
    if cfgs.len() > 0 {
        let e = cfgs.last();
        lemma_name_table_sorted(cfgs.drop_last());
        lemma_put_names_sorted(name_table(cfgs.drop_last()), e.1.rust_type_names, e.0);
        lemma_put(put_names(name_table(cfgs.drop_last()), e.1.rust_type_names, e.0), e.0, e.0);
    }
}


proof fn lemma_put_names_value(s: Seq<(Seq<char>, Seq<char>)>, names: Seq<Seq<char>>, c: Seq<char>, n: Seq<char>)
    requires
        sorted_names(s),
    ensures
        value_of(put_names(s, names, c), n) == (if names.contains(n) { Some(c) } else { value_of(s, n) }),
    decreases names.len(),
{
    if names.len() > 0 {
        let d = names.drop_last();
        lemma_put_names_value(s, d, c, n);
        lemma_put_names_sorted(s, d, c);
        lemma_put(put_names(s, d, c), names.last(), c);
        if names.last() == n {
            assert(names[names.len() - 1] == n);
        } else {
            if names.contains(n) {
                let w = choose|w: int| 0 <= w < names.len() && names[w] == n;
                assert(d[w] == n);
            }
            if d.contains(n) {
                let w = choose|w: int| 0 <= w < d.len() && d[w] == n;
                assert(names[w] == n);
            }
        }
    }
}

proof fn lemma_sorted_drop_last<V>(s: Seq<(Seq<char>, V)>)
    requires
        s.len() > 0,
        sorted_names(s),
    ensures
        sorted_names(s.drop_last()),
{
    let t = s.drop_last();
    assert forall|i: int, j: int| 0 <= i < j < t.len() implies text_less(#[trigger] t[i].0, #[trigger] t[j].0) by {
        assert(t[i] == s[i]);
        assert(t[j] == s[j]);
    }
}

/// Whether `n` is the canonical name or one of the Rust names of the
/// configuration entry `e`.
pub open spec fn names_entry(e: (Seq<char>, ForeignTypeConfigV), n: Seq<char>) -> bool {
    e.0 == n || e.1.rust_type_names.contains(n)
}

/// A name has a canonical name in the registry built from `cfgs` exactly
/// when it is the canonical name or one of the Rust names of one of the
/// configurations, and what it maps to is the canonical name of one of
/// them.
pub proof fn lemma_registry_names(cfgs: Seq<(Seq<char>, ForeignTypeConfigV)>, n: Seq<char>)
    requires
        sorted_names(cfgs),
    ensures
        (value_of(name_table(cfgs), n) is Some) == (exists|i: int|
            0 <= i < cfgs.len() && names_entry(#[trigger] cfgs[i], n)),
        value_of(name_table(cfgs), n) matches Some(c) ==> exists|j: int|
            0 <= j < cfgs.len() && (#[trigger] cfgs[j]).0 == c,
    decreases cfgs.len(),
{
    if cfgs.len() > 0 {
        let t = cfgs.drop_last();
        let e = cfgs.last();
        let last = cfgs.len() - 1;
        lemma_sorted_drop_last(cfgs);
        lemma_registry_names(t, n);
        lemma_name_table_sorted(t);
        let prev = name_table(t);
        lemma_put_names_value(prev, e.1.rust_type_names, e.0, n);
        lemma_put_names_sorted(prev, e.1.rust_type_names, e.0);
        lemma_put(put_names(prev, e.1.rust_type_names, e.0), e.0, e.0);
        assert(cfgs[last] == e);
        let found = value_of(name_table(cfgs), n);
        if names_entry(e, n) {
            assert(found == Some(e.0));
            assert(names_entry(cfgs[last], n));
            assert(cfgs[last].0 == e.0);
        } else {
            assert(found == value_of(prev, n));
            if exists|i: int| 0 <= i < cfgs.len() && names_entry(#[trigger] cfgs[i], n) {
                let i = choose|i: int| 0 <= i < cfgs.len() && names_entry(#[trigger] cfgs[i], n);
                assert(i != last);
                assert(t[i] == cfgs[i]);
                assert(names_entry(t[i], n));
            }
            if found is Some {
                let i = choose|i: int| 0 <= i < t.len() && names_entry(#[trigger] t[i], n);
                assert(t[i] == cfgs[i]);
                assert(names_entry(cfgs[i], n));
                let c = found->0;
                let j = choose|j: int| 0 <= j < t.len() && (#[trigger] t[j]).0 == c;
                assert(t[j] == cfgs[j]);
                assert(cfgs[j].0 == c);
            }
        }
    }
}

/// With no Rust name of one configuration equal to the canonical name of
/// another, looking up a canonical name in the registry built from `cfgs`
/// finds its own configuration.
pub proof fn lemma_registry_key(cfgs: Seq<(Seq<char>, ForeignTypeConfigV)>, i: int)
    requires
        sorted_names(cfgs),
        0 <= i < cfgs.len(),
        forall|a: int, b: int|
            0 <= a < cfgs.len() && 0 <= b < cfgs.len() && (#[trigger] cfgs[a].1).rust_type_names.contains(
                #[trigger] cfgs[b].0,
            ) ==> a == b,
    ensures
        value_of(name_table(cfgs), cfgs[i].0) == Some(cfgs[i].0),
        found_config(name_table(cfgs), cfgs, cfgs[i].0) == Some(cfgs[i].1),
    decreases cfgs.len(),
{
    let t = cfgs.drop_last();
    let e = cfgs.last();
    let k = cfgs[i].0;
    let last = cfgs.len() - 1;
    assert(cfgs[last] == e);
    lemma_name_table_sorted(t);
    let prev = name_table(t);
    lemma_put_names_value(prev, e.1.rust_type_names, e.0, k);
    lemma_put_names_sorted(prev, e.1.rust_type_names, e.0);
    lemma_put(put_names(prev, e.1.rust_type_names, e.0), e.0, e.0);
    if i < last {
        lemma_sorted_drop_last(cfgs);
        assert(t[i] == cfgs[i]);
        assert forall|a: int, b: int|
            0 <= a < t.len() && 0 <= b < t.len() && (#[trigger] t[a].1).rust_type_names.contains(
                #[trigger] t[b].0,
            ) implies a == b by {
            assert(t[a] == cfgs[a] && t[b] == cfgs[b]);
        }
        lemma_registry_key(t, i);
        if e.1.rust_type_names.contains(k) {
            assert(cfgs[last].1.rust_type_names.contains(cfgs[i].0));
        }
        lemma_text_less_irreflexive(k);
        assert(text_less(cfgs[i].0, cfgs[last].0));
    }
    lemma_value_of_at(cfgs, i);
}

} // verus!
