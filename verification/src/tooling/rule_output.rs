//! How the answers of output rule plugins change the scanned types.
//!
//! Each answer of a plugin is merged into the type it was asked about, one
//! plugin after the other: an answer that reports an error changes nothing;
//! otherwise the type gets an output override (its Macroforge derives
//! replaced when the answer gives some, the answer's annotations added to
//! its own), a table gets the answer's permissions and events, and each
//! field (or enum variant) the answer names gets its annotations.

use vstd::prelude::*;
use crate::config::copy_texts;
use crate::named_map::{NamedMap, entries_view, value_of};
use crate::text::{has_text, same_text, texts};
use crate::typesync::plugin_types::{OutputRulePluginOutput, PermissionsOverride};

verus! {

/// The settings a plugin's override gives a type for output.
#[derive(Debug)]
pub struct OverrideSettings {
    pub macroforge_derives: Vec<String>,
    pub annotations: Vec<String>,
}

/// A field of a struct, or a variant of an enum, as output rules see it.
#[derive(Debug)]
pub struct RuledMember {
    /// The field's or variant's name.
    pub name: String,
    /// Its own annotations.
    pub annotations: Vec<String>,
    /// The annotations of a field's output override, once a plugin gives one.
    pub override_annotations: Option<Vec<String>>,
}

/// A scanned type as output rules see it: its Macroforge derives and
/// annotations, the override plugins give it, its members, and, for a
/// table, its permissions and event statements.
#[derive(Debug)]
pub struct RuledType {
    pub macroforge_derives: Vec<String>,
    pub annotations: Vec<String>,
    pub output_override: Option<OverrideSettings>,
    pub members: Vec<RuledMember>,
    pub permissions: Option<PermissionsOverride>,
    pub events: Vec<String>,
}

/// What kind of type a plugin answered about.
#[derive(Debug, Clone, Copy, PartialEq, Eq, Structural)]
pub enum RuledKind {
    /// A struct that is a table.
    Table,
    /// Any other struct.
    Struct,
    /// An enum, whose members are its variants.
    Enum,
}

/// The model of a member: its name, annotations and override annotations.
pub open spec fn member_view(m: RuledMember) -> (Seq<char>, Seq<Seq<char>>, Option<Seq<Seq<char>>>) {
    (
        m.name@,
        texts(m.annotations@),
        match m.override_annotations {
            Some(a) => Some(texts(a@)),
            None => None,
        },
    )
}

/// The models of members.
pub open spec fn members_view(ms: Seq<RuledMember>) -> Seq<(Seq<char>, Seq<Seq<char>>, Option<Seq<Seq<char>>>)> {
    ms.map_values(|m: RuledMember| member_view(m))
}

/// The model of a permissions override.
pub open spec fn permissions_view(p: PermissionsOverride) -> (Seq<char>, Seq<char>, Seq<char>, Seq<char>) {
    (p.select@, p.create@, p.update@, p.delete@)
}

/// `existing` with each of `added` that it does not hold yet appended, in
/// order.
pub open spec fn with_new(existing: Seq<Seq<char>>, added: Seq<Seq<char>>) -> Seq<Seq<char>>
    decreases added.len(),
{
    if added.len() == 0 {
        existing
    } else {
        let prev = with_new(existing, added.drop_last());
        if prev.contains(added.last()) {
            prev
        } else {
            prev.push(added.last())
        }
    }
}

/// The override a plugin's answer gives a type with the derives `derives`
/// and annotations `anns`: none when the answer gives neither derives nor
/// annotations, else the answer's derives (or the type's own when it gives
/// none) and the type's annotations with the answer's added.
pub open spec fn override_of(
    derives: Seq<Seq<char>>,
    anns: Seq<Seq<char>>,
    to_derives: Seq<Seq<char>>,
    to_anns: Seq<Seq<char>>,
) -> Option<(Seq<Seq<char>>, Seq<Seq<char>>)> {
    if to_derives.len() == 0 && to_anns.len() == 0 {
        None
    } else {
        Some((if to_derives.len() > 0 { to_derives } else { derives }, with_new(anns, to_anns)))
    }
}

/// The index of the first member named `n`, or the number of members.
pub open spec fn first_named(ms: Seq<(Seq<char>, Seq<Seq<char>>, Option<Seq<Seq<char>>>)>, n: Seq<char>) -> int
    decreases ms.len(),
{
    if ms.len() == 0 {
        0
    } else if ms[0].0 == n {
        0
    } else {
        1 + first_named(ms.drop_first(), n)
    }
}

/// Member `i` of `ms` after the field overrides `ovs`: when it is the first
/// member of its name and an override with annotations names it, a
/// variant's annotations get those added, and a field's override gets
/// them.
pub open spec fn member_after(
    ms: Seq<(Seq<char>, Seq<Seq<char>>, Option<Seq<Seq<char>>>)>,
    i: int,
    ovs: Seq<(Seq<char>, Seq<Seq<char>>)>,
    kind: RuledKind,
) -> (Seq<char>, Seq<Seq<char>>, Option<Seq<Seq<char>>>) {
    let m = ms[i];
    match value_of(ovs, m.0) {
        Some(a) => if a.len() > 0 && first_named(ms, m.0) == i {
            member_updated(m, a, kind)
        } else {
            m
        },
        None => m,
    }
}

/// A member that an override with the annotations `a` reaches.
pub open spec fn member_updated(
    m: (Seq<char>, Seq<Seq<char>>, Option<Seq<Seq<char>>>),
    a: Seq<Seq<char>>,
    kind: RuledKind,
) -> (Seq<char>, Seq<Seq<char>>, Option<Seq<Seq<char>>>) {
    if kind == RuledKind::Enum {
        (m.0, with_new(m.1, a), m.2)
    } else {
        (m.0, m.1, Some(a))
    }
}

/// The field overrides of an answer, as names and annotations.
pub open spec fn overrides_view(ovs: Seq<(Seq<char>, crate::typesync::plugin_types::FieldOverride)>) -> Seq<(Seq<char>, Seq<Seq<char>>)> {
    ovs.map_values(|e: (Seq<char>, crate::typesync::plugin_types::FieldOverride)| (e.0, texts(e.1.annotations@)))
}

/// `existing` with each of `added` that it does not hold yet appended.
fn add_new(existing: &Vec<String>, added: &Vec<String>) -> (r: Vec<String>)
    ensures
        texts(r@) == with_new(texts(existing@), texts(added@)),
{
    let mut out = copy_texts(existing);
    let mut i: usize = 0;
    assert(texts(added@).take(0) =~= Seq::<Seq<char>>::empty());
    while i < added.len()
        invariant
            i <= added@.len(),
            texts(out@) == with_new(texts(existing@), texts(added@).take(i as int)),
        decreases added.len() - i,
    {
        let ghost a = texts(added@);
        proof {
            assert(a.take(i + 1).drop_last() =~= a.take(i as int));
            assert(a.take(i + 1).last() == added@[i as int]@);
        }
        if !has_text(&out, added[i].as_str()) {
            let ghost before = out@;
            out.push(added[i].clone());
            assert(texts(out@) =~= texts(before).push(added@[i as int]@));
        }
        i = i + 1;
    }
    assert(texts(added@).take(added@.len() as int) =~= texts(added@));
    out
}

/// The first member named `n`, if any.
fn find_member(ms: &Vec<RuledMember>, n: &str) -> (r: usize)
    ensures
        r as int == first_named(members_view(ms@), n@),
        r <= ms@.len(),
{
    let ghost mv = members_view(ms@);
    assert(mv.skip(0) =~= mv);
    let mut i: usize = 0;
    while i < ms.len()
        invariant
            i <= ms@.len(),
            mv == members_view(ms@),
            first_named(mv, n@) == i + first_named(mv.skip(i as int), n@),
        decreases ms.len() - i,
    {
        let ghost rest = mv.skip(i as int);
        assert(rest[0] == member_view(ms@[i as int]));
        if same_text(ms[i].name.as_str(), n) {
            return i;
        }
        assert(rest.drop_first() =~= mv.skip(i + 1));
        i = i + 1;
    }
    assert(mv.skip(i as int) =~= Seq::<(Seq<char>, Seq<Seq<char>>, Option<Seq<Seq<char>>>)>::empty());
    i
}

/// The model of a type's override.
pub open spec fn override_view(o: Option<OverrideSettings>) -> Option<(Seq<Seq<char>>, Seq<Seq<char>>)> {
    match o {
        Some(ov) => Some((texts(ov.macroforge_derives@), texts(ov.annotations@))),
        None => None,
    }
}

/// The model of a table's permissions.
pub open spec fn opt_permissions_view(p: Option<PermissionsOverride>) -> Option<(Seq<char>, Seq<char>, Seq<char>, Seq<char>)> {
    match p {
        Some(q) => Some(permissions_view(q)),
        None => None,
    }
}

/// The first member of `ms` named `n` is where the members of `ns`, which
/// have the same names, find it too.
proof fn lemma_first_named_names(
    ms: Seq<(Seq<char>, Seq<Seq<char>>, Option<Seq<Seq<char>>>)>,
    ns: Seq<(Seq<char>, Seq<Seq<char>>, Option<Seq<Seq<char>>>)>,
    n: Seq<char>,
)
    requires
        ms.len() == ns.len(),
        forall|i: int| 0 <= i < ms.len() ==> ms[i].0 == ns[i].0,
    ensures
        first_named(ms, n) == first_named(ns, n),
        0 <= first_named(ms, n) <= ms.len(),
        first_named(ms, n) < ms.len() ==> ms[first_named(ms, n)].0 == n,
        forall|i: int| 0 <= i < first_named(ms, n) ==> ms[i].0 != n,
    decreases ms.len(),
{
    if ms.len() > 0 && ms[0].0 != n {
        let a = ms.drop_first();
        let b = ns.drop_first();
        assert forall|i: int| 0 <= i < a.len() implies a[i].0 == b[i].0 by {
            assert(a[i] == ms[i + 1] && b[i] == ns[i + 1]);
        }
        lemma_first_named_names(a, b, n);
        assert forall|i: int| 0 <= i < first_named(ms, n) implies ms[i].0 != n by {
            if i > 0 {
                assert(ms[i] == a[i - 1]);
            }
        }
        if first_named(ms, n) < ms.len() {
            assert(ms[first_named(ms, n)] == a[first_named(a, n)]);
        }
    }
}

/// A copy of a list of texts, if any.
fn copy_opt_texts(o: &Option<Vec<String>>) -> (r: Option<Vec<String>>)
    ensures
        match r {
            Some(v) => o is Some && texts(v@) == texts(o->Some_0@),
            None => o is None,
        },
{
    match o {
        Some(v) => Some(copy_texts(v)),
        None => None,
    }
}

/// Merges the answer `out` of an output rule plugin into the type `t` of
/// the kind `kind`. An answer that reports an error changes nothing. Else
/// the type gets the override of [`override_of`] when the answer asks for
/// one; a table takes the answer's permissions, when it gives some, and
/// adds its event statements; and each field override with annotations
/// that names a member reaches the first member of that name: a variant
/// adds them to its annotations, a field takes them as its override's.
pub fn apply_rule_output(t: &mut RuledType, kind: RuledKind, out: &OutputRulePluginOutput)
    ensures
        out.error is Some ==> {
            &&& override_view(final(t).output_override) == override_view(old(t).output_override)
            &&& opt_permissions_view(final(t).permissions) == opt_permissions_view(old(t).permissions)
            &&& texts(final(t).events@) == texts(old(t).events@)
            &&& members_view(final(t).members@) == members_view(old(t).members@)
        },
        out.error is None ==> {
            let to = out.type_override;
            &&& override_view(final(t).output_override) == match override_of(
                texts(old(t).macroforge_derives@),
                texts(old(t).annotations@),
                texts(to.macroforge_derives@),
                texts(to.annotations@),
            ) {
                Some(o) => Some(o),
                None => override_view(old(t).output_override),
            }
            &&& opt_permissions_view(final(t).permissions) == if kind == RuledKind::Table && to.permissions is Some {
                opt_permissions_view(to.permissions)
            } else {
                opt_permissions_view(old(t).permissions)
            }
            &&& texts(final(t).events@) == if kind == RuledKind::Table {
                texts(old(t).events@) + to.events@.map_values(|e: crate::typesync::plugin_types::EventOverride| e.statement@)
            } else {
                texts(old(t).events@)
            }
            &&& members_view(final(t).members@).len() == old(t).members@.len()
            &&& forall|i: int| 0 <= i < old(t).members@.len() ==> #[trigger] members_view(final(t).members@)[i] == member_after(
                members_view(old(t).members@),
                i,
                overrides_view(out.field_overrides@),
                kind,
            )
        },
        texts(final(t).macroforge_derives@) == texts(old(t).macroforge_derives@),
        texts(final(t).annotations@) == texts(old(t).annotations@),
{
    if out.error.is_some() {
        return;
    }
    let ghost d0 = t.macroforge_derives@;
    let ghost a0 = t.annotations@;
    let ghost m0 = t.members@;
    let to = &out.type_override;
    if to.macroforge_derives.len() > 0 || to.annotations.len() > 0 {
        let derives = if to.macroforge_derives.len() > 0 {
            copy_texts(&to.macroforge_derives)
        } else {
            copy_texts(&t.macroforge_derives)
        };
        let annotations = add_new(&t.annotations, &to.annotations);
        t.output_override = Some(OverrideSettings { macroforge_derives: derives, annotations });
    }
    if kind == RuledKind::Table {
        match &to.permissions {
            Some(p) => {
                t.permissions = Some(PermissionsOverride {
                    select: p.select.clone(),
                    create: p.create.clone(),
                    update: p.update.clone(),
                    delete: p.delete.clone(),
                });
            },
            None => {},
        }
        let ghost start = texts(t.events@);
        let ghost ovw = override_view(t.output_override);
        let ghost pw = opt_permissions_view(t.permissions);
        let ghost evs = to.events@.map_values(|e: crate::typesync::plugin_types::EventOverride| e.statement@);
        let mut k: usize = 0;
        while k < to.events.len()
            invariant
                k <= to.events@.len(),
                evs == to.events@.map_values(|e: crate::typesync::plugin_types::EventOverride| e.statement@),
                texts(t.events@) == start + evs.take(k as int),
                t.macroforge_derives@ == d0,
                t.annotations@ == a0,
                t.members@ == m0,
                override_view(t.output_override) == ovw,
                opt_permissions_view(t.permissions) == pw,
            decreases to.events.len() - k,
        {
            let ghost before = t.events@;
            t.events.push(to.events[k].statement.clone());
            assert(texts(t.events@) =~= texts(before).push(evs[k as int]));
            assert(evs.take(k + 1) =~= evs.take(k as int).push(evs[k as int]));
            k = k + 1;
        }
        assert(evs.take(evs.len() as int) =~= evs);
    }
    let ghost orig = members_view(t.members@);
    let ghost ovw2 = override_view(t.output_override);
    let ghost pw2 = opt_permissions_view(t.permissions);
    let ghost ew2 = texts(t.events@);
    let es = out.field_overrides.entries();
    let ghost ovs = overrides_view(out.field_overrides@);
    let mut k: usize = 0;
    while k < es.len()
        invariant
            k <= es@.len(),
            entries_view(es@) == out.field_overrides@,
            crate::named_map::sorted_names(out.field_overrides@),
            ovs == overrides_view(out.field_overrides@),
            t.members@.len() == orig.len(),
            t.macroforge_derives@ == d0,
            t.annotations@ == a0,
            override_view(t.output_override) == ovw2,
            opt_permissions_view(t.permissions) == pw2,
            texts(t.events@) == ew2,
            forall|i: int| 0 <= i < orig.len() ==> #[trigger] members_view(t.members@)[i] == member_after(
                orig,
                i,
                ovs.take(k as int),
                kind,
            ),
        decreases es.len() - k,
    {
        let name = &es[k].0;
        let fo = &es[k].1;
        let ghost a = texts(fo.annotations@);
        let ghost cur = members_view(t.members@);
        proof {
            assert(ovs[k as int] == (name@, a));
            assert(ovs.take(k + 1).drop_last() =~= ovs.take(k as int));
            assert(ovs.take(k + 1).last() == (name@, a));
            assert forall|j: int| 0 <= j < ovs.take(k as int).len() implies ovs.take(k as int)[j].0 != name@ by {
                assert(ovs.take(k as int)[j].0 == out.field_overrides@[j].0);
                assert(crate::named_map::text_less(out.field_overrides@[j].0, out.field_overrides@[k as int].0));
                crate::named_map::lemma_text_less_irreflexive(name@);
            }
            crate::named_map::lemma_value_of_none(ovs.take(k as int), name@);
            assert forall|i: int| 0 <= i < orig.len() implies cur[i].0 == orig[i].0 by {
                assert(cur[i] == member_after(orig, i, ovs.take(k as int), kind));
            }
            lemma_first_named_names(cur, orig, name@);
            assert forall|i: int| 0 <= i < orig.len() implies #[trigger] member_after(orig, i, ovs.take(k + 1), kind) == (if a.len() > 0
                && i == first_named(orig, name@) {
                member_updated(orig[i], a, kind)
            } else {
                cur[i]
            }) by {
                assert(cur[i] == member_after(orig, i, ovs.take(k as int), kind));
            }
        }
        if fo.annotations.len() > 0 {
            let j = find_member(&t.members, name.as_str());
            if j < t.members.len() {
                let m = &t.members[j];
                assert(cur[j as int] == orig[j as int]);
                let updated = if kind == RuledKind::Enum {
                    RuledMember {
                        name: m.name.clone(),
                        annotations: add_new(&m.annotations, &fo.annotations),
                        override_annotations: copy_opt_texts(&m.override_annotations),
                    }
                } else {
                    RuledMember {
                        name: m.name.clone(),
                        annotations: copy_texts(&m.annotations),
                        override_annotations: Some(copy_texts(&fo.annotations)),
                    }
                };
                let ghost before_vec = t.members@;
                assert(member_view(updated) == member_updated(orig[j as int], a, kind));
                t.members.set(j, updated);
                proof {
                    assert forall|i: int| 0 <= i < orig.len() implies #[trigger] members_view(t.members@)[i] == member_after(
                        orig,
                        i,
                        ovs.take(k + 1),
                        kind,
                    ) by {
                        if i != j {
                            assert(t.members@[i] == before_vec[i]);
                        }
                    }
                }
            } else {
                proof {
                    assert forall|i: int| 0 <= i < orig.len() implies #[trigger] members_view(t.members@)[i] == member_after(
                        orig,
                        i,
                        ovs.take(k + 1),
                        kind,
                    ) by {
                        assert(member_after(orig, i, ovs.take(k + 1), kind) == cur[i]);
                    }
                }
            }
        } else {
            proof {
                assert forall|i: int| 0 <= i < orig.len() implies #[trigger] members_view(t.members@)[i] == member_after(
                    orig,
                    i,
                    ovs.take(k + 1),
                    kind,
                ) by {
                    assert(member_after(orig, i, ovs.take(k + 1), kind) == cur[i]);
                }
            }
        }
        k = k + 1;
    }
    assert(ovs.take(ovs.len() as int) =~= ovs);
}

} // verus!
