//! Groups of types that are written to one file each.

use vstd::prelude::*;
use crate::config::copy_texts;
use crate::named_map::{
    NamedMap, entries_view, keys_with_value, lemma_keys_with_value, lemma_put, lemma_put_all_other,
    lemma_put_all_sorted, lemma_put_all_value, lemma_put_map, lemma_value_of_map, map_entry_values, put, put_all,
    sorted_names, strictly_sorted, text_less, lemma_text_less_irreflexive, lemma_text_less_transitive, value_of,
};
use crate::text::{has_text, same_text, texts};

verus! {

/// A group of types that will be emitted into a single file.
#[derive(Debug, Clone)]
pub struct TypeFileGroup {
    /// The type that determines the filename.
    pub primary_type: String,
    /// Exclusive dependents bundled into the same file.
    pub co_located_types: Vec<String>,
}

impl TypeFileGroup {
    /// All type names in this group: the primary type, then the co-located
    /// ones.
    pub fn all_types(&self) -> (r: Vec<String>)
        ensures
            texts(r@) == seq![self.primary_type@] + texts(self.co_located_types@),
    {
        let mut all = vec![self.primary_type.clone()];
        let mut rest = copy_texts(&self.co_located_types);
        let ghost first = all@;
        all.append(&mut rest);
        assert(texts(all@) =~= seq![self.primary_type@] + texts(self.co_located_types@));
        all
    }
}

/// The complete plan for how types are distributed across files.
#[derive(Debug)]
pub struct FileOutputPlan {
    /// Ordered list of file groups.
    pub groups: Vec<TypeFileGroup>,
    /// Maps each type name to its group index in `groups`.
    pub type_to_group: NamedMap<usize>,
}

/// The dependencies of each type, as texts.
pub open spec fn dep_texts(deps: Seq<(Seq<char>, Vec<String>)>) -> Seq<(Seq<char>, Seq<Seq<char>>)> {
    map_entry_values(deps, |v: Vec<String>| texts(v@))
}

/// The member lists of the cycles, as texts.
pub open spec fn cycle_texts(cycles: Seq<Vec<String>>) -> Seq<Seq<Seq<char>>> {
    cycles.map_values(|v: Vec<String>| texts(v@))
}

/// The targets of a table of co-location targets, as texts.
pub open spec fn target_texts(s: Seq<(Seq<char>, String)>) -> Seq<(Seq<char>, Seq<char>)> {
    map_entry_values(s, |x: String| x@)
}

/// The types of `deps` whose dependencies include `t`: the users of `t`,
/// in the order of their names.
pub open spec fn users_of(deps: Seq<(Seq<char>, Seq<Seq<char>>)>, t: Seq<char>) -> Seq<Seq<char>>
    decreases deps.len(),
{
    if deps.len() == 0 {
        Seq::empty()
    } else {
        let rest = users_of(deps.drop_last(), t);
        if deps.last().1.contains(t) {
            rest.push(deps.last().0)
        } else {
            rest
        }
    }
}

/// Whether one of `members` is among `ds`.
pub open spec fn mentions_any(ds: Seq<Seq<char>>, members: Seq<Seq<char>>) -> bool {
    exists|i: int| 0 <= i < members.len() && ds.contains(#[trigger] members[i])
}

/// The types of `deps` outside `members` that use one of `members`, in
/// the order of their names.
pub open spec fn outside_users(deps: Seq<(Seq<char>, Seq<Seq<char>>)>, members: Seq<Seq<char>>) -> Seq<Seq<char>>
    decreases deps.len(),
{
    if deps.len() == 0 {
        Seq::empty()
    } else {
        let rest = outside_users(deps.drop_last(), members);
        let e = deps.last();
        if !members.contains(e.0) && mentions_any(e.1, members) {
            rest.push(e.0)
        } else {
            rest
        }
    }
}

/// Each of `members` paired with `t`.
pub open spec fn all_to(members: Seq<Seq<char>>, t: Seq<char>) -> Seq<(Seq<char>, Seq<char>)> {
    members.map_values(|m: Seq<char>| (m, t))
}

/// The co-location targets that the cycles give, taken in order: when
/// exactly one type outside a cycle uses its members, they all go with it.
pub open spec fn cycle_targets(
    deps: Seq<(Seq<char>, Seq<Seq<char>>)>,
    cycles: Seq<Seq<Seq<char>>>,
) -> Seq<(Seq<char>, Seq<char>)>
    decreases cycles.len(),
{
    if cycles.len() == 0 {
        Seq::empty()
    } else {
        let prev = cycle_targets(deps, cycles.drop_last());
        let members = cycles.last();
        let ext = outside_users(deps, members);
        if ext.len() == 1 {
            put_all(prev, all_to(members, ext[0]))
        } else {
            prev
        }
    }
}

/// Whether `n` is a member of one of the cycles.
pub open spec fn in_cycle(cycles: Seq<Seq<Seq<char>>>, n: Seq<char>) -> bool {
    exists|i: int| 0 <= i < cycles.len() && (#[trigger] cycles[i]).contains(n)
}

/// `base` with each of `names`, taken in order, that has no target yet,
/// is in no cycle and has exactly one user other than itself going with
/// that user.
pub open spec fn single_user_targets(
    deps: Seq<(Seq<char>, Seq<Seq<char>>)>,
    cycles: Seq<Seq<Seq<char>>>,
    names: Seq<Seq<char>>,
    base: Seq<(Seq<char>, Seq<char>)>,
) -> Seq<(Seq<char>, Seq<char>)>
    decreases names.len(),
{
    if names.len() == 0 {
        base
    } else {
        let prev = single_user_targets(deps, cycles, names.drop_last(), base);
        let n = names.last();
        let u = users_of(deps, n);
        if value_of(prev, n) is None && !in_cycle(cycles, n) && u.len() == 1 && u[0] != n {
            put(prev, n, u[0])
        } else {
            prev
        }
    }
}

/// The names of the types of `deps`, in order.
pub open spec fn type_names(deps: Seq<(Seq<char>, Seq<Seq<char>>)>) -> Seq<Seq<char>> {
    deps.map_values(|e: (Seq<char>, Seq<Seq<char>>)| e.0)
}

/// The co-location target of each type that goes with another one.
pub open spec fn co_location_targets(
    deps: Seq<(Seq<char>, Seq<Seq<char>>)>,
    cycles: Seq<Seq<Seq<char>>>,
) -> Seq<(Seq<char>, Seq<char>)> {
    single_user_targets(deps, cycles, type_names(deps), cycle_targets(deps, cycles))
}

/// Where the chain of targets from `t` ends, following at most `fuel`
/// steps.
pub open spec fn chain_end(targets: Seq<(Seq<char>, Seq<char>)>, t: Seq<char>, fuel: nat) -> Seq<char>
    decreases fuel,
{
    if fuel == 0 {
        t
    } else {
        match value_of(targets, t) {
            Some(next) => chain_end(targets, next, (fuel - 1) as nat),
            None => t,
        }
    }
}

/// Each type of `targets` with the end of its chain of targets.
pub open spec fn resolved_targets(targets: Seq<(Seq<char>, Seq<char>)>) -> Seq<(Seq<char>, Seq<char>)> {
    put_all(Seq::empty(), map_entry_values(targets, |t: Seq<char>| chain_end(targets, t, targets.len())))
}

/// The types of `deps` with no target in `resolved`: those that name a
/// file, in order.
pub open spec fn primaries(deps: Seq<(Seq<char>, Seq<Seq<char>>)>, resolved: Seq<(Seq<char>, Seq<char>)>) -> Seq<Seq<char>>
    decreases deps.len(),
{
    if deps.len() == 0 {
        Seq::empty()
    } else {
        let rest = primaries(deps.drop_last(), resolved);
        let n = deps.last().0;
        if value_of(resolved, n) is None {
            rest.push(n)
        } else {
            rest
        }
    }
}

/// The index of the group that holds `n`, among the groups named by `ps`.
pub open spec fn group_of(ps: Seq<Seq<char>>, resolved: Seq<(Seq<char>, Seq<char>)>, n: Seq<char>) -> Option<int>
    decreases ps.len(),
{
    if ps.len() == 0 {
        None
    } else if ps.last() == n || value_of(resolved, n) == Some(ps.last()) {
        Some(ps.len() - 1)
    } else {
        group_of(ps.drop_last(), resolved, n)
    }
}

/// Whether one of `members` is among `ds`.
fn mentions_any_of(ds: &Vec<String>, members: &Vec<String>) -> (r: bool)
    ensures
        r == mentions_any(texts(ds@), texts(members@)),
{
    let mut i: usize = 0;
    while i < members.len()
        invariant
            i <= members@.len(),
            forall|j: int| 0 <= j < i ==> !texts(ds@).contains(#[trigger] texts(members@)[j]),
        decreases members.len() - i,
    {
        if has_text(ds, members[i].as_str()) {
            assert(texts(members@)[i as int] == members@[i as int]@);
            return true;
        }
        assert(texts(members@)[i as int] == members@[i as int]@);
        i = i + 1;
    }
    false
}

/// The types of `deps` that use `t`, in order.
fn users(deps: &NamedMap<Vec<String>>, t: &str) -> (r: Vec<String>)
    ensures
        texts(r@) == users_of(dep_texts(deps@), t@),
{
    let es = deps.entries();
    let ghost d = dep_texts(deps@);
    let mut out: Vec<String> = Vec::new();
    let mut i: usize = 0;
    while i < es.len()
        invariant
            i <= es@.len(),
            entries_view(es@) == deps@,
            d == dep_texts(deps@),
            texts(out@) == users_of(d.take(i as int), t@),
        decreases es.len() - i,
    {
        proof {
            assert(d.take(i + 1).drop_last() =~= d.take(i as int));
            assert(d[i as int] == (es@[i as int].0@, texts(es@[i as int].1@)));
        }
        if has_text(&es[i].1, t) {
            let ghost before = out@;
            out.push(es[i].0.clone());
            assert(texts(out@) =~= texts(before).push(es@[i as int].0@));
        }
        i = i + 1;
    }
    assert(d.take(d.len() as int) =~= d);
    out
}

/// The types of `deps` outside `members` that use one of them, in order.
fn outside(deps: &NamedMap<Vec<String>>, members: &Vec<String>) -> (r: Vec<String>)
    ensures
        texts(r@) == outside_users(dep_texts(deps@), texts(members@)),
{
    let es = deps.entries();
    let ghost d = dep_texts(deps@);
    let ghost m = texts(members@);
    let mut out: Vec<String> = Vec::new();
    let mut i: usize = 0;
    while i < es.len()
        invariant
            i <= es@.len(),
            entries_view(es@) == deps@,
            d == dep_texts(deps@),
            m == texts(members@),
            texts(out@) == outside_users(d.take(i as int), m),
        decreases es.len() - i,
    {
        proof {
            assert(d.take(i + 1).drop_last() =~= d.take(i as int));
            assert(d[i as int] == (es@[i as int].0@, texts(es@[i as int].1@)));
        }
        if !has_text(members, es[i].0.as_str()) && mentions_any_of(&es[i].1, members) {
            let ghost before = out@;
            out.push(es[i].0.clone());
            assert(texts(out@) =~= texts(before).push(es@[i as int].0@));
        }
        i = i + 1;
    }
    assert(d.take(d.len() as int) =~= d);
    out
}

/// Whether `n` is a member of one of `cycles`.
fn in_cycles(cycles: &Vec<Vec<String>>, n: &str) -> (r: bool)
    ensures
        r == in_cycle(cycle_texts(cycles@), n@),
{
    let ghost c = cycle_texts(cycles@);
    let mut i: usize = 0;
    while i < cycles.len()
        invariant
            i <= cycles@.len(),
            c == cycle_texts(cycles@),
            forall|j: int| 0 <= j < i ==> !(#[trigger] c[j]).contains(n@),
        decreases cycles.len() - i,
    {
        assert(c[i as int] == texts(cycles@[i as int]@));
        if has_text(&cycles[i], n) {
            return true;
        }
        i = i + 1;
    }
    false
}

/// Where the chain of targets from `t` ends.
fn follow(targets: &NamedMap<String>, t: &String) -> (r: String)
    ensures
        r@ == chain_end(target_texts(targets@), t@, targets@.len()),
{
    let ghost s = target_texts(targets@);
    let n = targets.len();
    let mut cur = t.clone();
    let mut steps: usize = 0;
    while steps < n
        invariant
            n == targets@.len(),
            s == target_texts(targets@),
            steps <= n,
            chain_end(s, cur@, (n - steps) as nat) == chain_end(s, t@, n as nat),
        decreases n - steps,
    {
        proof {
            lemma_value_of_map(targets@, cur@, |x: String| x@);
        }
        match targets.get(cur.as_str()) {
            Some(next) => {
                cur = next.clone();
            },
            None => {
                return cur;
            },
        }
        steps = steps + 1;
    }
    cur
}

/// The types whose target in `resolved` is `p`, in order.
fn with_target(resolved: &NamedMap<String>, p: &String) -> (r: Vec<String>)
    ensures
        texts(r@) == keys_with_value(target_texts(resolved@), p@),
{
    let es = resolved.entries();
    let ghost s = target_texts(resolved@);
    let mut out: Vec<String> = Vec::new();
    let mut i: usize = 0;
    while i < es.len()
        invariant
            i <= es@.len(),
            entries_view(es@) == resolved@,
            s == target_texts(resolved@),
            texts(out@) == keys_with_value(s.take(i as int), p@),
        decreases es.len() - i,
    {
        proof {
            assert(s.take(i + 1).drop_last() =~= s.take(i as int));
            assert(s[i as int] == (es@[i as int].0@, es@[i as int].1@));
        }
        if same_text(es[i].1.as_str(), p.as_str()) {
            let ghost before = out@;
            out.push(es[i].0.clone());
            assert(texts(out@) =~= texts(before).push(es@[i as int].0@));
        }
        i = i + 1;
    }
    assert(s.take(s.len() as int) =~= s);
    out
}

/// The co-location targets that `cycles` give.
fn targets_of_cycles(deps: &NamedMap<Vec<String>>, cycles: &Vec<Vec<String>>) -> (r: NamedMap<String>)
    ensures
        target_texts(r@) == cycle_targets(dep_texts(deps@), cycle_texts(cycles@)),
{
    let ghost d = dep_texts(deps@);
    let ghost c = cycle_texts(cycles@);
    let mut co: NamedMap<String> = NamedMap::new();
    assert(target_texts(co@) =~= Seq::<(Seq<char>, Seq<char>)>::empty());
    let mut i: usize = 0;
    while i < cycles.len()
        invariant
            i <= cycles@.len(),
            c == cycle_texts(cycles@),
            d == dep_texts(deps@),
            target_texts(co@) == cycle_targets(d, c.take(i as int)),
        decreases cycles.len() - i,
    {
        proof {
            assert(c.take(i + 1).drop_last() =~= c.take(i as int));
            assert(c.take(i + 1).last() == texts(cycles@[i as int]@));
        }
        let members = &cycles[i];
        let ext = outside(deps, members);
        if ext.len() == 1 {
            let ghost prev = target_texts(co@);
            let ghost es = all_to(texts(members@), ext@[0]@);
            assert(texts(ext@)[0] == ext@[0]@);
            let mut j: usize = 0;
            while j < members.len()
                invariant
                    j <= members@.len(),
                    ext@.len() == 1,
                    es == all_to(texts(members@), ext@[0]@),
                    target_texts(co@) == put_all(prev, es.take(j as int)),
                decreases members.len() - j,
            {
                let name = members[j].clone();
                let target = ext[0].clone();
                proof {
                    lemma_put_map(co@, name@, target, |x: String| x@);
                    assert(es.take(j + 1).drop_last() =~= es.take(j as int));
                    assert(es.take(j + 1).last() == (name@, target@));
                }
                co.insert(name, target);
                j = j + 1;
            }
            assert(es.take(es.len() as int) =~= es);
        }
        i = i + 1;
    }
    assert(c.take(c.len() as int) =~= c);
    co
}

/// `co` with each type outside the cycles, with no target yet and exactly
/// one user other than itself, going with that user.
fn add_single_user_targets(deps: &NamedMap<Vec<String>>, cycles: &Vec<Vec<String>>, co: &mut NamedMap<String>)
    ensures
        target_texts(final(co)@) == single_user_targets(
            dep_texts(deps@),
            cycle_texts(cycles@),
            type_names(dep_texts(deps@)),
            target_texts(old(co)@),
        ),
{
    let ghost d = dep_texts(deps@);
    let ghost c = cycle_texts(cycles@);
    let ghost names = type_names(d);
    let ghost base = target_texts(co@);
    let es = deps.entries();
    let mut i: usize = 0;
    while i < es.len()
        invariant
            i <= es@.len(),
            entries_view(es@) == deps@,
            d == dep_texts(deps@),
            c == cycle_texts(cycles@),
            names == type_names(d),
            target_texts(co@) == single_user_targets(d, c, names.take(i as int), base),
        decreases es.len() - i,
    {
        proof {
            assert(names.take(i + 1).drop_last() =~= names.take(i as int));
            assert(names.take(i + 1).last() == es@[i as int].0@);
            lemma_value_of_map(co@, es@[i as int].0@, |x: String| x@);
        }
        let name = &es[i].0;
        if !co.contains_key(name.as_str()) && !in_cycles(cycles, name.as_str()) {
            let u = users(deps, name.as_str());
            if u.len() == 1 && !same_text(u[0].as_str(), name.as_str()) {
                let key = name.clone();
                let target = u[0].clone();
                proof {
                    lemma_put_map(co@, key@, target, |x: String| x@);
                    assert(texts(u@)[0] == u@[0]@);
                }
                co.insert(key, target);
            }
        }
        i = i + 1;
    }
    assert(names.take(names.len() as int) =~= names);
}

/// Each type of `co` with the end of its chain of targets.
fn resolve(co: &NamedMap<String>) -> (r: NamedMap<String>)
    ensures
        target_texts(r@) == resolved_targets(target_texts(co@)),
{
    let ghost t = target_texts(co@);
    let ghost ms = map_entry_values(t, |x: Seq<char>| chain_end(t, x, t.len()));
    let es = co.entries();
    let mut resolved: NamedMap<String> = NamedMap::new();
    assert(target_texts(resolved@) =~= Seq::<(Seq<char>, Seq<char>)>::empty());
    let mut i: usize = 0;
    while i < es.len()
        invariant
            i <= es@.len(),
            entries_view(es@) == co@,
            t == target_texts(co@),
            ms == map_entry_values(t, |x: Seq<char>| chain_end(t, x, t.len())),
            target_texts(resolved@) == put_all(Seq::empty(), ms.take(i as int)),
        decreases es.len() - i,
    {
        let end = follow(co, &es[i].1);
        let key = es[i].0.clone();
        proof {
            lemma_put_map(resolved@, key@, end, |x: String| x@);
            assert(ms.take(i + 1).drop_last() =~= ms.take(i as int));
            assert(t[i as int] == (es@[i as int].0@, es@[i as int].1@));
            assert(ms.take(i + 1).last() == (key@, end@));
        }
        resolved.insert(key, end);
        i = i + 1;
    }
    assert(ms.take(ms.len() as int) =~= ms);
    resolved
}

/// Computes which types go into which file.
///
/// `deps` gives, for each known type by its PascalCase name, the types it
/// depends on; `cycles` lists the members of each group of mutually
/// recursive types with more than one member. A type that exactly one
/// other type uses goes into that type's file; so do all the members of a
/// cycle that exactly one type outside it uses; a type that goes with one
/// that itself goes elsewhere follows it to the end of the chain. Every
/// other type names a file of its own. The groups come in the order of
/// their primary types' names, and each group's co-located types in the
/// order of theirs.
///
/// Where the co-location targets form a cycle (they do not when `cycles`
/// holds the recursive groups of `deps`), a chain is followed for as many
/// steps as there are targets.
pub fn compute_file_grouping(deps: &NamedMap<Vec<String>>, cycles: &Vec<Vec<String>>) -> (r: FileOutputPlan)
    ensures
        ({
            let d = dep_texts(deps@);
            let res = resolved_targets(co_location_targets(d, cycle_texts(cycles@)));
            let ps = primaries(d, res);
            &&& r.groups@.len() == ps.len()
            &&& forall|k: int|
                0 <= k < ps.len() ==> (#[trigger] r.groups@[k]).primary_type@ == ps[k] && texts(
                    r.groups@[k].co_located_types@,
                ) == keys_with_value(res, ps[k])
            &&& forall|n: Seq<char>|
                match #[trigger] value_of(r.type_to_group@, n) {
                    Some(g) => group_of(ps, res, n) == Some(g as int),
                    None => group_of(ps, res, n) is None,
                }
        }),
{
    let ghost d = dep_texts(deps@);
    let mut co = targets_of_cycles(deps, cycles);
    add_single_user_targets(deps, cycles, &mut co);
    let resolved = resolve(&co);
    let ghost res = target_texts(resolved@);
    assert(res == resolved_targets(co_location_targets(d, cycle_texts(cycles@))));
    let es = deps.entries();
    let _ = resolved.entries();
    assert(sorted_names(res)) by {
        assert forall|a: int, b: int| 0 <= a < b < res.len() implies crate::named_map::text_less(
            #[trigger] res[a].0,
            #[trigger] res[b].0,
        ) by {
            assert(res[a].0 == resolved@[a].0 && res[b].0 == resolved@[b].0);
        }
    }
    let mut groups: Vec<TypeFileGroup> = Vec::new();
    let mut to_group: NamedMap<usize> = NamedMap::new();
    let mut i: usize = 0;
    while i < es.len()
        invariant
            i <= es@.len(),
            entries_view(es@) == deps@,
            d == dep_texts(deps@),
            res == target_texts(resolved@),
            sorted_names(res),
            groups@.len() == primaries(d.take(i as int), res).len(),
            forall|k: int|
                0 <= k < groups@.len() ==> (#[trigger] groups@[k]).primary_type@ == primaries(
                    d.take(i as int),
                    res,
                )[k] && texts(groups@[k].co_located_types@) == keys_with_value(
                    res,
                    primaries(d.take(i as int), res)[k],
                ),
            forall|n: Seq<char>|
                match #[trigger] value_of(to_group@, n) {
                    Some(g) => group_of(primaries(d.take(i as int), res), res, n) == Some(g as int),
                    None => group_of(primaries(d.take(i as int), res), res, n) is None,
                },
        decreases es.len() - i,
    {
        let ghost ps = primaries(d.take(i as int), res);
        proof {
            assert(d.take(i + 1).drop_last() =~= d.take(i as int));
            assert(d.take(i + 1).last().0 == es@[i as int].0@);
            lemma_value_of_map(resolved@, es@[i as int].0@, |x: String| x@);
        }
        let name = &es[i].0;
        if !resolved.contains_key(name.as_str()) {
            let idx = groups.len();
            let co_located = with_target(&resolved, name);
            let ghost before = to_group@;
            let ghost cl = texts(co_located@);
            proof {
                lemma_keys_with_value(res, name@);
            }
            let ghost prev_map = to_group;
            to_group.insert(name.clone(), idx);
            assert forall|n: Seq<char>|
                #[trigger] value_of(to_group@, n) == (if n == name@ || cl.take(0).contains(n) {
                    Some(idx)
                } else {
                    value_of(before, n)
                }) by {
                if n != name@ {
                    assert(to_group.get_spec(n) == prev_map.get_spec(n));
                } else {
                    assert(to_group.get_spec(n) == Some(idx));
                }
            }
            let mut j: usize = 0;
            while j < co_located.len()
                invariant
                    j <= co_located@.len(),
                    cl == texts(co_located@),
                    forall|n: Seq<char>|
                        #[trigger] value_of(to_group@, n) == (if n == name@ || cl.take(j as int).contains(n) {
                            Some(idx)
                        } else {
                            value_of(before, n)
                        }),
                decreases co_located.len() - j,
            {
                let key = co_located[j].clone();
                proof {
                    assert(cl[j as int] == key@);
                    assert forall|n: Seq<char>| #[trigger] cl.take(j + 1).contains(n) == (cl.take(j as int).contains(n) || n == key@) by {
                        if cl.take(j + 1).contains(n) {
                            let w = choose|w: int| 0 <= w < j + 1 && #[trigger] cl.take(j + 1)[w] == n;
                            if w < j {
                                assert(cl.take(j as int)[w] == n);
                            }
                        }
                        if cl.take(j as int).contains(n) {
                            let w = choose|w: int| 0 <= w < j && #[trigger] cl.take(j as int)[w] == n;
                            assert(cl.take(j + 1)[w] == n);
                        }
                        if n == key@ {
                            assert(cl.take(j + 1)[j as int] == n);
                        }
                    }
                }
                let ghost prev_map = to_group;
                let ghost k = key@;
                to_group.insert(key, idx);
                assert forall|n: Seq<char>|
                    #[trigger] value_of(to_group@, n) == (if n == name@ || cl.take(j + 1).contains(n) {
                        Some(idx)
                    } else {
                        value_of(before, n)
                    }) by {
                    if n != k {
                        assert(to_group.get_spec(n) == prev_map.get_spec(n));
                    } else {
                        assert(to_group.get_spec(n) == Some(idx));
                    }
                }
                j = j + 1;
            }
            assert(cl.take(cl.len() as int) =~= cl);
            let ghost before_groups = groups@;
            groups.push(TypeFileGroup { primary_type: name.clone(), co_located_types: co_located });
            proof {
                let ps2 = primaries(d.take(i + 1), res);
                assert(ps2 == ps.push(name@));
                assert forall|k: int| 0 <= k < groups@.len() implies (#[trigger] groups@[k]).primary_type@ == ps2[k]
                    && texts(groups@[k].co_located_types@) == keys_with_value(res, ps2[k]) by {
                    if k < before_groups.len() {
                        assert(groups@[k] == before_groups[k]);
                    }
                }
                assert forall|n: Seq<char>|
                    match #[trigger] value_of(to_group@, n) {
                        Some(g) => group_of(ps2, res, n) == Some(g as int),
                        None => group_of(ps2, res, n) is None,
                    } by {
                    assert(ps2.drop_last() =~= ps);
                    if cl.contains(n) {
                        assert(value_of(res, n) == Some(name@));
                    }
                    if value_of(res, n) == Some(name@) {
                        assert(cl.contains(n));
                    }
                }
            }
        }
        i = i + 1;
    }
    assert(d.take(d.len() as int) =~= d);
    FileOutputPlan { groups, type_to_group: to_group }
}

/// The targets that the cycles give are sorted by name, and a type in no
/// cycle has none.
proof fn lemma_cycle_targets(deps: Seq<(Seq<char>, Seq<Seq<char>>)>, cycles: Seq<Seq<Seq<char>>>, n: Seq<char>)
    ensures
        sorted_names(cycle_targets(deps, cycles)),
        !in_cycle(cycles, n) ==> value_of(cycle_targets(deps, cycles), n) is None,
    decreases cycles.len(),
{
    if cycles.len() > 0 {
        let init = cycles.drop_last();
        lemma_cycle_targets(deps, init, n);
        let prev = cycle_targets(deps, init);
        let members = cycles.last();
        let ext = outside_users(deps, members);
        if ext.len() == 1 {
            let es = all_to(members, ext[0]);
            lemma_put_all_sorted(prev, es);
            if !in_cycle(cycles, n) {
                assert(!in_cycle(init, n)) by {
                    if in_cycle(init, n) {
                        let i = choose|i: int| 0 <= i < init.len() && (#[trigger] init[i]).contains(n);
                        assert(cycles[i] == init[i]);
                    }
                }
                assert(!members.contains(n)) by {
                    assert(cycles[cycles.len() - 1] == members);
                }
                assert forall|j: int| 0 <= j < es.len() implies es[j].0 != n by {
                    assert(es[j].0 == members[j]);
                }
                lemma_put_all_other(prev, es, n);
            }
        } else {
            if !in_cycle(cycles, n) {
                assert(!in_cycle(init, n)) by {
                    if in_cycle(init, n) {
                        let i = choose|i: int| 0 <= i < init.len() && (#[trigger] init[i]).contains(n);
                        assert(cycles[i] == init[i]);
                    }
                }
            }
        }
    }
}

/// Adding the single-user targets keeps the names sorted, and gives no
/// target to a type without one that is not used by exactly one other type.
proof fn lemma_single_user_targets(
    deps: Seq<(Seq<char>, Seq<Seq<char>>)>,
    cycles: Seq<Seq<Seq<char>>>,
    names: Seq<Seq<char>>,
    base: Seq<(Seq<char>, Seq<char>)>,
    n: Seq<char>,
)
    requires
        sorted_names(base),
    ensures
        sorted_names(single_user_targets(deps, cycles, names, base)),
        value_of(base, n) is None && (users_of(deps, n).len() != 1 || users_of(deps, n)[0] == n)
            ==> value_of(single_user_targets(deps, cycles, names, base), n) is None,
    decreases names.len(),
{
    if names.len() > 0 {
        let prev = single_user_targets(deps, cycles, names.drop_last(), base);
        lemma_single_user_targets(deps, cycles, names.drop_last(), base, n);
        let m = names.last();
        let u = users_of(deps, m);
        if value_of(prev, m) is None && !in_cycle(cycles, m) && u.len() == 1 && u[0] != m {
            lemma_put(prev, m, u[0]);
        }
    }
}

/// The types of `deps` with no target are the primaries.
proof fn lemma_primaries_hold(deps: Seq<(Seq<char>, Seq<Seq<char>>)>, resolved: Seq<(Seq<char>, Seq<char>)>, j: int)
    requires
        0 <= j < deps.len(),
        value_of(resolved, deps[j].0) is None,
    ensures
        primaries(deps, resolved).contains(deps[j].0),
    decreases deps.len(),
{
    let rest = primaries(deps.drop_last(), resolved);
    if j < deps.len() - 1 {
        assert(deps.drop_last()[j] == deps[j]);
        lemma_primaries_hold(deps.drop_last(), resolved, j);
        let w = choose|w: int| 0 <= w < rest.len() && rest[w] == deps[j].0;
        if value_of(resolved, deps.last().0) is None {
            assert(rest.push(deps.last().0)[w] == deps[j].0);
        }
    } else {
        assert(rest.push(deps.last().0)[rest.len() as int] == deps[j].0);
    }
}

/// A type in no cycle that is not used by exactly one other type gets a
/// file of its own: it is one of the primary types.
pub proof fn lemma_shared_type_gets_own_file(
    deps: Seq<(Seq<char>, Seq<Seq<char>>)>,
    cycles: Seq<Seq<Seq<char>>>,
    j: int,
)
    requires
        0 <= j < deps.len(),
        !in_cycle(cycles, deps[j].0),
        users_of(deps, deps[j].0).len() != 1 || users_of(deps, deps[j].0)[0] == deps[j].0,
    ensures
        primaries(deps, resolved_targets(co_location_targets(deps, cycles))).contains(deps[j].0),
{
    let n = deps[j].0;
    lemma_cycle_targets(deps, cycles, n);
    let base = cycle_targets(deps, cycles);
    lemma_single_user_targets(deps, cycles, type_names(deps), base, n);
    let co = co_location_targets(deps, cycles);
    let f = |t: Seq<char>| chain_end(co, t, co.len());
    lemma_value_of_map(co, n, f);
    lemma_put_all_value(Seq::empty(), map_entry_values(co, f), n);
    lemma_primaries_hold(deps, resolved_targets(co), j);
}

/// Names other than `n` leave the target of `n` as it was.
proof fn lemma_single_user_other(
    deps: Seq<(Seq<char>, Seq<Seq<char>>)>,
    cycles: Seq<Seq<Seq<char>>>,
    names: Seq<Seq<char>>,
    base: Seq<(Seq<char>, Seq<char>)>,
    n: Seq<char>,
)
    requires
        sorted_names(base),
        !names.contains(n),
    ensures
        value_of(single_user_targets(deps, cycles, names, base), n) == value_of(base, n),
    decreases names.len(),
{
    if names.len() > 0 {
        let init = names.drop_last();
        assert(!init.contains(n)) by {
            if init.contains(n) {
                let w = choose|w: int| 0 <= w < init.len() && init[w] == n;
                assert(names[w] == n);
            }
        }
        lemma_single_user_other(deps, cycles, init, base, n);
        lemma_single_user_targets(deps, cycles, init, base, n);
        let prev = single_user_targets(deps, cycles, init, base);
        let m = names.last();
        assert(m != n) by {
            assert(names[names.len() - 1] == m);
        }
        let u = users_of(deps, m);
        if value_of(prev, m) is None && !in_cycle(cycles, m) && u.len() == 1 && u[0] != m {
            lemma_put(prev, m, u[0]);
        }
    }
}

/// A type listed once, in no cycle and without a target from the cycles,
/// goes with its one user other than itself.
proof fn lemma_single_user_target(
    deps: Seq<(Seq<char>, Seq<Seq<char>>)>,
    cycles: Seq<Seq<Seq<char>>>,
    names: Seq<Seq<char>>,
    base: Seq<(Seq<char>, Seq<char>)>,
    j: int,
)
    requires
        sorted_names(base),
        0 <= j < names.len(),
        forall|a: int, b: int| 0 <= a < b < names.len() ==> names[a] != names[b],
        value_of(base, names[j]) is None,
        !in_cycle(cycles, names[j]),
        users_of(deps, names[j]).len() == 1,
        users_of(deps, names[j])[0] != names[j],
    ensures
        value_of(single_user_targets(deps, cycles, names, base), names[j]) == Some(users_of(deps, names[j])[0]),
    decreases names.len(),
{
    let n = names[j];
    let init = names.drop_last();
    let prev = single_user_targets(deps, cycles, init, base);
    lemma_single_user_targets(deps, cycles, init, base, n);
    let m = names.last();
    let u = users_of(deps, m);
    if j == names.len() - 1 {
        assert(!init.contains(n)) by {
            if init.contains(n) {
                let w = choose|w: int| 0 <= w < init.len() && init[w] == n;
                assert(names[w] == names[j]);
            }
        }
        lemma_single_user_other(deps, cycles, init, base, n);
        lemma_put(prev, m, u[0]);
    } else {
        assert(init[j] == n);
        assert forall|a: int, b: int| 0 <= a < b < init.len() implies init[a] != init[b] by {
            assert(init[a] == names[a] && init[b] == names[b]);
        }
        lemma_single_user_target(deps, cycles, init, base, j);
        assert(m != n) by {
            assert(names[names.len() - 1] == m);
        }
        if value_of(prev, m) is None && !in_cycle(cycles, m) && u.len() == 1 && u[0] != m {
            lemma_put(prev, m, u[0]);
        }
    }
}

/// The primaries have no target.
proof fn lemma_primaries_untargeted(deps: Seq<(Seq<char>, Seq<Seq<char>>)>, resolved: Seq<(Seq<char>, Seq<char>)>, n: Seq<char>)
    requires
        primaries(deps, resolved).contains(n),
    ensures
        value_of(resolved, n) is None,
    decreases deps.len(),
{
    let rest = primaries(deps.drop_last(), resolved);
    let w = choose|w: int| 0 <= w < primaries(deps, resolved).len() && primaries(deps, resolved)[w] == n;
    if w < rest.len() {
        if value_of(resolved, deps.last().0) is None {
            assert(rest.push(deps.last().0)[w] == rest[w]);
        }
        lemma_primaries_untargeted(deps.drop_last(), resolved, n);
    }
}

/// A type in no cycle that exactly one other type uses goes with that
/// type: that type is its co-location target, and it names no file of its
/// own.
pub proof fn lemma_exclusive_type_goes_with_its_user(
    deps: Seq<(Seq<char>, Seq<Seq<char>>)>,
    cycles: Seq<Seq<Seq<char>>>,
    j: int,
)
    requires
        sorted_names(deps),
        0 <= j < deps.len(),
        !in_cycle(cycles, deps[j].0),
        users_of(deps, deps[j].0).len() == 1,
        users_of(deps, deps[j].0)[0] != deps[j].0,
    ensures
        value_of(co_location_targets(deps, cycles), deps[j].0) == Some(users_of(deps, deps[j].0)[0]),
        !primaries(deps, resolved_targets(co_location_targets(deps, cycles))).contains(deps[j].0),
{
    let n = deps[j].0;
    let names = type_names(deps);
    lemma_cycle_targets(deps, cycles, n);
    let base = cycle_targets(deps, cycles);
    assert(names[j] == n);
    assert forall|a: int, b: int| 0 <= a < b < names.len() implies names[a] != names[b] by {
        assert(text_less(deps[a].0, deps[b].0));
        lemma_text_less_irreflexive(deps[a].0);
    }
    lemma_single_user_target(deps, cycles, names, base, j);
    let co = co_location_targets(deps, cycles);
    let f = |t: Seq<char>| chain_end(co, t, co.len());
    lemma_value_of_map(co, n, f);
    lemma_put_all_value(Seq::empty(), map_entry_values(co, f), n);
    if primaries(deps, resolved_targets(co)).contains(n) {
        lemma_primaries_untargeted(deps, resolved_targets(co), n);
    }
}

/// Whether `n` lies in the group named by `ps[i]`: it is that primary type
/// or goes with it.
pub open spec fn in_group(ps: Seq<Seq<char>>, resolved: Seq<(Seq<char>, Seq<char>)>, i: int, n: Seq<char>) -> bool {
    ps[i] == n || value_of(resolved, n) == Some(ps[i])
}

/// Whether every chain of co-location targets ends at a type of `deps`
/// without a target, and only types of `deps` have targets: so it is when
/// `cycles` holds the groups of mutually recursive types of `deps`.
pub open spec fn targets_settle(deps: Seq<(Seq<char>, Seq<Seq<char>>)>, resolved: Seq<(Seq<char>, Seq<char>)>) -> bool {
    forall|n: Seq<char>| #[trigger] value_of(resolved, n) is Some ==> {
        &&& type_names(deps).contains(n)
        &&& type_names(deps).contains(value_of(resolved, n)->0)
        &&& value_of(resolved, value_of(resolved, n)->0) is None
    }
}

/// The primary types are exactly the types of `deps` without a target, in
/// strictly increasing order of their names.
proof fn lemma_primaries(deps: Seq<(Seq<char>, Seq<Seq<char>>)>, resolved: Seq<(Seq<char>, Seq<char>)>)
    requires
        sorted_names(deps),
    ensures
        strictly_sorted(primaries(deps, resolved)),
        forall|n: Seq<char>| #[trigger] primaries(deps, resolved).contains(n) <==> (type_names(deps).contains(n)
            && value_of(resolved, n) is None),
    decreases deps.len(),
{
    if deps.len() > 0 {
        let init = deps.drop_last();
        assert(sorted_names(init)) by {
            assert forall|a: int, b: int| 0 <= a < b < init.len() implies text_less(#[trigger] init[a].0, #[trigger] init[b].0) by {
                assert(init[a] == deps[a] && init[b] == deps[b]);
            }
        }
        lemma_primaries(init, resolved);
        let rest = primaries(init, resolved);
        let l = deps.last().0;
        assert(type_names(deps) =~= type_names(init).push(l));
        assert forall|x: Seq<char>| #[trigger] rest.contains(x) implies text_less(x, l) by {
            let j = choose|j: int| 0 <= j < type_names(init).len() && type_names(init)[j] == x;
            assert(init[j] == deps[j]);
            assert(text_less(deps[j].0, deps[deps.len() - 1].0));
        }
        if value_of(resolved, l) is None {
            let ps = rest.push(l);
            assert forall|a: int, b: int| 0 <= a < b < ps.len() implies text_less(#[trigger] ps[a], #[trigger] ps[b]) by {
                if b == ps.len() - 1 {
                    assert(rest.contains(ps[a]));
                }
            }
        }
        assert forall|n: Seq<char>| #[trigger] primaries(deps, resolved).contains(n) <==> (type_names(deps).contains(n)
            && value_of(resolved, n) is None) by {
            let ps = primaries(deps, resolved);
            if ps.contains(n) {
                let w = choose|w: int| 0 <= w < ps.len() && ps[w] == n;
                if w < rest.len() {
                    assert(rest[w] == n);
                    assert(rest.contains(n));
                    let j = choose|j: int| 0 <= j < type_names(init).len() && type_names(init)[j] == n;
                    assert(type_names(deps)[j] == n);
                } else {
                    assert(type_names(deps)[deps.len() - 1] == n);
                }
            }
            if type_names(deps).contains(n) && value_of(resolved, n) is None {
                let j = choose|j: int| 0 <= j < type_names(deps).len() && type_names(deps)[j] == n;
                if j < init.len() {
                    assert(type_names(init)[j] == n);
                    assert(type_names(init).contains(n));
                    assert(rest.contains(n));
                    let w = choose|w: int| 0 <= w < rest.len() && rest[w] == n;
                    if value_of(resolved, l) is None {
                        assert(rest.push(l)[w] == n);
                    }
                } else {
                    assert(rest.push(l)[rest.len() as int] == n);
                }
            }
        }
    }
}

/// The group index of a name is the last group it lies in.
proof fn lemma_group_of(ps: Seq<Seq<char>>, resolved: Seq<(Seq<char>, Seq<char>)>, n: Seq<char>)
    ensures
        group_of(ps, resolved, n) matches Some(i) ==> 0 <= i < ps.len() && in_group(ps, resolved, i, n)
            && forall|j: int| i < j < ps.len() ==> !in_group(ps, resolved, j, n),
        group_of(ps, resolved, n) is None ==> forall|j: int| 0 <= j < ps.len() ==> !in_group(ps, resolved, j, n),
    decreases ps.len(),
{
    if ps.len() > 0 {
        let init = ps.drop_last();
        lemma_group_of(init, resolved, n);
        assert forall|j: int| 0 <= j < init.len() implies in_group(init, resolved, j, n) == in_group(ps, resolved, j, n) by {
            assert(init[j] == ps[j]);
        }
    }
}

/// Into which file each type goes: the groups are named by the primary
/// types in strictly increasing order, each with its co-located types in
/// strictly increasing order; a name lies in at most one group, and its
/// group index is that group's. When the chains of targets settle, the
/// names that lie in a group are exactly the types of `deps`.
pub proof fn lemma_grouping_partition(deps: Seq<(Seq<char>, Seq<Seq<char>>)>, cycles: Seq<Seq<Seq<char>>>)
    requires
        sorted_names(deps),
    ensures
        ({
            let res = resolved_targets(co_location_targets(deps, cycles));
            let ps = primaries(deps, res);
            &&& strictly_sorted(ps)
            &&& forall|i: int| 0 <= i < ps.len() ==> strictly_sorted(#[trigger] keys_with_value(res, ps[i]))
            &&& forall|i: int, n: Seq<char>| 0 <= i < ps.len() ==> (#[trigger] keys_with_value(res, ps[i]).contains(n)
                <==> value_of(res, n) == Some(ps[i]))
            &&& forall|i: int, j: int, n: Seq<char>|
                0 <= i < ps.len() && 0 <= j < ps.len() && #[trigger] in_group(ps, res, i, n) && #[trigger] in_group(ps, res, j, n)
                    ==> i == j
            &&& forall|i: int, n: Seq<char>| 0 <= i < ps.len() ==> (#[trigger] in_group(ps, res, i, n)
                <==> group_of(ps, res, n) == Some(i))
            &&& targets_settle(deps, res) ==> forall|n: Seq<char>| #[trigger] type_names(deps).contains(n)
                <==> exists|i: int| 0 <= i < ps.len() && in_group(ps, res, i, n)
        }),
{
    let co = co_location_targets(deps, cycles);
    let res = resolved_targets(co);
    let f = |t: Seq<char>| chain_end(co, t, co.len());
    crate::named_map::lemma_put_all_sorted(Seq::<(Seq<char>, Seq<char>)>::empty(), map_entry_values(co, f));
    lemma_primaries(deps, res);
    let ps = primaries(deps, res);
    assert forall|i: int| 0 <= i < ps.len() implies strictly_sorted(#[trigger] keys_with_value(res, ps[i])) by {
        lemma_keys_with_value(res, ps[i]);
    }
    assert forall|i: int, n: Seq<char>| 0 <= i < ps.len() implies (#[trigger] keys_with_value(res, ps[i]).contains(n)
        <==> value_of(res, n) == Some(ps[i])) by {
        lemma_keys_with_value(res, ps[i]);
    }
    assert forall|i: int, j: int, n: Seq<char>|
        0 <= i < ps.len() && 0 <= j < ps.len() && #[trigger] in_group(ps, res, i, n) && #[trigger] in_group(ps, res, j, n)
        implies i == j by {
        assert(ps.contains(ps[i]) && ps.contains(ps[j]));
        if i != j {
            if i < j {
                assert(text_less(ps[i], ps[j]));
            } else {
                assert(text_less(ps[j], ps[i]));
            }
            lemma_text_less_irreflexive(ps[i]);
            lemma_text_less_irreflexive(ps[j]);
        }
    }
    assert forall|i: int, n: Seq<char>| 0 <= i < ps.len() implies (#[trigger] in_group(ps, res, i, n)
        <==> group_of(ps, res, n) == Some(i)) by {
        lemma_group_of(ps, res, n);
        assert(ps.contains(ps[i]));
        if in_group(ps, res, i, n) {
            if let Some(g) = group_of(ps, res, n) {
                assert(ps.contains(ps[g]));
                if g != i {
                    if i < g {
                        assert(text_less(ps[i], ps[g]));
                    } else {
                        assert(text_less(ps[g], ps[i]));
                    }
                    lemma_text_less_irreflexive(ps[i]);
                }
            }
        }
    }
    if targets_settle(deps, res) {
        assert forall|n: Seq<char>| #[trigger] type_names(deps).contains(n)
            <==> exists|i: int| 0 <= i < ps.len() && in_group(ps, res, i, n) by {
            if type_names(deps).contains(n) {
                if value_of(res, n) is None {
                    assert(ps.contains(n));
                    let i = choose|i: int| 0 <= i < ps.len() && ps[i] == n;
                    assert(in_group(ps, res, i, n));
                } else {
                    let t = value_of(res, n)->0;
                    assert(ps.contains(t));
                    let i = choose|i: int| 0 <= i < ps.len() && ps[i] == t;
                    assert(in_group(ps, res, i, n));
                }
            }
            if exists|i: int| 0 <= i < ps.len() && in_group(ps, res, i, n) {
                let i = choose|i: int| 0 <= i < ps.len() && in_group(ps, res, i, n);
                assert(ps.contains(ps[i]));
            }
        }
    }
}

} // verus!
