//! Decisions taken while the scanned types are gathered into configurations.

use vstd::prelude::*;
use crate::case::{TextCase, case_converted, to_case};
use crate::named_map::{NamedMap, lemma_put, lemma_put_map, lemma_value_of_map, map_entry_values, put, sorted_names, value_of};
use crate::text::{owned, texts};
use crate::typesync::config::CollisionStrategy;
use crate::types::field_type::{FieldType, FieldTypeV, lemma_struct_view, lemma_tuple_view, named_views_of, views_of};

verus! {

/// The stem of the file name of the path `p` (its last component without
/// the extension), as `std::path::Path::file_stem` gives it.
pub uninterp spec fn path_file_stem(p: Seq<char>) -> Option<Seq<char>>;

/// The file stem of `path`.
///
/// Trusted: calls `std::path::Path::file_stem`, whose result is a piece of
/// `path` that depends on `path` alone; it is valid UTF-8 because `path`
/// is. The contract names the result and says no more of it.
#[verifier::external_body]
fn file_stem(path: &str) -> (r: Option<String>)
    ensures
        match r {
            Some(s) => path_file_stem(path@) == Some(s@),
            None => path_file_stem(path@) is None,
        },
{
    std::path::Path::new(path).file_stem().and_then(|s| s.to_str()).map(|s| s.to_string())
}

/// The message of a type name that two source files define.
pub open spec fn collision_text(name: Seq<char>, existing: Seq<char>, file: Seq<char>) -> Seq<char> {
    "Type name collision: '"@ + name + "' is defined in both '"@ + existing + "' and '"@ + file
        + "'. Rename one of them, or set collision_strategy = \"auto_rename\" in [typesync] config."@
}

/// The new name of a type named `name` from the file `file` that collides:
/// the file's stem in PascalCase (`Unknown` without one), then the name.
pub open spec fn collision_rename(name: Seq<char>, file: Seq<char>) -> Seq<char> {
    case_converted(
        match path_file_stem(file) {
            Some(s) => s,
            None => "unknown"@,
        },
        TextCase::Pascal,
    ) + name
}

/// The name under which a type named `name`, found in `file_path`, is
/// gathered, given the files `origins` where the names gathered so far were
/// defined: its own name when it is new; on a collision, an error naming
/// both files, or the name prefixed with its file's stem, as `strategy`
/// says.
pub fn gathered_type_name(
    origins: &NamedMap<String>,
    name: &str,
    file_path: &str,
    strategy: CollisionStrategy,
) -> (r: Result<String, String>)
    ensures
        match value_of(origins@, name@) {
            None => r is Ok && r->Ok_0@ == name@,
            Some(existing) => match strategy {
                CollisionStrategy::Error => r is Err && r->Err_0@ == collision_text(name@, existing@, file_path@),
                CollisionStrategy::AutoRename => r is Ok && r->Ok_0@ == collision_rename(name@, file_path@),
            },
        },
{
    match origins.get(name) {
        None => Ok(owned(name)),
        Some(existing) => match strategy {
            CollisionStrategy::Error => {
                let mut m = owned("Type name collision: '");
                m.append(name);
                m.append("' is defined in both '");
                m.append(existing.as_str());
                m.append("' and '");
                m.append(file_path);
                m.append("'. Rename one of them, or set collision_strategy = \"auto_rename\" in [typesync] config.");
                Err(m)
            },
            CollisionStrategy::AutoRename => {
                let stem = match file_stem(file_path) {
                    Some(s) => s,
                    None => owned("unknown"),
                };
                let mut r = to_case(stem.as_str(), TextCase::Pascal);
                r.append(name);
                Ok(r)
            },
        },
    }
}

/// `t` with each type name that `renames` holds replaced by its new name.
pub open spec fn renamed(t: FieldTypeV, renames: Seq<(Seq<char>, String)>) -> FieldTypeV
    decreases t,
{
    match t {
        FieldTypeV::Other(n) => FieldTypeV::Other(
            match value_of(renames, n) {
                Some(x) => x@,
                None => n,
            },
        ),
        FieldTypeV::Option(b) => FieldTypeV::Option(Box::new(renamed(*b, renames))),
        FieldTypeV::Vec(b) => FieldTypeV::Vec(Box::new(renamed(*b, renames))),
        FieldTypeV::RecordLink(b) => FieldTypeV::RecordLink(Box::new(renamed(*b, renames))),
        FieldTypeV::HashMap(k, v) => FieldTypeV::HashMap(Box::new(renamed(*k, renames)), Box::new(renamed(*v, renames))),
        FieldTypeV::BTreeMap(k, v) => FieldTypeV::BTreeMap(Box::new(renamed(*k, renames)), Box::new(renamed(*v, renames))),
        FieldTypeV::Tuple(ts) => FieldTypeV::Tuple(renamed_all(ts, renames)),
        FieldTypeV::Struct(fs) => FieldTypeV::Struct(renamed_fields(fs, renames)),
        _ => t,
    }
}

/// The types `ts`, each renamed.
pub open spec fn renamed_all(ts: Seq<FieldTypeV>, renames: Seq<(Seq<char>, String)>) -> Seq<FieldTypeV>
    decreases ts,
{
    if ts.len() == 0 {
        Seq::empty()
    } else {
        proof {
            vstd::seq::axiom_seq_index_decreases(ts, ts.len() - 1);
            assert(decreases_to!(ts => ts.subrange(0, ts.len() - 1)));
        }
        renamed_all(ts.subrange(0, ts.len() - 1), renames).push(renamed(ts[ts.len() - 1], renames))
    }
}

/// The named types `fs`, each type renamed.
pub open spec fn renamed_fields(fs: Seq<(Seq<char>, FieldTypeV)>, renames: Seq<(Seq<char>, String)>) -> Seq<(Seq<char>, FieldTypeV)>
    decreases fs,
{
    if fs.len() == 0 {
        Seq::empty()
    } else {
        proof {
            vstd::seq::axiom_seq_index_decreases(fs, fs.len() - 1);
            assert(decreases_to!(fs => fs.subrange(0, fs.len() - 1)));
        }
        let f = fs[fs.len() - 1];
        renamed_fields(fs.subrange(0, fs.len() - 1), renames).push((f.0, renamed(f.1, renames)))
    }
}

/// `t` with the renamed type names replaced.
fn renamed_type(t: &FieldType, renames: &NamedMap<String>) -> (r: FieldType)
    ensures
        r@ == renamed(t@, renames@),
    decreases t,
{
    match t {
        FieldType::Other(n) => match renames.get(n.as_str()) {
            Some(x) => FieldType::Other(x.clone()),
            None => FieldType::Other(n.clone()),
        },
        FieldType::Option(b) => FieldType::Option(Box::new(renamed_type(b, renames))),
        FieldType::Vec(b) => FieldType::Vec(Box::new(renamed_type(b, renames))),
        FieldType::RecordLink(b) => FieldType::RecordLink(Box::new(renamed_type(b, renames))),
        FieldType::HashMap(k, v) => FieldType::HashMap(Box::new(renamed_type(k, renames)), Box::new(renamed_type(v, renames))),
        FieldType::BTreeMap(k, v) => FieldType::BTreeMap(Box::new(renamed_type(k, renames)), Box::new(renamed_type(v, renames))),
        FieldType::Tuple(ts) => {
            proof {
                assert(decreases_to!(*t => (*t)->Tuple_0));
                lemma_tuple_view(*ts);
            }
            let out = renamed_types(ts, renames);
            proof {
                lemma_tuple_view(out);
            }
            FieldType::Tuple(out)
        },
        FieldType::Struct(fs) => {
            proof {
                assert(decreases_to!(*t => (*t)->Struct_0));
                lemma_struct_view(*fs);
            }
            let out = renamed_named_types(fs, renames);
            proof {
                lemma_struct_view(out);
            }
            FieldType::Struct(out)
        },
        _ => t.clone(),
    }
}

/// The types `ts`, each renamed.
fn renamed_types(ts: &Vec<FieldType>, renames: &NamedMap<String>) -> (r: Vec<FieldType>)
    ensures
        views_of(r@) == renamed_all(views_of(ts@), renames@),
    decreases ts,
{
    let mut out: Vec<FieldType> = Vec::new();
    let mut i: usize = 0;
    assert(views_of(out@) =~= renamed_all(views_of(ts@.take(0)), renames@));
    while i < ts.len()
        invariant
            i <= ts@.len(),
            views_of(out@) == renamed_all(views_of(ts@.take(i as int)), renames@),
        decreases ts.len() - i,
    {
        proof {
            vstd::std_specs::vec::axiom_vec_index_decreases(*ts, i as int);
        }
        let t = renamed_type(&ts[i], renames);
        proof {
            let vs = views_of(ts@.take(i + 1));
            assert(vs.subrange(0, vs.len() - 1) =~= views_of(ts@.take(i as int)));
            assert(vs[vs.len() - 1] == ts@[i as int]@);
            assert(views_of(out@.push(t)) =~= views_of(out@).push(t@));
        }
        out.push(t);
        i = i + 1;
    }
    assert(ts@.take(ts@.len() as int) =~= ts@);
    out
}

/// The named types `fs`, each type renamed.
fn renamed_named_types(fs: &Vec<(String, FieldType)>, renames: &NamedMap<String>) -> (r: Vec<(String, FieldType)>)
    ensures
        named_views_of(r@) == renamed_fields(named_views_of(fs@), renames@),
    decreases fs,
{
    let mut out: Vec<(String, FieldType)> = Vec::new();
    let mut i: usize = 0;
    assert(named_views_of(out@) =~= renamed_fields(named_views_of(fs@.take(0)), renames@));
    while i < fs.len()
        invariant
            i <= fs@.len(),
            named_views_of(out@) == renamed_fields(named_views_of(fs@.take(i as int)), renames@),
        decreases fs.len() - i,
    {
        proof {
            vstd::std_specs::vec::axiom_vec_index_decreases(*fs, i as int);
            assert(decreases_to!(fs@[i as int] => fs@[i as int].1));
        }
        let t = renamed_type(&fs[i].1, renames);
        let name = fs[i].0.clone();
        proof {
            let vs = named_views_of(fs@.take(i + 1));
            assert(vs.subrange(0, vs.len() - 1) =~= named_views_of(fs@.take(i as int)));
            assert(vs[vs.len() - 1] == (fs@[i as int].0@, fs@[i as int].1@));
            assert(named_views_of(out@.push((name, t))) =~= named_views_of(out@).push((name@, t@)));
        }
        out.push((name, t));
        i = i + 1;
    }
    assert(fs@.take(fs@.len() as int) =~= fs@);
    out
}

/// Replaces, throughout `field_type`, each type name that `renames` holds
/// by its new name, as references follow a type renamed on a collision.
pub fn rename_field_type(field_type: &mut FieldType, renames: &NamedMap<String>)
    ensures
        final(field_type)@ == renamed(old(field_type)@, renames@),
{
    let r = renamed_type(field_type, renames);
    *field_type = r;
}


/// The names of a map of names to texts, with their values as texts.
pub open spec fn text_entries(s: Seq<(Seq<char>, String)>) -> Seq<(Seq<char>, Seq<char>)> {
    map_entry_values(s, |x: String| x@)
}

/// The name under which a type named `name` from `file` is gathered, given
/// the files `origins` of the names gathered so far, as
/// [`gathered_type_name`] says; an error is the collision message.
pub open spec fn gathered_name(
    origins: Seq<(Seq<char>, Seq<char>)>,
    name: Seq<char>,
    file: Seq<char>,
    strategy: CollisionStrategy,
) -> Result<Seq<char>, Seq<char>> {
    match value_of(origins, name) {
        None => Ok(name),
        Some(existing) => match strategy {
            CollisionStrategy::Error => Err(collision_text(name, existing, file)),
            CollisionStrategy::AutoRename => Ok(collision_rename(name, file)),
        },
    }
}

/// What gathering has built: the file each gathered name comes from, the
/// renames made on collisions, and the gathered names in order.
pub type Gathered = (Seq<(Seq<char>, Seq<char>)>, Seq<(Seq<char>, Seq<char>)>, Seq<Seq<char>>);

/// Gathering the types `found`, each a name and the file it was found in,
/// in order: the first collision error, or what was built.
pub open spec fn gather(found: Seq<(Seq<char>, Seq<char>)>, strategy: CollisionStrategy) -> Result<Gathered, Seq<char>>
    decreases found.len(),
{
    if found.len() == 0 {
        Ok((Seq::empty(), Seq::empty(), Seq::empty()))
    } else {
        match gather(found.drop_last(), strategy) {
            Err(m) => Err(m),
            Ok(g) => {
                let n = found.last().0;
                let f = found.last().1;
                match gathered_name(g.0, n, f, strategy) {
                    Err(m) => Err(m),
                    Ok(x) => Ok((
                        put(g.0, x, f),
                        if value_of(g.0, n) is Some { put(g.1, n, x) } else { g.1 },
                        g.2.push(x),
                    )),
                }
            },
        }
    }
}

/// The names and files of `found`, as texts.
pub open spec fn found_texts(found: Seq<(String, String)>) -> Seq<(Seq<char>, Seq<char>)> {
    found.map_values(|p: (String, String)| (p.0@, p.1@))
}

proof fn lemma_text_put(s: Seq<(Seq<char>, String)>, k: Seq<char>, v: String)
    ensures
        text_entries(put(s, k, v)) == put(text_entries(s), k, v@),
        sorted_names(s) ==> sorted_names(text_entries(s)),
{
    lemma_put_map(s, k, v, |x: String| x@);
}

/// Gathers the types `found`, each a name and the file that defines it, in
/// order, as the scan of the source files meets them: each is gathered
/// under the name [`gathered_type_name`] gives, which records its file;
/// a rename is recorded from the old name to the new. Returns the gathered
/// names in order and the renames, or the first collision error.
pub fn gather_type_names(found: &Vec<(String, String)>, strategy: CollisionStrategy) -> (r: Result<(Vec<String>, NamedMap<String>), String>)
    ensures
        match gather(found_texts(found@), strategy) {
            Ok(g) => r is Ok && texts(r->Ok_0.0@) == g.2 && text_entries(r->Ok_0.1@) == g.1,
            Err(m) => r is Err && r->Err_0@ == m,
        },
{
    let ghost ft = found_texts(found@);
    let mut origins: NamedMap<String> = NamedMap::new();
    let mut renames: NamedMap<String> = NamedMap::new();
    let mut names: Vec<String> = Vec::new();
    let mut i: usize = 0;
    assert(ft.take(0) =~= Seq::<(Seq<char>, Seq<char>)>::empty());
    assert(text_entries(origins@) =~= Seq::<(Seq<char>, Seq<char>)>::empty());
    assert(text_entries(renames@) =~= Seq::<(Seq<char>, Seq<char>)>::empty());
    assert(texts(names@) =~= Seq::<Seq<char>>::empty());
    while i < found.len()
        invariant
            i <= found@.len(),
            ft == found_texts(found@),
            gather(ft.take(i as int), strategy) == Ok::<Gathered, Seq<char>>((text_entries(origins@), text_entries(renames@), texts(names@))),
        decreases found.len() - i,
    {
        let name = &found[i].0;
        let file = &found[i].1;
        proof {
            assert(ft.take(i + 1).drop_last() == ft.take(i as int));
            assert(ft.take(i + 1).last() == (name@, file@));
            lemma_value_of_map(origins@, name@, |x: String| x@);
        }
        let collided = origins.contains_key(name.as_str());
        match gathered_type_name(&origins, name.as_str(), file.as_str(), strategy) {
            Err(m) => {
                proof {
                    assert forall|k: int| i < k <= ft.len() implies gather(#[trigger] ft.take(k), strategy) == Err::<Gathered, Seq<char>>(m@) by {
                        lemma_gather_error_stays(ft, i + 1, k, strategy, m@);
                    }
                    assert(ft.take(ft.len() as int) == ft);
                }
                return Err(m);
            },
            Ok(x) => {
                let f2 = file.clone();
                let x2 = x.clone();
                let x3 = x.clone();
                proof {
                    lemma_text_put(origins@, x@, f2);
                    lemma_text_put(renames@, name@, x2);
                    assert(texts(names@.push(x)) =~= texts(names@).push(x@));
                }
                if collided {
                    renames.insert(name.clone(), x2);
                }
                origins.insert(x3, f2);
                names.push(x);
            },
        }
        i = i + 1;
    }
    assert(ft.take(ft.len() as int) == ft);
    Ok((names, renames))
}

/// Once gathering a prefix of `ft` fails, gathering each longer prefix
/// fails with the same error.
proof fn lemma_gather_error_stays(ft: Seq<(Seq<char>, Seq<char>)>, j: int, k: int, strategy: CollisionStrategy, m: Seq<char>)
    requires
        0 <= j <= k <= ft.len(),
        gather(ft.take(j), strategy) == Err::<Gathered, Seq<char>>(m),
    ensures
        gather(ft.take(k), strategy) == Err::<Gathered, Seq<char>>(m),
    decreases k - j,
{
    if k > j {
        lemma_gather_error_stays(ft, j, k - 1, strategy, m);
        assert(ft.take(k).drop_last() == ft.take(k - 1));
    }
}

/// Gathering types whose names are all different keeps each name, records
/// its file, and renames nothing.
proof fn lemma_gather_distinct(found: Seq<(Seq<char>, Seq<char>)>, k: int, strategy: CollisionStrategy)
    requires
        0 <= k <= found.len(),
        forall|a: int, b: int| 0 <= a < b < k ==> found[a].0 != found[b].0,
    ensures
        gather(found.take(k), strategy) is Ok,
        ({
            let g = gather(found.take(k), strategy)->Ok_0;
            &&& sorted_names(g.0)
            &&& g.1 == Seq::<(Seq<char>, Seq<char>)>::empty()
            &&& g.2 == found.take(k).map_values(|p: (Seq<char>, Seq<char>)| p.0)
            &&& forall|a: int| 0 <= a < k ==> value_of(g.0, #[trigger] found[a].0) == Some(found[a].1)
            &&& forall|n: Seq<char>| (forall|a: int| 0 <= a < k ==> found[a].0 != n) ==> value_of(g.0, n) is None
        }),
    decreases k,
{
    if k == 0 {
        assert(found.take(0) =~= Seq::<(Seq<char>, Seq<char>)>::empty());
        assert(found.take(0).map_values(|p: (Seq<char>, Seq<char>)| p.0) =~= Seq::<Seq<char>>::empty());
    } else {
        lemma_gather_distinct(found, k - 1, strategy);
        let t = found.take(k);
        assert(t.drop_last() == found.take(k - 1));
        assert(t.last() == found[k - 1]);
        let g = gather(found.take(k - 1), strategy)->Ok_0;
        let n = found[k - 1].0;
        let f = found[k - 1].1;
        assert(value_of(g.0, n) is None);
        lemma_put(g.0, n, f);
        assert(t.map_values(|p: (Seq<char>, Seq<char>)| p.0) =~= found.take(k - 1).map_values(|p: (Seq<char>, Seq<char>)| p.0).push(n));
        let g2 = gather(t, strategy)->Ok_0;
        assert(g2.0 == put(g.0, n, f));
        assert forall|a: int| 0 <= a < k implies value_of(g2.0, #[trigger] found[a].0) == Some(found[a].1) by {
            if a < k - 1 {
                assert(found[a].0 != n);
            }
        }
        assert forall|n2: Seq<char>| (forall|a: int| 0 <= a < k ==> found[a].0 != n2) implies value_of(g2.0, n2) is None by {
            assert(found[k - 1].0 != n2);
            assert(forall|a: int| 0 <= a < k - 1 ==> found[a].0 != n2);
            assert(value_of(g.0, n2) is None);
        }
    }
}

/// With the error strategy, gathering fails at the first type whose name
/// an earlier type has, and the message names that type and the files of
/// both: given the types `found` in order, when the names of all before
/// the `j`th differ and the `i`th has the `j`th's name, gathering fails
/// with the collision message of that name, the `i`th file and the `j`th.
pub proof fn lemma_first_collision_reported(found: Seq<(Seq<char>, Seq<char>)>, i: int, j: int)
    requires
        0 <= i < j < found.len(),
        found[i].0 == found[j].0,
        forall|a: int, b: int| 0 <= a < b < j ==> found[a].0 != found[b].0,
    ensures
        gather(found, CollisionStrategy::Error) == Err::<Gathered, Seq<char>>(
            collision_text(found[j].0, found[i].1, found[j].1),
        ),
{
    let strategy = CollisionStrategy::Error;
    lemma_gather_distinct(found, j, strategy);
    let t = found.take(j + 1);
    assert(t.drop_last() == found.take(j));
    assert(t.last() == found[j]);
    let m = collision_text(found[j].0, found[i].1, found[j].1);
    assert(gather(t, strategy) == Err::<Gathered, Seq<char>>(m));
    lemma_gather_error_stays(found, j + 1, found.len() as int, strategy, m);
    assert(found.take(found.len() as int) == found);
}

/// Types whose names all differ are gathered under their own names, in
/// order, with nothing renamed, whatever the strategy.
pub proof fn lemma_distinct_names_kept(found: Seq<(Seq<char>, Seq<char>)>, strategy: CollisionStrategy)
    requires
        forall|a: int, b: int| 0 <= a < b < found.len() ==> found[a].0 != found[b].0,
    ensures
        gather(found, strategy) is Ok,
        gather(found, strategy)->Ok_0.2 == found.map_values(|p: (Seq<char>, Seq<char>)| p.0),
        gather(found, strategy)->Ok_0.1 == Seq::<(Seq<char>, Seq<char>)>::empty(),
{
    lemma_gather_distinct(found, found.len() as int, strategy);
    assert(found.take(found.len() as int) == found);
}

} // verus!
