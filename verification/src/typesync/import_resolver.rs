//! Import statements and barrel files for per-file TypeScript output.

use vstd::prelude::*;
use crate::case::{TextCase, case_converted, to_case};
use crate::text::{chars_of, join, join_strings, owned, string_of, texts};
use crate::typesync::config::FileNamingConvention;
use crate::named_map::{NamedMap, entries_view, keys_with_value, sorted_names, strictly_sorted, value_of};
use crate::typesync::file_grouping::{FileOutputPlan, TypeFileGroup};

verus! {

/// A single TypeScript import statement.
#[derive(Debug, Clone, PartialEq, Eq)]
pub struct ImportStatement {
    /// Type names to import (e.g. `["User", "UserEncoded"]`).
    pub type_names: Vec<String>,
    /// Relative path without extension (e.g. `"./user"`).
    pub from_path: String,
}

/// The case of a file naming convention.
pub open spec fn naming_case(naming: FileNamingConvention) -> TextCase {
    match naming {
        FileNamingConvention::Pascal => TextCase::Pascal,
        FileNamingConvention::Kebab => TextCase::Kebab,
        FileNamingConvention::Snake => TextCase::Snake,
        FileNamingConvention::Camel => TextCase::Camel,
    }
}

/// Converts a PascalCase type name to a file name (without extension) in
/// the given convention.
pub fn type_name_to_filename(name: &str, naming: FileNamingConvention) -> (r: String)
    ensures
        r@ == case_converted(name@, naming_case(naming)),
{
    let case = match naming {
        FileNamingConvention::Pascal => TextCase::Pascal,
        FileNamingConvention::Kebab => TextCase::Kebab,
        FileNamingConvention::Snake => TextCase::Snake,
        FileNamingConvention::Camel => TextCase::Camel,
    };
    to_case(name, case)
}

/// Whether `s` ends with `suffix`.
pub open spec fn ends_with(s: Seq<char>, suffix: Seq<char>) -> bool {
    s.len() >= suffix.len() && s.skip(s.len() - suffix.len()) == suffix
}

/// The import specifier suffix of a file extension: none for `.ts` and
/// `.js`; for another extension, the extension without a final `.ts` or
/// else `.js` (`.svelte.ts` gives `.svelte`).
pub open spec fn specifier_suffix(ext: Seq<char>) -> Seq<char> {
    if ext == ".ts"@ || ext == ".js"@ {
        Seq::empty()
    } else if ends_with(ext, ".ts"@) || ends_with(ext, ".js"@) {
        ext.take(ext.len() - 3)
    } else {
        ext
    }
}

fn ends_with_chars(v: &Vec<char>, a: char, b: char, c: char) -> (r: bool)
    ensures
        r == (v@.len() >= 3 && v@.skip(v@.len() - 3) == seq![a, b, c]),
{
    let n = v.len();
    if n < 3 {
        return false;
    }
    let r = v[n - 3] == a && v[n - 2] == b && v[n - 1] == c;
    proof {
        let t = v@.skip(n - 3);
        if r {
            assert(t =~= seq![a, b, c]);
        } else {
            if t == seq![a, b, c] {
                assert(t[0] == v@[n - 3] && t[1] == v@[n - 2] && t[2] == v@[n - 1]);
            }
        }
    }
    r
}

/// The import specifier suffix of `file_extension`, as
/// [`specifier_suffix`] says.
pub fn import_specifier_suffix(file_extension: &str) -> (r: String)
    ensures
        r@ == specifier_suffix(file_extension@),
{
    let v = chars_of(file_extension);
    proof {
        reveal_strlit(".ts");
        reveal_strlit(".js");
    }
    let ts = ends_with_chars(&v, '.', 't', 's');
    let js = ends_with_chars(&v, '.', 'j', 's');
    proof {
        assert(".ts"@ =~= seq!['.', 't', 's']);
        assert(".js"@ =~= seq!['.', 'j', 's']);
        assert(ends_with(v@, ".ts"@) == ts);
        assert(ends_with(v@, ".js"@) == js);
        if v@ == ".ts"@ || v@ == ".js"@ {
            assert(v@.skip(0) =~= v@);
        }
    }
    if v.len() == 3 && (ts || js) {
        assert(v@ =~= v@.skip(0));
        return String::new();
    }
    if ts || js {
        let mut out: Vec<char> = Vec::new();
        let mut i: usize = 0;
        while i < v.len() - 3
            invariant
                v@.len() >= 3,
                i <= v@.len() - 3,
                out@ == v@.take(i as int),
            decreases v.len() - i,
        {
            out.push(v[i]);
            assert(v@.take(i + 1) == v@.take(i as int).push(v@[i as int]));
            i = i + 1;
        }
        proof {
            if v@ == ".ts"@ || v@ == ".js"@ {
                assert(v@.len() == 3);
            }
        }
        return string_of(&out);
    }
    proof {
        if v@ == ".ts"@ {
            assert(v@.skip(0) =~= v@);
        }
        if v@ == ".js"@ {
            assert(v@.skip(0) =~= v@);
        }
    }
    owned(file_extension)
}

/// The line importing `names` from `path`.
pub open spec fn import_line(names: Seq<Seq<char>>, path: Seq<char>) -> Seq<char> {
    "import type { "@ + join(names, ", "@) + " } from '"@ + path + "';"@
}

/// The import lines of `imports`, one per line.
pub open spec fn import_lines(imports: Seq<ImportStatement>) -> Seq<char> {
    join(
        imports.map_values(|imp: ImportStatement| import_line(texts(imp.type_names@), imp.from_path@)),
        "\n"@,
    )
}

/// Formats import statements into TypeScript import lines.
pub fn format_imports(imports: &[ImportStatement]) -> (r: String)
    ensures
        r@ == import_lines(imports@),
{
    let mut lines: Vec<String> = Vec::new();
    let mut i: usize = 0;
    while i < imports.len()
        invariant
            i <= imports@.len(),
            lines@.len() == i,
            forall|k: int|
                0 <= k < i ==> (#[trigger] lines@[k])@ == import_line(
                    texts(imports@[k].type_names@),
                    imports@[k].from_path@,
                ),
        decreases imports.len() - i,
    {
        let mut line = owned("import type { ");
        line.append(join_strings(&imports[i].type_names, ", ").as_str());
        line.append(" } from '");
        line.append(imports[i].from_path.as_str());
        line.append("';");
        lines.push(line);
        i = i + 1;
    }
    assert(lines@.map_values(|s: String| s@) =~= imports@.map_values(
        |imp: ImportStatement| import_line(texts(imp.type_names@), imp.from_path@),
    ));
    join_strings(&lines, "\n")
}

/// The line re-exporting the file of the type `primary`.
pub open spec fn export_line(primary: Seq<char>, naming: FileNamingConvention, suffix: Seq<char>) -> Seq<char> {
    "export * from \"./"@ + case_converted(primary, naming_case(naming)) + suffix + "\";"@
}

/// Generates a barrel file (`index.ts`) that re-exports every group of
/// `plan`, one line per group, in order.
pub fn generate_barrel_file(plan: &FileOutputPlan, naming: FileNamingConvention, file_extension: &str) -> (r: String)
    ensures
        r@ == join(
            plan.groups@.map_values(
                |g: crate::typesync::file_grouping::TypeFileGroup| export_line(
                    g.primary_type@,
                    naming,
                    specifier_suffix(file_extension@),
                ),
            ),
            "\n"@,
        ),
{
    let suffix = import_specifier_suffix(file_extension);
    let mut lines: Vec<String> = Vec::new();
    let mut i: usize = 0;
    while i < plan.groups.len()
        invariant
            i <= plan.groups@.len(),
            suffix@ == specifier_suffix(file_extension@),
            lines@.len() == i,
            forall|k: int|
                0 <= k < i ==> (#[trigger] lines@[k])@ == export_line(
                    plan.groups@[k].primary_type@,
                    naming,
                    suffix@,
                ),
        decreases plan.groups.len() - i,
    {
        let filename = type_name_to_filename(plan.groups[i].primary_type.as_str(), naming);
        let mut line = owned("export * from \"./");
        line.append(filename.as_str());
        line.append(suffix.as_str());
        line.append("\";");
        lines.push(line);
        i = i + 1;
    }
    assert(lines@.map_values(|s: String| s@) =~= plan.groups@.map_values(
        |g: crate::typesync::file_grouping::TypeFileGroup| export_line(
            g.primary_type@,
            naming,
            specifier_suffix(file_extension@),
        ),
    ));
    join_strings(&lines, "\n")
}

/// The barrel file name for the given extension (e.g. `index.ts` or
/// `index.svelte.ts`).
pub fn barrel_filename(file_extension: &str) -> (r: String)
    ensures
        r@ == "index"@ + file_extension@,
{
    let mut r = owned("index");
    r.append(file_extension);
    r
}


/// The names of the types of `group`: its primary type, then the others.
pub open spec fn group_names(group: TypeFileGroup) -> Seq<Seq<char>> {
    seq![group.primary_type@] + texts(group.co_located_types@)
}

/// The dependencies that `deps` gives the type `t`: none when it has none.
pub open spec fn deps_named(deps: Seq<(Seq<char>, Vec<String>)>, t: Seq<char>) -> Seq<Seq<char>> {
    match value_of(deps, t) {
        Some(v) => texts(v@),
        None => Seq::empty(),
    }
}

/// Whether `d` is a dependency of one of the first `n` of the types
/// `names` and is none of `names`.
pub open spec fn dependency_among(names: Seq<Seq<char>>, deps: Seq<(Seq<char>, Vec<String>)>, n: int, d: Seq<char>) -> bool {
    !names.contains(d) && exists|k: int| 0 <= k < n && #[trigger] deps_named(deps, names[k]).contains(d)
}

/// Whether a group with the types `names` imports the type `d` from the
/// file of group `g`: `d` is a dependency of one of its types, not one of
/// them, and it lies in group `g`.
pub open spec fn imported_from(
    names: Seq<Seq<char>>,
    deps: Seq<(Seq<char>, Vec<String>)>,
    to_group: Seq<(Seq<char>, usize)>,
    d: Seq<char>,
    g: usize,
) -> bool {
    dependency_among(names, deps, names.len() as int, d) && value_of(to_group, d) == Some(g)
}

/// Whether a group with the types `names` imports anything from group `g`.
pub open spec fn imports_any(
    names: Seq<Seq<char>>,
    deps: Seq<(Seq<char>, Vec<String>)>,
    to_group: Seq<(Seq<char>, usize)>,
    g: usize,
) -> bool {
    exists|d: Seq<char>| #[trigger] imported_from(names, deps, to_group, d, g)
}

/// The groups below `n` that a group with the types `names` imports from,
/// in increasing order.
pub open spec fn source_groups(
    names: Seq<Seq<char>>,
    deps: Seq<(Seq<char>, Vec<String>)>,
    to_group: Seq<(Seq<char>, usize)>,
    n: nat,
) -> Seq<usize>
    decreases n,
{
    if n == 0 {
        Seq::empty()
    } else {
        let rest = source_groups(names, deps, to_group, (n - 1) as nat);
        if imports_any(names, deps, to_group, (n - 1) as usize) {
            rest.push((n - 1) as usize)
        } else {
            rest
        }
    }
}

/// The path that imports from the file of the type `primary`.
pub open spec fn import_path(primary: Seq<char>, naming: FileNamingConvention, ext: Seq<char>) -> Seq<char> {
    "./"@ + case_converted(primary, naming_case(naming)) + specifier_suffix(ext)
}

proof fn lemma_dependency_among_step(names: Seq<Seq<char>>, deps: Seq<(Seq<char>, Vec<String>)>, i: int, d: Seq<char>)
    requires
        0 <= i < names.len(),
    ensures
        dependency_among(names, deps, i + 1, d) == (dependency_among(names, deps, i, d) || (!names.contains(d)
            && deps_named(deps, names[i]).contains(d))),
{
    if dependency_among(names, deps, i + 1, d) {
        let k = choose|k: int| 0 <= k < i + 1 && #[trigger] deps_named(deps, names[k]).contains(d);
        if k < i {
            assert(dependency_among(names, deps, i, d));
        }
    }
}

/// The names of `names` as a set, by name.
fn name_set(names: &Vec<String>) -> (r: NamedMap<bool>)
    ensures
        forall|d: Seq<char>| #[trigger] r.get_spec(d) is Some <==> texts(names@).contains(d),
{
    let ghost nv = texts(names@);
    let mut r: NamedMap<bool> = NamedMap::new();
    let mut i: usize = 0;
    while i < names.len()
        invariant
            i <= names@.len(),
            nv == texts(names@),
            forall|d: Seq<char>| #[trigger] r.get_spec(d) is Some <==> nv.take(i as int).contains(d),
        decreases names.len() - i,
    {
        r.insert(names[i].clone(), true);
        proof {
            let t0 = nv.take(i as int);
            let t1 = nv.take(i + 1);
            assert(t1 == t0.push(nv[i as int]));
            assert forall|d: Seq<char>| #[trigger] r.get_spec(d) is Some <==> t1.contains(d) by {
                if t0.contains(d) {
                    let w = choose|w: int| 0 <= w < t0.len() && t0[w] == d;
                    assert(t1[w] == d);
                }
                if t1.contains(d) && d != nv[i as int] {
                    let w = choose|w: int| 0 <= w < t1.len() && t1[w] == d;
                    assert(t0[w] == d);
                }
                if d == nv[i as int] {
                    assert(t1[i as int] == d);
                }
            }
        }
        i = i + 1;
    }
    assert(nv.take(nv.len() as int) == nv);
    r
}

/// The group of each dependency of the types `names` that is none of them,
/// as `to_group` gives it.
fn outside_groups(names: &Vec<String>, deps: &NamedMap<Vec<String>>, to_group: &NamedMap<usize>) -> (r: NamedMap<usize>)
    ensures
        forall|d: Seq<char>|
            #[trigger] r.get_spec(d) == if dependency_among(texts(names@), deps@, names@.len() as int, d) {
                to_group.get_spec(d)
            } else {
                None
            },
{
    let ghost nv = texts(names@);
    let inside = name_set(names);
    let mut r: NamedMap<usize> = NamedMap::new();
    let mut i: usize = 0;
    while i < names.len()
        invariant
            i <= names@.len(),
            nv == texts(names@),
            forall|d: Seq<char>| #[trigger] inside.get_spec(d) is Some <==> nv.contains(d),
            forall|d: Seq<char>|
                #[trigger] r.get_spec(d) == if dependency_among(nv, deps@, i as int, d) {
                    to_group.get_spec(d)
                } else {
                    None
                },
        decreases names.len() - i,
    {
        assert(nv[i as int] == names@[i as int]@);
        match deps.get(names[i].as_str()) {
            Some(list) => {
                let ghost lv = texts(list@);
                assert(deps_named(deps@, nv[i as int]) == lv);
                let mut j: usize = 0;
                while j < list.len()
                    invariant
                        j <= list@.len(),
                        i < names@.len(),
                        nv == texts(names@),
                        lv == texts(list@),
                        forall|d: Seq<char>| #[trigger] inside.get_spec(d) is Some <==> nv.contains(d),
                        forall|d: Seq<char>|
                            #[trigger] r.get_spec(d) == if dependency_among(nv, deps@, i as int, d) || (
                            !nv.contains(d) && lv.take(j as int).contains(d)) {
                                to_group.get_spec(d)
                            } else {
                                None
                            },
                    decreases list.len() - j,
                {
                    let d = &list[j];
                    let ghost dv = d@;
                    assert(lv[j as int] == dv);
                    assert(lv.take(j + 1) == lv.take(j as int).push(dv));
                    if !inside.contains_key(d.as_str()) {
                        match to_group.get(d.as_str()) {
                            Some(g) => {
                                r.insert(d.clone(), *g);
                            },
                            None => {},
                        }
                    }
                    proof {
                        let t0 = lv.take(j as int);
                        let t1 = lv.take(j + 1);
                        assert forall|x: Seq<char>|
                            #[trigger] r.get_spec(x) == if dependency_among(nv, deps@, i as int, x) || (
                            !nv.contains(x) && t1.contains(x)) {
                                to_group.get_spec(x)
                            } else {
                                None
                            } by {
                            if t0.contains(x) {
                                let w = choose|w: int| 0 <= w < t0.len() && t0[w] == x;
                                assert(t1[w] == x);
                            }
                            if t1.contains(x) && x != dv {
                                let w = choose|w: int| 0 <= w < t1.len() && t1[w] == x;
                                assert(t0[w] == x);
                            }
                            if x == dv {
                                assert(t1[j as int] == x);
                            }
                        }
                    }
                    j = j + 1;
                }
                assert(lv.take(lv.len() as int) == lv);
            },
            None => {
                assert(deps_named(deps@, nv[i as int]) =~= Seq::<Seq<char>>::empty());
            },
        }
        proof {
            assert forall|d: Seq<char>|
                #[trigger] r.get_spec(d) == if dependency_among(nv, deps@, i + 1, d) {
                    to_group.get_spec(d)
                } else {
                    None
                } by {
                lemma_dependency_among_step(nv, deps@, i as int, d);
            }
        }
        i = i + 1;
    }
    r
}

/// The names of the entries of `m` whose value is `g`, in order.
fn names_in_group(m: &NamedMap<usize>, g: usize) -> (r: Vec<String>)
    ensures
        texts(r@) == keys_with_value(m@, g),
{
    let es = m.entries();
    let ghost ev = m@;
    let mut out: Vec<String> = Vec::new();
    let mut k: usize = 0;
    while k < es.len()
        invariant
            k <= es@.len(),
            entries_view(es@) == ev,
            texts(out@) == keys_with_value(ev.take(k as int), g),
        decreases es.len() - k,
    {
        proof {
            assert(ev.take(k + 1).drop_last() == ev.take(k as int));
            assert(ev.take(k + 1).last() == ev[k as int]);
            assert(ev[k as int] == (es@[k as int].0@, es@[k as int].1));
        }
        if es[k].1 == g {
            let ghost before = out@;
            out.push(es[k].0.clone());
            proof {
                assert(texts(out@) =~= texts(before).push(es@[k as int].0@));
            }
        }
        k = k + 1;
    }
    assert(ev.take(ev.len() as int) == ev);
    out
}

/// Resolves what a file group imports from the other groups of `plan`:
/// each dependency of one of its types (as `deps` gives them by type name)
/// that is none of its types is imported from the file of its group; one
/// statement per such group, in the order of the groups, naming the types
/// in order.
pub fn resolve_imports(
    group: &TypeFileGroup,
    plan: &FileOutputPlan,
    deps: &NamedMap<Vec<String>>,
    naming: FileNamingConvention,
    file_extension: &str,
) -> (r: Vec<ImportStatement>)
    requires
        forall|d: Seq<char>, g: usize|
            #[trigger] imported_from(group_names(*group), deps@, plan.type_to_group@, d, g) ==> g
                < plan.groups@.len(),
    ensures
        r@.len() == source_groups(group_names(*group), deps@, plan.type_to_group@, plan.groups@.len()).len(),
        forall|k: int|
            0 <= k < r@.len() ==> {
                let g = source_groups(group_names(*group), deps@, plan.type_to_group@, plan.groups@.len())[k];
                &&& (#[trigger] r@[k]).from_path@ == import_path(plan.groups@[g as int].primary_type@, naming, file_extension@)
                &&& strictly_sorted(texts(r@[k].type_names@))
                &&& forall|d: Seq<char>|
                    texts(r@[k].type_names@).contains(d) <==> #[trigger] imported_from(
                        group_names(*group),
                        deps@,
                        plan.type_to_group@,
                        d,
                        g,
                    )
            },
{
    let names = group.all_types();
    let ghost nv = group_names(*group);
    assert(texts(names@) == nv);
    let outside = outside_groups(&names, deps, &plan.type_to_group);
    let _ = outside.entries();
    let suffix = import_specifier_suffix(file_extension);
    let ghost to_group = plan.type_to_group@;
    let mut imports: Vec<ImportStatement> = Vec::new();
    let mut g: usize = 0;
    while g < plan.groups.len()
        invariant
            g <= plan.groups@.len(),
            to_group == plan.type_to_group@,
            nv == group_names(*group),
            forall|d: Seq<char>, h: usize|
                #[trigger] imported_from(nv, deps@, to_group, d, h) ==> h < plan.groups@.len(),
            sorted_names(outside@),
            suffix@ == specifier_suffix(file_extension@),
            forall|d: Seq<char>|
                #[trigger] outside.get_spec(d) == if dependency_among(nv, deps@, nv.len() as int, d) {
                    plan.type_to_group.get_spec(d)
                } else {
                    None
                },
            imports@.len() == source_groups(nv, deps@, to_group, g as nat).len(),
            forall|k: int|
                0 <= k < imports@.len() ==> {
                    let h = source_groups(nv, deps@, to_group, g as nat)[k];
                    &&& (#[trigger] imports@[k]).from_path@ == import_path(plan.groups@[h as int].primary_type@, naming, file_extension@)
                    &&& strictly_sorted(texts(imports@[k].type_names@))
                    &&& forall|d: Seq<char>|
                        texts(imports@[k].type_names@).contains(d) <==> #[trigger] imported_from(nv, deps@, to_group, d, h)
                },
        decreases plan.groups.len() - g,
    {
        let in_group = names_in_group(&outside, g);
        proof {
            crate::named_map::lemma_keys_with_value(outside@, g);
            assert forall|d: Seq<char>|
                texts(in_group@).contains(d) <==> #[trigger] imported_from(nv, deps@, to_group, d, g) by {
                assert(keys_with_value(outside@, g).contains(d) <==> value_of(outside@, d) == Some(g));
                assert(outside.get_spec(d) == value_of(outside@, d));
                assert(plan.type_to_group.get_spec(d) == value_of(to_group, d));
            }
        }
        let ghost before = imports@;
        if in_group.len() > 0 {
            let mut from_path = owned("./");
            from_path.append(type_name_to_filename(plan.groups[g].primary_type.as_str(), naming).as_str());
            from_path.append(suffix.as_str());
            proof {
                assert(texts(in_group@).contains(texts(in_group@)[0]));
                assert(imported_from(nv, deps@, to_group, texts(in_group@)[0], g));
                assert(imports_any(nv, deps@, to_group, g));
            }
            imports.push(ImportStatement { type_names: in_group, from_path });
            proof {
                assert forall|k: int|
                    0 <= k < imports@.len() implies {
                        let h = source_groups(nv, deps@, to_group, (g + 1) as nat)[k];
                        &&& (#[trigger] imports@[k]).from_path@ == import_path(plan.groups@[h as int].primary_type@, naming, file_extension@)
                        &&& strictly_sorted(texts(imports@[k].type_names@))
                        &&& forall|d: Seq<char>|
                            texts(imports@[k].type_names@).contains(d) <==> #[trigger] imported_from(nv, deps@, to_group, d, h)
                    } by {
                    if k < before.len() {
                        assert(imports@[k] == before[k]);
                    }
                }
            }
        } else {
            proof {
                if imports_any(nv, deps@, to_group, g) {
                    let d = choose|d: Seq<char>| #[trigger] imported_from(nv, deps@, to_group, d, g);
                    assert(texts(in_group@).contains(d));
                }
            }
        }
        g = g + 1;
    }
    imports
}

} // verus!
