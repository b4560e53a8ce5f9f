//! SurrealDB `DEFINE FIELD` statements for the fields of persisted structs.

use vstd::prelude::*;
use crate::case::{TextCase, case_converted, to_case};
use crate::named_map::{NamedMap, value_of};
use crate::config::copy_texts;
use crate::text::{has_text, join, join_strings, opt_text, owned, texts};
use crate::types::{DefineConfig, DefineConfigV, StructConfig, StructField, StructFieldV, TaggedUnion, Variant, VariantData, VariantDataV, VariantV};
use crate::types::field_type::{FieldType, FieldTypeV, lemma_struct_view, lemma_tuple_view, named_views_of, views_of};

verus! {

/// A SurrealDB type: its text, whether the field needs a wildcard
/// definition for its entries, and the type of those entries.
pub type SurqlType = (Seq<char>, bool, Option<Seq<char>>);

/// The refusal of an enum variant whose inline struct names no known struct.
pub open spec fn missing_inline_text(name: Seq<char>) -> Seq<char> {
    "Inline enum struct '"@ + name + "' should have corresponding object definition"@
}

/// The refusal of a type that names more types, one inside the other, than
/// the expansion follows.
pub open spec fn too_deep_text() -> Seq<char> {
    "type definitions nest too deeply to expand"@
}

/// The SurrealDB type of a value of type `t`, given the enums `es`, the
/// structs `ss` and the table names `tables`, with `path` the structs being
/// expanded around it and `fuel` the named types that may still be
/// expanded one inside the other.
pub open spec fn surql_type(
    t: FieldTypeV,
    es: Seq<(Seq<char>, TaggedUnion)>,
    ss: Seq<(Seq<char>, StructConfig)>,
    tables: Seq<Seq<char>>,
    path: Seq<Seq<char>>,
    fuel: nat,
) -> Result<SurqlType, Seq<char>>
    decreases fuel, 0int, t,
{
    match t {
        FieldTypeV::String => Ok(("string"@, false, None)),
        FieldTypeV::Char => Ok(("string"@, false, None)),
        FieldTypeV::Bool => Ok(("bool"@, false, None)),
        FieldTypeV::Unit => Ok(("any"@, false, None)),
        FieldTypeV::F32 => Ok(("float"@, false, None)),
        FieldTypeV::F64 => Ok(("float"@, false, None)),
        FieldTypeV::Option(b) => match surql_type(*b, es, ss, tables, path, fuel) {
            Ok(x) => Ok(("null | "@ + x.0, x.1, x.2)),
            Err(e) => Err(e),
        },
        FieldTypeV::Vec(b) => match surql_type(*b, es, ss, tables, path, fuel) {
            Ok(x) => Ok(("array<"@ + x.0 + ">"@, false, None)),
            Err(e) => Err(e),
        },
        FieldTypeV::HashMap(_, v) => match surql_type(*v, es, ss, tables, path, fuel) {
            Ok(x) => Ok(("object"@, true, Some(x.0))),
            Err(e) => Err(e),
        },
        FieldTypeV::BTreeMap(_, v) => match surql_type(*v, es, ss, tables, path, fuel) {
            Ok(x) => Ok(("object"@, true, Some(x.0))),
            Err(e) => Err(e),
        },
        FieldTypeV::RecordLink(b) => match *b {
            FieldTypeV::Other(n) => Ok(("record<"@ + case_converted(n, TextCase::Snake) + ">"@, false, None)),
            _ => surql_type(*b, es, ss, tables, path, fuel),
        },
        FieldTypeV::Tuple(ts) => match surql_types(ts, es, ss, tables, path, fuel) {
            Ok(xs) => Ok(("["@ + join(xs, ", "@) + "]"@, false, None)),
            Err(e) => Err(e),
        },
        FieldTypeV::Struct(fs) => match surql_named(fs, es, ss, tables, path, fuel) {
            Ok(xs) => Ok(("{ "@ + join(xs, ", "@) + " }"@, false, None)),
            Err(e) => Err(e),
        },
        FieldTypeV::Other(name) => {
            if value_of(es, name) is Some || (value_of(ss, name) is Some && !path.contains(name)) {
                if fuel == 0 {
                    Err(too_deep_text())
                } else if value_of(es, name) is Some {
                    match surql_variants(value_of(es, name)->0@.variants, es, ss, tables, path, (fuel - 1) as nat) {
                        Ok(xs) => Ok((join(xs, " | "@), false, None)),
                        Err(e) => Err(e),
                    }
                } else {
                    match surql_fields(value_of(ss, name)->0@.fields, es, ss, tables, path.push(name), (fuel - 1) as nat) {
                        Ok(xs) => Ok(("{ "@ + join(xs, ", "@) + " }"@, false, None)),
                        Err(e) => Err(e),
                    }
                }
            } else if value_of(ss, name) is Some {
                Ok(("object"@, false, None))
            } else if tables.contains(case_converted(name, TextCase::Snake)) {
                Ok(("record<"@ + case_converted(name, TextCase::Snake) + ">"@, false, None))
            } else {
                Ok((name, false, None))
            }
        },
        _ => Ok(("int"@, false, None)),
    }
}

/// The SurrealDB types of `ts`, in order, or the first refusal.
pub open spec fn surql_types(
    ts: Seq<FieldTypeV>,
    es: Seq<(Seq<char>, TaggedUnion)>,
    ss: Seq<(Seq<char>, StructConfig)>,
    tables: Seq<Seq<char>>,
    path: Seq<Seq<char>>,
    fuel: nat,
) -> Result<Seq<Seq<char>>, Seq<char>>
    decreases fuel, 0int, ts,
{
    if ts.len() == 0 {
        Ok(Seq::empty())
    } else {
        proof {
            vstd::seq::axiom_seq_index_decreases(ts, ts.len() - 1);
            assert(decreases_to!(ts => ts.subrange(0, ts.len() - 1)));
        }
        match surql_types(ts.subrange(0, ts.len() - 1), es, ss, tables, path, fuel) {
            Ok(xs) => match surql_type(ts[ts.len() - 1], es, ss, tables, path, fuel) {
                Ok(x) => Ok(xs.push(x.0)),
                Err(e) => Err(e),
            },
            Err(e) => Err(e),
        }
    }
}

/// The `name: type` entries of the named types `fs`, in order, or the
/// first refusal.
pub open spec fn surql_named(
    fs: Seq<(Seq<char>, FieldTypeV)>,
    es: Seq<(Seq<char>, TaggedUnion)>,
    ss: Seq<(Seq<char>, StructConfig)>,
    tables: Seq<Seq<char>>,
    path: Seq<Seq<char>>,
    fuel: nat,
) -> Result<Seq<Seq<char>>, Seq<char>>
    decreases fuel, 0int, fs,
{
    if fs.len() == 0 {
        Ok(Seq::empty())
    } else {
        proof {
            vstd::seq::axiom_seq_index_decreases(fs, fs.len() - 1);
            assert(decreases_to!(fs => fs.subrange(0, fs.len() - 1)));
        }
        let f = fs[fs.len() - 1];
        match surql_named(fs.subrange(0, fs.len() - 1), es, ss, tables, path, fuel) {
            Ok(xs) => match surql_type(f.1, es, ss, tables, path, fuel) {
                Ok(x) => Ok(xs.push(f.0 + ": "@ + x.0)),
                Err(e) => Err(e),
            },
            Err(e) => Err(e),
        }
    }
}

/// The `name: type` entries of the struct fields `fs`, in order, or the
/// first refusal.
pub open spec fn surql_fields(
    fs: Seq<StructFieldV>,
    es: Seq<(Seq<char>, TaggedUnion)>,
    ss: Seq<(Seq<char>, StructConfig)>,
    tables: Seq<Seq<char>>,
    path: Seq<Seq<char>>,
    fuel: nat,
) -> Result<Seq<Seq<char>>, Seq<char>>
    decreases fuel, 1int, fs,
{
    if fs.len() == 0 {
        Ok(Seq::empty())
    } else {
        proof {
            vstd::seq::axiom_seq_index_decreases(fs, fs.len() - 1);
            assert(decreases_to!(fs => fs.subrange(0, fs.len() - 1)));
        }
        let f = fs[fs.len() - 1];
        match surql_fields(fs.subrange(0, fs.len() - 1), es, ss, tables, path, fuel) {
            Ok(xs) => match surql_type(f.field_type, es, ss, tables, path, fuel) {
                Ok(x) => Ok(xs.push(f.field_name + ": "@ + x.0)),
                Err(e) => Err(e),
            },
            Err(e) => Err(e),
        }
    }
}

/// The SurrealDB types of the variants `vs`, in order, or the first
/// refusal: a quoted name for a variant that carries nothing, the object
/// type of the known struct that an inline struct names, or the type a
/// variant refers to.
pub open spec fn surql_variants(
    vs: Seq<VariantV>,
    es: Seq<(Seq<char>, TaggedUnion)>,
    ss: Seq<(Seq<char>, StructConfig)>,
    tables: Seq<Seq<char>>,
    path: Seq<Seq<char>>,
    fuel: nat,
) -> Result<Seq<Seq<char>>, Seq<char>>
    decreases fuel, 2int, vs,
{
    if vs.len() == 0 {
        Ok(Seq::empty())
    } else {
        proof {
            vstd::seq::axiom_seq_index_decreases(vs, vs.len() - 1);
            assert(decreases_to!(vs => vs.subrange(0, vs.len() - 1)));
        }
        let v = vs[vs.len() - 1];
        match surql_variants(vs.subrange(0, vs.len() - 1), es, ss, tables, path, fuel) {
            Ok(xs) => match v.data {
                None => Ok(xs.push("\""@ + v.name + "\""@)),
                Some(VariantDataV::InlineStruct(s)) => match value_of(ss, s.struct_name) {
                    Some(c) => match surql_fields(c@.fields, es, ss, tables, path, fuel) {
                        Ok(ys) => Ok(xs.push("{ "@ + join(ys, ", "@) + " }"@)),
                        Err(e) => Err(e),
                    },
                    None => Err(missing_inline_text(s.struct_name)),
                },
                Some(VariantDataV::DataStructureRef(ft)) => match surql_type(ft, es, ss, tables, path, fuel) {
                    Ok(x) => Ok(xs.push(x.0)),
                    Err(e) => Err(e),
                },
            },
            Err(e) => Err(e),
        }
    }
}

/// What a converted type is in the model.
pub open spec fn surql_view(x: (String, bool, Option<String>)) -> SurqlType {
    (x.0@, x.1, opt_text(x.2))
}

/// The SurrealDB type of a value of type `t`.
fn surql_of(
    t: &FieldType,
    enums: &NamedMap<TaggedUnion>,
    structs: &NamedMap<StructConfig>,
    tables: &Vec<String>,
    path: &Vec<String>,
    fuel: usize,
) -> (r: Result<(String, bool, Option<String>), String>)
    ensures
        match r {
            Ok(x) => surql_type(t@, enums@, structs@, texts(tables@), texts(path@), fuel as nat) == Ok::<SurqlType, Seq<char>>(surql_view(x)),
            Err(e) => surql_type(t@, enums@, structs@, texts(tables@), texts(path@), fuel as nat) == Err::<SurqlType, Seq<char>>(e@),
        },
    decreases fuel, 0int, t,
{
    match t {
        FieldType::String | FieldType::Char => Ok((owned("string"), false, None)),
        FieldType::Bool => Ok((owned("bool"), false, None)),
        FieldType::Unit => Ok((owned("any"), false, None)),
        FieldType::F32 | FieldType::F64 => Ok((owned("float"), false, None)),
        FieldType::Option(b) => match surql_of(b, enums, structs, tables, path, fuel) {
            Ok(x) => {
                let mut n = owned("null | ");
                n.append(x.0.as_str());
                Ok((n, x.1, x.2))
            },
            Err(e) => Err(e),
        },
        FieldType::Vec(b) => match surql_of(b, enums, structs, tables, path, fuel) {
            Ok(x) => {
                let mut n = owned("array<");
                n.append(x.0.as_str());
                n.append(">");
                Ok((n, false, None))
            },
            Err(e) => Err(e),
        },
        FieldType::HashMap(_, v) | FieldType::BTreeMap(_, v) => match surql_of(v, enums, structs, tables, path, fuel) {
            Ok(x) => Ok((owned("object"), true, Some(x.0))),
            Err(e) => Err(e),
        },
        FieldType::RecordLink(b) => match &**b {
            FieldType::Other(n) => {
                let mut r = owned("record<");
                r.append(to_case(n.as_str(), TextCase::Snake).as_str());
                r.append(">");
                Ok((r, false, None))
            },
            _ => surql_of(b, enums, structs, tables, path, fuel),
        },
        FieldType::Tuple(ts) => {
            proof {
                assert(decreases_to!(*t => (*t)->Tuple_0));
                lemma_tuple_view(*ts);
            }
            match surql_types_of(ts, enums, structs, tables, path, fuel) {
                Ok(xs) => {
                    let mut r = owned("[");
                    r.append(join_strings(&xs, ", ").as_str());
                    r.append("]");
                    Ok((r, false, None))
                },
                Err(e) => Err(e),
            }
        },
        FieldType::Struct(fs) => {
            proof {
                assert(decreases_to!(*t => (*t)->Struct_0));
                lemma_struct_view(*fs);
            }
            match surql_named_of(fs, enums, structs, tables, path, fuel) {
                Ok(xs) => {
                    let mut r = owned("{ ");
                    r.append(join_strings(&xs, ", ").as_str());
                    r.append(" }");
                    Ok((r, false, None))
                },
                Err(e) => Err(e),
            }
        },
        FieldType::Other(name) => {
            let found_enum = enums.get(name.as_str());
            let found_struct = structs.get(name.as_str());
            let on_path = has_text(path, name.as_str());
            if found_enum.is_some() || (found_struct.is_some() && !on_path) {
                if fuel == 0 {
                    Err(owned("type definitions nest too deeply to expand"))
                } else {
                    match found_enum {
                        Some(e) => match surql_variants_of(&e.variants, enums, structs, tables, path, fuel - 1) {
                            Ok(xs) => Ok((join_strings(&xs, " | "), false, None)),
                            Err(err) => Err(err),
                        },
                        None => {
                            let c = found_struct.unwrap();
                            let mut inner = copy_texts(path);
                            let ghost before = inner@;
                            inner.push(name.clone());
                            assert(texts(inner@) =~= texts(path@).push(name@));
                            match surql_fields_of(&c.fields, enums, structs, tables, &inner, fuel - 1) {
                                Ok(xs) => {
                                    let mut r = owned("{ ");
                                    r.append(join_strings(&xs, ", ").as_str());
                                    r.append(" }");
                                    Ok((r, false, None))
                                },
                                Err(err) => Err(err),
                            }
                        },
                    }
                }
            } else if found_struct.is_some() {
                Ok((owned("object"), false, None))
            } else {
                let snake = to_case(name.as_str(), TextCase::Snake);
                if has_text(tables, snake.as_str()) {
                    let mut r = owned("record<");
                    r.append(snake.as_str());
                    r.append(">");
                    Ok((r, false, None))
                } else {
                    Ok((name.clone(), false, None))
                }
            }
        },
        _ => Ok((owned("int"), false, None)),
    }
}

/// The SurrealDB types of `ts`, in order, or the first refusal.
fn surql_types_of(
    ts: &Vec<FieldType>,
    enums: &NamedMap<TaggedUnion>,
    structs: &NamedMap<StructConfig>,
    tables: &Vec<String>,
    path: &Vec<String>,
    fuel: usize,
) -> (r: Result<Vec<String>, String>)
    ensures
        match r {
            Ok(xs) => surql_types(views_of(ts@), enums@, structs@, texts(tables@), texts(path@), fuel as nat) == Ok::<Seq<Seq<char>>, Seq<char>>(texts(xs@)),
            Err(e) => surql_types(views_of(ts@), enums@, structs@, texts(tables@), texts(path@), fuel as nat) == Err::<Seq<Seq<char>>, Seq<char>>(e@),
        },
    decreases fuel, 0int, ts,
{
    let ghost es = enums@;
    let ghost ss = structs@;
    let ghost tb = texts(tables@);
    let ghost pt = texts(path@);
    let mut out: Vec<String> = Vec::new();
    assert(texts(out@) =~= Seq::<Seq<char>>::empty());
    let mut err: Option<String> = None;
    let mut i: usize = 0;
    assert(views_of(ts@.take(0)) =~= Seq::<FieldTypeV>::empty());
    while i < ts.len()
        invariant
            i <= ts@.len(),
            es == enums@,
            ss == structs@,
            tb == texts(tables@),
            pt == texts(path@),
            match err {
                None => surql_types(views_of(ts@.take(i as int)), es, ss, tb, pt, fuel as nat) == Ok::<Seq<Seq<char>>, Seq<char>>(texts(out@)),
                Some(e) => surql_types(views_of(ts@.take(i as int)), es, ss, tb, pt, fuel as nat) == Err::<Seq<Seq<char>>, Seq<char>>(e@),
            },
        decreases ts.len() - i,
    {
        proof {
            vstd::std_specs::vec::axiom_vec_index_decreases(*ts, i as int);
            let vs = views_of(ts@.take(i + 1));
            assert(vs.subrange(0, vs.len() - 1) =~= views_of(ts@.take(i as int)));
            assert(vs[vs.len() - 1] == ts@[i as int]@);
        }
        if err.is_none() {
            match surql_of(&ts[i], enums, structs, tables, path, fuel) {
                Ok(x) => {
                    let ghost before = out@;
                    let ghost xv = x.0@;
                    out.push(x.0);
                    assert(texts(out@) =~= texts(before).push(xv));
                },
                Err(e) => {
                    err = Some(e);
                },
            }
        }
        i = i + 1;
    }
    assert(ts@.take(ts@.len() as int) =~= ts@);
    match err {
        Some(e) => Err(e),
        None => Ok(out),
    }
}

/// The `name: type` entries of the named types `fs`, in order, or the
/// first refusal.
fn surql_named_of(
    fs: &Vec<(String, FieldType)>,
    enums: &NamedMap<TaggedUnion>,
    structs: &NamedMap<StructConfig>,
    tables: &Vec<String>,
    path: &Vec<String>,
    fuel: usize,
) -> (r: Result<Vec<String>, String>)
    ensures
        match r {
            Ok(xs) => surql_named(named_views_of(fs@), enums@, structs@, texts(tables@), texts(path@), fuel as nat) == Ok::<Seq<Seq<char>>, Seq<char>>(texts(xs@)),
            Err(e) => surql_named(named_views_of(fs@), enums@, structs@, texts(tables@), texts(path@), fuel as nat) == Err::<Seq<Seq<char>>, Seq<char>>(e@),
        },
    decreases fuel, 0int, fs,
{
    let ghost es = enums@;
    let ghost ss = structs@;
    let ghost tb = texts(tables@);
    let ghost pt = texts(path@);
    let mut out: Vec<String> = Vec::new();
    assert(texts(out@) =~= Seq::<Seq<char>>::empty());
    let mut err: Option<String> = None;
    let mut i: usize = 0;
    assert(named_views_of(fs@.take(0)) =~= Seq::<(Seq<char>, FieldTypeV)>::empty());
    while i < fs.len()
        invariant
            i <= fs@.len(),
            es == enums@,
            ss == structs@,
            tb == texts(tables@),
            pt == texts(path@),
            match err {
                None => surql_named(named_views_of(fs@.take(i as int)), es, ss, tb, pt, fuel as nat) == Ok::<Seq<Seq<char>>, Seq<char>>(texts(out@)),
                Some(e) => surql_named(named_views_of(fs@.take(i as int)), es, ss, tb, pt, fuel as nat) == Err::<Seq<Seq<char>>, Seq<char>>(e@),
            },
        decreases fs.len() - i,
    {
        proof {
            vstd::std_specs::vec::axiom_vec_index_decreases(*fs, i as int);
            assert(decreases_to!(fs@[i as int] => fs@[i as int].1));
            let vs = named_views_of(fs@.take(i + 1));
            assert(vs.subrange(0, vs.len() - 1) =~= named_views_of(fs@.take(i as int)));
            assert(vs[vs.len() - 1] == (fs@[i as int].0@, fs@[i as int].1@));
        }
        if err.is_none() {
            match surql_of(&fs[i].1, enums, structs, tables, path, fuel) {
                Ok(x) => {
                    let mut entry = fs[i].0.clone();
                    entry.append(": ");
                    entry.append(x.0.as_str());
                    let ghost before = out@;
                    let ghost xv = entry@;
                    out.push(entry);
                    assert(texts(out@) =~= texts(before).push(xv));
                },
                Err(e) => {
                    err = Some(e);
                },
            }
        }
        i = i + 1;
    }
    assert(fs@.take(fs@.len() as int) =~= fs@);
    match err {
        Some(e) => Err(e),
        None => Ok(out),
    }
}

/// The `name: type` entries of the struct fields `fs`, in order, or the
/// first refusal.
fn surql_fields_of(
    fs: &Vec<StructField>,
    enums: &NamedMap<TaggedUnion>,
    structs: &NamedMap<StructConfig>,
    tables: &Vec<String>,
    path: &Vec<String>,
    fuel: usize,
) -> (r: Result<Vec<String>, String>)
    ensures
        match r {
            Ok(xs) => surql_fields(fs@.map_values(|f: StructField| f@), enums@, structs@, texts(tables@), texts(path@), fuel as nat) == Ok::<Seq<Seq<char>>, Seq<char>>(texts(xs@)),
            Err(e) => surql_fields(fs@.map_values(|f: StructField| f@), enums@, structs@, texts(tables@), texts(path@), fuel as nat) == Err::<Seq<Seq<char>>, Seq<char>>(e@),
        },
    decreases fuel, 1int, fs,
{
    let ghost es = enums@;
    let ghost ss = structs@;
    let ghost tb = texts(tables@);
    let ghost pt = texts(path@);
    let mut out: Vec<String> = Vec::new();
    assert(texts(out@) =~= Seq::<Seq<char>>::empty());
    let mut err: Option<String> = None;
    let mut i: usize = 0;
    assert(fs@.take(0).map_values(|f: StructField| f@) =~= Seq::<StructFieldV>::empty());
    while i < fs.len()
        invariant
            i <= fs@.len(),
            es == enums@,
            ss == structs@,
            tb == texts(tables@),
            pt == texts(path@),
            match err {
                None => surql_fields(fs@.take(i as int).map_values(|f: StructField| f@), es, ss, tb, pt, fuel as nat) == Ok::<Seq<Seq<char>>, Seq<char>>(texts(out@)),
                Some(e) => surql_fields(fs@.take(i as int).map_values(|f: StructField| f@), es, ss, tb, pt, fuel as nat) == Err::<Seq<Seq<char>>, Seq<char>>(e@),
            },
        decreases fs.len() - i,
    {
        proof {
            let vs = fs@.take(i + 1).map_values(|f: StructField| f@);
            assert(vs.subrange(0, vs.len() - 1) =~= fs@.take(i as int).map_values(|f: StructField| f@));
            assert(vs[vs.len() - 1] == fs@[i as int]@);
        }
        if err.is_none() {
            match surql_of(&fs[i].field_type, enums, structs, tables, path, fuel) {
                Ok(x) => {
                    let mut entry = fs[i].field_name.clone();
                    entry.append(": ");
                    entry.append(x.0.as_str());
                    let ghost before = out@;
                    let ghost xv = entry@;
                    out.push(entry);
                    assert(texts(out@) =~= texts(before).push(xv));
                },
                Err(e) => {
                    err = Some(e);
                },
            }
        }
        i = i + 1;
    }
    assert(fs@.take(fs@.len() as int) =~= fs@);
    match err {
        Some(e) => Err(e),
        None => Ok(out),
    }
}

/// The SurrealDB types of the variants `vs`, in order, or the first
/// refusal.
fn surql_variants_of(
    vs: &Vec<Variant>,
    enums: &NamedMap<TaggedUnion>,
    structs: &NamedMap<StructConfig>,
    tables: &Vec<String>,
    path: &Vec<String>,
    fuel: usize,
) -> (r: Result<Vec<String>, String>)
    ensures
        match r {
            Ok(xs) => surql_variants(vs@.map_values(|v: Variant| v@), enums@, structs@, texts(tables@), texts(path@), fuel as nat) == Ok::<Seq<Seq<char>>, Seq<char>>(texts(xs@)),
            Err(e) => surql_variants(vs@.map_values(|v: Variant| v@), enums@, structs@, texts(tables@), texts(path@), fuel as nat) == Err::<Seq<Seq<char>>, Seq<char>>(e@),
        },
    decreases fuel, 2int, vs,
{
    let ghost es = enums@;
    let ghost ss = structs@;
    let ghost tb = texts(tables@);
    let ghost pt = texts(path@);
    let mut out: Vec<String> = Vec::new();
    assert(texts(out@) =~= Seq::<Seq<char>>::empty());
    let mut err: Option<String> = None;
    let mut i: usize = 0;
    assert(vs@.take(0).map_values(|v: Variant| v@) =~= Seq::<VariantV>::empty());
    while i < vs.len()
        invariant
            i <= vs@.len(),
            es == enums@,
            ss == structs@,
            tb == texts(tables@),
            pt == texts(path@),
            match err {
                None => surql_variants(vs@.take(i as int).map_values(|v: Variant| v@), es, ss, tb, pt, fuel as nat) == Ok::<Seq<Seq<char>>, Seq<char>>(texts(out@)),
                Some(e) => surql_variants(vs@.take(i as int).map_values(|v: Variant| v@), es, ss, tb, pt, fuel as nat) == Err::<Seq<Seq<char>>, Seq<char>>(e@),
            },
        decreases vs.len() - i,
    {
        let ghost wv = vs@.take(i + 1).map_values(|v: Variant| v@);
        proof {
            assert(wv.subrange(0, wv.len() - 1) =~= vs@.take(i as int).map_values(|v: Variant| v@));
            assert(wv[wv.len() - 1] == vs@[i as int]@);
        }
        if err.is_none() {
            let v = &vs[i];
            let step: Result<String, String> = match &v.data {
                None => {
                    let mut q = owned("\"");
                    q.append(v.name.as_str());
                    q.append("\"");
                    Ok(q)
                },
                Some(VariantData::InlineStruct(sc)) => match structs.get(sc.struct_name.as_str()) {
                    Some(c) => match surql_fields_of(&c.fields, enums, structs, tables, path, fuel) {
                        Ok(ys) => {
                            let mut r = owned("{ ");
                            r.append(join_strings(&ys, ", ").as_str());
                            r.append(" }");
                            Ok(r)
                        },
                        Err(e) => Err(e),
                    },
                    None => {
                        let mut m = owned("Inline enum struct '");
                        m.append(sc.struct_name.as_str());
                        m.append("' should have corresponding object definition");
                        Err(m)
                    },
                },
                Some(VariantData::DataStructureRef(ft)) => match surql_of(ft, enums, structs, tables, path, fuel) {
                    Ok(x) => Ok(x.0),
                    Err(e) => Err(e),
                },
            };
            match step {
                Ok(x) => {
                    let ghost before = out@;
                    let ghost xv = x@;
                    out.push(x);
                    assert(texts(out@) =~= texts(before).push(xv));
                },
                Err(e) => {
                    err = Some(e);
                },
            }
        }
        i = i + 1;
    }
    assert(vs@.take(vs@.len() as int) =~= vs@);
    match err {
        Some(e) => Err(e),
        None => Ok(out),
    }
}

/// The refusal of a field whose define configuration gives no default when
/// no computed default is at hand.
pub open spec fn missing_default_text(field: Seq<char>) -> Seq<char> {
    "field `"@ + field + "` has a define configuration without a default, and no computed default was given"@
}

/// The type a field is written with: none when its define configuration
/// skips it, the configured type when it gives one, else the type its field
/// type converts to.
pub open spec fn field_surql_type(
    f: StructFieldV,
    es: Seq<(Seq<char>, TaggedUnion)>,
    ss: Seq<(Seq<char>, StructConfig)>,
    tables: Seq<Seq<char>>,
) -> Result<SurqlType, Seq<char>> {
    match f.define_config {
        Some(d) => if d.should_skip {
            Ok((Seq::empty(), false, None))
        } else if d.data_type is Some {
            Ok((d.data_type->0, false, None))
        } else {
            surql_type(f.field_type, es, ss, tables, Seq::empty(), usize::MAX as nat)
        },
        None => surql_type(f.field_type, es, ss, tables, Seq::empty(), usize::MAX as nat),
    }
}

/// The text that `o`, when set, adds: `prefix` and the value.
pub open spec fn opt_clause(prefix: Seq<char>, o: Option<Seq<char>>) -> Seq<char> {
    match o {
        Some(v) => prefix + v,
        None => Seq::empty(),
    }
}

/// The `DEFAULT` clause of a define configuration: its own default, with
/// `ALWAYS` when asked for, else the computed default.
pub open spec fn default_clause(d: DefineConfigV, field: Seq<char>, computed: Option<Seq<char>>) -> Result<Seq<char>, Seq<char>> {
    match d.default {
        Some(v) => Ok(" DEFAULT"@ + (if d.default_always { " ALWAYS"@ } else { Seq::empty() }) + " "@ + v),
        None => match computed {
            Some(c) => Ok(" DEFAULT "@ + c),
            None => Err(missing_default_text(field)),
        },
    }
}

/// The permission entries of a define configuration, in the order select,
/// create, update.
pub open spec fn permission_parts(d: DefineConfigV) -> Seq<Seq<char>> {
    let a = match d.select_permissions { Some(p) => seq!["FOR select "@ + p], None => Seq::empty() };
    let b = match d.create_permissions { Some(p) => seq!["FOR create "@ + p], None => Seq::empty() };
    let c = match d.update_permissions { Some(p) => seq!["FOR update "@ + p], None => Seq::empty() };
    a + b + c
}

/// The `PERMISSIONS` clause of a define configuration, when it gives any.
pub open spec fn permissions_clause(d: DefineConfigV) -> Seq<char> {
    if permission_parts(d).len() == 0 {
        Seq::empty()
    } else {
        " PERMISSIONS "@ + join(permission_parts(d), " "@)
    }
}

/// The clauses that a define configuration adds after the type: the
/// default, `READONLY`, `VALUE`, `ASSERT` and the permissions.
pub open spec fn option_clauses(d: DefineConfigV, field: Seq<char>, computed: Option<Seq<char>>) -> Result<Seq<char>, Seq<char>> {
    match default_clause(d, field, computed) {
        Err(e) => Err(e),
        Ok(dc) => Ok(dc + (if d.readonly == Some(true) { " READONLY"@ } else { Seq::empty() })
            + opt_clause(" VALUE "@, d.value) + opt_clause(" ASSERT "@, d.assert) + permissions_clause(d)),
    }
}

/// The statements that define the field `f` on the table `table`: its
/// `DEFINE FIELD OVERWRITE` statement, `FLEXIBLE` when configured, with its
/// type when that is not empty, then the options of its define
/// configuration; then, for a map, a `DEFINE FIELD <field>.*` statement
/// giving the type of its entries. `computed` is the default that a define
/// configuration without one of its own falls back on.
pub open spec fn define_text(
    f: StructFieldV,
    es: Seq<(Seq<char>, TaggedUnion)>,
    ss: Seq<(Seq<char>, StructConfig)>,
    tables: Seq<Seq<char>>,
    table: Seq<char>,
    computed: Option<Seq<char>>,
) -> Result<Seq<char>, Seq<char>> {
    match field_surql_type(f, es, ss, tables) {
        Err(e) => Err(e),
        Ok(x) => {
            let opts: Result<Seq<char>, Seq<char>> = match f.define_config {
                Some(d) => option_clauses(d, f.field_name, computed),
                None => Ok(Seq::empty()),
            };
            match opts {
                Err(e) => Err(e),
                Ok(o) => {
                    let flexible = match f.define_config {
                        Some(d) => d.flexible == Some(true),
                        None => false,
                    };
                    let head = "DEFINE FIELD OVERWRITE "@ + f.field_name + " ON TABLE "@ + table
                        + (if flexible { " FLEXIBLE"@ } else { Seq::empty() });
                    let stmt = (if x.0.len() == 0 { head } else { head + " TYPE "@ + x.0 }) + o + ";\n"@;
                    if x.1 && x.2 is Some {
                        Ok(stmt + "DEFINE FIELD "@ + f.field_name + ".* ON TABLE "@ + table + " TYPE "@ + x.2->0 + ";\n"@)
                    } else {
                        Ok(stmt)
                    }
                },
            }
        },
    }
}

/// Appends ` <prefix><value>` for an option that is set.
fn push_opt_clause(out: &mut String, prefix: &str, o: &Option<String>)
    ensures
        final(out)@ == old(out)@ + opt_clause(prefix@, opt_text(*o)),
{
    match o {
        Some(v) => {
            out.append(prefix);
            out.append(v.as_str());
        },
        None => {
            assert(old(out)@ + Seq::<char>::empty() =~= old(out)@);
        },
    }
}

/// The option clauses of a define configuration.
fn option_clauses_of(d: &DefineConfig, field: &str, computed: Option<&str>) -> (r: Result<String, String>)
    ensures
        match r {
            Ok(s) => option_clauses(d@, field@, match computed { Some(c) => Some(c@), None => None }) == Ok::<Seq<char>, Seq<char>>(s@),
            Err(e) => option_clauses(d@, field@, match computed { Some(c) => Some(c@), None => None }) == Err::<Seq<char>, Seq<char>>(e@),
        },
{
    proof {
        reveal_strlit("");
    }
    let mut out = String::new();
    match &d.default {
        Some(v) => {
            out.append(" DEFAULT");
            if d.default_always.is_some() {
                out.append(" ALWAYS");
            }
            out.append(" ");
            out.append(v.as_str());
        },
        None => match computed {
            Some(c) => {
                out.append(" DEFAULT ");
                out.append(c);
            },
            None => {
                let mut m = owned("field `");
                m.append(field);
                m.append("` has a define configuration without a default, and no computed default was given");
                return Err(m);
            },
        },
    }
    let ghost dc = out@;
    if d.readonly == Some(true) {
        out.append(" READONLY");
    }
    push_opt_clause(&mut out, " VALUE ", &d.value);
    push_opt_clause(&mut out, " ASSERT ", &d.assert);
    let mut parts: Vec<String> = Vec::new();
    let ghost pv = permission_parts(d@);
    match &d.select_permissions {
        Some(p) => {
            let mut e = owned("FOR select ");
            e.append(p.as_str());
            parts.push(e);
        },
        None => {},
    }
    match &d.create_permissions {
        Some(p) => {
            let mut e = owned("FOR create ");
            e.append(p.as_str());
            parts.push(e);
        },
        None => {},
    }
    match &d.update_permissions {
        Some(p) => {
            let mut e = owned("FOR update ");
            e.append(p.as_str());
            parts.push(e);
        },
        None => {},
    }
    assert(parts@.map_values(|s: String| s@) =~= pv);
    let ghost before_perms = out@;
    if parts.len() > 0 {
        out.append(" PERMISSIONS ");
        out.append(join_strings(&parts, " ").as_str());
    }
    assert(out@ =~= before_perms + permissions_clause(d@));
    Ok(out)
}

impl StructField {
    /// The SurrealDB statements that define this field on the table
    /// `table_name`, given the enums, the structs of the application and the
    /// names of the persisted tables.
    ///
    /// The field's type becomes a SurrealDB type: enums are unions of their
    /// variants, structs are objects of their fields (a struct met again
    /// inside itself is `object`), a struct that is a table is a record
    /// link, and a map is an object whose entries a second statement types.
    /// A define configuration can skip the type or give one of its own, and
    /// adds `FLEXIBLE`, `DEFAULT`, `READONLY`, `VALUE`, `ASSERT` and
    /// `PERMISSIONS`; when it gives no default, `computed_default` is
    /// written, and without one the field is refused. An enum variant whose
    /// inline struct is not among the structs is refused. Expansion stops,
    /// with a refusal, after `usize::MAX` named types nested one inside the
    /// other (an enum that contains itself would otherwise expand forever).
    pub fn generate_define_statement(
        &self,
        enums: &NamedMap<TaggedUnion>,
        app_structs: &NamedMap<StructConfig>,
        tables: &Vec<String>,
        table_name: &str,
        computed_default: Option<&str>,
    ) -> (r: Result<String, String>)
        ensures
            match r {
                Ok(s) => define_text(self@, enums@, app_structs@, texts(tables@), table_name@, match computed_default { Some(c) => Some(c@), None => None }) == Ok::<Seq<char>, Seq<char>>(s@),
                Err(e) => define_text(self@, enums@, app_structs@, texts(tables@), table_name@, match computed_default { Some(c) => Some(c@), None => None }) == Err::<Seq<char>, Seq<char>>(e@),
            },
    {
        proof {
            reveal_strlit("");
        }
        let path: Vec<String> = Vec::new();
        assert(texts(path@) =~= Seq::<Seq<char>>::empty());
        let converted = match &self.define_config {
            Some(d) => if d.should_skip {
                Ok((String::new(), false, None))
            } else {
                match &d.data_type {
                    Some(t) => Ok((t.clone(), false, None)),
                    None => surql_of(&self.field_type, enums, app_structs, tables, &path, usize::MAX),
                }
            },
            None => surql_of(&self.field_type, enums, app_structs, tables, &path, usize::MAX),
        };
        let x = match converted {
            Err(e) => {
                return Err(e);
            },
            Ok(x) => x,
        };
        let options = match &self.define_config {
            Some(d) => match option_clauses_of(d, self.field_name.as_str(), computed_default) {
                Err(e) => {
                    return Err(e);
                },
                Ok(o) => o,
            },
            None => String::new(),
        };
        let mut stmt = owned("DEFINE FIELD OVERWRITE ");
        stmt.append(self.field_name.as_str());
        stmt.append(" ON TABLE ");
        stmt.append(table_name);
        match &self.define_config {
            Some(d) => {
                if d.flexible == Some(true) {
                    stmt.append(" FLEXIBLE");
                }
            },
            None => {},
        }
        if !x.0.as_str().is_empty() {
            stmt.append(" TYPE ");
            stmt.append(x.0.as_str());
        }
        stmt.append(options.as_str());
        stmt.append(";\n");
        if x.1 {
            match &x.2 {
                Some(w) => {
                    stmt.append("DEFINE FIELD ");
                    stmt.append(self.field_name.as_str());
                    stmt.append(".* ON TABLE ");
                    stmt.append(table_name);
                    stmt.append(" TYPE ");
                    stmt.append(w.as_str());
                    stmt.append(";\n");
                },
                None => {},
            }
        }
        Ok(stmt)
    }
}


/// Each permission kind that a define configuration sets appears in its
/// `PERMISSIONS` entries under its own keyword, and every entry is that of
/// a kind it sets: `FOR select p` exactly when select permissions are `p`,
/// `FOR create p` exactly when create permissions are `p`, `FOR update p`
/// exactly when update permissions are `p`; with none set there is no
/// `PERMISSIONS` clause, and with some set the clause lists the entries.
pub proof fn lemma_permission_entries(d: DefineConfigV)
    ensures
        forall|p: Seq<char>| permission_parts(d).contains("FOR select "@ + p) <==> d.select_permissions == Some(p),
        forall|p: Seq<char>| permission_parts(d).contains("FOR create "@ + p) <==> d.create_permissions == Some(p),
        forall|p: Seq<char>| permission_parts(d).contains("FOR update "@ + p) <==> d.update_permissions == Some(p),
        forall|e: Seq<char>| #[trigger] permission_parts(d).contains(e) ==> {
            ||| exists|p: Seq<char>| d.select_permissions == Some(p) && e == "FOR select "@ + p
            ||| exists|p: Seq<char>| d.create_permissions == Some(p) && e == "FOR create "@ + p
            ||| exists|p: Seq<char>| d.update_permissions == Some(p) && e == "FOR update "@ + p
        },
        (d.select_permissions is None && d.create_permissions is None && d.update_permissions is None)
            <==> permissions_clause(d) == Seq::<char>::empty(),
{
    reveal_strlit("FOR select ");
    reveal_strlit("FOR create ");
    reveal_strlit("FOR update ");
    reveal_strlit(" PERMISSIONS ");
    let parts = permission_parts(d);
    assert forall|p: Seq<char>| #[trigger] parts.contains("FOR select "@ + p) implies d.select_permissions == Some(p) by {
        let i = choose|i: int| 0 <= i < parts.len() && parts[i] == "FOR select "@ + p;
        lemma_permission_entry_kind(d, i);
        assert(("FOR select "@ + p)[4] == 's');
        let q = d.select_permissions->0;
        assert(("FOR select "@ + p).subrange(11, ("FOR select "@ + p).len() as int) =~= p);
        assert(("FOR select "@ + q).subrange(11, ("FOR select "@ + q).len() as int) =~= q);
    }
    assert forall|p: Seq<char>| #[trigger] parts.contains("FOR create "@ + p) implies d.create_permissions == Some(p) by {
        let i = choose|i: int| 0 <= i < parts.len() && parts[i] == "FOR create "@ + p;
        lemma_permission_entry_kind(d, i);
        assert(("FOR create "@ + p)[4] == 'c');
        let q = d.create_permissions->0;
        assert(("FOR create "@ + p).subrange(11, ("FOR create "@ + p).len() as int) =~= p);
        assert(("FOR create "@ + q).subrange(11, ("FOR create "@ + q).len() as int) =~= q);
    }
    assert forall|p: Seq<char>| #[trigger] parts.contains("FOR update "@ + p) implies d.update_permissions == Some(p) by {
        let i = choose|i: int| 0 <= i < parts.len() && parts[i] == "FOR update "@ + p;
        lemma_permission_entry_kind(d, i);
        assert(("FOR update "@ + p)[4] == 'u');
        let q = d.update_permissions->0;
        assert(("FOR update "@ + p).subrange(11, ("FOR update "@ + p).len() as int) =~= p);
        assert(("FOR update "@ + q).subrange(11, ("FOR update "@ + q).len() as int) =~= q);
    }
    assert forall|e: Seq<char>| #[trigger] parts.contains(e) implies {
        ||| exists|p: Seq<char>| d.select_permissions == Some(p) && e == "FOR select "@ + p
        ||| exists|p: Seq<char>| d.create_permissions == Some(p) && e == "FOR create "@ + p
        ||| exists|p: Seq<char>| d.update_permissions == Some(p) && e == "FOR update "@ + p
    } by {
        let i = choose|i: int| 0 <= i < parts.len() && parts[i] == e;
        lemma_permission_entry_kind(d, i);
    }
    match d.select_permissions {
        Some(p) => { assert(parts.contains("FOR select "@ + p)) by { assert(parts[0] == "FOR select "@ + p); } },
        None => {},
    }
    let sa: Seq<Seq<char>> = match d.select_permissions { Some(p) => seq!["FOR select "@ + p], None => Seq::empty() };
    match d.create_permissions {
        Some(p) => { assert(parts.contains("FOR create "@ + p)) by { assert(parts[sa.len() as int] == "FOR create "@ + p); } },
        None => {},
    }
    match d.update_permissions {
        Some(p) => { assert(parts.contains("FOR update "@ + p)) by { assert(parts[parts.len() - 1] == "FOR update "@ + p); } },
        None => {},
    }
    if parts.len() > 0 {
        assert((" PERMISSIONS "@ + join(parts, " "@)).len() > 0);
    }
}

/// The entry at `i` of the permission entries is that of a kind the
/// configuration sets.
proof fn lemma_permission_entry_kind(d: DefineConfigV, i: int)
    requires
        0 <= i < permission_parts(d).len(),
    ensures
        ({
            let e = permission_parts(d)[i];
            ||| (d.select_permissions is Some && e == "FOR select "@ + d.select_permissions->0)
            ||| (d.create_permissions is Some && e == "FOR create "@ + d.create_permissions->0)
            ||| (d.update_permissions is Some && e == "FOR update "@ + d.update_permissions->0)
        }),
{
}

} // verus!
