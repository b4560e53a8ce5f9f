//! ArkType generation: a scope of validator bindings for the structs and
//! tagged unions, the default value of each struct, and the inferred
//! TypeScript types.

use vstd::prelude::*;
use crate::case::{TextCase, case_converted, to_case};
use crate::config::ForeignTypeConfigV;
use crate::named_map::{NamedMap, entries_view, value_of};
use crate::text::{chars_of, join, join_strings, owned, string_of};
use crate::types::field_type::{
    FieldType, FieldTypeV, lemma_struct_view, lemma_tuple_view, named_views_of, views_of,
};
use crate::types::foreign_type_registry::{ForeignTypeRegistry, found_config};
use crate::types::{StructConfig, StructField, StructFieldV, TaggedUnion, Variant, VariantData, VariantDataV, VariantV};

verus! {

/// `s` without its single quotes, as `replace('\'', "")` gives it.
pub open spec fn without_quotes(s: Seq<char>) -> Seq<char>
    decreases s.len(),
{
    if s.len() == 0 {
        Seq::empty()
    } else if s.last() == '\'' {
        without_quotes(s.drop_last())
    } else {
        without_quotes(s.drop_last()).push(s.last())
    }
}

/// The ArkType text of a reference to the type named `name`: the ArkType
/// type configured for it when it is a foreign type with one, else its
/// name in single quotes, converted to PascalCase. A known struct or
/// tagged union of that name is written the same way.
pub open spec fn arktype_reference(
    names: Seq<(Seq<char>, Seq<char>)>,
    cfgs: Seq<(Seq<char>, ForeignTypeConfigV)>,
    name: Seq<char>,
) -> Seq<char> {
    match found_config(names, cfgs, name) {
        Some(c) if c.arktype.len() > 0 => c.arktype,
        _ => case_converted("'"@ + name + "'"@, TextCase::Pascal),
    }
}

/// The ArkType definition of a field type, with the foreign types of the
/// registry whose name table is `names` and configurations `cfgs`.
pub open spec fn arktype_text(
    t: FieldTypeV,
    names: Seq<(Seq<char>, Seq<char>)>,
    cfgs: Seq<(Seq<char>, ForeignTypeConfigV)>,
) -> Seq<char>
    decreases t,
{
    match t {
        FieldTypeV::String => "'string'"@,
        FieldTypeV::Char => "'string'"@,
        FieldTypeV::Bool => "'boolean'"@,
        FieldTypeV::Unit => "'null'"@,
        FieldTypeV::Tuple(ts) => "["@ + join(arktype_all(ts, names, cfgs), ", "@) + "]"@,
        FieldTypeV::Struct(fs) => "{ "@ + join(arktype_fields_all(fs, names, cfgs), ", "@) + " }"@,
        FieldTypeV::Option(b) => "[["@ + arktype_text(*b, names, cfgs) + ", '|', 'undefined'], '|', 'null']"@,
        FieldTypeV::Vec(b) => "["@ + arktype_text(*b, names, cfgs) + ", '[]']"@,
        FieldTypeV::HashMap(k, v) => "'Record<"@ + without_quotes(arktype_text(*k, names, cfgs)) + ", "@
            + without_quotes(arktype_text(*v, names, cfgs)) + ">'"@,
        FieldTypeV::BTreeMap(k, v) => "'Record<"@ + without_quotes(arktype_text(*k, names, cfgs)) + ", "@
            + without_quotes(arktype_text(*v, names, cfgs)) + ">'"@,
        FieldTypeV::RecordLink(b) => "["@ + arktype_text(*b, names, cfgs) + ", \"|\",  \"string\"]"@,
        FieldTypeV::Other(name) => arktype_reference(names, cfgs, name),
        _ => "'number'"@,
    }
}

/// The ArkType definitions of the types `ts`, in order.
pub open spec fn arktype_all(
    ts: Seq<FieldTypeV>,
    names: Seq<(Seq<char>, Seq<char>)>,
    cfgs: Seq<(Seq<char>, ForeignTypeConfigV)>,
) -> Seq<Seq<char>>
    decreases ts,
{
    if ts.len() == 0 {
        Seq::empty()
    } else {
        proof {
            vstd::seq::axiom_seq_index_decreases(ts, ts.len() - 1);
            assert(decreases_to!(ts => ts.subrange(0, ts.len() - 1)));
        }
        arktype_all(ts.subrange(0, ts.len() - 1), names, cfgs).push(arktype_text(ts[ts.len() - 1], names, cfgs))
    }
}

/// The `name: definition` entries of the named types `fs`, in order.
pub open spec fn arktype_fields_all(
    fs: Seq<(Seq<char>, FieldTypeV)>,
    names: Seq<(Seq<char>, Seq<char>)>,
    cfgs: Seq<(Seq<char>, ForeignTypeConfigV)>,
) -> Seq<Seq<char>>
    decreases fs,
{
    if fs.len() == 0 {
        Seq::empty()
    } else {
        proof {
            vstd::seq::axiom_seq_index_decreases(fs, fs.len() - 1);
            assert(decreases_to!(fs => fs.subrange(0, fs.len() - 1)));
        }
        let f = fs[fs.len() - 1];
        arktype_fields_all(fs.subrange(0, fs.len() - 1), names, cfgs).push(f.0 + ": "@ + arktype_text(f.1, names, cfgs))
    }
}

/// `s` with its single quotes taken out.
fn strip_quotes(s: &str) -> (r: String)
    ensures
        r@ == without_quotes(s@),
{
    let v = chars_of(s);
    let mut out: Vec<char> = Vec::new();
    let mut i: usize = 0;
    while i < v.len()
        invariant
            i <= v@.len(),
            v@ == s@,
            out@ == without_quotes(v@.take(i as int)),
        decreases v.len() - i,
    {
        if v[i] != '\'' {
            out.push(v[i]);
        }
        assert(v@.take(i + 1).drop_last() == v@.take(i as int));
        i = i + 1;
    }
    assert(v@.take(v@.len() as int) == v@);
    string_of(&out)
}

/// The ArkType text of a reference to the type named `name`, as
/// [`arktype_reference`] says.
fn arktype_reference_of(registry: &ForeignTypeRegistry, name: &str) -> (r: String)
    ensures
        r@ == arktype_reference(registry.names(), registry.configs(), name@),
{
    match registry.lookup(name) {
        Some(ftc) => {
            if !ftc.arktype.as_str().is_empty() {
                return ftc.arktype.clone();
            }
        },
        None => {},
    }
    let mut quoted = owned("'");
    quoted.append(name);
    quoted.append("'");
    to_case(quoted.as_str(), TextCase::Pascal)
}

/// The ArkType definitions of the types in `ts`.
fn arktypes(ts: &Vec<FieldType>, structs: &NamedMap<StructConfig>, enums: &NamedMap<TaggedUnion>, registry: &ForeignTypeRegistry) -> (r: Vec<String>)
    ensures
        r@.map_values(|s: String| s@) == arktype_all(views_of(ts@), registry.names(), registry.configs()),
    decreases ts,
{
    let mut out: Vec<String> = Vec::new();
    let mut i: usize = 0;
    while i < ts.len()
        invariant
            i <= ts@.len(),
            out@.map_values(|s: String| s@) == arktype_all(views_of(ts@.take(i as int)), registry.names(), registry.configs()),
        decreases ts.len() - i,
    {
        proof {
            vstd::std_specs::vec::axiom_vec_index_decreases(*ts, i as int);
        }
        let c = field_type_to_arktype(&ts[i], structs, enums, registry);
        proof {
            let vs = views_of(ts@.take(i + 1));
            assert(vs.subrange(0, vs.len() - 1) =~= views_of(ts@.take(i as int)));
            assert(vs[vs.len() - 1] == ts@[i as int]@);
            assert(out@.push(c).map_values(|s: String| s@) =~= out@.map_values(|s: String| s@).push(c@));
        }
        out.push(c);
        i = i + 1;
    }
    assert(ts@.take(ts@.len() as int) == ts@);
    out
}

/// The `name: definition` entries of the named types in `fs`.
fn arktype_fields(fs: &Vec<(String, FieldType)>, structs: &NamedMap<StructConfig>, enums: &NamedMap<TaggedUnion>, registry: &ForeignTypeRegistry) -> (r: Vec<String>)
    ensures
        r@.map_values(|s: String| s@) == arktype_fields_all(named_views_of(fs@), registry.names(), registry.configs()),
    decreases fs,
{
    let mut out: Vec<String> = Vec::new();
    let mut i: usize = 0;
    while i < fs.len()
        invariant
            i <= fs@.len(),
            out@.map_values(|s: String| s@) == arktype_fields_all(named_views_of(fs@.take(i as int)), registry.names(), registry.configs()),
        decreases fs.len() - i,
    {
        proof {
            vstd::std_specs::vec::axiom_vec_index_decreases(*fs, i as int);
            assert(decreases_to!(fs[i as int] => fs[i as int].1));
        }
        let mut p = fs[i].0.clone();
        p.append(": ");
        p.append(field_type_to_arktype(&fs[i].1, structs, enums, registry).as_str());
        proof {
            let vs = named_views_of(fs@.take(i + 1));
            assert(vs.subrange(0, vs.len() - 1) =~= named_views_of(fs@.take(i as int)));
            assert(vs[vs.len() - 1] == (fs@[i as int].0@, fs@[i as int].1@));
            assert(out@.push(p).map_values(|s: String| s@) =~= out@.map_values(|s: String| s@).push(p@));
        }
        out.push(p);
        i = i + 1;
    }
    assert(fs@.take(fs@.len() as int) == fs@);
    out
}

/// Converts a field type to its ArkType definition. A reference to a
/// foreign type with an ArkType type configured in `registry` becomes that
/// type; any other named type, a known struct or tagged union or not,
/// becomes its quoted PascalCase name.
pub fn field_type_to_arktype(field_type: &FieldType, structs: &NamedMap<StructConfig>, enums: &NamedMap<TaggedUnion>, registry: &ForeignTypeRegistry) -> (r: String)
    ensures
        r@ == arktype_text(field_type@, registry.names(), registry.configs()),
    decreases field_type,
{
    match field_type {
        FieldType::Tuple(ts) => {
            proof {
                assert(decreases_to!(*field_type => (*field_type)->Tuple_0));
            }
            let parts = arktypes(ts, structs, enums, registry);
            let mut r = owned("[");
            r.append(join_strings(&parts, ", ").as_str());
            r.append("]");
            proof {
                lemma_tuple_view(*ts);
            }
            r
        },
        FieldType::Struct(fs) => {
            proof {
                assert(decreases_to!(*field_type => (*field_type)->Struct_0));
            }
            let parts = arktype_fields(fs, structs, enums, registry);
            let mut r = owned("{ ");
            r.append(join_strings(&parts, ", ").as_str());
            r.append(" }");
            proof {
                lemma_struct_view(*fs);
            }
            r
        },
        FieldType::Option(b) => {
            let mut r = owned("[[");
            r.append(field_type_to_arktype(b, structs, enums, registry).as_str());
            r.append(", '|', 'undefined'], '|', 'null']");
            r
        },
        FieldType::Vec(b) => {
            let mut r = owned("[");
            r.append(field_type_to_arktype(b, structs, enums, registry).as_str());
            r.append(", '[]']");
            r
        },
        FieldType::HashMap(k, v) | FieldType::BTreeMap(k, v) => {
            let mut r = owned("'Record<");
            r.append(strip_quotes(field_type_to_arktype(k, structs, enums, registry).as_str()).as_str());
            r.append(", ");
            r.append(strip_quotes(field_type_to_arktype(v, structs, enums, registry).as_str()).as_str());
            r.append(">'");
            r
        },
        FieldType::RecordLink(b) => {
            let mut r = owned("[");
            r.append(field_type_to_arktype(b, structs, enums, registry).as_str());
            r.append(", \"|\",  \"string\"]");
            r
        },
        FieldType::Other(name) => arktype_reference_of(registry, name.as_str()),
        FieldType::String | FieldType::Char => owned("'string'"),
        FieldType::Bool => owned("'boolean'"),
        FieldType::Unit => owned("'null'"),
        _ => owned("'number'"),
    }
}


/// The ArkType of a variant of a tagged union, tagged by its name as serde
/// does by default: a literal of its name when it carries nothing, else an
/// object whose one key is its name and whose value is what it carries.
pub open spec fn arktype_variant(
    v: VariantV,
    names: Seq<(Seq<char>, Seq<char>)>,
    cfgs: Seq<(Seq<char>, ForeignTypeConfigV)>,
) -> Seq<char> {
    match v.data {
        None => "['===', '"@ + v.name + "']"@,
        Some(VariantDataV::InlineStruct(c)) => "{ "@ + v.name + ": "@ + arktype_reference(names, cfgs, c.struct_name) + " }"@,
        Some(VariantDataV::DataStructureRef(t)) => "{ "@ + v.name + ": "@ + arktype_text(t, names, cfgs) + " }"@,
    }
}

/// The union of `items`, nested from the left: the first item alone, then
/// `[union so far, '|', item]` for each further one; empty when there is
/// none.
pub open spec fn union_fold(items: Seq<Seq<char>>) -> Seq<char>
    decreases items.len(),
{
    if items.len() == 0 {
        Seq::empty()
    } else if items.len() == 1 {
        items[0]
    } else {
        "["@ + union_fold(items.drop_last()) + ", '|', "@ + items.last() + "]"@
    }
}

/// The ArkType union of the variants of `e`.
pub open spec fn arktype_union(
    e: crate::types::TaggedUnionV,
    names: Seq<(Seq<char>, Seq<char>)>,
    cfgs: Seq<(Seq<char>, ForeignTypeConfigV)>,
) -> Seq<char> {
    union_fold(e.variants.map_values(|v: VariantV| arktype_variant(v, names, cfgs)))
}

/// The inferred TypeScript type of the binding named `p`.
pub open spec fn type_line(p: Seq<char>) -> Seq<char> {
    "export type "@ + p + " = typeof bindings."@ + p + ".infer;\n"@
}

/// The line of a struct binding for the field `f`, with a comma unless it
/// is the `last`.
pub open spec fn field_line(
    f: StructFieldV,
    last: bool,
    names: Seq<(Seq<char>, Seq<char>)>,
    cfgs: Seq<(Seq<char>, ForeignTypeConfigV)>,
) -> Seq<char> {
    "  "@ + case_converted(f.field_name, TextCase::Camel) + ": "@ + arktype_text(f.field_type, names, cfgs)
        + (if last { "\n"@ } else { ",\n"@ })
}

/// The lines of the first `n` fields of `fs`.
pub open spec fn field_lines(
    fs: Seq<StructFieldV>,
    n: nat,
    names: Seq<(Seq<char>, Seq<char>)>,
    cfgs: Seq<(Seq<char>, ForeignTypeConfigV)>,
) -> Seq<char>
    decreases n,
{
    if n == 0 {
        Seq::empty()
    } else {
        field_lines(fs, (n - 1) as nat, names, cfgs) + field_line(fs[n - 1], n == fs.len(), names, cfgs)
    }
}

/// The entries of the default object for the first `n` fields of `fs`,
/// whose default values are `ds`, separated by a comma and a line break.
pub open spec fn default_lines(fs: Seq<StructFieldV>, ds: Seq<Seq<char>>, n: nat) -> Seq<char>
    decreases n,
{
    if n == 0 {
        Seq::empty()
    } else {
        default_lines(fs, ds, (n - 1) as nat) + case_converted(fs[n - 1].field_name, TextCase::Camel) + ": "@
            + ds[n - 1] + (if n == fs.len() { ""@ } else { ",\n"@ })
    }
}

/// The default values given for the fields of the struct under `key`, in
/// field order; none when `defaults` has no entry for it.
pub open spec fn defaults_of(defaults: Seq<(Seq<char>, Vec<String>)>, key: Seq<char>) -> Seq<Seq<char>> {
    match value_of(defaults, key) {
        Some(v) => v@.map_values(|s: String| s@),
        None => Seq::empty(),
    }
}

/// Whether `defaults` gives a default value for each field of each struct
/// of `structs`.
pub open spec fn defaults_cover(structs: Seq<(Seq<char>, StructConfig)>, defaults: Seq<(Seq<char>, Vec<String>)>) -> bool {
    forall|i: int| 0 <= i < structs.len() ==> #[trigger] defaults_of(defaults, structs[i].0).len() == structs[i].1.fields.len()
}

/// The scope bindings of the first `n` tagged unions of `es`.
pub open spec fn enum_bindings(
    es: Seq<(Seq<char>, TaggedUnion)>,
    n: nat,
    names: Seq<(Seq<char>, Seq<char>)>,
    cfgs: Seq<(Seq<char>, ForeignTypeConfigV)>,
) -> Seq<char>
    decreases n,
{
    if n == 0 {
        Seq::empty()
    } else {
        let e = es[n - 1].1@;
        enum_bindings(es, (n - 1) as nat, names, cfgs) + case_converted(e.enum_name, TextCase::Pascal) + ": "@
            + arktype_union(e, names, cfgs) + ",\n"@
    }
}

/// The type lines of the first `n` tagged unions of `es`.
pub open spec fn enum_types(es: Seq<(Seq<char>, TaggedUnion)>, n: nat) -> Seq<char>
    decreases n,
{
    if n == 0 {
        Seq::empty()
    } else {
        enum_types(es, (n - 1) as nat) + type_line(case_converted(es[n - 1].1.enum_name@, TextCase::Pascal))
    }
}

/// The scope bindings of the first `n` structs of `s`.
pub open spec fn struct_bindings(
    s: Seq<(Seq<char>, StructConfig)>,
    n: nat,
    names: Seq<(Seq<char>, Seq<char>)>,
    cfgs: Seq<(Seq<char>, ForeignTypeConfigV)>,
) -> Seq<char>
    decreases n,
{
    if n == 0 {
        Seq::empty()
    } else {
        let c = s[n - 1].1@;
        struct_bindings(s, (n - 1) as nat, names, cfgs) + case_converted(c.struct_name, TextCase::Pascal) + ": {\n"@
            + field_lines(c.fields, c.fields.len(), names, cfgs) + "},\n"@
    }
}

/// The default objects of the first `n` structs of `s`.
pub open spec fn struct_defaults(s: Seq<(Seq<char>, StructConfig)>, d: Seq<(Seq<char>, Vec<String>)>, n: nat) -> Seq<char>
    decreases n,
{
    if n == 0 {
        Seq::empty()
    } else {
        let c = s[n - 1].1@;
        let p = case_converted(c.struct_name, TextCase::Pascal);
        struct_defaults(s, d, (n - 1) as nat) + "export const default"@ + p + ": "@ + p + " = {\n"@
            + default_lines(c.fields, defaults_of(d, s[n - 1].0), c.fields.len()) + "\n};\n"@
    }
}

/// The type lines of the first `n` structs of `s`.
pub open spec fn struct_types(s: Seq<(Seq<char>, StructConfig)>, n: nat) -> Seq<char>
    decreases n,
{
    if n == 0 {
        Seq::empty()
    } else {
        struct_types(s, (n - 1) as nat) + type_line(case_converted(s[n - 1].1.struct_name@, TextCase::Pascal))
    }
}

/// The ArkType module of the structs `s` and tagged unions `es`, with the
/// default values `d` of the struct fields: the scope of bindings, the
/// default objects, and the inferred types when `print_types` is set.
pub open spec fn arktype_module(
    s: Seq<(Seq<char>, StructConfig)>,
    es: Seq<(Seq<char>, TaggedUnion)>,
    d: Seq<(Seq<char>, Vec<String>)>,
    print_types: bool,
    names: Seq<(Seq<char>, Seq<char>)>,
    cfgs: Seq<(Seq<char>, ForeignTypeConfigV)>,
) -> Seq<char> {
    let scope = "export const bindings = scope({\n\n"@ + enum_bindings(es, es.len(), names, cfgs)
        + struct_bindings(s, s.len(), names, cfgs) + "\n});\n\n"@;
    let defaults = struct_defaults(s, d, s.len());
    if print_types {
        scope + "\n"@ + defaults + "\n"@ + enum_types(es, es.len()) + struct_types(s, s.len())
    } else {
        scope + "\n"@ + defaults
    }
}

/// The ArkType of the variant `v`, as [`arktype_variant`] says.
fn variant_to_arktype(v: &Variant, structs: &NamedMap<StructConfig>, enums: &NamedMap<TaggedUnion>, registry: &ForeignTypeRegistry) -> (r: String)
    ensures
        r@ == arktype_variant(v@, registry.names(), registry.configs()),
{
    match &v.data {
        Some(data) => {
            let mut r = owned("{ ");
            r.append(v.name.as_str());
            r.append(": ");
            match data {
                VariantData::InlineStruct(c) => {
                    r.append(arktype_reference_of(registry, c.struct_name.as_str()).as_str());
                },
                VariantData::DataStructureRef(t) => {
                    r.append(field_type_to_arktype(t, structs, enums, registry).as_str());
                },
            }
            r.append(" }");
            r
        },
        None => {
            let mut r = owned("['===', '");
            r.append(v.name.as_str());
            r.append("']");
            r
        },
    }
}

/// The ArkType union of the variants of `e`, as [`arktype_union`] says.
fn union_to_arktype(e: &TaggedUnion, structs: &NamedMap<StructConfig>, enums: &NamedMap<TaggedUnion>, registry: &ForeignTypeRegistry) -> (r: String)
    ensures
        r@ == arktype_union(e@, registry.names(), registry.configs()),
{
    let ghost items = e@.variants.map_values(|v: VariantV| arktype_variant(v, registry.names(), registry.configs()));
    let mut acc = String::new();
    let mut i: usize = 0;
    while i < e.variants.len()
        invariant
            i <= e.variants@.len(),
            items == e@.variants.map_values(|v: VariantV| arktype_variant(v, registry.names(), registry.configs())),
            acc@ == union_fold(items.take(i as int)),
        decreases e.variants.len() - i,
    {
        let item = variant_to_arktype(&e.variants[i], structs, enums, registry);
        proof {
            assert(items.take(i + 1).drop_last() == items.take(i as int));
            assert(items.take(i + 1).last() == item@);
            if i == 0 {
                assert(items.take(1) == seq![item@]);
            }
        }
        if i == 0 {
            acc = item;
        } else {
            let mut next = owned("[");
            next.append(acc.as_str());
            next.append(", '|', ");
            next.append(item.as_str());
            next.append("]");
            acc = next;
        }
        i = i + 1;
    }
    assert(items.take(items.len() as int) == items);
    acc
}

/// The field lines and default entries of the struct `c`, whose field
/// default values are `ds`.
fn struct_parts(c: &StructConfig, ds: &Vec<String>, structs: &NamedMap<StructConfig>, enums: &NamedMap<TaggedUnion>, registry: &ForeignTypeRegistry) -> (r: (String, String))
    requires
        ds@.len() == c.fields@.len(),
    ensures
        r.0@ == field_lines(c@.fields, c@.fields.len(), registry.names(), registry.configs()),
        r.1@ == default_lines(c@.fields, ds@.map_values(|s: String| s@), c@.fields.len()),
{
    let ghost fs = c@.fields;
    let ghost dv = ds@.map_values(|s: String| s@);
    let mut lines = String::new();
    let mut dlines = String::new();
    let mut i: usize = 0;
    while i < c.fields.len()
        invariant
            i <= c.fields@.len(),
            ds@.len() == c.fields@.len(),
            fs == c@.fields,
            dv == ds@.map_values(|s: String| s@),
            lines@ == field_lines(fs, i as nat, registry.names(), registry.configs()),
            dlines@ == default_lines(fs, dv, i as nat),
        decreases c.fields.len() - i,
    {
        let f: &StructField = &c.fields[i];
        assert(fs[i as int] == f@);
        assert(dv[i as int] == ds@[i as int]@);
        assert(fs.len() == c.fields@.len());
        let name = to_case(f.field_name.as_str(), TextCase::Camel);
        lines.append("  ");
        lines.append(name.as_str());
        lines.append(": ");
        lines.append(field_type_to_arktype(&f.field_type, structs, enums, registry).as_str());
        dlines.append(name.as_str());
        dlines.append(": ");
        dlines.append(ds[i].as_str());
        if i + 1 == c.fields.len() {
            lines.append("\n");
            proof {
                reveal_strlit("");
                assert(dlines@ =~= dlines@ + ""@);
            }
        } else {
            lines.append(",\n");
            dlines.append(",\n");
        }
        i = i + 1;
    }
    (lines, dlines)
}

/// Generates the ArkType module of `structs` and `enums`: a scope that
/// binds each tagged union, then each struct, to its validator, in the
/// order of their names; the default object of each struct, whose field
/// values `defaults` gives by struct name in field order; and, when
/// `print_types` is set, the TypeScript type each binding infers.
#[verifier::spinoff_prover]
#[verifier::rlimit(40)]
pub fn generate_arktype_type_string(
    structs: &NamedMap<StructConfig>,
    enums: &NamedMap<TaggedUnion>,
    defaults: &NamedMap<Vec<String>>,
    print_types: bool,
    registry: &ForeignTypeRegistry,
) -> (r: String)
    requires
        defaults_cover(structs@, defaults@),
    ensures
        r@ == arktype_module(structs@, enums@, defaults@, print_types, registry.names(), registry.configs()),
{
    let ghost names = registry.names();
    let ghost cfgs = registry.configs();
    let mut scope = owned("export const bindings = scope({\n\n");
    let mut types = String::new();
    let es = enums.entries();
    let mut i: usize = 0;
    while i < es.len()
        invariant
            i <= es@.len(),
            entries_view(es@) == enums@,
            names == registry.names(),
            cfgs == registry.configs(),
            scope@ == "export const bindings = scope({\n\n"@ + enum_bindings(enums@, i as nat, names, cfgs),
            types@ == enum_types(enums@, i as nat),
        decreases es.len() - i,
    {
        let e = &es[i].1;
        assert(enums@[i as int].1 == *e);
        let p = to_case(e.enum_name.as_str(), TextCase::Pascal);
        scope.append(p.as_str());
        scope.append(": ");
        scope.append(union_to_arktype(e, structs, enums, registry).as_str());
        scope.append(",\n");
        types.append("export type ");
        types.append(p.as_str());
        types.append(" = typeof bindings.");
        types.append(p.as_str());
        types.append(".infer;\n");
        i = i + 1;
    }
    let ghost enum_part = types@;
    let mut defaults_out = String::new();
    let ss = structs.entries();
    let mut j: usize = 0;
    while j < ss.len()
        invariant
            j <= ss@.len(),
            entries_view(ss@) == structs@,
            defaults_cover(structs@, defaults@),
            names == registry.names(),
            cfgs == registry.configs(),
            scope@ == "export const bindings = scope({\n\n"@ + enum_bindings(enums@, enums@.len(), names, cfgs)
                + struct_bindings(structs@, j as nat, names, cfgs),
            defaults_out@ == struct_defaults(structs@, defaults@, j as nat),
            types@ == enum_part + struct_types(structs@, j as nat),
            enum_part == enum_types(enums@, enums@.len()),
        decreases ss.len() - j,
    {
        let key = &ss[j].0;
        let c = &ss[j].1;
        assert(structs@[j as int] == (key@, *c));
        assert(defaults_of(defaults@, structs@[j as int].0).len() == structs@[j as int].1.fields.len());
        let empty: Vec<String> = Vec::new();
        let ds: &Vec<String> = match defaults.get(key.as_str()) {
            Some(v) => v,
            None => &empty,
        };
        assert(ds@.map_values(|s: String| s@) == defaults_of(defaults@, key@));
        let p = to_case(c.struct_name.as_str(), TextCase::Pascal);
        let (lines, dlines) = struct_parts(c, ds, structs, enums, registry);
        scope.append(p.as_str());
        scope.append(": {\n");
        scope.append(lines.as_str());
        scope.append("},\n");
        defaults_out.append("export const default");
        defaults_out.append(p.as_str());
        defaults_out.append(": ");
        defaults_out.append(p.as_str());
        defaults_out.append(" = {\n");
        defaults_out.append(dlines.as_str());
        defaults_out.append("\n};\n");
        types.append("export type ");
        types.append(p.as_str());
        types.append(" = typeof bindings.");
        types.append(p.as_str());
        types.append(".infer;\n");
        j = j + 1;
    }
    scope.append("\n});\n\n");
    let mut out = scope;
    out.append("\n");
    out.append(defaults_out.as_str());
    if print_types {
        out.append("\n");
        out.append(types.as_str());
    }
    out
}


/// A map's ArkType definition is a `Record` of the key type's definition
/// and then the value type's, each without its quotes, for hash maps and
/// B-tree maps alike.
pub proof fn lemma_map_record_order(
    k: FieldTypeV,
    v: FieldTypeV,
    names: Seq<(Seq<char>, Seq<char>)>,
    cfgs: Seq<(Seq<char>, ForeignTypeConfigV)>,
)
    ensures
        arktype_text(FieldTypeV::HashMap(Box::new(k), Box::new(v)), names, cfgs) == "'Record<"@
            + without_quotes(arktype_text(k, names, cfgs)) + ", "@ + without_quotes(arktype_text(v, names, cfgs)) + ">'"@,
        arktype_text(FieldTypeV::BTreeMap(Box::new(k), Box::new(v)), names, cfgs) == "'Record<"@
            + without_quotes(arktype_text(k, names, cfgs)) + ", "@ + without_quotes(arktype_text(v, names, cfgs)) + ">'"@,
{
}

} // verus!
