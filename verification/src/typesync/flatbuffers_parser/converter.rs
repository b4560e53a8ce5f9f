//! From the FlatBuffers syntax tree to the shared type model.

use vstd::prelude::*;
use crate::named_map::{
    NamedMap, lemma_put_all_has, lemma_put_all_keeps, lemma_put_all_last, lemma_put_all_other,
    lemma_put_all_sorted, lemma_put_all_value, put, put_all, sorted_names, value_of,
};
use crate::types::field_type::{FieldType, FieldTypeV};
use crate::types::{
    StructConfig, StructConfigV, StructField, StructFieldV, TaggedUnion, TaggedUnionV, Variant,
    VariantData, VariantDataV, VariantV,
};
use crate::typesync::flatbuffers_parser::ast::{
    EnumDef, EnumDefV, FbsType, FbsTypeV, FieldDef, FieldDefV, FlatBuffersSchema, ScalarType,
    SchemaV, StructDef, TableDef, TableDefV, UnionDef, UnionDefV,
};
use crate::text::{opt_text, texts};

verus! {

/// What reading a FlatBuffers schema gives: its structs and enums, its
/// namespace and any warnings.
#[derive(Debug)]
pub struct FlatBuffersParseResult {
    /// The structs, from the tables and structs, by name.
    pub structs: NamedMap<StructConfig>,
    /// The enums, from the enums and unions, by name.
    pub enums: NamedMap<TaggedUnion>,
    /// The namespace of the schema, if it has one.
    pub namespace: Option<String>,
    /// Warnings raised while converting.
    pub warnings: Vec<String>,
}

/// The models of a table of structs.
pub open spec fn struct_views(s: Seq<(Seq<char>, StructConfig)>) -> Seq<(Seq<char>, StructConfigV)> {
    s.map_values(|e: (Seq<char>, StructConfig)| (e.0, e.1@))
}

/// The models of a table of enums.
pub open spec fn enum_views(s: Seq<(Seq<char>, TaggedUnion)>) -> Seq<(Seq<char>, TaggedUnionV)> {
    s.map_values(|e: (Seq<char>, TaggedUnion)| (e.0, e.1@))
}

/// The model of a [`FlatBuffersParseResult`].
pub struct ParseResultV {
    pub structs: Seq<(Seq<char>, StructConfigV)>,
    pub enums: Seq<(Seq<char>, TaggedUnionV)>,
    pub namespace: Option<Seq<char>>,
    pub warnings: Seq<Seq<char>>,
}

impl View for FlatBuffersParseResult {
    type V = ParseResultV;

    open spec fn view(&self) -> ParseResultV {
        ParseResultV {
            structs: struct_views(self.structs@),
            enums: enum_views(self.enums@),
            namespace: opt_text(self.namespace),
            warnings: texts(self.warnings@),
        }
    }
}

impl FlatBuffersParseResult {
    /// An empty result.
    pub fn new() -> (r: FlatBuffersParseResult)
        ensures
            r@.structs.len() == 0,
            r@.enums.len() == 0,
            r@.namespace is None,
            r@.warnings.len() == 0,
    {
        FlatBuffersParseResult {
            structs: NamedMap::new(),
            enums: NamedMap::new(),
            namespace: None,
            warnings: Vec::new(),
        }
    }
}

/// The field type of a FlatBuffers scalar.
pub open spec fn scalar_field_type(s: ScalarType) -> FieldTypeV {
    match s {
        ScalarType::Bool => FieldTypeV::Bool,
        ScalarType::Byte | ScalarType::Int8 => FieldTypeV::I8,
        ScalarType::UByte | ScalarType::UInt8 => FieldTypeV::U8,
        ScalarType::Short | ScalarType::Int16 => FieldTypeV::I16,
        ScalarType::UShort | ScalarType::UInt16 => FieldTypeV::U16,
        ScalarType::Int | ScalarType::Int32 => FieldTypeV::I32,
        ScalarType::UInt | ScalarType::UInt32 => FieldTypeV::U32,
        ScalarType::Long | ScalarType::Int64 => FieldTypeV::I64,
        ScalarType::ULong | ScalarType::UInt64 => FieldTypeV::U64,
        ScalarType::Float | ScalarType::Float32 => FieldTypeV::F32,
        ScalarType::Double | ScalarType::Float64 => FieldTypeV::F64,
    }
}

/// The field type of a FlatBuffers type: vectors and fixed arrays become
/// `Vec`, names become `Other`.
pub open spec fn converted_type(t: FbsTypeV) -> FieldTypeV
    decreases t,
{
    match t {
        FbsTypeV::Scalar(s) => scalar_field_type(s),
        FbsTypeV::String => FieldTypeV::String,
        FbsTypeV::Vector(inner) => FieldTypeV::Vec(Box::new(converted_type(*inner))),
        FbsTypeV::Array(inner, _n) => FieldTypeV::Vec(Box::new(converted_type(*inner))),
        FbsTypeV::Named(name) => FieldTypeV::Other(name),
    }
}

/// The struct field of a FlatBuffers field, without validators and with no
/// edge, define or format settings.
pub open spec fn converted_field(f: FieldDefV) -> StructFieldV {
    StructFieldV {
        field_name: f.name,
        field_type: converted_type(f.field_type),
        has_edge_config: false,
        define_config: None,
        has_format: false,
        validators: Seq::empty(),
        always_regenerate: false,
    }
}

/// The struct of a FlatBuffers table or struct, without validators.
pub open spec fn converted_table(t: TableDefV) -> StructConfigV {
    StructConfigV {
        struct_name: t.name,
        fields: t.fields.map_values(|f: FieldDefV| converted_field(f)),
        validators: Seq::empty(),
    }
}

/// The tagged union of a FlatBuffers enum: its values as variants without
/// data.
pub open spec fn converted_enum(e: EnumDefV) -> TaggedUnionV {
    TaggedUnionV {
        enum_name: e.name,
        variants: e.values.map_values(
            |v: crate::typesync::flatbuffers_parser::ast::EnumValueV| VariantV { name: v.name, data: None },
        ),
    }
}

/// The tagged union of a FlatBuffers union: each variant refers to the type
/// it names, or else to the type named like it.
pub open spec fn converted_union(u: UnionDefV) -> TaggedUnionV {
    TaggedUnionV {
        enum_name: u.name,
        variants: u.variants.map_values(
            |v: crate::typesync::flatbuffers_parser::ast::UnionVariantV| VariantV {
                name: v.name,
                data: Some(
                    VariantDataV::DataStructureRef(
                        FieldTypeV::Other(
                            match v.type_ref {
                                Some(t) => t,
                                None => v.name,
                            },
                        ),
                    ),
                ),
            },
        ),
    }
}

/// `m` with each of `defs` put in as a struct under its name, in order.
pub open spec fn put_tables(m: Seq<(Seq<char>, StructConfigV)>, defs: Seq<TableDefV>) -> Seq<(Seq<char>, StructConfigV)>
    decreases defs.len(),
{
    if defs.len() == 0 {
        m
    } else {
        let d = defs.last();
        put(put_tables(m, defs.drop_last()), d.name, converted_table(d))
    }
}

/// `m` with each of `defs` put in as a tagged union under its name, in
/// order.
pub open spec fn put_enums(m: Seq<(Seq<char>, TaggedUnionV)>, defs: Seq<EnumDefV>) -> Seq<(Seq<char>, TaggedUnionV)>
    decreases defs.len(),
{
    if defs.len() == 0 {
        m
    } else {
        let d = defs.last();
        put(put_enums(m, defs.drop_last()), d.name, converted_enum(d))
    }
}

/// `m` with each of `defs` put in as a tagged union under its name, in
/// order.
pub open spec fn put_unions(m: Seq<(Seq<char>, TaggedUnionV)>, defs: Seq<UnionDefV>) -> Seq<(Seq<char>, TaggedUnionV)>
    decreases defs.len(),
{
    if defs.len() == 0 {
        m
    } else {
        let d = defs.last();
        put(put_unions(m, defs.drop_last()), d.name, converted_union(d))
    }
}

fn convert_scalar(scalar: ScalarType) -> (r: FieldType)
    ensures
        r@ == scalar_field_type(scalar),
{
    match scalar {
        ScalarType::Bool => FieldType::Bool,
        ScalarType::Byte | ScalarType::Int8 => FieldType::I8,
        ScalarType::UByte | ScalarType::UInt8 => FieldType::U8,
        ScalarType::Short | ScalarType::Int16 => FieldType::I16,
        ScalarType::UShort | ScalarType::UInt16 => FieldType::U16,
        ScalarType::Int | ScalarType::Int32 => FieldType::I32,
        ScalarType::UInt | ScalarType::UInt32 => FieldType::U32,
        ScalarType::Long | ScalarType::Int64 => FieldType::I64,
        ScalarType::ULong | ScalarType::UInt64 => FieldType::U64,
        ScalarType::Float | ScalarType::Float32 => FieldType::F32,
        ScalarType::Double | ScalarType::Float64 => FieldType::F64,
    }
}

fn convert_type(t: &FbsType) -> (r: FieldType)
    ensures
        r@ == converted_type(t@),
    decreases t,
{
    match t {
        FbsType::Scalar(s) => convert_scalar(*s),
        FbsType::String => FieldType::String,
        FbsType::Vector(inner) => FieldType::Vec(Box::new(convert_type(inner))),
        FbsType::Array(inner, _n) => FieldType::Vec(Box::new(convert_type(inner))),
        FbsType::Named(name) => FieldType::Other(name.clone()),
    }
}

fn convert_field(field: &FieldDef) -> (r: StructField)
    ensures
        r@ == converted_field(field@),
        r.edge_config is None,
        r.define_config is None,
        r.format is None,
{
    let r = StructField {
        field_name: field.name.clone(),
        field_type: convert_type(&field.field_type),
        edge_config: None,
        define_config: None,
        format: None,
        validators: Vec::new(),
        always_regenerate: false,
    };
    assert(crate::validator::validators_view(r.validators@) =~= Seq::empty());
    r
}

fn convert_fields(fields: &Vec<FieldDef>) -> (r: Vec<StructField>)
    ensures
        r@.len() == fields@.len(),
        forall|k: int| 0 <= k < r@.len() ==> (#[trigger] r@[k])@ == converted_field(fields@[k]@),
{
    let mut out: Vec<StructField> = Vec::new();
    let mut i: usize = 0;
    while i < fields.len()
        invariant
            i <= fields@.len(),
            out@.len() == i,
            forall|k: int| 0 <= k < i ==> (#[trigger] out@[k])@ == converted_field(fields@[k]@),
        decreases fields.len() - i,
    {
        out.push(convert_field(&fields[i]));
        i = i + 1;
    }
    out
}

fn convert_table(name: &String, fields: &Vec<FieldDef>) -> (r: StructConfig)
    ensures
        r@.struct_name == name@,
        r@.validators == Seq::<crate::validator::ValidatorV>::empty(),
        r@.fields.len() == fields@.len(),
        forall|k: int| 0 <= k < r@.fields.len() ==> #[trigger] r@.fields[k] == converted_field(fields@[k]@),
{
    let r = StructConfig { struct_name: name.clone(), fields: convert_fields(fields), validators: Vec::new() };
    assert(crate::validator::validators_view(r.validators@) =~= Seq::empty());
    r
}

fn convert_enum(e: &EnumDef) -> (r: TaggedUnion)
    ensures
        r@ == converted_enum(e@),
{
    let mut variants: Vec<Variant> = Vec::new();
    let mut i: usize = 0;
    while i < e.values.len()
        invariant
            i <= e.values@.len(),
            variants@.len() == i,
            forall|k: int|
                0 <= k < i ==> (#[trigger] variants@[k])@ == (VariantV {
                    name: e.values@[k].name@,
                    data: None,
                }),
        decreases e.values.len() - i,
    {
        variants.push(Variant { name: e.values[i].name.clone(), data: None });
        i = i + 1;
    }
    let r = TaggedUnion { enum_name: e.name.clone(), variants };
    assert(r@.variants =~= converted_enum(e@).variants);
    r
}

fn convert_union(u: &UnionDef) -> (r: TaggedUnion)
    ensures
        r@ == converted_union(u@),
{
    let mut variants: Vec<Variant> = Vec::new();
    let mut i: usize = 0;
    while i < u.variants.len()
        invariant
            i <= u.variants@.len(),
            variants@.len() == i,
            forall|k: int| 0 <= k < i ==> (#[trigger] variants@[k])@ == converted_union(u@).variants[k],
        decreases u.variants.len() - i,
    {
        let v = &u.variants[i];
        let target = match &v.type_ref {
            Some(t) => t.clone(),
            None => v.name.clone(),
        };
        variants.push(
            Variant {
                name: v.name.clone(),
                data: Some(VariantData::DataStructureRef(FieldType::Other(target))),
            },
        );
        i = i + 1;
    }
    let r = TaggedUnion { enum_name: u.name.clone(), variants };
    assert(r@.variants =~= converted_union(u@).variants);
    r
}

pub(crate) proof fn lemma_struct_put(s: Seq<(Seq<char>, StructConfig)>, k: Seq<char>, v: StructConfig)
    ensures
        struct_views(put(s, k, v)) == put(struct_views(s), k, v@),
{
    let f = |x: StructConfig| x@;
    crate::named_map::lemma_put_map(s, k, v, f);
    assert(struct_views(put(s, k, v)) =~= crate::named_map::map_entry_values(put(s, k, v), f));
    assert(struct_views(s) =~= crate::named_map::map_entry_values(s, f));
}

pub(crate) proof fn lemma_enum_put(s: Seq<(Seq<char>, TaggedUnion)>, k: Seq<char>, v: TaggedUnion)
    ensures
        enum_views(put(s, k, v)) == put(enum_views(s), k, v@),
{
    let f = |x: TaggedUnion| x@;
    crate::named_map::lemma_put_map(s, k, v, f);
    assert(enum_views(put(s, k, v)) =~= crate::named_map::map_entry_values(put(s, k, v), f));
    assert(enum_views(s) =~= crate::named_map::map_entry_values(s, f));
}

/// The result of converting the schema `s`, before validators are read.
pub open spec fn converted_schema(s: SchemaV) -> ParseResultV {
    ParseResultV {
        structs: put_tables(put_tables(Seq::empty(), s.tables), s.structs),
        enums: put_unions(put_enums(Seq::empty(), s.enums), s.unions),
        namespace: s.namespace,
        warnings: Seq::empty(),
    }
}

/// The entries that `put_tables` puts in for `defs`.
pub open spec fn table_entries(defs: Seq<TableDefV>) -> Seq<(Seq<char>, StructConfigV)> {
    defs.map_values(|d: TableDefV| (d.name, converted_table(d)))
}

/// The entries that `put_enums` puts in for `defs`.
pub open spec fn enum_entries(defs: Seq<EnumDefV>) -> Seq<(Seq<char>, TaggedUnionV)> {
    defs.map_values(|d: EnumDefV| (d.name, converted_enum(d)))
}

/// The entries that `put_unions` puts in for `defs`.
pub open spec fn union_entries(defs: Seq<UnionDefV>) -> Seq<(Seq<char>, TaggedUnionV)> {
    defs.map_values(|d: UnionDefV| (d.name, converted_union(d)))
}

proof fn lemma_put_tables(m: Seq<(Seq<char>, StructConfigV)>, defs: Seq<TableDefV>)
    ensures
        put_tables(m, defs) == put_all(m, table_entries(defs)),
    decreases defs.len(),
{
    if defs.len() > 0 {
        lemma_put_tables(m, defs.drop_last());
        assert(table_entries(defs).drop_last() =~= table_entries(defs.drop_last()));
    }
}

proof fn lemma_put_enums(m: Seq<(Seq<char>, TaggedUnionV)>, defs: Seq<EnumDefV>)
    ensures
        put_enums(m, defs) == put_all(m, enum_entries(defs)),
    decreases defs.len(),
{
    if defs.len() > 0 {
        lemma_put_enums(m, defs.drop_last());
        assert(enum_entries(defs).drop_last() =~= enum_entries(defs.drop_last()));
    }
}

proof fn lemma_put_unions(m: Seq<(Seq<char>, TaggedUnionV)>, defs: Seq<UnionDefV>)
    ensures
        put_unions(m, defs) == put_all(m, union_entries(defs)),
    decreases defs.len(),
{
    if defs.len() > 0 {
        lemma_put_unions(m, defs.drop_last());
        assert(union_entries(defs).drop_last() =~= union_entries(defs.drop_last()));
    }
}

/// Tables and structs become structs under their names: each name of a
/// table or struct of the schema names a struct of the result; a struct
/// whose name no later struct reuses is the result's struct of that name,
/// and so is a table whose name no later table and no struct reuses.
pub proof fn lemma_converted_structs(s: SchemaV)
    ensures
        forall|i: int| 0 <= i < s.tables.len()
            ==> value_of(converted_schema(s).structs, #[trigger] s.tables[i].name) is Some,
        forall|i: int| 0 <= i < s.structs.len()
            ==> value_of(converted_schema(s).structs, #[trigger] s.structs[i].name) is Some,
        forall|i: int|
            0 <= i < s.structs.len() && (forall|j: int| i < j < s.structs.len() ==> s.structs[j].name != s.structs[i].name)
                ==> value_of(converted_schema(s).structs, #[trigger] s.structs[i].name) == Some(converted_table(s.structs[i])),
        forall|i: int|
            0 <= i < s.tables.len()
                && (forall|j: int| i < j < s.tables.len() ==> s.tables[j].name != s.tables[i].name)
                && (forall|j: int| 0 <= j < s.structs.len() ==> s.structs[j].name != s.tables[i].name)
                ==> value_of(converted_schema(s).structs, #[trigger] s.tables[i].name) == Some(converted_table(s.tables[i])),
{
    let e = Seq::<(Seq<char>, StructConfigV)>::empty();
    let te = table_entries(s.tables);
    let se = table_entries(s.structs);
    let tm = put_tables(e, s.tables);
    lemma_put_tables(e, s.tables);
    lemma_put_tables(tm, s.structs);
    lemma_put_all_sorted(e, te);
    assert forall|i: int| 0 <= i < s.tables.len()
        implies value_of(converted_schema(s).structs, #[trigger] s.tables[i].name) is Some by {
        lemma_put_all_has(e, te, i);
        lemma_put_all_keeps(tm, se, s.tables[i].name);
    }
    assert forall|i: int| 0 <= i < s.structs.len()
        implies value_of(converted_schema(s).structs, #[trigger] s.structs[i].name) is Some by {
        lemma_put_all_has(tm, se, i);
    }
    assert forall|i: int|
        0 <= i < s.structs.len() && (forall|j: int| i < j < s.structs.len() ==> s.structs[j].name != s.structs[i].name)
        implies value_of(converted_schema(s).structs, #[trigger] s.structs[i].name) == Some(converted_table(s.structs[i])) by {
        lemma_put_all_last(tm, se, i);
    }
    assert forall|i: int|
        0 <= i < s.tables.len()
            && (forall|j: int| i < j < s.tables.len() ==> s.tables[j].name != s.tables[i].name)
            && (forall|j: int| 0 <= j < s.structs.len() ==> s.structs[j].name != s.tables[i].name)
        implies value_of(converted_schema(s).structs, #[trigger] s.tables[i].name) == Some(converted_table(s.tables[i])) by {
        lemma_put_all_last(e, te, i);
        lemma_put_all_other(tm, se, s.tables[i].name);
    }
}

/// Enums and unions become tagged unions under their names: each name of an
/// enum or union of the schema names a tagged union of the result; a union
/// whose name no later union reuses is the result's tagged union of that
/// name, and so is an enum whose name no later enum and no union reuses.
pub proof fn lemma_converted_enums(s: SchemaV)
    ensures
        forall|i: int| 0 <= i < s.enums.len()
            ==> value_of(converted_schema(s).enums, #[trigger] s.enums[i].name) is Some,
        forall|i: int| 0 <= i < s.unions.len()
            ==> value_of(converted_schema(s).enums, #[trigger] s.unions[i].name) is Some,
        forall|i: int|
            0 <= i < s.unions.len() && (forall|j: int| i < j < s.unions.len() ==> s.unions[j].name != s.unions[i].name)
                ==> value_of(converted_schema(s).enums, #[trigger] s.unions[i].name) == Some(converted_union(s.unions[i])),
        forall|i: int|
            0 <= i < s.enums.len()
                && (forall|j: int| i < j < s.enums.len() ==> s.enums[j].name != s.enums[i].name)
                && (forall|j: int| 0 <= j < s.unions.len() ==> s.unions[j].name != s.enums[i].name)
                ==> value_of(converted_schema(s).enums, #[trigger] s.enums[i].name) == Some(converted_enum(s.enums[i])),
{
    let e = Seq::<(Seq<char>, TaggedUnionV)>::empty();
    let ee = enum_entries(s.enums);
    let ue = union_entries(s.unions);
    let em = put_enums(e, s.enums);
    lemma_put_enums(e, s.enums);
    lemma_put_unions(em, s.unions);
    lemma_put_all_sorted(e, ee);
    assert forall|i: int| 0 <= i < s.enums.len()
        implies value_of(converted_schema(s).enums, #[trigger] s.enums[i].name) is Some by {
        lemma_put_all_has(e, ee, i);
        lemma_put_all_keeps(em, ue, s.enums[i].name);
    }
    assert forall|i: int| 0 <= i < s.unions.len()
        implies value_of(converted_schema(s).enums, #[trigger] s.unions[i].name) is Some by {
        lemma_put_all_has(em, ue, i);
    }
    assert forall|i: int|
        0 <= i < s.unions.len() && (forall|j: int| i < j < s.unions.len() ==> s.unions[j].name != s.unions[i].name)
        implies value_of(converted_schema(s).enums, #[trigger] s.unions[i].name) == Some(converted_union(s.unions[i])) by {
        lemma_put_all_last(em, ue, i);
    }
    assert forall|i: int|
        0 <= i < s.enums.len()
            && (forall|j: int| i < j < s.enums.len() ==> s.enums[j].name != s.enums[i].name)
            && (forall|j: int| 0 <= j < s.unions.len() ==> s.unions[j].name != s.enums[i].name)
        implies value_of(converted_schema(s).enums, #[trigger] s.enums[i].name) == Some(converted_enum(s.enums[i])) by {
        lemma_put_all_last(e, ee, i);
        lemma_put_all_other(em, ue, s.enums[i].name);
    }
}

/// How each definition converts: a table or struct keeps its name and its
/// fields in order, each with its converted type, no validators and no
/// other settings; an enum value becomes a variant with no data; a union
/// variant refers to the type it names, or else to the type named like it;
/// a fixed-size array converts like a vector; and converting a schema keeps
/// its namespace and raises no warnings.
pub proof fn lemma_conversion_parts(s: SchemaV, t: TableDefV, e: EnumDefV, u: UnionDefV, inner: FbsTypeV, n: usize)
    ensures
        converted_schema(s).namespace == s.namespace,
        converted_schema(s).warnings.len() == 0,
        converted_table(t).struct_name == t.name,
        converted_table(t).validators.len() == 0,
        converted_table(t).fields.len() == t.fields.len(),
        forall|i: int|
            0 <= i < t.fields.len() ==> {
                let f = #[trigger] converted_table(t).fields[i];
                &&& f.field_name == t.fields[i].name
                &&& f.field_type == converted_type(t.fields[i].field_type)
                &&& f.validators.len() == 0
                &&& !f.has_edge_config && f.define_config is None && !f.has_format
                &&& !f.always_regenerate
            },
        converted_enum(e).enum_name == e.name,
        converted_enum(e).variants.len() == e.values.len(),
        forall|i: int|
            0 <= i < e.values.len() ==> (#[trigger] converted_enum(e).variants[i]).name == e.values[i].name
                && converted_enum(e).variants[i].data is None,
        converted_union(u).enum_name == u.name,
        converted_union(u).variants.len() == u.variants.len(),
        forall|i: int|
            0 <= i < u.variants.len() ==> (#[trigger] converted_union(u).variants[i]).name == u.variants[i].name
                && converted_union(u).variants[i].data == Some(
                VariantDataV::DataStructureRef(
                    FieldTypeV::Other(
                        match u.variants[i].type_ref {
                            Some(r) => r,
                            None => u.variants[i].name,
                        },
                    ),
                ),
            ),
        converted_type(FbsTypeV::Array(Box::new(inner), n)) == converted_type(FbsTypeV::Vector(Box::new(inner))),
{
}

/// A name that `put_all` gives a value had one before or is the name of an
/// entry put in.
proof fn lemma_put_all_source<V>(m: Seq<(Seq<char>, V)>, es: Seq<(Seq<char>, V)>, k: Seq<char>)
    requires
        sorted_names(m),
        value_of(put_all(m, es), k) is Some,
    ensures
        value_of(m, k) is Some || exists|j: int| 0 <= j < es.len() && es[j].0 == k,
{
    lemma_put_all_value(m, es, k);
    if value_of(es, k) is Some {
        crate::named_map::lemma_value_of_some(es, k);
    }
}

/// Converting a schema whose table and struct names are all different, and
/// whose enum and union names are all different, keeps its namespace,
/// raises no warnings, gives each table and struct its converted struct
/// and each enum and union its converted tagged union under its name, and
/// holds no other names. (How each definition converts is
/// [`lemma_conversion_parts`].)
pub proof fn lemma_convert_schema(s: SchemaV)
    requires
        forall|i: int, j: int| 0 <= i < j < s.tables.len() ==> s.tables[i].name != s.tables[j].name,
        forall|i: int, j: int| 0 <= i < j < s.structs.len() ==> s.structs[i].name != s.structs[j].name,
        forall|i: int, j: int| 0 <= i < s.tables.len() && 0 <= j < s.structs.len() ==> s.tables[i].name != s.structs[j].name,
        forall|i: int, j: int| 0 <= i < j < s.enums.len() ==> s.enums[i].name != s.enums[j].name,
        forall|i: int, j: int| 0 <= i < j < s.unions.len() ==> s.unions[i].name != s.unions[j].name,
        forall|i: int, j: int| 0 <= i < s.enums.len() && 0 <= j < s.unions.len() ==> s.enums[i].name != s.unions[j].name,
    ensures
        converted_schema(s).namespace == s.namespace,
        converted_schema(s).warnings.len() == 0,
        forall|i: int| 0 <= i < s.tables.len()
            ==> value_of(converted_schema(s).structs, #[trigger] s.tables[i].name) == Some(converted_table(s.tables[i])),
        forall|i: int| 0 <= i < s.structs.len()
            ==> value_of(converted_schema(s).structs, #[trigger] s.structs[i].name) == Some(converted_table(s.structs[i])),
        forall|n: Seq<char>| #[trigger] value_of(converted_schema(s).structs, n) is Some
            ==> (exists|i: int| 0 <= i < s.tables.len() && s.tables[i].name == n)
                || (exists|i: int| 0 <= i < s.structs.len() && s.structs[i].name == n),
        forall|i: int| 0 <= i < s.enums.len()
            ==> value_of(converted_schema(s).enums, #[trigger] s.enums[i].name) == Some(converted_enum(s.enums[i])),
        forall|i: int| 0 <= i < s.unions.len()
            ==> value_of(converted_schema(s).enums, #[trigger] s.unions[i].name) == Some(converted_union(s.unions[i])),
        forall|n: Seq<char>| #[trigger] value_of(converted_schema(s).enums, n) is Some
            ==> (exists|i: int| 0 <= i < s.enums.len() && s.enums[i].name == n)
                || (exists|i: int| 0 <= i < s.unions.len() && s.unions[i].name == n),
{
    lemma_converted_structs(s);
    lemma_converted_enums(s);
    let es = Seq::<(Seq<char>, StructConfigV)>::empty();
    let te = table_entries(s.tables);
    let se = table_entries(s.structs);
    lemma_put_tables(es, s.tables);
    lemma_put_tables(put_tables(es, s.tables), s.structs);
    lemma_put_all_sorted(es, te);
    assert forall|n: Seq<char>| #[trigger] value_of(converted_schema(s).structs, n) is Some
        implies (exists|i: int| 0 <= i < s.tables.len() && s.tables[i].name == n)
            || (exists|i: int| 0 <= i < s.structs.len() && s.structs[i].name == n) by {
        lemma_put_all_source(put_all(es, te), se, n);
        if value_of(put_all(es, te), n) is Some {
            lemma_put_all_source(es, te, n);
            let j = choose|j: int| 0 <= j < te.len() && te[j].0 == n;
            assert(s.tables[j].name == n);
        } else {
            let j = choose|j: int| 0 <= j < se.len() && se[j].0 == n;
            assert(s.structs[j].name == n);
        }
    }
    let eu = Seq::<(Seq<char>, TaggedUnionV)>::empty();
    let ee = enum_entries(s.enums);
    let ue = union_entries(s.unions);
    lemma_put_enums(eu, s.enums);
    lemma_put_unions(put_enums(eu, s.enums), s.unions);
    lemma_put_all_sorted(eu, ee);
    assert forall|n: Seq<char>| #[trigger] value_of(converted_schema(s).enums, n) is Some
        implies (exists|i: int| 0 <= i < s.enums.len() && s.enums[i].name == n)
            || (exists|i: int| 0 <= i < s.unions.len() && s.unions[i].name == n) by {
        lemma_put_all_source(put_all(eu, ee), ue, n);
        if value_of(put_all(eu, ee), n) is Some {
            lemma_put_all_source(eu, ee, n);
            let j = choose|j: int| 0 <= j < ee.len() && ee[j].0 == n;
            assert(s.enums[j].name == n);
        } else {
            let j = choose|j: int| 0 <= j < ue.len() && ue[j].0 == n;
            assert(s.unions[j].name == n);
        }
    }
}

/// Converts a FlatBuffers schema to structs and tagged unions: tables and
/// structs become structs, enums and unions tagged unions, each under its
/// name (a later one replacing an earlier one of the same name).
pub fn convert_schema(schema: &FlatBuffersSchema) -> (r: FlatBuffersParseResult)
    ensures
        r@ == converted_schema(schema@),
{
    let mut result = FlatBuffersParseResult::new();
    result.namespace = schema.namespace.clone();
    let ghost sv = schema@;
    assert(result@.structs =~= Seq::<(Seq<char>, StructConfigV)>::empty());
    assert(result@.enums =~= Seq::<(Seq<char>, TaggedUnionV)>::empty());
    let mut i: usize = 0;
    while i < schema.tables.len()
        invariant
            sv == schema@,
            i <= schema.tables@.len(),
            struct_views(result.structs@) == put_tables(Seq::empty(), sv.tables.take(i as int)),
            enum_views(result.enums@) == Seq::<(Seq<char>, TaggedUnionV)>::empty(),
            opt_text(result.namespace) == sv.namespace,
            result.warnings@.len() == 0,
        decreases schema.tables.len() - i,
    {
        let t = &schema.tables[i];
        let c = convert_table(&t.name, &t.fields);
        proof {
            assert(c@.fields =~= converted_table(t@).fields);
            assert(c@ == converted_table(t@));
            lemma_struct_put(result.structs@, t.name@, c);
            assert(sv.tables.take(i + 1).drop_last() == sv.tables.take(i as int));
            assert(sv.tables.take(i + 1).last() == t@);
        }
        result.structs.insert(t.name.clone(), c);
        i = i + 1;
    }
    assert(sv.tables.take(sv.tables.len() as int) == sv.tables);
    let mut i: usize = 0;
    while i < schema.structs.len()
        invariant
            sv == schema@,
            i <= schema.structs@.len(),
            struct_views(result.structs@) == put_tables(
                put_tables(Seq::empty(), sv.tables),
                sv.structs.take(i as int),
            ),
            enum_views(result.enums@) == Seq::<(Seq<char>, TaggedUnionV)>::empty(),
            opt_text(result.namespace) == sv.namespace,
            result.warnings@.len() == 0,
        decreases schema.structs.len() - i,
    {
        let t = &schema.structs[i];
        let c = convert_table(&t.name, &t.fields);
        proof {
            assert(c@.fields =~= converted_table(t@).fields);
            assert(c@ == converted_table(t@));
            lemma_struct_put(result.structs@, t.name@, c);
            assert(sv.structs.take(i + 1).drop_last() == sv.structs.take(i as int));
            assert(sv.structs.take(i + 1).last() == t@);
        }
        result.structs.insert(t.name.clone(), c);
        i = i + 1;
    }
    assert(sv.structs.take(sv.structs.len() as int) == sv.structs);
    let mut i: usize = 0;
    while i < schema.enums.len()
        invariant
            sv == schema@,
            i <= schema.enums@.len(),
            enum_views(result.enums@) == put_enums(Seq::empty(), sv.enums.take(i as int)),
            struct_views(result.structs@) == put_tables(put_tables(Seq::empty(), sv.tables), sv.structs),
            opt_text(result.namespace) == sv.namespace,
            result.warnings@.len() == 0,
        decreases schema.enums.len() - i,
    {
        let e = &schema.enums[i];
        let c = convert_enum(e);
        proof {
            lemma_enum_put(result.enums@, e.name@, c);
            assert(sv.enums.take(i + 1).drop_last() == sv.enums.take(i as int));
            assert(sv.enums.take(i + 1).last() == e@);
        }
        result.enums.insert(e.name.clone(), c);
        i = i + 1;
    }
    assert(sv.enums.take(sv.enums.len() as int) == sv.enums);
    let mut i: usize = 0;
    while i < schema.unions.len()
        invariant
            sv == schema@,
            i <= schema.unions@.len(),
            enum_views(result.enums@) == put_unions(
                put_enums(Seq::empty(), sv.enums),
                sv.unions.take(i as int),
            ),
            struct_views(result.structs@) == put_tables(put_tables(Seq::empty(), sv.tables), sv.structs),
            opt_text(result.namespace) == sv.namespace,
            result.warnings@.len() == 0,
        decreases schema.unions.len() - i,
    {
        let u = &schema.unions[i];
        let c = convert_union(u);
        proof {
            lemma_enum_put(result.enums@, u.name@, c);
            assert(sv.unions.take(i + 1).drop_last() == sv.unions.take(i as int));
            assert(sv.unions.take(i + 1).last() == u@);
        }
        result.enums.insert(u.name.clone(), c);
        i = i + 1;
    }
    assert(sv.unions.take(sv.unions.len() as int) == sv.unions);
    assert(texts(result.warnings@) =~= Seq::<Seq<char>>::empty());
    result
}

} // verus!
