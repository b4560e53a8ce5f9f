//! The syntax tree of a FlatBuffers schema.

use vstd::prelude::*;
use crate::named_map::{NamedMap, value_of};
use crate::text::{opt_text, same_text, texts};

verus! {

/// A complete FlatBuffers schema file.
#[derive(Debug)]
pub struct FlatBuffersSchema {
    pub namespace: Option<String>,
    pub includes: Vec<String>,
    pub file_identifier: Option<String>,
    pub file_extension: Option<String>,
    pub root_type: Option<String>,
    pub tables: Vec<TableDef>,
    pub structs: Vec<StructDef>,
    pub enums: Vec<EnumDef>,
    pub unions: Vec<UnionDef>,
    pub attributes: Vec<String>,
}

/// The model of a [`FlatBuffersSchema`].
pub struct SchemaV {
    pub namespace: Option<Seq<char>>,
    pub includes: Seq<Seq<char>>,
    pub file_identifier: Option<Seq<char>>,
    pub file_extension: Option<Seq<char>>,
    pub root_type: Option<Seq<char>>,
    pub tables: Seq<TableDefV>,
    pub structs: Seq<TableDefV>,
    pub enums: Seq<EnumDefV>,
    pub unions: Seq<UnionDefV>,
    pub attributes: Seq<Seq<char>>,
}

impl View for FlatBuffersSchema {
    type V = SchemaV;

    open spec fn view(&self) -> SchemaV {
        SchemaV {
            namespace: opt_text(self.namespace),
            includes: texts(self.includes@),
            file_identifier: opt_text(self.file_identifier),
            file_extension: opt_text(self.file_extension),
            root_type: opt_text(self.root_type),
            tables: self.tables@.map_values(|t: TableDef| t@),
            structs: self.structs@.map_values(|t: StructDef| t@),
            enums: self.enums@.map_values(|e: EnumDef| e@),
            unions: self.unions@.map_values(|u: UnionDef| u@),
            attributes: texts(self.attributes@),
        }
    }
}

/// The model of an empty schema.
pub open spec fn empty_schema() -> SchemaV {
    SchemaV {
        namespace: None,
        includes: Seq::empty(),
        file_identifier: None,
        file_extension: None,
        root_type: None,
        tables: Seq::empty(),
        structs: Seq::empty(),
        enums: Seq::empty(),
        unions: Seq::empty(),
        attributes: Seq::empty(),
    }
}

impl FlatBuffersSchema {
    /// An empty schema.
    pub fn new() -> (r: FlatBuffersSchema)
        ensures
            r@ == empty_schema(),
    {
        let r = FlatBuffersSchema {
            namespace: None,
            includes: Vec::new(),
            file_identifier: None,
            file_extension: None,
            root_type: None,
            tables: Vec::new(),
            structs: Vec::new(),
            enums: Vec::new(),
            unions: Vec::new(),
            attributes: Vec::new(),
        };
        assert(r@.includes =~= Seq::<Seq<char>>::empty());
        assert(r@.tables =~= Seq::<TableDefV>::empty());
        assert(r@.structs =~= Seq::<TableDefV>::empty());
        assert(r@.enums =~= Seq::<EnumDefV>::empty());
        assert(r@.unions =~= Seq::<UnionDefV>::empty());
        assert(r@.attributes =~= Seq::<Seq<char>>::empty());
        r
    }
}

/// A FlatBuffers table definition (its fields may be absent).
#[derive(Debug)]
pub struct TableDef {
    pub name: String,
    pub fields: Vec<FieldDef>,
    pub metadata: Metadata,
    pub doc_comment: Option<String>,
}

/// A FlatBuffers struct definition (all fields present, fixed layout).
#[derive(Debug)]
pub struct StructDef {
    pub name: String,
    pub fields: Vec<FieldDef>,
    pub metadata: Metadata,
    pub doc_comment: Option<String>,
}

/// The model of a table or struct definition.
pub struct TableDefV {
    pub name: Seq<char>,
    pub fields: Seq<FieldDefV>,
    pub metadata: MetadataV,
    pub doc_comment: Option<Seq<char>>,
}

/// The models of a list of fields.
pub open spec fn fields_view(v: Seq<FieldDef>) -> Seq<FieldDefV> {
    v.map_values(|f: FieldDef| f@)
}

impl View for TableDef {
    type V = TableDefV;

    open spec fn view(&self) -> TableDefV {
        TableDefV {
            name: self.name@,
            fields: fields_view(self.fields@),
            metadata: self.metadata@,
            doc_comment: opt_text(self.doc_comment),
        }
    }
}

impl View for StructDef {
    type V = TableDefV;

    open spec fn view(&self) -> TableDefV {
        TableDefV {
            name: self.name@,
            fields: fields_view(self.fields@),
            metadata: self.metadata@,
            doc_comment: opt_text(self.doc_comment),
        }
    }
}

/// A field within a table or struct.
#[derive(Debug)]
pub struct FieldDef {
    pub name: String,
    pub field_type: FbsType,
    pub default_value: Option<String>,
    pub metadata: Metadata,
    pub doc_comment: Option<String>,
}

/// The model of a [`FieldDef`].
pub struct FieldDefV {
    pub name: Seq<char>,
    pub field_type: FbsTypeV,
    pub default_value: Option<Seq<char>>,
    pub metadata: MetadataV,
    pub doc_comment: Option<Seq<char>>,
}

impl View for FieldDef {
    type V = FieldDefV;

    open spec fn view(&self) -> FieldDefV {
        FieldDefV {
            name: self.name@,
            field_type: self.field_type@,
            default_value: opt_text(self.default_value),
            metadata: self.metadata@,
            doc_comment: opt_text(self.doc_comment),
        }
    }
}

/// A FlatBuffers enum definition.
#[derive(Debug)]
pub struct EnumDef {
    pub name: String,
    pub underlying_type: ScalarType,
    pub values: Vec<EnumValue>,
    pub metadata: Metadata,
    pub doc_comment: Option<String>,
}

/// The model of an [`EnumDef`].
pub struct EnumDefV {
    pub name: Seq<char>,
    pub underlying_type: ScalarType,
    pub values: Seq<EnumValueV>,
    pub metadata: MetadataV,
    pub doc_comment: Option<Seq<char>>,
}

impl View for EnumDef {
    type V = EnumDefV;

    open spec fn view(&self) -> EnumDefV {
        EnumDefV {
            name: self.name@,
            underlying_type: self.underlying_type,
            values: self.values@.map_values(|v: EnumValue| v@),
            metadata: self.metadata@,
            doc_comment: opt_text(self.doc_comment),
        }
    }
}

/// A single enum value.
#[derive(Debug)]
pub struct EnumValue {
    pub name: String,
    pub value: Option<i64>,
    pub doc_comment: Option<String>,
}

/// The model of an [`EnumValue`].
pub struct EnumValueV {
    pub name: Seq<char>,
    pub value: Option<i64>,
    pub doc_comment: Option<Seq<char>>,
}

impl View for EnumValue {
    type V = EnumValueV;

    open spec fn view(&self) -> EnumValueV {
        EnumValueV { name: self.name@, value: self.value, doc_comment: opt_text(self.doc_comment) }
    }
}

/// A FlatBuffers union definition.
#[derive(Debug)]
pub struct UnionDef {
    pub name: String,
    pub variants: Vec<UnionVariant>,
    pub metadata: Metadata,
    pub doc_comment: Option<String>,
}

/// The model of a [`UnionDef`].
pub struct UnionDefV {
    pub name: Seq<char>,
    pub variants: Seq<UnionVariantV>,
    pub metadata: MetadataV,
    pub doc_comment: Option<Seq<char>>,
}

impl View for UnionDef {
    type V = UnionDefV;

    open spec fn view(&self) -> UnionDefV {
        UnionDefV {
            name: self.name@,
            variants: self.variants@.map_values(|v: UnionVariant| v@),
            metadata: self.metadata@,
            doc_comment: opt_text(self.doc_comment),
        }
    }
}

/// A single union variant, with the type it names when that differs from
/// its name.
#[derive(Debug)]
pub struct UnionVariant {
    pub name: String,
    pub type_ref: Option<String>,
}

/// The model of a [`UnionVariant`].
pub struct UnionVariantV {
    pub name: Seq<char>,
    pub type_ref: Option<Seq<char>>,
}

impl View for UnionVariant {
    type V = UnionVariantV;

    open spec fn view(&self) -> UnionVariantV {
        UnionVariantV { name: self.name@, type_ref: opt_text(self.type_ref) }
    }
}

/// A FlatBuffers type.
#[derive(Debug, PartialEq, Eq)]
pub enum FbsType {
    Scalar(ScalarType),
    String,
    Vector(Box<FbsType>),
    Array(Box<FbsType>, usize),
    Named(String),
}

/// The model of an [`FbsType`].
pub enum FbsTypeV {
    Scalar(ScalarType),
    String,
    Vector(Box<FbsTypeV>),
    Array(Box<FbsTypeV>, usize),
    Named(Seq<char>),
}

/// The model of `t`.
pub open spec fn fbs_type_view(t: FbsType) -> FbsTypeV
    decreases t,
{
    match t {
        FbsType::Scalar(s) => FbsTypeV::Scalar(s),
        FbsType::String => FbsTypeV::String,
        FbsType::Vector(b) => FbsTypeV::Vector(Box::new(fbs_type_view(*b))),
        FbsType::Array(b, n) => FbsTypeV::Array(Box::new(fbs_type_view(*b)), n),
        FbsType::Named(s) => FbsTypeV::Named(s@),
    }
}

impl View for FbsType {
    type V = FbsTypeV;

    open spec fn view(&self) -> FbsTypeV {
        fbs_type_view(*self)
    }
}

/// FlatBuffers scalar types.
#[derive(Debug, Clone, Copy, PartialEq, Eq, Structural)]
pub enum ScalarType {
    Bool,
    Byte,
    UByte,
    Short,
    UShort,
    Int,
    UInt,
    Long,
    ULong,
    Float,
    Double,
    Int8,
    UInt8,
    Int16,
    UInt16,
    Int32,
    UInt32,
    Int64,
    UInt64,
    Float32,
    Float64,
}

/// The scalar type a FlatBuffers type name denotes, aliases resolved to
/// their sized names.
pub open spec fn scalar_named(s: Seq<char>) -> Option<ScalarType> {
    if s == "bool"@ {
        Some(ScalarType::Bool)
    } else if s == "byte"@ || s == "int8"@ {
        Some(ScalarType::Int8)
    } else if s == "ubyte"@ || s == "uint8"@ {
        Some(ScalarType::UInt8)
    } else if s == "short"@ || s == "int16"@ {
        Some(ScalarType::Int16)
    } else if s == "ushort"@ || s == "uint16"@ {
        Some(ScalarType::UInt16)
    } else if s == "int"@ || s == "int32"@ {
        Some(ScalarType::Int32)
    } else if s == "uint"@ || s == "uint32"@ {
        Some(ScalarType::UInt32)
    } else if s == "long"@ || s == "int64"@ {
        Some(ScalarType::Int64)
    } else if s == "ulong"@ || s == "uint64"@ {
        Some(ScalarType::UInt64)
    } else if s == "float"@ || s == "float32"@ {
        Some(ScalarType::Float32)
    } else if s == "double"@ || s == "float64"@ {
        Some(ScalarType::Float64)
    } else {
        None
    }
}

impl ScalarType {
    /// The scalar type a FlatBuffers type name denotes.
    pub fn parse(s: &str) -> (r: Option<ScalarType>)
        ensures
            r == scalar_named(s@),
    {
        if same_text(s, "bool") {
            Some(ScalarType::Bool)
        } else if same_text(s, "byte") || same_text(s, "int8") {
            Some(ScalarType::Int8)
        } else if same_text(s, "ubyte") || same_text(s, "uint8") {
            Some(ScalarType::UInt8)
        } else if same_text(s, "short") || same_text(s, "int16") {
            Some(ScalarType::Int16)
        } else if same_text(s, "ushort") || same_text(s, "uint16") {
            Some(ScalarType::UInt16)
        } else if same_text(s, "int") || same_text(s, "int32") {
            Some(ScalarType::Int32)
        } else if same_text(s, "uint") || same_text(s, "uint32") {
            Some(ScalarType::UInt32)
        } else if same_text(s, "long") || same_text(s, "int64") {
            Some(ScalarType::Int64)
        } else if same_text(s, "ulong") || same_text(s, "uint64") {
            Some(ScalarType::UInt64)
        } else if same_text(s, "float") || same_text(s, "float32") {
            Some(ScalarType::Float32)
        } else if same_text(s, "double") || same_text(s, "float64") {
            Some(ScalarType::Float64)
        } else {
            None
        }
    }
}

/// Metadata (attributes) attached to types or fields: each attribute's
/// name, with its value if it has one.
#[derive(Debug)]
pub struct Metadata {
    pub attributes: NamedMap<Option<String>>,
}

/// The model of [`Metadata`]: its attributes in the order of their names.
pub type MetadataV = Seq<(Seq<char>, Option<Seq<char>>)>;

/// The attributes of a metadata table, as texts.
pub open spec fn attribute_texts(s: Seq<(Seq<char>, Option<String>)>) -> MetadataV {
    s.map_values(|e: (Seq<char>, Option<String>)| (e.0, opt_text(e.1)))
}

impl View for Metadata {
    type V = MetadataV;

    open spec fn view(&self) -> MetadataV {
        attribute_texts(self.attributes@)
    }
}

/// The value of the attribute `key`, when it is present with a value.
pub open spec fn attribute_value(m: MetadataV, key: Seq<char>) -> Option<Seq<char>> {
    match value_of(m, key) {
        Some(Some(v)) => Some(v),
        _ => None,
    }
}

proof fn lemma_attribute_lookup(s: Seq<(Seq<char>, Option<String>)>, key: Seq<char>)
    ensures
        value_of(attribute_texts(s), key) == match value_of(s, key) {
            Some(o) => Some(opt_text(o)),
            None => None,
        },
{
    let f = |o: Option<String>| opt_text(o);
    crate::named_map::lemma_value_of_map(s, key, f);
    assert(attribute_texts(s) =~= crate::named_map::map_entry_values(s, f));
}

impl Metadata {
    /// Metadata with no attributes.
    pub fn new() -> (r: Metadata)
        ensures
            r@ == Seq::<(Seq<char>, Option<Seq<char>>)>::empty(),
    {
        let r = Metadata { attributes: NamedMap::new() };
        assert(r@ =~= Seq::<(Seq<char>, Option<Seq<char>>)>::empty());
        r
    }

    /// The value of the attribute `key`, if it is present with one.
    pub fn get(&self, key: &str) -> (r: Option<&str>)
        ensures
            match r {
                Some(v) => attribute_value(self@, key@) == Some(v@),
                None => attribute_value(self@, key@) is None,
            },
    {
        proof {
            lemma_attribute_lookup(self.attributes@, key@);
        }
        match self.attributes.get(key) {
            Some(Some(v)) => Some(v.as_str()),
            _ => None,
        }
    }

    /// Whether the attribute `key` is present.
    pub fn has(&self, key: &str) -> (r: bool)
        ensures
            r == (value_of(self@, key@) is Some),
    {
        proof {
            lemma_attribute_lookup(self.attributes@, key@);
        }
        self.attributes.contains_key(key)
    }
}

} // verus!
