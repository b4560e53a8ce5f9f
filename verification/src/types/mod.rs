//! The shared type model: structs, tagged unions, fields and their types.

pub mod field_type;
pub mod define;
pub mod foreign_type_registry;
pub mod type_text;


use vstd::prelude::*;
use crate::text::{opt_text, owned};
use crate::types::field_type::{FieldType, FieldTypeV};
use crate::validator::{Validator, ValidatorV, validators_view};

verus! {

/// A Rust enum as a tagged union of named variants.
#[derive(Debug, Clone, PartialEq, Eq, Hash)]
pub struct TaggedUnion {
    pub enum_name: String,
    pub variants: Vec<Variant>,
}

/// A reference to a stored record: either its id, written as text, or the
/// record itself.
#[derive(Debug, Clone, PartialEq, Eq)]
pub enum RecordLink<T> {
    Id(String),
    Object(T),
}

/// One variant of a tagged union, with the data it carries, if any.
#[derive(Debug, Clone, PartialEq, Eq, Hash)]
pub struct Variant {
    pub name: String,
    pub data: Option<VariantData>,
}

/// The data a variant carries: an inline struct or a reference to a type.
#[derive(Debug, Clone, PartialEq, Eq, Hash)]
pub enum VariantData {
    InlineStruct(StructConfig),
    DataStructureRef(FieldType),
}

/// How a field is stored as a graph edge. The generators here read none of
/// it; it is carried along with the field.
#[derive(Debug, Default, Clone, PartialEq, Eq, Hash)]
pub struct EdgeConfig {}

/// How a field is defined in the database schema: the options of its
/// `DEFINE FIELD` statement.
#[derive(Debug, Default, Clone, PartialEq, Eq, Hash)]
pub struct DefineConfig {
    /// Leave the type out of the statement.
    pub should_skip: bool,
    /// A SurrealDB type that replaces the one the field type gives.
    pub data_type: Option<String>,
    /// Whether the field is `FLEXIBLE`.
    pub flexible: Option<bool>,
    /// The default value.
    pub default: Option<String>,
    /// Set when the default applies `ALWAYS`.
    pub default_always: Option<String>,
    /// Whether the field is `READONLY`.
    pub readonly: Option<bool>,
    /// The `VALUE` expression.
    pub value: Option<String>,
    /// The `ASSERT` expression.
    pub assert: Option<String>,
    /// Who may select the field.
    pub select_permissions: Option<String>,
    /// Who may create the field.
    pub create_permissions: Option<String>,
    /// Who may update the field.
    pub update_permissions: Option<String>,
}

/// The model of a [`DefineConfig`].
pub struct DefineConfigV {
    pub should_skip: bool,
    pub data_type: Option<Seq<char>>,
    pub flexible: Option<bool>,
    pub default: Option<Seq<char>>,
    pub default_always: bool,
    pub readonly: Option<bool>,
    pub value: Option<Seq<char>>,
    pub assert: Option<Seq<char>>,
    pub select_permissions: Option<Seq<char>>,
    pub create_permissions: Option<Seq<char>>,
    pub update_permissions: Option<Seq<char>>,
}

impl View for DefineConfig {
    type V = DefineConfigV;

    open spec fn view(&self) -> DefineConfigV {
        DefineConfigV {
            should_skip: self.should_skip,
            data_type: opt_text(self.data_type),
            flexible: self.flexible,
            default: opt_text(self.default),
            default_always: self.default_always is Some,
            readonly: self.readonly,
            value: opt_text(self.value),
            assert: opt_text(self.assert),
            select_permissions: opt_text(self.select_permissions),
            create_permissions: opt_text(self.create_permissions),
            update_permissions: opt_text(self.update_permissions),
        }
    }
}

/// The format of mock data for a field. The generators here read none of
/// it; it is carried along with the field.
#[derive(Debug, Default, Clone, PartialEq, Eq, Hash)]
pub struct Format {}

/// A named field of a struct, with its type and validators.
#[derive(Debug, Default, Clone, PartialEq, Eq, Hash)]
pub struct StructField {
    pub field_name: String,
    pub field_type: FieldType,
    pub edge_config: Option<EdgeConfig>,
    pub define_config: Option<DefineConfig>,
    pub format: Option<Format>,
    pub validators: Vec<Validator>,
    pub always_regenerate: bool,
}

/// A Rust struct: its name, fields and struct-level validators.
#[derive(Debug, Clone, PartialEq, Eq, Hash)]
pub struct StructConfig {
    pub struct_name: String,
    pub fields: Vec<StructField>,
    pub validators: Vec<Validator>,
}

/// The model of a [`StructField`]. Its edge and format settings carry
/// nothing in this library, so the model keeps whether each is set.
pub struct StructFieldV {
    pub field_name: Seq<char>,
    pub field_type: FieldTypeV,
    pub has_edge_config: bool,
    pub define_config: Option<DefineConfigV>,
    pub has_format: bool,
    pub validators: Seq<ValidatorV>,
    pub always_regenerate: bool,
}

impl View for StructField {
    type V = StructFieldV;

    open spec fn view(&self) -> StructFieldV {
        StructFieldV {
            field_name: self.field_name@,
            field_type: self.field_type@,
            has_edge_config: self.edge_config is Some,
            define_config: match self.define_config {
                Some(d) => Some(d@),
                None => None,
            },
            has_format: self.format is Some,
            validators: validators_view(self.validators@),
            always_regenerate: self.always_regenerate,
        }
    }
}

/// The model of a [`StructConfig`].
pub struct StructConfigV {
    pub struct_name: Seq<char>,
    pub fields: Seq<StructFieldV>,
    pub validators: Seq<ValidatorV>,
}

impl View for StructConfig {
    type V = StructConfigV;

    open spec fn view(&self) -> StructConfigV {
        StructConfigV {
            struct_name: self.struct_name@,
            fields: self.fields@.map_values(|f: StructField| f@),
            validators: validators_view(self.validators@),
        }
    }
}

/// The model of a [`VariantData`].
pub enum VariantDataV {
    InlineStruct(StructConfigV),
    DataStructureRef(FieldTypeV),
}

impl View for VariantData {
    type V = VariantDataV;

    open spec fn view(&self) -> VariantDataV {
        match self {
            VariantData::InlineStruct(s) => VariantDataV::InlineStruct(s@),
            VariantData::DataStructureRef(t) => VariantDataV::DataStructureRef(t@),
        }
    }
}

/// The model of a [`Variant`].
pub struct VariantV {
    pub name: Seq<char>,
    pub data: Option<VariantDataV>,
}

impl View for Variant {
    type V = VariantV;

    open spec fn view(&self) -> VariantV {
        VariantV {
            name: self.name@,
            data: match self.data {
                Some(d) => Some(d@),
                None => None,
            },
        }
    }
}

/// The model of a [`TaggedUnion`].
pub struct TaggedUnionV {
    pub enum_name: Seq<char>,
    pub variants: Seq<VariantV>,
}

impl View for TaggedUnion {
    type V = TaggedUnionV;

    open spec fn view(&self) -> TaggedUnionV {
        TaggedUnionV {
            enum_name: self.enum_name@,
            variants: self.variants@.map_values(|v: Variant| v@),
        }
    }
}

impl StructField {
    /// A field of unit type, with nothing else set.
    pub fn unit(field_name: String) -> (r: StructField)
        ensures
            r.field_name@ == field_name@,
            r.field_type@ == FieldTypeV::Unit,
            r.edge_config is None,
            r.define_config is None,
            r.format is None,
            r.validators@.len() == 0,
            !r.always_regenerate,
    {
        StructField {
            field_name,
            field_type: FieldType::Unit,
            edge_config: None,
            define_config: None,
            format: None,
            validators: Vec::new(),
            always_regenerate: false,
        }
    }

    /// A field whose type is an inline struct with no fields yet.
    pub fn partial(field_name: &str) -> (r: StructField)
        ensures
            r.field_name@ == field_name@,
            r.field_type@ == FieldTypeV::Struct(Seq::empty()),
            r.edge_config is None,
            r.define_config is None,
            r.format is None,
            r.validators@.len() == 0,
            !r.always_regenerate,
    {
        let fields: Vec<(String, FieldType)> = Vec::new();
        proof {
            crate::types::field_type::lemma_struct_view(fields);
            assert(crate::types::field_type::named_views_of(fields@) =~= Seq::empty());
        }
        StructField {
            field_name: owned(field_name),
            field_type: FieldType::Struct(fields),
            edge_config: None,
            define_config: None,
            format: None,
            validators: Vec::new(),
            always_regenerate: false,
        }
    }
}

} // verus!
