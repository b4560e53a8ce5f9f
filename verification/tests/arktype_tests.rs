use evenframe_core::config::ForeignTypeConfig;
use evenframe_core::named_map::NamedMap;
use evenframe_core::types::field_type::FieldType;
use evenframe_core::types::foreign_type_registry::ForeignTypeRegistry;
use evenframe_core::types::{StructConfig, StructField, TaggedUnion, Variant, VariantData};
use evenframe_core::typesync::arktype::{field_type_to_arktype, generate_arktype_type_string};
use evenframe_core::typesync::config::{OutputKind, TypesyncOutput};
use evenframe_core::typesync::output::{single_file_content, OutputTypes};

fn date_registry() -> ForeignTypeRegistry {
    let mut foreign_types = NamedMap::new();
    foreign_types.insert(
        "DateTime".to_string(),
        ForeignTypeConfig {
            rust_type_names: vec!["DateTime".to_string()],
            arktype: "'string.date.iso'".to_string(),
            ..Default::default()
        },
    );
    foreign_types.insert(
        "Decimal".to_string(),
        ForeignTypeConfig { rust_type_names: vec!["Decimal".to_string()], ..Default::default() },
    );
    ForeignTypeRegistry::from_config(&foreign_types)
}

fn other(name: &str) -> FieldType {
    FieldType::Other(name.to_string())
}

#[test]
fn arktype_definitions_follow_the_field_types() {
    let structs: NamedMap<StructConfig> = NamedMap::new();
    let enums: NamedMap<TaggedUnion> = NamedMap::new();
    let registry = ForeignTypeRegistry::empty();
    let ark = |t: &FieldType| field_type_to_arktype(t, &structs, &enums, &registry);
    assert_eq!(ark(&FieldType::String), "'string'");
    assert_eq!(ark(&FieldType::Char), "'string'");
    assert_eq!(ark(&FieldType::Bool), "'boolean'");
    assert_eq!(ark(&FieldType::Unit), "'null'");
    assert_eq!(ark(&FieldType::I128), "'number'");
    assert_eq!(ark(&FieldType::F64), "'number'");
    assert_eq!(
        ark(&FieldType::Option(Box::new(FieldType::Vec(Box::new(FieldType::Bool))))),
        "[[['boolean', '[]'], '|', 'undefined'], '|', 'null']"
    );
    assert_eq!(ark(&FieldType::Tuple(vec![FieldType::Char, FieldType::U8])), "['string', 'number']");
    assert_eq!(
        ark(&FieldType::Struct(vec![("a".to_string(), FieldType::I8), ("b".to_string(), FieldType::Bool)])),
        "{ a: 'number', b: 'boolean' }"
    );
    assert_eq!(
        ark(&FieldType::BTreeMap(Box::new(FieldType::String), Box::new(other("address")))),
        "'Record<string, address>'"
    );
    assert_eq!(ark(&FieldType::RecordLink(Box::new(other("address")))), "['address', \"|\",  \"string\"]");
}

#[test]
fn foreign_types_take_their_configured_arktype() {
    let structs: NamedMap<StructConfig> = NamedMap::new();
    let enums: NamedMap<TaggedUnion> = NamedMap::new();
    let registry = date_registry();
    assert_eq!(field_type_to_arktype(&other("DateTime"), &structs, &enums, &registry), "'string.date.iso'");
    // A foreign type without an ArkType type is written by its name.
    assert_eq!(field_type_to_arktype(&other("Decimal"), &structs, &enums, &registry), "'decimal'");
    assert_eq!(
        field_type_to_arktype(
            &FieldType::HashMap(Box::new(FieldType::String), Box::new(other("DateTime"))),
            &structs,
            &enums,
            &registry
        ),
        "'Record<string, string.date.iso>'"
    );
}

fn event_types() -> (NamedMap<StructConfig>, NamedMap<TaggedUnion>, NamedMap<Vec<String>>) {
    let mut structs = NamedMap::new();
    structs.insert(
        "event".to_string(),
        StructConfig {
            struct_name: "event".to_string(),
            fields: vec![
                StructField { field_name: "starts_at".to_string(), field_type: other("DateTime"), ..Default::default() },
                StructField { field_name: "count".to_string(), field_type: FieldType::U32, ..Default::default() },
            ],
            validators: vec![],
        },
    );
    let mut enums = NamedMap::new();
    enums.insert(
        "status".to_string(),
        TaggedUnion {
            enum_name: "status".to_string(),
            variants: vec![
                Variant { name: "Active".to_string(), data: None },
                Variant { name: "Paused".to_string(), data: Some(VariantData::DataStructureRef(FieldType::String)) },
                Variant {
                    name: "Moved".to_string(),
                    data: Some(VariantData::InlineStruct(StructConfig {
                        struct_name: "place".to_string(),
                        fields: vec![],
                        validators: vec![],
                    })),
                },
            ],
        },
    );
    let mut defaults = NamedMap::new();
    defaults.insert("event".to_string(), vec!["''".to_string(), "0".to_string()]);
    (structs, enums, defaults)
}

const EVENT_SCOPE: &str = "export const bindings = scope({\n\n\
Status: [[['===', 'Active'], '|', { Paused: 'string' }], '|', { Moved: 'place' }],\n\
Event: {\n  startsAt: 'string.date.iso',\n  count: 'number'\n},\n\
\n});\n\n";

const EVENT_DEFAULTS: &str = "export const defaultEvent: Event = {\nstartsAt: '',\ncount: 0\n};\n";

#[test]
fn the_module_binds_unions_then_structs_with_defaults() {
    let (structs, enums, defaults) = event_types();
    let registry = date_registry();
    let out = generate_arktype_type_string(&structs, &enums, &defaults, false, &registry);
    assert_eq!(out, format!("{EVENT_SCOPE}\n{EVENT_DEFAULTS}"));
    let typed = generate_arktype_type_string(&structs, &enums, &defaults, true, &registry);
    assert_eq!(
        typed,
        format!(
            "{EVENT_SCOPE}\n{EVENT_DEFAULTS}\n\
export type Status = typeof bindings.Status.infer;\n\
export type Event = typeof bindings.Event.infer;\n"
        )
    );
}

#[test]
fn an_empty_module_has_an_empty_scope() {
    let structs: NamedMap<StructConfig> = NamedMap::new();
    let enums: NamedMap<TaggedUnion> = NamedMap::new();
    let defaults: NamedMap<Vec<String>> = NamedMap::new();
    let registry = ForeignTypeRegistry::empty();
    assert_eq!(
        generate_arktype_type_string(&structs, &enums, &defaults, true, &registry),
        "export const bindings = scope({\n\n\n});\n\n\n\n"
    );
}

#[test]
fn arktype_outputs_are_written_when_the_defaults_are_given() {
    let (structs, enums, defaults) = event_types();
    let registry = date_registry();
    let output = TypesyncOutput::new(OutputKind::Arktype, "g");

    let without = OutputTypes { structs: &structs, enums: &enums, registry: &registry, components: None, defaults: None };
    assert_eq!(
        single_file_content(&output, &without).unwrap_err(),
        "this evenframe cannot write `arktype` outputs: their generator, or an analysis it needs (type dependencies, default values), is not part of this build"
    );

    let partial: NamedMap<Vec<String>> = NamedMap::new();
    let short = OutputTypes { structs: &structs, enums: &enums, registry: &registry, components: None, defaults: Some(&partial) };
    assert!(single_file_content(&output, &short).is_err());

    let with = OutputTypes { structs: &structs, enums: &enums, registry: &registry, components: None, defaults: Some(&defaults) };
    assert_eq!(
        single_file_content(&output, &with).unwrap(),
        format!(
            "import {{ scope }} from 'arktype';\n\n{EVENT_SCOPE}\n{EVENT_DEFAULTS}\n\n export const validator = scope({{\n  ...bindings.export(),\n}}).export();"
        )
    );
}
