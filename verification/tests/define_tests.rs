use evenframe_core::named_map::NamedMap;
use evenframe_core::types::field_type::FieldType;
use evenframe_core::types::{DefineConfig, StructConfig, StructField, TaggedUnion, Variant, VariantData};

fn field(name: &str, t: FieldType) -> StructField {
    StructField { field_name: name.to_string(), field_type: t, ..Default::default() }
}

fn strukt(name: &str, fields: Vec<StructField>) -> StructConfig {
    StructConfig { struct_name: name.to_string(), fields, validators: vec![] }
}

fn define(f: &StructField) -> Result<String, String> {
    let mut structs = NamedMap::new();
    structs.insert(
        "Address".to_string(),
        strukt(
            "Address",
            vec![
                field("street", FieldType::String),
                field("zip", FieldType::Option(Box::new(FieldType::U32))),
            ],
        ),
    );
    structs.insert(
        "Node".to_string(),
        strukt("Node", vec![field("next", FieldType::Option(Box::new(FieldType::Other("Node".to_string()))))]),
    );
    structs.insert("Meta".to_string(), strukt("Meta", vec![field("a", FieldType::Bool)]));
    let mut enums = NamedMap::new();
    enums.insert(
        "Status".to_string(),
        TaggedUnion {
            enum_name: "Status".to_string(),
            variants: vec![
                Variant { name: "Active".to_string(), data: None },
                Variant { name: "Custom".to_string(), data: Some(VariantData::DataStructureRef(FieldType::String)) },
                Variant { name: "Info".to_string(), data: Some(VariantData::InlineStruct(strukt("Meta", vec![]))) },
            ],
        },
    );
    enums.insert(
        "Broken".to_string(),
        TaggedUnion {
            enum_name: "Broken".to_string(),
            variants: vec![Variant {
                name: "Ghost".to_string(),
                data: Some(VariantData::InlineStruct(strukt("Ghost", vec![]))),
            }],
        },
    );
    let tables = vec!["post".to_string(), "user".to_string()];
    f.generate_define_statement(&enums, &structs, &tables, "user", Some("NONE"))
}

#[test]
fn primitive_fields_get_their_types() {
    assert_eq!(define(&field("name", FieldType::String)).unwrap(), "DEFINE FIELD OVERWRITE name ON TABLE user TYPE string;\n");
    assert_eq!(define(&field("age", FieldType::U8)).unwrap(), "DEFINE FIELD OVERWRITE age ON TABLE user TYPE int;\n");
    assert_eq!(define(&field("score", FieldType::F64)).unwrap(), "DEFINE FIELD OVERWRITE score ON TABLE user TYPE float;\n");
    assert_eq!(define(&field("ok", FieldType::Bool)).unwrap(), "DEFINE FIELD OVERWRITE ok ON TABLE user TYPE bool;\n");
    assert_eq!(define(&field("nothing", FieldType::Unit)).unwrap(), "DEFINE FIELD OVERWRITE nothing ON TABLE user TYPE any;\n");
}

#[test]
fn containers_nest() {
    assert_eq!(
        define(&field("tags", FieldType::Option(Box::new(FieldType::Vec(Box::new(FieldType::Char)))))).unwrap(),
        "DEFINE FIELD OVERWRITE tags ON TABLE user TYPE null | array<string>;\n"
    );
    assert_eq!(
        define(&field("pair", FieldType::Tuple(vec![FieldType::String, FieldType::F32]))).unwrap(),
        "DEFINE FIELD OVERWRITE pair ON TABLE user TYPE [string, float];\n"
    );
    assert_eq!(
        define(&field("point", FieldType::Struct(vec![("x".to_string(), FieldType::I8), ("y".to_string(), FieldType::I8)])))
            .unwrap(),
        "DEFINE FIELD OVERWRITE point ON TABLE user TYPE { x: int, y: int };\n"
    );
}

#[test]
fn maps_get_a_wildcard_definition() {
    assert_eq!(
        define(&field(
            "scores",
            FieldType::HashMap(Box::new(FieldType::String), Box::new(FieldType::Vec(Box::new(FieldType::I32))))
        ))
        .unwrap(),
        "DEFINE FIELD OVERWRITE scores ON TABLE user TYPE object;\nDEFINE FIELD scores.* ON TABLE user TYPE array<int>;\n"
    );
    // An optional map keeps its wildcard; a list of maps does not.
    assert_eq!(
        define(&field(
            "extra",
            FieldType::Option(Box::new(FieldType::BTreeMap(Box::new(FieldType::String), Box::new(FieldType::Bool))))
        ))
        .unwrap(),
        "DEFINE FIELD OVERWRITE extra ON TABLE user TYPE null | object;\nDEFINE FIELD extra.* ON TABLE user TYPE bool;\n"
    );
    assert_eq!(
        define(&field(
            "many",
            FieldType::Vec(Box::new(FieldType::HashMap(Box::new(FieldType::String), Box::new(FieldType::Bool))))
        ))
        .unwrap(),
        "DEFINE FIELD OVERWRITE many ON TABLE user TYPE array<object>;\n"
    );
}

#[test]
fn named_types_expand_or_link() {
    assert_eq!(
        define(&field("home", FieldType::Other("Address".to_string()))).unwrap(),
        "DEFINE FIELD OVERWRITE home ON TABLE user TYPE { street: string, zip: null | int };\n"
    );
    assert_eq!(
        define(&field("head", FieldType::Other("Node".to_string()))).unwrap(),
        "DEFINE FIELD OVERWRITE head ON TABLE user TYPE { next: null | object };\n"
    );
    assert_eq!(
        define(&field("status", FieldType::Other("Status".to_string()))).unwrap(),
        "DEFINE FIELD OVERWRITE status ON TABLE user TYPE \"Active\" | string | { a: bool };\n"
    );
    assert_eq!(
        define(&field("post", FieldType::Other("Post".to_string()))).unwrap(),
        "DEFINE FIELD OVERWRITE post ON TABLE user TYPE record<post>;\n"
    );
    assert_eq!(
        define(&field("author", FieldType::RecordLink(Box::new(FieldType::Other("UserProfile".to_string()))))).unwrap(),
        "DEFINE FIELD OVERWRITE author ON TABLE user TYPE record<user_profile>;\n"
    );
    assert_eq!(
        define(&field("thing", FieldType::Other("Mystery".to_string()))).unwrap(),
        "DEFINE FIELD OVERWRITE thing ON TABLE user TYPE Mystery;\n"
    );
}

#[test]
fn missing_inline_struct_is_refused() {
    assert_eq!(
        define(&field("broken", FieldType::Other("Broken".to_string()))),
        Err("Inline enum struct 'Ghost' should have corresponding object definition".to_string())
    );
}

#[test]
fn define_configuration_options_are_written() {
    let mut f = field("email", FieldType::String);
    f.define_config = Some(DefineConfig {
        flexible: Some(true),
        default: Some("''".to_string()),
        default_always: Some("true".to_string()),
        readonly: Some(true),
        value: Some("string::lowercase($value)".to_string()),
        assert: Some("string::is::email($value)".to_string()),
        select_permissions: Some("FULL".to_string()),
        update_permissions: Some("WHERE id = $auth.id".to_string()),
        ..Default::default()
    });
    assert_eq!(
        define(&f).unwrap(),
        "DEFINE FIELD OVERWRITE email ON TABLE user FLEXIBLE TYPE string DEFAULT ALWAYS '' READONLY \
VALUE string::lowercase($value) ASSERT string::is::email($value) PERMISSIONS FOR select FULL FOR update WHERE id = $auth.id;\n"
    );
}

#[test]
fn define_configuration_can_replace_or_skip_the_type() {
    let mut f = field("tags", FieldType::HashMap(Box::new(FieldType::String), Box::new(FieldType::Bool)));
    f.define_config = Some(DefineConfig { data_type: Some("set<string>".to_string()), default: Some("[]".to_string()), ..Default::default() });
    assert_eq!(define(&f).unwrap(), "DEFINE FIELD OVERWRITE tags ON TABLE user TYPE set<string> DEFAULT [];\n");
    f.define_config = Some(DefineConfig { should_skip: true, data_type: Some("ignored".to_string()), ..Default::default() });
    assert_eq!(define(&f).unwrap(), "DEFINE FIELD OVERWRITE tags ON TABLE user DEFAULT NONE;\n");
}

#[test]
fn missing_default_without_computed_one_is_refused() {
    let mut f = field("name", FieldType::String);
    f.define_config = Some(DefineConfig::default());
    assert_eq!(
        f.generate_define_statement(&NamedMap::new(), &NamedMap::new(), &vec![], "user", None),
        Err("field `name` has a define configuration without a default, and no computed default was given".to_string())
    );
    assert_eq!(
        f.generate_define_statement(&NamedMap::new(), &NamedMap::new(), &vec![], "user", Some("''")),
        Ok("DEFINE FIELD OVERWRITE name ON TABLE user TYPE string DEFAULT '';\n".to_string())
    );
}
