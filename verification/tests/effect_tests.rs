use evenframe_core::named_map::NamedMap;
use evenframe_core::number::Number;
use evenframe_core::types::field_type::FieldType;
use evenframe_core::types::{StructConfig, StructField, TaggedUnion, Variant, VariantData};
use evenframe_core::typesync::effect::{
    apply_validators_to_schema, encoded_alias_for_enum, encoded_interface_for_struct,
    field_type_to_effect_schema, field_type_to_ts_encoded, generate_effect_schema_string,
};
use evenframe_core::validator::{ArrayValidator, NumberValidator, StringValidator, Validator};

#[test]
fn encoded_types_follow_the_field_types() {
    assert_eq!(field_type_to_ts_encoded(&FieldType::String), "string");
    assert_eq!(field_type_to_ts_encoded(&FieldType::U64), "number");
    assert_eq!(
        field_type_to_ts_encoded(&FieldType::Option(Box::new(FieldType::Vec(Box::new(FieldType::Bool))))),
        "ReadonlyArray<boolean> | null | undefined"
    );
    assert_eq!(
        field_type_to_ts_encoded(&FieldType::Tuple(vec![FieldType::Char, FieldType::Unit])),
        "readonly [string, null]"
    );
    assert_eq!(
        field_type_to_ts_encoded(&FieldType::HashMap(
            Box::new(FieldType::String),
            Box::new(FieldType::RecordLink(Box::new(FieldType::Other("user_profile".to_string()))))
        )),
        "Record<string, string | UserProfileEncoded>"
    );
    assert_eq!(
        field_type_to_ts_encoded(&FieldType::Struct(vec![("a".to_string(), FieldType::I8)])),
        "{\n  readonly a: number;\n}"
    );
}

#[test]
fn validators_become_pipes_with_titled_messages() {
    let validators = vec![
        Validator::StringValidator(StringValidator::MinLength(3)),
        Validator::StringValidator(StringValidator::Email),
        Validator::NumberValidator(NumberValidator::Between(
            Number::parse("1").unwrap(),
            Number::parse("2.50").unwrap(),
        )),
        Validator::ArrayValidator(ArrayValidator::MaxItems(4)),
        Validator::NumberValidator(NumberValidator::Uint8),
    ];
    let out = apply_validators_to_schema("Schema.String".to_string(), &validators, "user_name");
    assert_eq!(
        out,
        "Schema.String\
.pipe(Schema.minLength(3, { message: () => `User Name` must be at least 3 characters long` }))\
.pipe(Schema.between(1, 2.5, { message: () => `User Name` must be between 1 and 2.5` }))\
.pipe(Schema.maxItems(4, { message: () => `User Name` must contain at most 4 items` }))"
    );
    assert_eq!(apply_validators_to_schema("S".to_string(), &[], "x"), "S");
}

#[test]
fn recursive_references_not_yet_generated_are_suspended() {
    let mut structs = NamedMap::new();
    structs.insert(
        "node".to_string(),
        StructConfig { struct_name: "node".to_string(), fields: vec![], validators: vec![] },
    );
    let mut recursive = NamedMap::new();
    recursive.insert("Node".to_string(), true);
    recursive.insert("Kind".to_string(), true);
    let mut processed = NamedMap::new();
    let node = FieldType::Other("node".to_string());
    assert_eq!(
        field_type_to_effect_schema(&FieldType::Vec(Box::new(node.clone())), &structs, &recursive, &processed),
        "Schema.Array(Schema.suspend((): Schema.Schema<Node, NodeEncoded> => Node).annotations({ identifier: `NodeRef` }))"
    );
    assert_eq!(
        field_type_to_effect_schema(&FieldType::Other("kind".to_string()), &structs, &recursive, &processed),
        "Schema.suspend((): Schema.Schema<typeof Kind.Type, KindEncoded> => Kind).annotations({ identifier: `KindRef` })"
    );
    processed.insert("Node".to_string(), true);
    assert_eq!(
        field_type_to_effect_schema(&FieldType::Option(Box::new(node)), &structs, &recursive, &processed),
        "Schema.OptionFromNullishOr(Node, null)"
    );
    assert_eq!(
        field_type_to_effect_schema(
            &FieldType::Struct(vec![("n".to_string(), FieldType::I32), ("s".to_string(), FieldType::Char)]),
            &structs,
            &recursive,
            &processed
        ),
        "Schema.Struct({ n: Schema.Number, s: Schema.String.pipe(Schema.maxLength(1)) })"
    );
}

#[test]
fn encoded_interfaces_and_aliases() {
    let sc = StructConfig {
        struct_name: "user_account".to_string(),
        fields: vec![StructField {
            field_name: "display_name".to_string(),
            field_type: FieldType::String,
            ..Default::default()
        }],
        validators: vec![],
    };
    assert_eq!(
        encoded_interface_for_struct(&sc),
        "export interface UserAccountEncoded {\n  readonly displayName: string;\n}\n\n"
    );
    let en = TaggedUnion {
        enum_name: "shape".to_string(),
        variants: vec![
            Variant { name: "Empty".to_string(), data: None },
            Variant { name: "circle".to_string(), data: Some(VariantData::InlineStruct(sc.clone())) },
            Variant { name: "Size".to_string(), data: Some(VariantData::DataStructureRef(FieldType::F64)) },
        ],
    };
    assert_eq!(
        encoded_alias_for_enum(&en),
        "export type ShapeEncoded = \"Empty\" | CircleEncoded | number;\n\n"
    );
}

#[test]
fn effect_module_orders_classes_encoded_and_types() {
    let mut structs = NamedMap::new();
    structs.insert(
        "user".to_string(),
        StructConfig {
            struct_name: "user".to_string(),
            fields: vec![
                StructField { field_name: "name".to_string(), field_type: FieldType::String, ..Default::default() },
                StructField {
                    field_name: "nick_name".to_string(),
                    field_type: FieldType::Option(Box::new(FieldType::Bool)),
                    ..Default::default()
                },
            ],
            validators: vec![],
        },
    );
    let mut enums = NamedMap::new();
    enums.insert(
        "role".to_string(),
        TaggedUnion {
            enum_name: "role".to_string(),
            variants: vec![Variant { name: "Admin".to_string(), data: None }],
        },
    );
    // Role first, then User; "User" is listed twice and generated once.
    let components = vec![
        (vec!["Role".to_string()], false),
        (vec!["User".to_string(), "User".to_string()], false),
        (vec!["Missing".to_string()], false),
    ];
    let classes = [
        "export const Role = Schema.Union(Schema.Literal(\"Admin\")).annotations({ identifier: `Role` });\n",
        "export class User extends Schema.Class<User>(\"User\")( { \n",
        "  name: Schema.propertySignature(Schema.String.pipe(Schema.nonEmptyString({ message: () => `Please enter a value` }))).annotations({ missingMessage: () => `'Name' is required` }),\n",
        "  nickName: Schema.OptionFromNullishOr(Schema.Boolean, null)\n",
        "}) {[key: string]: unknown}\n\n",
    ]
    .concat();
    let encoded = "export type RoleEncoded = \"Admin\";\n\n\
export interface UserEncoded {\n  readonly name: string;\n  readonly nickName: boolean | null | undefined;\n}\n\n";
    let types = "export type RoleType = typeof Role.Type;\nexport type UserType = typeof User.Type;\n";
    assert_eq!(
        generate_effect_schema_string(&structs, &enums, &components, false),
        format!("{classes}\n{encoded}")
    );
    assert_eq!(
        generate_effect_schema_string(&structs, &enums, &components, true),
        format!("{classes}\n{encoded}\n{types}")
    );
}

#[test]
fn effect_module_suspends_inside_recursive_groups() {
    let mut structs = NamedMap::new();
    structs.insert(
        "node".to_string(),
        StructConfig {
            struct_name: "node".to_string(),
            fields: vec![StructField {
                field_name: "next".to_string(),
                field_type: FieldType::Option(Box::new(FieldType::Other("node".to_string()))),
                ..Default::default()
            }],
            validators: vec![],
        },
    );
    let enums = NamedMap::new();
    let out = generate_effect_schema_string(&structs, &enums, &vec![(vec!["Node".to_string()], true)], false);
    assert!(out.contains(
        "next: Schema.OptionFromNullishOr(Schema.suspend((): Schema.Schema<Node, NodeEncoded> => Node).annotations({ identifier: `NodeRef` }), null)"
    ));
    let flat = generate_effect_schema_string(&structs, &enums, &vec![(vec!["Node".to_string()], false)], false);
    assert!(flat.contains("next: Schema.OptionFromNullishOr(Node, null)"));
}

#[test]
fn string_pipes_are_closed() {
    let validators = vec![
        Validator::StringValidator(StringValidator::StartsWith("ab".to_string())),
        Validator::StringValidator(StringValidator::Lowercased),
        Validator::StringValidator(StringValidator::Trimmed),
    ];
    assert_eq!(
        apply_validators_to_schema("S".to_string(), &validators, "code"),
        "S.pipe(Schema.startsWith(\"ab\", { message: () => `Code` must start with \"ab\" }))\
.pipe(Schema.toLowerCase).pipe(Schema.trimmed)"
    );
}
