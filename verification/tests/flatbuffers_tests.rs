use evenframe_core::named_map::NamedMap;
use evenframe_core::number::Number;
use evenframe_core::types::field_type::FieldType;
use evenframe_core::types::{StructConfig, StructField, TaggedUnion, Variant};
use evenframe_core::typesync::flatbuffers;
use evenframe_core::typesync::flatbuffers::{
    capitalize_fbs_type, escape_for_fbs, field_type_to_flatbuffers,
    generate_flatbuffers_schema_string, validator_to_flatbuffers_string,
};
use evenframe_core::validator::{
    ArrayValidator, BigIntValidator, DateValidator, DurationValidator, NumberValidator,
    StringValidator, Validator,
};

fn num(text: &str) -> Number {
    Number::parse(text).unwrap()
}

#[test]
fn test_string_validators_to_flatbuffers() {
    assert_eq!(
        validator_to_flatbuffers_string(&Validator::StringValidator(StringValidator::Email)),
        Some("email".to_string())
    );
    assert_eq!(
        validator_to_flatbuffers_string(&Validator::StringValidator(
            StringValidator::MinLength(8)
        )),
        Some("minLength(8)".to_string())
    );
    assert_eq!(
        validator_to_flatbuffers_string(&Validator::StringValidator(
            StringValidator::MaxLength(50)
        )),
        Some("maxLength(50)".to_string())
    );
    assert_eq!(
        validator_to_flatbuffers_string(&Validator::StringValidator(StringValidator::Uuid)),
        Some("uuid".to_string())
    );
}

#[test]
fn test_transformation_validators_included() {
    // Unlike macroforge, transformations ARE included in FlatBuffers
    assert_eq!(
        validator_to_flatbuffers_string(&Validator::StringValidator(StringValidator::Lower)),
        Some("lower".to_string())
    );
    assert_eq!(
        validator_to_flatbuffers_string(&Validator::StringValidator(StringValidator::Upper)),
        Some("upper".to_string())
    );
    assert_eq!(
        validator_to_flatbuffers_string(&Validator::StringValidator(StringValidator::Trim)),
        Some("trim".to_string())
    );
    assert_eq!(
        validator_to_flatbuffers_string(&Validator::StringValidator(
            StringValidator::Capitalize
        )),
        Some("capitalize".to_string())
    );
}

#[test]
fn test_number_validators_to_flatbuffers() {
    assert_eq!(
        validator_to_flatbuffers_string(&Validator::NumberValidator(NumberValidator::Int)),
        Some("int".to_string())
    );
    assert_eq!(
        validator_to_flatbuffers_string(&Validator::NumberValidator(NumberValidator::Between(
            num("18.0"),
            num("120.0")
        ))),
        Some("between(18, 120)".to_string())
    );
    assert_eq!(
        validator_to_flatbuffers_string(&Validator::NumberValidator(NumberValidator::Positive)),
        Some("positive".to_string())
    );
}

#[test]
fn test_array_validators_to_flatbuffers() {
    assert_eq!(
        validator_to_flatbuffers_string(&Validator::ArrayValidator(ArrayValidator::MinItems(1))),
        Some("minItems(1)".to_string())
    );
    assert_eq!(
        validator_to_flatbuffers_string(&Validator::ArrayValidator(ArrayValidator::MaxItems(5))),
        Some("maxItems(5)".to_string())
    );
    assert_eq!(
        validator_to_flatbuffers_string(&Validator::ArrayValidator(ArrayValidator::ItemsCount(
            3
        ))),
        Some("itemsCount(3)".to_string())
    );
}

#[test]
fn test_field_type_to_flatbuffers() {
    assert_eq!(field_type_to_flatbuffers(&FieldType::String), "string");
    assert_eq!(field_type_to_flatbuffers(&FieldType::Bool), "bool");
    assert_eq!(field_type_to_flatbuffers(&FieldType::I8), "int8");
    assert_eq!(field_type_to_flatbuffers(&FieldType::I16), "int16");
    assert_eq!(field_type_to_flatbuffers(&FieldType::I32), "int32");
    assert_eq!(field_type_to_flatbuffers(&FieldType::I64), "int64");
    assert_eq!(field_type_to_flatbuffers(&FieldType::U8), "uint8");
    assert_eq!(field_type_to_flatbuffers(&FieldType::U16), "uint16");
    assert_eq!(field_type_to_flatbuffers(&FieldType::U32), "uint32");
    assert_eq!(field_type_to_flatbuffers(&FieldType::U64), "uint64");
    assert_eq!(field_type_to_flatbuffers(&FieldType::F32), "float");
    assert_eq!(field_type_to_flatbuffers(&FieldType::F64), "double");
}

#[test]
fn test_field_type_vec_to_flatbuffers() {
    assert_eq!(
        field_type_to_flatbuffers(&FieldType::Vec(Box::new(FieldType::String))),
        "[string]"
    );
    assert_eq!(
        field_type_to_flatbuffers(&FieldType::Vec(Box::new(FieldType::I32))),
        "[int32]"
    );
}

#[test]
fn test_field_type_option_to_flatbuffers() {
    // Option just unwraps to inner type since FlatBuffers fields are optional by default
    assert_eq!(
        field_type_to_flatbuffers(&FieldType::Option(Box::new(FieldType::String))),
        "string"
    );
}

#[test]
fn test_field_type_other_to_flatbuffers() {
    assert_eq!(
        field_type_to_flatbuffers(&FieldType::Other("UserProfile".to_string())),
        "UserProfile"
    );
    assert_eq!(
        field_type_to_flatbuffers(&FieldType::Other("user_profile".to_string())),
        "UserProfile"
    );
}

#[test]
fn test_collect_validators_for_field() {
    let validators = vec![
        Validator::StringValidator(StringValidator::Email),
        Validator::StringValidator(StringValidator::MinLength(5)),
    ];
    assert_eq!(
        flatbuffers::collect_validators_for_field(&validators),
        "email, minLength(5)"
    );
}

#[test]
fn test_collect_validators_empty() {
    let validators: Vec<Validator> = vec![];
    assert_eq!(flatbuffers::collect_validators_for_field(&validators), "");
}

#[test]
fn test_generate_simple_table() {
    let mut structs = NamedMap::new();
    structs.insert(
        "user".to_string(),
        StructConfig {
            struct_name: "user".to_string(),
            fields: vec![
                StructField {
                    field_name: "email".to_string(),
                    field_type: FieldType::String,
                    validators: vec![Validator::StringValidator(StringValidator::Email)],
                    ..Default::default()
                },
                StructField {
                    field_name: "age".to_string(),
                    field_type: FieldType::I32,
                    validators: vec![Validator::NumberValidator(NumberValidator::Between(
                        num("18.0"),
                        num("120.0"),
                    ))],
                    ..Default::default()
                },
            ],
            validators: vec![],
        },
    );

    let output = generate_flatbuffers_schema_string(&structs, &NamedMap::new(), None);

    assert!(output.contains("table User"));
    assert!(output.contains("email: string (validate: \"email\")"));
    assert!(output.contains("age: int32 (validate: \"between(18, 120)\")"));
}

#[test]
fn test_generate_table_with_namespace() {
    let output = generate_flatbuffers_schema_string(
        &NamedMap::new(),
        &NamedMap::new(),
        Some("com.example.app"),
    );
    assert!(output.starts_with("namespace com.example.app;"));
}

#[test]
fn test_generate_simple_enum() {
    let mut enums = NamedMap::new();
    enums.insert(
        "Status".to_string(),
        TaggedUnion {
            enum_name: "Status".to_string(),
            variants: vec![
                Variant {
                    name: "Active".to_string(),
                    data: None,
                },
                Variant {
                    name: "Inactive".to_string(),
                    data: None,
                },
                Variant {
                    name: "Pending".to_string(),
                    data: None,
                },
            ],
        },
    );

    let output = generate_flatbuffers_schema_string(&NamedMap::new(), &enums, None);

    assert!(output.contains("enum Status : byte"));
    assert!(output.contains("Active = 0"));
    assert!(output.contains("Inactive = 1"));
    assert!(output.contains("Pending = 2"));
}

#[test]
fn test_generate_complete_schema() {
    let mut structs = NamedMap::new();
    structs.insert(
        "user_registration_form".to_string(),
        StructConfig {
            struct_name: "user_registration_form".to_string(),
            fields: vec![
                StructField {
                    field_name: "email".to_string(),
                    field_type: FieldType::String,
                    validators: vec![
                        Validator::StringValidator(StringValidator::Email),
                        Validator::StringValidator(StringValidator::NonEmpty),
                    ],
                    ..Default::default()
                },
                StructField {
                    field_name: "password".to_string(),
                    field_type: FieldType::String,
                    validators: vec![
                        Validator::StringValidator(StringValidator::MinLength(8)),
                        Validator::StringValidator(StringValidator::MaxLength(50)),
                    ],
                    ..Default::default()
                },
                StructField {
                    field_name: "age".to_string(),
                    field_type: FieldType::I32,
                    validators: vec![
                        Validator::NumberValidator(NumberValidator::Int),
                        Validator::NumberValidator(NumberValidator::Between(
                            num("18.0"),
                            num("120.0"),
                        )),
                    ],
                    ..Default::default()
                },
                StructField {
                    field_name: "tags".to_string(),
                    field_type: FieldType::Vec(Box::new(FieldType::String)),
                    validators: vec![],
                    ..Default::default()
                },
            ],
            validators: vec![],
        },
    );

    let mut enums = NamedMap::new();
    enums.insert(
        "Role".to_string(),
        TaggedUnion {
            enum_name: "Role".to_string(),
            variants: vec![
                Variant {
                    name: "Admin".to_string(),
                    data: None,
                },
                Variant {
                    name: "User".to_string(),
                    data: None,
                },
            ],
        },
    );

    let output =
        generate_flatbuffers_schema_string(&structs, &enums, Some("com.example.users"));

    // Check namespace
    assert!(output.contains("namespace com.example.users;"));

    // Check enum
    assert!(output.contains("enum Role : byte"));
    assert!(output.contains("Admin = 0"));
    assert!(output.contains("User = 1"));

    // Check table
    assert!(output.contains("table UserRegistrationForm"));
    assert!(output.contains("email: string (validate: \"email, nonEmpty\")"));
    assert!(output.contains("password: string (validate: \"minLength(8), maxLength(50)\")"));
    assert!(output.contains("age: int32 (validate: \"int, between(18, 120)\")"));
    assert!(output.contains("tags: [string];"));
}

#[test]
fn test_date_validator_to_flatbuffers() {
    assert_eq!(
        validator_to_flatbuffers_string(&Validator::DateValidator(DateValidator::ValidDate)),
        Some("validDate".to_string())
    );
    assert_eq!(
        validator_to_flatbuffers_string(&Validator::DateValidator(
            DateValidator::GreaterThanDate("2024-01-01".to_string())
        )),
        Some("greaterThanDate(\\\"2024-01-01\\\")".to_string())
    );
}

#[test]
fn test_bigint_validator_to_flatbuffers() {
    assert_eq!(
        validator_to_flatbuffers_string(&Validator::BigIntValidator(
            BigIntValidator::PositiveBigInt
        )),
        Some("positiveBigInt".to_string())
    );
    assert_eq!(
        validator_to_flatbuffers_string(&Validator::BigIntValidator(
            BigIntValidator::GreaterThanBigInt("1000000".to_string())
        )),
        Some("greaterThanBigInt(\\\"1000000\\\")".to_string())
    );
}

#[test]
fn test_duration_validator_to_flatbuffers() {
    assert_eq!(
        validator_to_flatbuffers_string(&Validator::DurationValidator(
            DurationValidator::GreaterThanDuration("1h".to_string())
        )),
        Some("greaterThanDuration(\\\"1h\\\")".to_string())
    );
    assert_eq!(
        validator_to_flatbuffers_string(&Validator::DurationValidator(
            DurationValidator::BetweenDuration("1m".to_string(), "1h".to_string())
        )),
        Some("betweenDuration(\\\"1m\\\", \\\"1h\\\")".to_string())
    );
}

#[test]
fn test_escape_for_fbs() {
    assert_eq!(escape_for_fbs("hello"), "hello");
    assert_eq!(escape_for_fbs("hello\"world"), "hello\\\"world");
    assert_eq!(escape_for_fbs("path\\to\\file"), "path\\\\to\\\\file");
}

#[test]
fn test_capitalize_fbs_type() {
    assert_eq!(capitalize_fbs_type("string"), "String");
    assert_eq!(capitalize_fbs_type("int32"), "Int32");
    assert_eq!(capitalize_fbs_type("uint64"), "Uint64");
    assert_eq!(capitalize_fbs_type("MyCustomType"), "MyCustomType");
}

#[test]
fn string_validators_keep_their_text_except_embedded_schemas() {
    use_string_validators();
}

fn use_string_validators() {
    use_sv(evenframe_core::validator::StringValidator::Lower, Some("lower"));
    use_sv(evenframe_core::validator::StringValidator::Trim, Some("trim"));
    use_sv(evenframe_core::validator::StringValidator::Capitalize, Some("capitalize"));
    use_sv(evenframe_core::validator::StringValidator::Email, Some("email"));
    use_sv(evenframe_core::validator::StringValidator::MinLength(8), Some("minLength(8)"));
    use_sv(evenframe_core::validator::StringValidator::Uuid, Some("uuid"));
    use_sv(evenframe_core::validator::StringValidator::StringEmbedded("x".to_string()), None);
}

fn use_sv(v: evenframe_core::validator::StringValidator, expected: Option<&str>) {
    assert_eq!(flatbuffers::string_validator_to_flatbuffers(&v).as_deref(), expected);
}
