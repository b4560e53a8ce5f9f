use evenframe_core::config::ForeignTypeConfig;
use evenframe_core::named_map::NamedMap;
use evenframe_core::number::Number;
use evenframe_core::types::field_type::FieldType;
use evenframe_core::types::foreign_type_registry::ForeignTypeRegistry;
use evenframe_core::typesync::config::FileNamingConvention;
use evenframe_core::typesync::flatbuffers_parser::lexer::tokenize;
use evenframe_core::typesync::flatbuffers_parser::parser::parse;
use evenframe_core::typesync::flatbuffers_parser::validator_extractor::parse_validators;
use evenframe_core::typesync::flatbuffers_parser::{parse_flatbuffers_source, FlatBuffersError};
use evenframe_core::typesync::import_resolver::{barrel_filename, import_specifier_suffix, type_name_to_filename};
use evenframe_core::typesync::macroforge::{
    build_serde_annotation, collect_serde_format, escape_for_jsdoc, format_derive_line,
};
use evenframe_core::validator::{NumberValidator, StringValidator, Validator};

fn registry_with_format() -> ForeignTypeRegistry {
    let mut foreign_types = NamedMap::new();
    foreign_types.insert(
        "DateTime".to_string(),
        ForeignTypeConfig {
            rust_type_names: vec!["DateTime".to_string()],
            serde_format: "date-time".to_string(),
            ..Default::default()
        },
    );
    foreign_types.insert(
        "Plain".to_string(),
        ForeignTypeConfig {
            rust_type_names: vec!["Plain".to_string()],
            ..Default::default()
        },
    );
    ForeignTypeRegistry::from_config(&foreign_types)
}

#[test]
fn derive_line_falls_back_to_deserialize() {
    assert_eq!(format_derive_line(&vec![]), "/** @derive(Deserialize) */");
    assert_eq!(
        format_derive_line(&vec!["Serialize".to_string(), "Debug".to_string()]),
        "/** @derive(Serialize, Debug) */"
    );
}

#[test]
fn serde_format_comes_from_the_foreign_type() {
    let registry = registry_with_format();
    assert_eq!(
        collect_serde_format(&FieldType::Other("DateTime".to_string()), &registry),
        Some("/** @serde({ format: \"date-time\" }) */".to_string())
    );
    assert_eq!(collect_serde_format(&FieldType::Other("Plain".to_string()), &registry), None);
    assert_eq!(collect_serde_format(&FieldType::String, &registry), None);
}

#[test]
fn serde_annotation_puts_validate_before_format() {
    let registry = registry_with_format();
    let date = FieldType::Other("DateTime".to_string());
    assert_eq!(
        build_serde_annotation("\"nonEmpty\"", &date, &registry),
        (
            "/** @serde({ validate: [\"nonEmpty\"] }) */\n/** @serde({ format: \"date-time\" }) */".to_string(),
            false
        )
    );
    assert_eq!(
        build_serde_annotation("", &date, &registry),
        ("/** @serde({ format: \"date-time\" }) */".to_string(), false)
    );
    let link = FieldType::RecordLink(Box::new(FieldType::Other("User".to_string())));
    assert_eq!(
        build_serde_annotation("\"x\"", &link, &registry),
        ("/** @serde({ validate: [\"x\"] }) */".to_string(), true)
    );
    assert_eq!(build_serde_annotation("", &link, &registry), (String::new(), false));
}

#[test]
fn jsdoc_escape_handles_backslash_and_quote() {
    assert_eq!(escape_for_jsdoc(r#"a\b"c"#), r#"a\\b\"c"#);
}

#[test]
fn field_types_display_by_variant() {
    let ft = FieldType::HashMap(
        Box::new(FieldType::String),
        Box::new(FieldType::Option(Box::new(FieldType::I64))),
    );
    assert_eq!(ft.to_string(), "HashMap(String, Option(I64))");
    assert_eq!(
        FieldType::Struct(vec![("a".to_string(), FieldType::Unit)]).to_string(),
        "Struct(a: Unit)"
    );
    assert_eq!(FieldType::Other("User".to_string()).to_string(), "User");
    assert_eq!(ft.canonical_name(), "HashMap<String, Option<i64>>");
}

#[test]
fn type_text_is_read_ignoring_white_space() {
    assert_eq!(
        FieldType::parse_type_str("Option < Vec<i32> >"),
        FieldType::Option(Box::new(FieldType::Vec(Box::new(FieldType::I32))))
    );
    assert_eq!(
        FieldType::parse_type_str("(String, i32)"),
        FieldType::Tuple(vec![FieldType::String, FieldType::I32])
    );
    // A `<` anywhere makes the text a generic: its base is all before the
    // first `<`.
    assert_eq!(
        FieldType::parse_type_str("(String, HashMap<K, V>)"),
        FieldType::Other("(String,HashMap".to_string())
    );
    assert_eq!(FieldType::parse_type_str("Box<bool>"), FieldType::Bool);
    assert_eq!(FieldType::parse_type_str("()"), FieldType::Unit);
}

#[test]
fn numbers_are_kept_in_plain_notation() {
    assert_eq!(Number::parse("18.0").unwrap().text(), "18");
    assert_eq!(Number::parse("-0.50").unwrap().text(), "-0.5");
    assert_eq!(Number::parse("1e3").unwrap().text(), "1000");
    assert_eq!(Number::parse("1.5E-2").unwrap().text(), "0.015");
    assert_eq!(Number::parse("+7").unwrap().text(), "7");
    assert_eq!(Number::parse("Infinity").unwrap().text(), "inf");
    assert_eq!(Number::parse("nan").unwrap().text(), "NaN");
    assert!(Number::parse("1.2.3").is_none());
    assert!(Number::parse("").is_none());
}

#[test]
fn validator_names_are_read_in_any_case() {
    let validators = parse_validators("MinLength(3), EMAIL, non_empty");
    assert_eq!(
        validators,
        vec![
            Validator::StringValidator(StringValidator::MinLength(3)),
            Validator::StringValidator(StringValidator::Email),
            Validator::StringValidator(StringValidator::NonEmpty),
        ]
    );
    let between = parse_validators("between(1.50, 2e1)");
    assert_eq!(
        between,
        vec![Validator::NumberValidator(NumberValidator::Between(
            Number::parse("1.5").unwrap(),
            Number::parse("20").unwrap()
        ))]
    );
}

#[test]
fn file_names_follow_the_naming_convention() {
    assert_eq!(type_name_to_filename("userProfile", FileNamingConvention::Snake), "user_profile");
    assert_eq!(import_specifier_suffix(".ts"), "");
    assert_eq!(barrel_filename(".ts"), "index.ts");
}

#[test]
fn a_bad_schema_is_a_parse_error() {
    assert!(parse("table { }").is_err());
    match parse_flatbuffers_source("table T { x: ; }") {
        Err(FlatBuffersError::Parse(e)) => assert!(!e.message.is_empty()),
        other => panic!("expected a parse error, got {other:?}"),
    }
}

#[test]
fn an_unterminated_string_is_a_lex_error() {
    let err = tokenize("table T (validate: \"email) {}").unwrap_err();
    assert!(err.span.start < err.span.end);
    assert!(!err.message.is_empty());
}
