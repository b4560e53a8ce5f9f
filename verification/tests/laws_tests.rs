use evenframe_core::config::ForeignTypeConfig;
use evenframe_core::named_map::NamedMap;
use evenframe_core::types::field_type::FieldType;
use evenframe_core::types::foreign_type_registry::ForeignTypeRegistry;
use evenframe_core::typesync::doc_comment::format_jsdoc;
use evenframe_core::typesync::flatbuffers_parser::lexer::tokenize;
use evenframe_core::typesync::flatbuffers_parser::{
    parse_flatbuffers_files, parse_flatbuffers_reads, parse_flatbuffers_source, FlatBuffersError,
};
use evenframe_core::typesync::flatbuffers_parser::validator_extractor::{
    parse_validators,
};
use evenframe_core::typesync::macroforge::collect_validators_for_field;
use evenframe_core::validator::{NumberValidator, StringValidator, Validator};

#[test]
fn a_written_name_reads_back_and_others_keep_their_values() {
    let mut m = NamedMap::new();
    m.insert("b".to_string(), 2);
    m.insert("a".to_string(), 1);
    m.insert("b".to_string(), 3);
    assert_eq!(m.get("b"), Some(&3));
    assert_eq!(m.get("a"), Some(&1));
    assert_eq!(m.get("c"), None);
    assert_eq!(m.len(), 2);
    let names: Vec<&str> = m.entries().iter().map(|(k, _)| k.as_str()).collect();
    assert_eq!(names, vec!["a", "b"]);
}

#[test]
fn every_configured_rust_name_is_foreign() {
    let mut foreign_types = NamedMap::new();
    foreign_types.insert(
        "Decimal".to_string(),
        ForeignTypeConfig {
            rust_type_names: vec!["rust_decimal::Decimal".to_string(), "Dec".to_string()],
            serde_format: "decimal".to_string(),
            ..Default::default()
        },
    );
    let registry = ForeignTypeRegistry::from_config(&foreign_types);
    for name in ["Decimal", "rust_decimal::Decimal", "Dec"] {
        assert!(registry.is_foreign(name));
        assert_eq!(registry.lookup(name).unwrap().serde_format, "decimal");
    }
    assert!(!registry.is_foreign("decimal"));
}

#[test]
fn jsdoc_never_holds_a_stray_close() {
    let result = format_jsdoc("a */ b */", "");
    assert_eq!(result, "/** a * / b * / */");
    assert!(!result[3..result.len() - 2].contains("*/"));
}

#[test]
fn later_tables_replace_earlier_ones_of_the_same_name() {
    let source = r#"
        table Item { a: int32; }
        table Other { x: string; }
        table Item { b: bool; c: bool; }
        enum Kind : byte { One }
        union Kind { Other }
    "#;
    let result = parse_flatbuffers_source(source).unwrap();
    let item = result.structs.get("Item").unwrap();
    assert_eq!(item.fields.len(), 2);
    assert_eq!(item.fields[0].field_name, "b");
    assert!(result.structs.contains_key("Other"));
    let kind = result.enums.get("Kind").unwrap();
    assert!(kind.variants[0].data.is_some());
}

#[test]
fn merging_files_keeps_the_later_definition() {
    let first = "namespace First; table A { x: int32; } table B { y: int32; }".to_string();
    let second = "namespace Second; table A { z: bool; w: bool; }".to_string();
    let merged = parse_flatbuffers_files(&vec![first, second]).unwrap();
    assert_eq!(merged.namespace, Some("First".to_string()));
    assert_eq!(merged.structs.get("A").unwrap().fields.len(), 2);
    assert_eq!(merged.structs.get("B").unwrap().fields.len(), 1);
}

#[test]
fn merging_stops_at_the_first_bad_file() {
    let good = "table A { x: int32; }".to_string();
    let bad = "table { }".to_string();
    assert!(parse_flatbuffers_files(&vec![good, bad]).is_err());
}

#[test]
fn token_spans_come_in_source_order() {
    let source = "table Item (note: \"Ünïcode\") { name: string; } // done\n/// doc";
    let tokens = tokenize(source).unwrap();
    assert!(!tokens.is_empty());
    for t in &tokens {
        assert!(t.span.start < t.span.end);
        assert!(t.span.end <= source.len());
    }
    for pair in tokens.windows(2) {
        assert!(pair[0].span.end <= pair[1].span.start);
    }
    assert_eq!(&source[tokens[1].span.clone()], "Item");
    assert_eq!(&source[tokens[5].span.clone()], "\"Ünïcode\"");
}

#[test]
fn text_fields_are_always_checked_for_emptiness() {
    let none: Vec<Validator> = vec![];
    assert_eq!(collect_validators_for_field(&none, &FieldType::String), "\"nonEmpty\"");
    assert_eq!(collect_validators_for_field(&none, &FieldType::Char), "\"nonEmpty\"");
    assert_eq!(collect_validators_for_field(&none, &FieldType::I64), "");
    let transform_only = vec![Validator::StringValidator(StringValidator::Trim)];
    assert_eq!(
        collect_validators_for_field(&transform_only, &FieldType::String),
        "\"nonEmpty\""
    );
    let user = FieldType::RecordLink(Box::new(FieldType::Other("User".to_string())));
    assert_eq!(collect_validators_for_field(&none, &user), "\"nonEmpty\"");
    assert_eq!(
        collect_validators_for_field(&none, &FieldType::Option(Box::new(user.clone()))),
        ""
    );
    let numbers = vec![Validator::NumberValidator(NumberValidator::Positive)];
    assert_eq!(
        collect_validators_for_field(&numbers, &FieldType::Option(Box::new(FieldType::String))),
        "\"positive\""
    );
}

#[test]
fn canonical_names_read_back() {
    let types = vec![
        FieldType::U8,
        FieldType::Unit,
        FieldType::Option(Box::new(FieldType::String)),
        FieldType::Vec(Box::new(FieldType::Option(Box::new(FieldType::F64)))),
        FieldType::Tuple(vec![FieldType::I32, FieldType::Unit, FieldType::Char]),
        FieldType::Option(Box::new(FieldType::Vec(Box::new(FieldType::Tuple(vec![FieldType::Bool, FieldType::Usize]))))),
    ];
    for t in types {
        let name = t.canonical_name();
        assert_eq!(FieldType::parse_type_str(&name), t, "{name}");
    }
}

#[test]
fn jsdoc_blocks_close_once() {
    let out = format_jsdoc("ends with */ and\nmore */", "\t ");
    assert!(out.starts_with("\t /**"));
    assert!(out.ends_with("*/"));
    assert!(!out[..out.len() - 2].contains("*/"));
    assert_eq!(out.lines().count(), 4);
}

#[test]
fn joined_validator_lists_parse_to_both_lists() {
    let a = "minLength(3), email";
    let b = "maxLength(10), uuid";
    let mut both = parse_validators(a);
    both.extend(parse_validators(b));
    assert_eq!(parse_validators(&format!("{a}, {b}")), both);
    assert_eq!(both.len(), 4);
}

#[test]
fn the_first_failing_file_decides_the_error() {
    let good = "table A { x: int; }".to_string();
    let bad = "table {".to_string();
    let missing = || Err(std::io::Error::new(std::io::ErrorKind::NotFound, "gone"));
    // A parse error before an unreadable file wins.
    assert!(matches!(
        parse_flatbuffers_reads(vec![Ok(good.clone()), Ok(bad.clone()), missing()]),
        Err(FlatBuffersError::Parse(_))
    ));
    // An unreadable file before a parse error wins.
    assert!(matches!(
        parse_flatbuffers_reads(vec![Ok(good.clone()), missing(), Ok(bad)]),
        Err(FlatBuffersError::Io(_))
    ));
    // All read: the same as merging the sources.
    let merged = parse_flatbuffers_reads(vec![Ok(good.clone())]).unwrap();
    assert!(merged.structs.get("A").is_some());
}
