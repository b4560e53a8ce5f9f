use evenframe_core::typesync::flatbuffers_parser::parser::parse;

#[test]
fn test_parse_simple_table() {
    let source = r#"
        namespace Example;

        table Person {
            name: string;
            age: int32;
        }
    "#;

    let schema = parse(source).unwrap();
    assert_eq!(schema.namespace, Some("Example".to_string()));
    assert_eq!(schema.tables.len(), 1);
    assert_eq!(schema.tables[0].name, "Person");
    assert_eq!(schema.tables[0].fields.len(), 2);
}

#[test]
fn test_parse_enum() {
    let source = r#"
        enum Color : byte {
            Red = 0,
            Green,
            Blue = 5
        }
    "#;

    let schema = parse(source).unwrap();
    assert_eq!(schema.enums.len(), 1);
    assert_eq!(schema.enums[0].name, "Color");
    assert_eq!(schema.enums[0].values.len(), 3);
    assert_eq!(schema.enums[0].values[0].value, Some(0));
    assert_eq!(schema.enums[0].values[2].value, Some(5));
}

#[test]
fn test_parse_with_metadata() {
    let source = r#"
        table User (validate: "required") {
            email: string (validate: "email");
            age: int32 = 18;
        }
    "#;

    let schema = parse(source).unwrap();
    assert_eq!(schema.tables[0].metadata.get("validate"), Some("required"));
    assert_eq!(
        schema.tables[0].fields[0].metadata.get("validate"),
        Some("email")
    );
    assert_eq!(
        schema.tables[0].fields[1].default_value,
        Some("18".to_string())
    );
}
