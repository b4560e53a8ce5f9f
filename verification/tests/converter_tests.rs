use evenframe_core::types::field_type::FieldType;
use evenframe_core::typesync::flatbuffers_parser::converter::convert_schema;
use evenframe_core::typesync::flatbuffers_parser::parser::parse;

#[test]
fn test_convert_simple_table() {
    let source = r#"
        namespace Example;

        table Person {
            name: string;
            age: int32;
            active: bool;
        }
    "#;

    let schema = parse(source).unwrap();
    let result = convert_schema(&schema);

    assert_eq!(result.namespace, Some("Example".to_string()));
    assert!(result.structs.contains_key("Person"));

    let person = result.structs.get("Person").unwrap();
    assert_eq!(person.struct_name, "Person");
    assert_eq!(person.fields.len(), 3);

    assert_eq!(person.fields[0].field_name, "name");
    assert_eq!(person.fields[0].field_type, FieldType::String);

    assert_eq!(person.fields[1].field_name, "age");
    assert_eq!(person.fields[1].field_type, FieldType::I32);

    assert_eq!(person.fields[2].field_name, "active");
    assert_eq!(person.fields[2].field_type, FieldType::Bool);
}

#[test]
fn test_convert_enum() {
    let source = r#"
        enum Color : byte {
            Red = 0,
            Green = 1,
            Blue = 2
        }
    "#;

    let schema = parse(source).unwrap();
    let result = convert_schema(&schema);

    assert!(result.enums.contains_key("Color"));
    let color = result.enums.get("Color").unwrap();
    assert_eq!(color.enum_name, "Color");
    assert_eq!(color.variants.len(), 3);
    assert_eq!(color.variants[0].name, "Red");
    assert!(color.variants[0].data.is_none());
}

#[test]
fn test_convert_union() {
    let source = r#"
        table Dog { name: string; }
        table Cat { name: string; }

        union Pet {
            Dog,
            Cat
        }
    "#;

    let schema = parse(source).unwrap();
    let result = convert_schema(&schema);

    assert!(result.enums.contains_key("Pet"));
    let pet = result.enums.get("Pet").unwrap();
    assert_eq!(pet.variants.len(), 2);
    assert!(pet.variants[0].data.is_some());
}

#[test]
fn test_convert_vector_types() {
    let source = r#"
        table Container {
            items: [string];
            numbers: [int32];
        }
    "#;

    let schema = parse(source).unwrap();
    let result = convert_schema(&schema);

    let container = result.structs.get("Container").unwrap();
    assert!(matches!(
        container.fields[0].field_type,
        FieldType::Vec(ref inner) if **inner == FieldType::String
    ));
    assert!(matches!(
        container.fields[1].field_type,
        FieldType::Vec(ref inner) if **inner == FieldType::I32
    ));
}

#[test]
fn test_convert_nested_types() {
    let source = r#"
        table Address {
            street: string;
            city: string;
        }

        table Person {
            name: string;
            address: Address;
        }
    "#;

    let schema = parse(source).unwrap();
    let result = convert_schema(&schema);

    let person = result.structs.get("Person").unwrap();
    assert_eq!(person.fields[1].field_name, "address");
    assert!(matches!(
        person.fields[1].field_type,
        FieldType::Other(ref name) if name == "Address"
    ));
}
