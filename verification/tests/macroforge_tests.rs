use evenframe_core::number::Number;
use evenframe_core::types::field_type::FieldType;
use evenframe_core::config::{ForeignTypeConfig, TsImport};
use evenframe_core::named_map::NamedMap;
use evenframe_core::types::foreign_type_registry::ForeignTypeRegistry;
use evenframe_core::types::{StructConfig, StructField, TaggedUnion, Variant, VariantData};
use evenframe_core::typesync::macroforge::{
    collect_validators_for_field, compute_extra_imports, validator_to_macroforge_string,
};
use evenframe_core::validator::{ArrayValidator, NumberValidator, StringValidator, Validator};

fn num(text: &str) -> Number {
    Number::parse(text).unwrap()
}

#[test]
fn test_string_validators_to_macroforge() {
    assert_eq!(
        validator_to_macroforge_string(&Validator::StringValidator(StringValidator::Email)),
        Some("email".to_string())
    );
    assert_eq!(
        validator_to_macroforge_string(&Validator::StringValidator(
            StringValidator::MinLength(8)
        )),
        Some("minLength(8)".to_string())
    );
    assert_eq!(
        validator_to_macroforge_string(&Validator::StringValidator(
            StringValidator::MaxLength(50)
        )),
        Some("maxLength(50)".to_string())
    );
    assert_eq!(
        validator_to_macroforge_string(&Validator::StringValidator(StringValidator::Uuid)),
        Some("uuid".to_string())
    );
    assert_eq!(
        validator_to_macroforge_string(&Validator::StringValidator(
            StringValidator::Lowercased
        )),
        Some("lowercase".to_string())
    );
}

#[test]
fn test_number_validators_to_macroforge() {
    assert_eq!(
        validator_to_macroforge_string(&Validator::NumberValidator(NumberValidator::Int)),
        Some("int".to_string())
    );
    assert_eq!(
        validator_to_macroforge_string(&Validator::NumberValidator(NumberValidator::Between(
            num("18.0"),
            num("120.0")
        ))),
        Some("between(18, 120)".to_string())
    );
    assert_eq!(
        validator_to_macroforge_string(&Validator::NumberValidator(NumberValidator::Positive)),
        Some("positive".to_string())
    );
}

#[test]
fn test_array_validators_to_macroforge() {
    assert_eq!(
        validator_to_macroforge_string(&Validator::ArrayValidator(ArrayValidator::MinItems(1))),
        Some("minItems(1)".to_string())
    );
    assert_eq!(
        validator_to_macroforge_string(&Validator::ArrayValidator(ArrayValidator::MaxItems(5))),
        Some("maxItems(5)".to_string())
    );
}

#[test]
fn test_transformation_validators_skipped() {
    // These should return None as they're transformations, not validations
    assert_eq!(
        validator_to_macroforge_string(&Validator::StringValidator(StringValidator::Lower)),
        None
    );
    assert_eq!(
        validator_to_macroforge_string(&Validator::StringValidator(StringValidator::Upper)),
        None
    );
    assert_eq!(
        validator_to_macroforge_string(&Validator::StringValidator(StringValidator::Trim)),
        None
    );
    assert_eq!(
        validator_to_macroforge_string(&Validator::StringValidator(
            StringValidator::IntegerParse
        )),
        None
    );
}

#[test]
fn test_collect_validators_for_string_adds_nonempty() {
    let validators = vec![
        Validator::StringValidator(StringValidator::Email),
        Validator::StringValidator(StringValidator::MinLength(5)),
    ];
    // String fields get nonEmpty added by default
    assert_eq!(
        collect_validators_for_field(&validators, &FieldType::String),
        "\"nonEmpty\", \"email\", \"minLength(5)\""
    );
}

#[test]
fn test_collect_validators_for_number_no_nonempty() {
    let validators = vec![Validator::NumberValidator(NumberValidator::Int)];
    // Number fields don't get nonEmpty
    assert_eq!(
        collect_validators_for_field(&validators, &FieldType::I32),
        "\"int\""
    );
}

#[test]
fn test_collect_validators_skips_transformations() {
    let validators = vec![
        Validator::StringValidator(StringValidator::Email),
        Validator::StringValidator(StringValidator::Lower), // Should be skipped
        Validator::StringValidator(StringValidator::MinLength(5)),
    ];
    // nonEmpty is added first for strings
    assert_eq!(
        collect_validators_for_field(&validators, &FieldType::String),
        "\"nonEmpty\", \"email\", \"minLength(5)\""
    );
}

#[test]
fn test_collect_validators_doesnt_duplicate_nonempty() {
    let validators = vec![
        Validator::StringValidator(StringValidator::NonEmpty),
        Validator::StringValidator(StringValidator::Email),
    ];
    // NonEmpty already present, shouldn't be duplicated
    assert_eq!(
        collect_validators_for_field(&validators, &FieldType::String),
        "\"nonEmpty\", \"email\""
    );
}

fn make_datetime_registry() -> ForeignTypeRegistry {
    let mut foreign_types = NamedMap::new();
    foreign_types.insert(
        "DateTime".to_string(),
        ForeignTypeConfig {
            rust_type_names: vec!["DateTime".to_string()],
            macroforge: "DateTime.Utc".to_string(),
            ts_import: TsImport { name: "DateTime".to_string(), is_type_only: true },
            ..Default::default()
        },
    );
    foreign_types.insert(
        "Decimal".to_string(),
        ForeignTypeConfig {
            rust_type_names: vec!["Decimal".to_string()],
            macroforge: "BigDecimal.BigDecimal".to_string(),
            ts_import: TsImport { name: "BigDecimal".to_string(), is_type_only: true },
            ..Default::default()
        },
    );
    ForeignTypeRegistry::from_config(&foreign_types)
}

fn one_struct(key: &str, fields: Vec<(&str, FieldType)>) -> NamedMap<StructConfig> {
    let mut structs = NamedMap::new();
    structs.insert(
        key.to_string(),
        StructConfig {
            struct_name: key.to_string(),
            fields: fields
                .into_iter()
                .map(|(n, t)| StructField { field_name: n.to_string(), field_type: t, ..Default::default() })
                .collect(),
            validators: vec![],
        },
    );
    structs
}

#[test]
fn test_compute_extra_imports_datetime() {
    let registry = make_datetime_registry();
    let structs = one_struct("event", vec![("starts_at", FieldType::Other("DateTime".to_string()))]);
    let imports = compute_extra_imports(&vec!["Event".to_string()], &structs, &NamedMap::new(), &registry);
    assert_eq!(imports, vec!["import type { DateTime } from 'effect';".to_string()]);
}

#[test]
fn test_compute_extra_imports_decimal() {
    let registry = make_datetime_registry();
    let structs = one_struct("payment", vec![("amount", FieldType::Other("Decimal".to_string()))]);
    let imports = compute_extra_imports(&vec!["Payment".to_string()], &structs, &NamedMap::new(), &registry);
    assert_eq!(imports, vec!["import type { BigDecimal } from 'effect';".to_string()]);
}

#[test]
fn test_compute_extra_imports_both() {
    let registry = make_datetime_registry();
    let structs = one_struct(
        "order",
        vec![
            ("amount", FieldType::Other("Decimal".to_string())),
            ("created_at", FieldType::Other("DateTime".to_string())),
        ],
    );
    let imports = compute_extra_imports(&vec!["Order".to_string()], &structs, &NamedMap::new(), &registry);
    assert_eq!(
        imports,
        vec![
            "import type { BigDecimal } from 'effect';".to_string(),
            "import type { DateTime } from 'effect';".to_string(),
        ]
    );
}

#[test]
fn test_compute_extra_imports_none_needed() {
    let registry = ForeignTypeRegistry::empty();
    let structs = one_struct("user", vec![("name", FieldType::String)]);
    let imports = compute_extra_imports(&vec!["User".to_string()], &structs, &NamedMap::new(), &registry);
    assert!(imports.is_empty());
}

#[test]
fn extra_imports_look_inside_types_and_add_record_links_last() {
    let registry = make_datetime_registry();
    let structs = one_struct(
        "order",
        vec![(
            "history",
            FieldType::Vec(Box::new(FieldType::Tuple(vec![
                FieldType::RecordLink(Box::new(FieldType::Other("user".to_string()))),
                FieldType::Option(Box::new(FieldType::Other("DateTime".to_string()))),
            ]))),
        )],
    );
    let imports = compute_extra_imports(&vec!["Order".to_string()], &structs, &NamedMap::new(), &registry);
    assert_eq!(
        imports,
        vec![
            "import type { DateTime } from 'effect';".to_string(),
            "import type { RecordLink } from './index';".to_string(),
        ]
    );
    // A type not asked for adds nothing.
    assert!(compute_extra_imports(&vec!["Other".to_string()], &structs, &NamedMap::new(), &registry).is_empty());
}

#[test]
fn extra_imports_of_unions_follow_referenced_types_only() {
    let registry = make_datetime_registry();
    let mut enums = NamedMap::new();
    enums.insert(
        "price".to_string(),
        TaggedUnion {
            enum_name: "price".to_string(),
            variants: vec![
                Variant {
                    name: "Fixed".to_string(),
                    data: Some(VariantData::DataStructureRef(FieldType::Other("Decimal".to_string()))),
                },
                Variant {
                    name: "Scheduled".to_string(),
                    data: Some(VariantData::InlineStruct(StructConfig {
                        struct_name: "schedule".to_string(),
                        fields: vec![StructField {
                            field_name: "at".to_string(),
                            field_type: FieldType::Other("DateTime".to_string()),
                            ..Default::default()
                        }],
                        validators: vec![],
                    })),
                },
            ],
        },
    );
    let imports = compute_extra_imports(&vec!["Price".to_string()], &NamedMap::new(), &enums, &registry);
    assert_eq!(imports, vec!["import type { BigDecimal } from 'effect';".to_string()]);
}

#[test]
fn each_foreign_import_is_listed_once() {
    let registry = make_datetime_registry();
    let structs = one_struct(
        "order",
        vec![
            ("total", FieldType::Other("Decimal".to_string())),
            ("discount", FieldType::Option(Box::new(FieldType::Other("Decimal".to_string())))),
            ("created_at", FieldType::Other("DateTime".to_string())),
        ],
    );
    let imports = compute_extra_imports(&vec!["Order".to_string()], &structs, &NamedMap::new(), &registry);
    assert_eq!(
        imports,
        vec![
            "import type { BigDecimal } from 'effect';".to_string(),
            "import type { DateTime } from 'effect';".to_string(),
        ]
    );
}
