use evenframe_core::config::ForeignTypeConfig;
use evenframe_core::named_map::NamedMap;
use evenframe_core::types::foreign_type_registry::ForeignTypeRegistry;

#[test]
fn test_empty_registry() {
    let registry = ForeignTypeRegistry::from_config(&NamedMap::new());
    assert!(registry.lookup("DateTime").is_none());
    assert!(!registry.is_foreign("DateTime"));
}

#[test]
fn test_lookup_by_canonical_name() {
    let mut foreign_types = NamedMap::new();
    foreign_types.insert(
        "DateTime".to_string(),
        ForeignTypeConfig {
            rust_type_names: vec!["DateTime".to_string(), "chrono::DateTime".to_string()],
            surrealdb: "datetime".to_string(),
            arktype: "'string'".to_string(),
            ..Default::default()
        },
    );

    let registry = ForeignTypeRegistry::from_config(&foreign_types);
    let config = registry.lookup("DateTime").unwrap();
    assert_eq!(config.surrealdb, "datetime");
    assert_eq!(config.arktype, "'string'");
}

#[test]
fn test_lookup_by_alias() {
    let mut foreign_types = NamedMap::new();
    foreign_types.insert(
        "DateTime".to_string(),
        ForeignTypeConfig {
            rust_type_names: vec!["DateTime".to_string(), "chrono::DateTime".to_string()],
            surrealdb: "datetime".to_string(),
            ..Default::default()
        },
    );

    let registry = ForeignTypeRegistry::from_config(&foreign_types);
    let config = registry.lookup("chrono::DateTime").unwrap();
    assert_eq!(config.surrealdb, "datetime");
}

#[test]
fn test_is_foreign() {
    let mut foreign_types = NamedMap::new();
    foreign_types.insert(
        "Decimal".to_string(),
        ForeignTypeConfig {
            rust_type_names: vec!["Decimal".to_string()],
            ..Default::default()
        },
    );

    let registry = ForeignTypeRegistry::from_config(&foreign_types);
    assert!(registry.is_foreign("Decimal"));
    assert!(!registry.is_foreign("SomeOtherType"));
}
