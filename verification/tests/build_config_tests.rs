use evenframe_core::tooling::build_config::BuildConfig;
use evenframe_core::typesync::config::{CollisionStrategy, OutputKind, TypesyncOutput};

#[test]
fn default_config_generates_arktype() {
    assert_eq!(
        BuildConfig::default().outputs,
        vec![TypesyncOutput::new(OutputKind::Arktype, "./src/generated/")]
    );
}

#[test]
fn builder_sets_paths_aliases_and_outputs() {
    let outputs = vec![TypesyncOutput::new(OutputKind::Effect, "/custom/output")];
    let config = BuildConfig::builder()
        .scan_path("/custom/scan")
        .apply_alias("MyMacro")
        .apply_alias("OtherMacro")
        .outputs(outputs.clone())
        .build();

    assert_eq!(config.scan_path, String::from("/custom/scan"));
    assert_eq!(config.apply_aliases, vec!["MyMacro", "OtherMacro"]);
    assert_eq!(config.outputs, outputs);
}

#[test]
fn default_config_holds_the_documented_defaults() {
    use_defaults(BuildConfig::new());
    use_defaults(BuildConfig::builder().build());
}

fn use_defaults(c: BuildConfig) {
    assert_eq!(c.outputs, vec![TypesyncOutput::new(OutputKind::Arktype, "./src/generated/")]);
    assert_eq!(c.scan_path, ".");
    assert!(c.config_path.is_none());
    assert!(c.apply_aliases.is_empty());
    assert!(!c.expand_macros);
    assert_eq!(c.collision_strategy, CollisionStrategy::Error);
    assert!(c.foreign_types.is_empty());
    assert!(c.include_files.is_empty());
}
