use evenframe_core::named_map::NamedMap;
use evenframe_core::types::foreign_type_registry::ForeignTypeRegistry;
use evenframe_core::types::{StructConfig, TaggedUnion, Variant};
use evenframe_core::typesync::config::{OutputKind, OutputMode, TypesyncOutput};
use evenframe_core::typesync::output::{
    output_destination, push_imports, single_file_content, Destination, OutputTypes,
};

#[test]
fn single_file_name_comes_from_the_flag_then_the_output_then_the_kind() {
    let dir = "/tmp/generated";
    let mut output = TypesyncOutput::new(OutputKind::Arktype, "unused");
    assert_eq!(
        output_destination(&output, dir, None).unwrap(),
        Destination::SingleFile("/tmp/generated/arktype.ts".to_string())
    );

    output.file = Some("schemas.ts".to_string());
    assert_eq!(
        output_destination(&output, dir, None).unwrap(),
        Destination::SingleFile("/tmp/generated/schemas.ts".to_string())
    );

    let flag = "/tmp/generated/from-flag.ts";
    assert_eq!(
        output_destination(&output, dir, Some(flag)).unwrap(),
        Destination::SingleFile(flag.to_string())
    );
}

#[test]
fn per_file_output_rejects_a_file_name() {
    let mut output = TypesyncOutput::new(OutputKind::Effect, "unused");
    output.files.mode = OutputMode::PerFile;
    output.file = Some("schemas.ts".to_string());
    let err = output_destination(&output, "/tmp/out", None).unwrap_err();
    assert!(err.contains("per-file"), "{err}");
    assert_eq!(
        err,
        "/tmp/out/schemas.ts names a single output file, but the `effect` output is per-file and writes a directory"
    );
}

#[test]
fn per_file_output_without_a_file_writes_the_directory() {
    let mut output = TypesyncOutput::new(OutputKind::Macroforge, "unused");
    output.files.mode = OutputMode::PerFile;
    assert_eq!(output_destination(&output, "out", None).unwrap(), Destination::PerFile);
}

#[test]
fn absolute_output_file_replaces_the_directory() {
    let mut output = TypesyncOutput::new(OutputKind::Flatbuffers, "unused");
    output.file = Some("/abs/schema.fbs".to_string());
    assert_eq!(
        output_destination(&output, "gen/", None).unwrap(),
        Destination::SingleFile("/abs/schema.fbs".to_string())
    );
    output.file = None;
    assert_eq!(
        output_destination(&output, "gen/", None).unwrap(),
        Destination::SingleFile("gen/schema.fbs".to_string())
    );
}

#[test]
fn resolve_dir_drops_the_current_directory_piece() {
    let output = TypesyncOutput::new(OutputKind::Arktype, "./src/generated/");
    assert_eq!(output.resolve_dir("/proj"), "/proj/src/generated");
    assert_eq!(output.resolve_dir("/proj/"), "/proj/src/generated");
    assert_eq!(output.resolve_dir(""), "./src/generated");
    let absolute = TypesyncOutput::new(OutputKind::Effect, "/out//types/.");
    assert_eq!(absolute.resolve_dir("/proj"), "/out/types");
    let parent = TypesyncOutput::new(OutputKind::Effect, "../shared");
    assert_eq!(parent.resolve_dir("proj"), "proj/../shared");
}

#[test]
fn validate_refuses_settings_the_kind_cannot_honor() {
    let mut per_file_with_file = TypesyncOutput::new(OutputKind::Effect, "g");
    per_file_with_file.files.mode = OutputMode::PerFile;
    per_file_with_file.file = Some("x.ts".to_string());
    assert_eq!(
        per_file_with_file.validate().unwrap_err(),
        "`file` names a single output file, but the `effect` output is per-file"
    );

    let mut per_file_arktype = TypesyncOutput::new(OutputKind::Arktype, "g");
    per_file_arktype.files.mode = OutputMode::PerFile;
    assert_eq!(
        per_file_arktype.validate().unwrap_err(),
        "the `arktype` output cannot use mode = \"per_file\"; only effect and macroforge can"
    );

    let mut namespaced = TypesyncOutput::new(OutputKind::Effect, "g");
    namespaced.namespace = Some("com.example".to_string());
    assert_eq!(
        namespaced.validate().unwrap_err(),
        "`namespace` only applies to flatbuffers outputs, not `effect`"
    );

    let mut packaged = TypesyncOutput::new(OutputKind::Effect, "g");
    packaged.package = Some("com.example".to_string());
    assert_eq!(
        packaged.validate().unwrap_err(),
        "`package` and `import_validate` only apply to protobuf outputs, not `effect`"
    );

    let mut flat = TypesyncOutput::new(OutputKind::Flatbuffers, "g");
    flat.namespace = Some("com.example".to_string());
    assert!(flat.validate().is_ok());
}

#[test]
fn flatbuffers_outputs_get_their_schema_and_others_are_refused() {
    let structs: NamedMap<StructConfig> = NamedMap::new();
    let mut enums: NamedMap<TaggedUnion> = NamedMap::new();
    enums.insert(
        "Mode".to_string(),
        TaggedUnion {
            enum_name: "Mode".to_string(),
            variants: vec![Variant { name: "On".to_string(), data: None }],
        },
    );
    let registry = ForeignTypeRegistry::empty();
    let types = OutputTypes { structs: &structs, enums: &enums, registry: &registry, components: None, defaults: None };

    let mut fbs = TypesyncOutput::new(OutputKind::Flatbuffers, "g");
    fbs.namespace = Some("app".to_string());
    let content = single_file_content(&fbs, &types).unwrap();
    assert!(content.starts_with("namespace app;"));
    assert!(content.contains("enum Mode : byte"));

    let ark = TypesyncOutput::new(OutputKind::Arktype, "g");
    assert_eq!(
        single_file_content(&ark, &types).unwrap_err(),
        "this evenframe cannot write `arktype` outputs: their generator, or an analysis it needs (type dependencies, default values), is not part of this build"
    );

    let eff = TypesyncOutput::new(OutputKind::Effect, "g");
    assert!(single_file_content(&eff, &types).is_err());
    let components = vec![(vec!["Mode".to_string()], false)];
    let with_order = OutputTypes { structs: &structs, enums: &enums, registry: &registry, components: Some(&components), defaults: None };
    assert_eq!(
        single_file_content(&eff, &with_order).unwrap(),
        "import { Schema } from \"effect\";\n\n\
export const Mode = Schema.Union(Schema.Literal(\"On\")).annotations({ identifier: `Mode` });\n\n\
export type ModeEncoded = \"On\";\n\n"
    );
}

#[test]
fn import_lines_end_with_a_line_break() {
    let mut content = String::from("// head\n");
    push_imports(&mut content, "");
    assert_eq!(content, "// head\n");
    push_imports(&mut content, "import type { A } from './a';");
    assert_eq!(content, "// head\nimport type { A } from './a';\n");
}
