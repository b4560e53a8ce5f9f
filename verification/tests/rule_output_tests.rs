use evenframe_core::named_map::NamedMap;
use evenframe_core::tooling::rule_output::{apply_rule_output, RuledKind, RuledMember, RuledType};
use evenframe_core::typesync::plugin_types::{
    EventOverride, FieldOverride, OutputRulePluginOutput, PermissionsOverride, TypeOverride,
};

fn strs(v: &[&str]) -> Vec<String> {
    v.iter().map(|s| s.to_string()).collect()
}

fn member(name: &str, anns: &[&str]) -> RuledMember {
    RuledMember { name: name.to_string(), annotations: strs(anns), override_annotations: None }
}

fn ruled() -> RuledType {
    RuledType {
        macroforge_derives: strs(&["Default"]),
        annotations: strs(&["@a"]),
        output_override: None,
        members: vec![member("id", &[]), member("name", &["@keep"])],
        permissions: None,
        events: vec![],
    }
}

fn answer() -> OutputRulePluginOutput {
    let mut field_overrides = NamedMap::new();
    field_overrides.insert("name".to_string(), FieldOverride { annotations: strs(&["@keep", "@new"]) });
    field_overrides.insert("missing".to_string(), FieldOverride { annotations: strs(&["@x"]) });
    OutputRulePluginOutput {
        type_override: TypeOverride {
            macroforge_derives: vec![],
            annotations: strs(&["@a", "@b"]),
            permissions: Some(PermissionsOverride {
                select: "FULL".to_string(),
                create: "NONE".to_string(),
                update: "NONE".to_string(),
                delete: "NONE".to_string(),
            }),
            events: vec![EventOverride { name: "e".to_string(), statement: "DEFINE EVENT e".to_string() }],
        },
        field_overrides,
        error: None,
    }
}

#[test]
fn a_struct_gets_an_override_and_field_annotations() {
    let mut t = ruled();
    apply_rule_output(&mut t, RuledKind::Struct, &answer());
    let ov = t.output_override.as_ref().unwrap();
    assert_eq!(ov.macroforge_derives, strs(&["Default"]));
    assert_eq!(ov.annotations, strs(&["@a", "@b"]));
    assert_eq!(t.members[1].override_annotations, Some(strs(&["@keep", "@new"])));
    assert_eq!(t.members[1].annotations, strs(&["@keep"]));
    assert_eq!(t.members[0].override_annotations, None);
    assert!(t.permissions.is_none());
    assert!(t.events.is_empty());
}

#[test]
fn a_table_also_takes_permissions_and_events() {
    let mut t = ruled();
    apply_rule_output(&mut t, RuledKind::Table, &answer());
    assert_eq!(t.permissions.as_ref().unwrap().select, "FULL");
    assert_eq!(t.events, strs(&["DEFINE EVENT e"]));
}

#[test]
fn an_enum_adds_variant_annotations() {
    let mut t = ruled();
    apply_rule_output(&mut t, RuledKind::Enum, &answer());
    assert_eq!(t.members[1].annotations, strs(&["@keep", "@new"]));
    assert_eq!(t.members[1].override_annotations, None);
}

#[test]
fn an_answer_with_an_error_changes_nothing() {
    let mut t = ruled();
    let mut out = answer();
    out.error = Some("bad".to_string());
    apply_rule_output(&mut t, RuledKind::Table, &out);
    assert!(t.output_override.is_none());
    assert!(t.permissions.is_none());
    assert_eq!(t.members[1].override_annotations, None);
}
