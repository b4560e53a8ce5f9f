use evenframe_core::named_map::NamedMap;
use evenframe_core::tooling::config_builders::{gather_type_names, gathered_type_name, rename_field_type};
use evenframe_core::types::field_type::FieldType;
use evenframe_core::typesync::config::CollisionStrategy;

fn origins() -> NamedMap<String> {
    let mut m = NamedMap::new();
    m.insert("User".to_string(), "src/models/account.rs".to_string());
    m
}

#[test]
fn new_type_names_are_kept() {
    assert_eq!(
        gathered_type_name(&origins(), "Post", "src/models/post.rs", CollisionStrategy::Error),
        Ok("Post".to_string())
    );
}

#[test]
fn colliding_names_are_refused_by_default() {
    assert_eq!(
        gathered_type_name(&origins(), "User", "src/models/user_profile.rs", CollisionStrategy::Error),
        Err("Type name collision: 'User' is defined in both 'src/models/account.rs' and 'src/models/user_profile.rs'. \
Rename one of them, or set collision_strategy = \"auto_rename\" in [typesync] config."
            .to_string())
    );
}

#[test]
fn colliding_names_take_their_file_stem_when_renaming() {
    assert_eq!(
        gathered_type_name(&origins(), "User", "src/models/user_profile.rs", CollisionStrategy::AutoRename),
        Ok("UserProfileUser".to_string())
    );
    assert_eq!(
        gathered_type_name(&origins(), "User", "/", CollisionStrategy::AutoRename),
        Ok("UnknownUser".to_string())
    );
}

#[test]
fn renamed_types_are_followed_everywhere() {
    use_rename();
}

fn use_rename() {
    let mut renames = NamedMap::new();
    renames.insert("User".to_string(), "AccountUser".to_string());
    let mut t = FieldType::Struct(vec![
        ("owner".to_string(), FieldType::Option(Box::new(FieldType::Other("User".to_string())))),
        (
            "by_id".to_string(),
            FieldType::HashMap(
                Box::new(FieldType::String),
                Box::new(FieldType::Tuple(vec![FieldType::Other("User".to_string()), FieldType::Other("Post".to_string())])),
            ),
        ),
    ]);
    rename_field_type(&mut t, &renames);
    assert_eq!(
        t,
        FieldType::Struct(vec![
            ("owner".to_string(), FieldType::Option(Box::new(FieldType::Other("AccountUser".to_string())))),
            (
                "by_id".to_string(),
                FieldType::HashMap(
                    Box::new(FieldType::String),
                    Box::new(FieldType::Tuple(vec![
                        FieldType::Other("AccountUser".to_string()),
                        FieldType::Other("Post".to_string())
                    ])),
                ),
            ),
        ])
    );
}

fn found(items: &[(&str, &str)]) -> Vec<(String, String)> {
    items.iter().map(|(n, f)| (n.to_string(), f.to_string())).collect()
}

#[test]
fn gathering_stops_at_the_first_collision_naming_both_files() {
    let items = found(&[("User", "src/a.rs"), ("Post", "src/b.rs"), ("User", "src/c.rs"), ("Post", "src/d.rs")]);
    assert_eq!(
        gather_type_names(&items, CollisionStrategy::Error).unwrap_err(),
        "Type name collision: 'User' is defined in both 'src/a.rs' and 'src/c.rs'. \
Rename one of them, or set collision_strategy = \"auto_rename\" in [typesync] config."
    );
}

#[test]
fn gathering_renames_collisions_by_file_and_records_them() {
    let items = found(&[("User", "src/a.rs"), ("Post", "src/b.rs"), ("User", "src/billing.rs")]);
    let (names, renames) = gather_type_names(&items, CollisionStrategy::AutoRename).unwrap();
    assert_eq!(names, vec!["User".to_string(), "Post".to_string(), "BillingUser".to_string()]);
    assert_eq!(renames.len(), 1);
    assert_eq!(renames.get("User").unwrap(), "BillingUser");
    let distinct = found(&[("User", "src/a.rs"), ("Post", "src/a.rs")]);
    let (names, renames) = gather_type_names(&distinct, CollisionStrategy::Error).unwrap();
    assert_eq!(names, vec!["User".to_string(), "Post".to_string()]);
    assert!(renames.is_empty());
}
