use evenframe_core::named_map::NamedMap;
use evenframe_core::typesync::config::FileNamingConvention;
use evenframe_core::typesync::file_grouping::{compute_file_grouping, FileOutputPlan, TypeFileGroup};
use evenframe_core::typesync::import_resolver::{
    format_imports, generate_barrel_file, resolve_imports, type_name_to_filename, ImportStatement,
};

#[test]
fn test_type_name_to_filename() {
    assert_eq!(
        type_name_to_filename("UserProfile", FileNamingConvention::Kebab),
        "user-profile"
    );
    assert_eq!(
        type_name_to_filename("UserProfile", FileNamingConvention::Snake),
        "user_profile"
    );
    assert_eq!(
        type_name_to_filename("UserProfile", FileNamingConvention::Pascal),
        "UserProfile"
    );
    assert_eq!(
        type_name_to_filename("UserProfile", FileNamingConvention::Camel),
        "userProfile"
    );
}

#[test]
fn test_format_imports() {
    let imports = vec![
        ImportStatement {
            type_names: vec!["Role".to_string()],
            from_path: "./role".to_string(),
        },
        ImportStatement {
            type_names: vec!["Address".to_string(), "City".to_string()],
            from_path: "./address".to_string(),
        },
    ];

    let formatted = format_imports(&imports);
    assert!(formatted.contains("import type { Role } from './role';"));
    assert!(formatted.contains("import type { Address, City } from './address';"));
}

#[test]
fn test_barrel_file() {
    let plan = FileOutputPlan {
        groups: vec![
            TypeFileGroup {
                primary_type: "User".to_string(),
                co_located_types: vec!["Address".to_string()],
            },
            TypeFileGroup {
                primary_type: "Post".to_string(),
                co_located_types: vec![],
            },
            TypeFileGroup {
                primary_type: "Role".to_string(),
                co_located_types: vec![],
            },
        ],
        type_to_group: NamedMap::new(),
    };

    let barrel = generate_barrel_file(&plan, FileNamingConvention::Kebab, ".ts");
    assert!(barrel.contains("export * from \"./user\";"));
    assert!(barrel.contains("export * from \"./post\";"));
    assert!(barrel.contains("export * from \"./role\";"));
}

fn cross_file_plan() -> FileOutputPlan {
    let mut type_to_group = NamedMap::new();
    type_to_group.insert("User".to_string(), 0);
    type_to_group.insert("Address".to_string(), 0);
    type_to_group.insert("Post".to_string(), 1);
    type_to_group.insert("Role".to_string(), 2);
    type_to_group.insert("Tag".to_string(), 2);
    FileOutputPlan {
        groups: vec![
            TypeFileGroup {
                primary_type: "User".to_string(),
                co_located_types: vec!["Address".to_string()],
            },
            TypeFileGroup {
                primary_type: "Post".to_string(),
                co_located_types: vec![],
            },
            TypeFileGroup {
                primary_type: "Role".to_string(),
                co_located_types: vec!["Tag".to_string()],
            },
        ],
        type_to_group,
    }
}

#[test]
fn imports_come_from_the_groups_of_outside_dependencies() {
    let plan = cross_file_plan();
    let mut deps: NamedMap<Vec<String>> = NamedMap::new();
    deps.insert("User".to_string(), vec!["Address".to_string(), "Role".to_string()]);
    deps.insert("Post".to_string(), vec!["User".to_string(), "Tag".to_string(), "Role".to_string(), "Tag".to_string()]);
    deps.insert("Address".to_string(), vec!["String".to_string()]);

    let user_imports = resolve_imports(&plan.groups[0], &plan, &deps, FileNamingConvention::Kebab, ".ts");
    assert_eq!(
        user_imports,
        vec![ImportStatement {
            type_names: vec!["Role".to_string()],
            from_path: "./role".to_string(),
        }]
    );

    let post_imports = resolve_imports(&plan.groups[1], &plan, &deps, FileNamingConvention::Snake, ".svelte.ts");
    assert_eq!(
        post_imports,
        vec![
            ImportStatement {
                type_names: vec!["User".to_string()],
                from_path: "./user.svelte".to_string(),
            },
            ImportStatement {
                type_names: vec!["Role".to_string(), "Tag".to_string()],
                from_path: "./role.svelte".to_string(),
            },
        ]
    );

    let role_imports = resolve_imports(&plan.groups[2], &plan, &deps, FileNamingConvention::Kebab, ".ts");
    assert!(role_imports.is_empty());
}

#[test]
fn test_resolve_imports_cross_file() {
    // User uses Role (shared), Address is exclusive to User.
    let mut deps: NamedMap<Vec<String>> = NamedMap::new();
    deps.insert("User".to_string(), vec!["Address".to_string(), "Role".to_string()]);
    deps.insert("Post".to_string(), vec!["Role".to_string()]);
    deps.insert("Address".to_string(), vec![]);
    deps.insert("Role".to_string(), vec![]);

    let plan = compute_file_grouping(&deps, &vec![]);
    let user_group_idx = *plan.type_to_group.get("User").unwrap();
    let user_group = &plan.groups[user_group_idx];

    let imports = resolve_imports(user_group, &plan, &deps, FileNamingConvention::Kebab, ".ts");

    // User group (User + Address) should import Role from ./role
    assert_eq!(imports.len(), 1);
    assert!(imports[0].type_names.contains(&"Role".to_string()));
    assert_eq!(imports[0].from_path, "./role");
}
