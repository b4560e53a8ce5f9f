use evenframe_core::named_map::NamedMap;
use evenframe_core::typesync::file_grouping::compute_file_grouping;

fn deps_of(entries: &[(&str, Vec<&str>)]) -> NamedMap<Vec<String>> {
    let mut deps = NamedMap::new();
    for (name, ds) in entries {
        deps.insert(name.to_string(), ds.iter().map(|d| d.to_string()).collect());
    }
    deps
}

fn group(plan: &evenframe_core::typesync::file_grouping::FileOutputPlan, name: &str) -> usize {
    *plan.type_to_group.get(name).unwrap()
}

#[test]
fn test_exclusive_dependent_co_locates() {
    // User uses Address (exclusively), Post uses nothing.
    // Address should be co-located with User.
    let deps = deps_of(&[("User", vec!["Address"]), ("Address", vec![]), ("Post", vec![])]);
    let plan = compute_file_grouping(&deps, &vec![]);

    // Address should be co-located with User
    assert_eq!(group(&plan, "User"), group(&plan, "Address"));
    // Post should be in its own group
    assert_ne!(group(&plan, "Post"), group(&plan, "User"));

    // Find the User group and check co-location
    let user_group = &plan.groups[group(&plan, "User")];
    assert_eq!(user_group.primary_type, "User");
    assert!(user_group.co_located_types.contains(&"Address".to_string()));
}

#[test]
fn test_shared_type_gets_own_file() {
    // Role is used by both User and Post → gets its own file.
    let deps = deps_of(&[("User", vec!["Role"]), ("Post", vec!["Role"]), ("Role", vec![])]);
    let plan = compute_file_grouping(&deps, &vec![]);

    // All three should be in different groups
    assert_ne!(group(&plan, "User"), group(&plan, "Role"));
    assert_ne!(group(&plan, "Post"), group(&plan, "Role"));
}

#[test]
fn test_plan_example_from_spec() {
    // User (uses Address, Role), Post (uses Role), Address (only by User), Role (shared)
    let deps = deps_of(&[
        ("User", vec!["Address", "Role"]),
        ("Post", vec!["Role"]),
        ("Address", vec![]),
        ("Role", vec![]),
    ]);
    let plan = compute_file_grouping(&deps, &vec![]);

    // Address co-located with User
    assert_eq!(group(&plan, "User"), group(&plan, "Address"));
    // Role gets own file
    assert_ne!(group(&plan, "User"), group(&plan, "Role"));
    // Post gets own file
    assert_ne!(group(&plan, "Post"), group(&plan, "User"));

    // 3 groups total: User+Address, Post, Role
    assert_eq!(plan.groups.len(), 3);
}

#[test]
fn test_no_deps_each_gets_own_file() {
    let deps = deps_of(&[("A", vec![]), ("B", vec![])]);
    let plan = compute_file_grouping(&deps, &vec![]);
    assert_eq!(plan.groups.len(), 2);
}

#[test]
fn groups_come_in_name_order() {
    let deps = deps_of(&[
        ("User", vec!["Address", "Role"]),
        ("Post", vec!["Role"]),
        ("Address", vec![]),
        ("Role", vec![]),
    ]);
    let plan = compute_file_grouping(&deps, &vec![]);
    let primaries: Vec<&str> = plan.groups.iter().map(|g| g.primary_type.as_str()).collect();
    assert_eq!(primaries, vec!["Post", "Role", "User"]);
    assert_eq!(plan.groups[2].co_located_types, vec!["Address".to_string()]);
    assert_eq!(group(&plan, "Address"), 2);
}

#[test]
fn co_location_follows_chains() {
    // C is used only by B, B only by A: both end up in A's file.
    let deps = deps_of(&[("A", vec!["B"]), ("B", vec!["C"]), ("C", vec![])]);
    let plan = compute_file_grouping(&deps, &vec![]);
    assert_eq!(plan.groups.len(), 1);
    assert_eq!(plan.groups[0].primary_type, "A");
    assert_eq!(plan.groups[0].co_located_types, vec!["B".to_string(), "C".to_string()]);
}

#[test]
fn cycle_used_by_one_type_goes_with_it() {
    // X and Y use each other and only Top uses them.
    let deps = deps_of(&[("Top", vec!["X"]), ("X", vec!["Y"]), ("Y", vec!["X"])]);
    let cycles = vec![vec!["X".to_string(), "Y".to_string()]];
    let plan = compute_file_grouping(&deps, &cycles);
    assert_eq!(plan.groups.len(), 1);
    assert_eq!(plan.groups[0].co_located_types, vec!["X".to_string(), "Y".to_string()]);
}

#[test]
fn cycle_used_by_two_types_stays_apart() {
    let deps = deps_of(&[("A", vec!["X"]), ("B", vec!["Y"]), ("X", vec!["Y"]), ("Y", vec!["X"])]);
    let cycles = vec![vec!["X".to_string(), "Y".to_string()]];
    let plan = compute_file_grouping(&deps, &cycles);
    assert_eq!(plan.groups.len(), 4);
}

#[test]
fn self_use_does_not_co_locate() {
    // A type whose only user is itself keeps its own file.
    let deps = deps_of(&[("Node", vec!["Node"])]);
    let plan = compute_file_grouping(&deps, &vec![]);
    assert_eq!(plan.groups.len(), 1);
    assert_eq!(plan.groups[0].primary_type, "Node");
}
