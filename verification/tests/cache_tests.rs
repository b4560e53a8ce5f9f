use evenframe_core::named_map::NamedMap;
use evenframe_core::tooling::cache::{describe_changes, relative_key, CacheStatus, ScanCache};
use evenframe_core::tooling::registry::ScanRegistry;

fn hashes(entries: &[(&str, &str)]) -> NamedMap<String> {
    let mut m = NamedMap::new();
    for (path, hash) in entries {
        m.insert(path.to_string(), hash.to_string());
    }
    m
}

#[test]
fn unchanged_inputs_are_current() {
    let recorded = hashes(&[("Cargo.toml", "a"), ("src/lib.rs", "b")]);
    let current = hashes(&[("src/lib.rs", "b"), ("Cargo.toml", "a")]);
    assert_eq!(describe_changes(&recorded, &current), None);
}

#[test]
fn a_single_change_names_the_file() {
    let recorded = hashes(&[("Cargo.toml", "a"), ("src/lib.rs", "b")]);
    let current = hashes(&[("Cargo.toml", "a"), ("src/lib.rs", "c")]);
    assert_eq!(
        describe_changes(&recorded, &current),
        Some("src/lib.rs changed".to_string())
    );
}

#[test]
fn several_changes_are_counted_in_order() {
    let recorded = hashes(&[("a.rs", "1"), ("b.rs", "2"), ("gone.rs", "3"), ("old.rs", "4")]);
    let current = hashes(&[("a.rs", "9"), ("b.rs", "8"), ("new.rs", "5")]);
    assert_eq!(
        describe_changes(&recorded, &current),
        Some("2 files changed, new.rs was added, 2 files removed".to_string())
    );
}

#[test]
fn additions_alone_are_told() {
    let recorded = hashes(&[]);
    let current = hashes(&[("x.rs", "1"), ("y.rs", "2")]);
    assert_eq!(describe_changes(&recorded, &current), Some("2 files added".to_string()));
    assert_eq!(
        describe_changes(&current, &hashes(&[("y.rs", "2")])),
        Some("x.rs was removed".to_string())
    );
}

#[test]
fn inputs_are_keyed_relative_to_the_root() {
    assert_eq!(relative_key("/proj", "/proj/src/lib.rs"), "src/lib.rs");
    assert_eq!(relative_key("/proj/", "/proj/./src//lib.rs"), "src/lib.rs");
    assert_eq!(relative_key(".", "./crates/a/Cargo.toml"), "crates/a/Cargo.toml");
    assert_eq!(relative_key("/proj", "/proj"), "");
    assert_eq!(relative_key("/proj", "/elsewhere/x.rs"), "/elsewhere/x.rs");
    assert_eq!(relative_key("/proj", "/projects//x.rs"), "/projects//x.rs");
    assert_eq!(relative_key("/proj", "/proj/src/models/post.rs"), "src/models/post.rs");
    assert_eq!(relative_key("/proj", "/other/x.rs"), "/other/x.rs");
}

#[test]
fn crate_cache_dir_sits_under_the_target_dir() {
    use_crate_cache_dir();
}

fn use_crate_cache_dir() {
    assert_eq!(
        evenframe_core::tooling::expansion_cache::crate_cache_dir("/proj/target", "my_crate"),
        "/proj/target/.evenframe-expanded/my_crate"
    );
    assert_eq!(
        evenframe_core::tooling::expansion_cache::crate_cache_dir("target/", "c"),
        "target/.evenframe-expanded/c"
    );
}

fn recorded_cache(version: &str) -> ScanCache {
    ScanCache::from_scan(
        version,
        hashes(&[("src/lib.rs", "a"), ("src/models/post.rs", "b")]),
        NamedMap::new(),
        NamedMap::new(),
    )
}

#[test]
fn a_cache_of_the_current_inputs_is_current() {
    let cache = recorded_cache("1.2.0");
    let now = hashes(&[("src/lib.rs", "a"), ("src/models/post.rs", "b")]);
    assert_eq!(cache.stale_reason("1.2.0", &now), None);
    assert!(matches!(ScanCache::status(Some(cache), "1.2.0", &now), CacheStatus::Current(_)));
    assert!(matches!(ScanCache::status(None, "1.2.0", &now), CacheStatus::Absent));
    assert_eq!(ScanCache::path("/work/app"), "/work/app/.evenframe/cache.json");
}

#[test]
fn changed_inputs_make_the_cache_stale() {
    let cache = recorded_cache("1.2.0");
    let now = hashes(&[("src/models/comment.rs", "c"), ("src/models/post.rs", "b2")]);
    assert_eq!(
        cache.stale_reason("1.2.0", &now).as_deref(),
        Some("src/models/post.rs changed, src/models/comment.rs was added, src/lib.rs was removed")
    );
    match ScanCache::status(Some(recorded_cache("1.2.0")), "1.2.0", &now) {
        CacheStatus::Stale(reason) => assert!(reason.starts_with("src/models/post.rs changed")),
        other => panic!("expected a stale cache, got {other:?}"),
    }
    let err = ScanCache::load_current(cache, "1.2.0", &now).unwrap_err();
    assert!(err.starts_with("The scan cache is stale: src/models/post.rs changed"), "{err}");
    assert!(err.ends_with(". Run `evenframe validate --types-only` to refresh it."), "{err}");
}

#[test]
fn cache_version_and_format_mismatches_are_stale() {
    let cache = recorded_cache("0.0.1");
    let now = hashes(&[("src/lib.rs", "a"), ("src/models/post.rs", "b")]);
    assert_eq!(
        cache.stale_reason("1.2.0", &now).as_deref(),
        Some("it was written by evenframe 0.0.1 (this is 1.2.0)")
    );
    let mut old = recorded_cache("1.2.0");
    old.format_version = 2;
    assert_eq!(old.stale_reason("1.2.0", &now).as_deref(), Some("the cache format changed (v2 → v1)"));
    let (enums, objects) = recorded_cache("1.2.0").into_configs();
    assert!(enums.is_empty() && objects.is_empty());
}

#[test]
fn registry_staleness_names_the_registry() {
    let now = hashes(&[("src/lib.rs", "a")]);
    let registry = ScanRegistry::from_scan("0.0.1", hashes(&[("src/lib.rs", "a")]), NamedMap::new(), NamedMap::new());
    let reason = registry.stale_reason("1.2.0", &now).unwrap();
    assert!(reason.contains("written by evenframe 0.0.1"), "{reason}");
    assert_eq!(
        ScanRegistry::load_current(registry, "1.2.0", &now).unwrap_err(),
        "The scan registry is stale: it was written by evenframe 0.0.1 (this is 1.2.0). Run `evenframe schemasync` to refresh it."
    );
    let mut old = ScanRegistry::from_scan("1.2.0", hashes(&[("src/lib.rs", "a")]), NamedMap::new(), NamedMap::new());
    old.format_version = 0;
    assert_eq!(old.stale_reason("1.2.0", &now).as_deref(), Some("the registry format changed (v0 → v1)"));
    let current = ScanRegistry::from_scan("1.2.0", hashes(&[("src/lib.rs", "a")]), NamedMap::new(), NamedMap::new());
    assert!(ScanRegistry::load_current(current, "1.2.0", &now).is_ok());
    assert_eq!(ScanRegistry::path("root"), "root/.evenframe/registry.json");
}
