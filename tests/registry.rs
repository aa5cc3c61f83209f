use rspack_plugin_javascript::OffsetRegistry;

#[test]
fn registering_twice_keeps_the_first_offset() {
    let mut registry = OffsetRegistry::new();
    assert!(registry.register("src/a.js", 10));
    assert!(registry.register("src/b.js", 20));
    assert!(!registry.register("src/a.js", 99));
    assert_eq!(registry.get("src/a.js"), Some(10));
    assert_eq!(registry.get("src/b.js"), Some(20));
    assert_eq!(registry.get("src/c.js"), None);
}

#[test]
fn empty_registry_knows_no_name() {
    let registry = OffsetRegistry::new();
    assert_eq!(registry.get(""), None);
}

