use markdown_viewer::registry::OpenFileRegistry;

#[test]
fn fresh_registry_reports_every_path_closed() {
    let registry = OpenFileRegistry::new();
    assert!(!registry.is_open(&"/x.md".to_string()));
    assert!(!registry.is_open(&"".to_string()));
}

#[test]
fn register_then_query_reports_open() {
    let mut registry = OpenFileRegistry::new();
    registry.register(&"/docs/a.md".to_string());
    assert!(registry.is_open(&"/docs/a.md".to_string()));
    assert!(!registry.is_empty());
}

#[test]
fn unregister_reports_closed_regardless_of_prior_state() {
    let mut registry = OpenFileRegistry::new();
    registry.unregister(&"/docs/a.md".to_string());
    assert!(!registry.is_open(&"/docs/a.md".to_string()));

    registry.register(&"/docs/a.md".to_string());
    registry.unregister(&"/docs/a.md".to_string());
    assert!(!registry.is_open(&"/docs/a.md".to_string()));
    assert!(registry.is_empty());
}

#[test]
fn double_registration_keeps_path_open() {
    let mut registry = OpenFileRegistry::new();
    registry.register(&"/docs/a.md".to_string());
    registry.register(&"/docs/a.md".to_string());
    assert!(registry.is_open(&"/docs/a.md".to_string()));
    // A single unregistration suffices after a double registration.
    registry.unregister(&"/docs/a.md".to_string());
    assert!(!registry.is_open(&"/docs/a.md".to_string()));
}

#[test]
fn distinct_paths_are_tracked_independently() {
    let mut registry = OpenFileRegistry::new();
    registry.register(&"/docs/a.md".to_string());
    registry.register(&"/docs/b.md".to_string());
    registry.unregister(&"/docs/a.md".to_string());
    assert!(!registry.is_open(&"/docs/a.md".to_string()));
    assert!(registry.is_open(&"/docs/b.md".to_string()));
}
