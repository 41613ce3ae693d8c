use monazite::extensions::{ExtensionError, ExtensionRegistry};

#[test]
fn install_query_and_unload() {
    let mut reg = ExtensionRegistry::new();
    let a = reg.register("/ext/demo", "demo");
    let b = reg.register("/ext/other", "other");
    assert_ne!(a, b);
    assert_eq!(reg.len(), 2);
    assert!(reg.is_loaded(a));
    assert_eq!(reg.list_ids(), vec![a, b]);
    reg.unload(a).unwrap();
    assert!(!reg.is_loaded(a));
    assert_eq!(reg.len(), 1);
    let err = reg.unload(a).unwrap_err();
    assert_eq!(err, ExtensionError::UnknownId);
    assert_eq!(err.message(), "unknown extension id");
}
