#[test]
fn has_default_feature() {
    let s = monazite::port::selected_port();
    assert!(!s.is_empty());
}
