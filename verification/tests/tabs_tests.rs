use monazite::tabs::TabManager;

#[test]
fn basic_lifecycle() {
    let mut tm = TabManager::new();
    let a = tm.new_tab("https://a.com");
    let b = tm.new_tab("https://b.com");
    assert_ne!(a, b);
    assert_eq!(tm.len(), 2);
    assert_eq!(tm.get(a).unwrap().frozen, false);
    let s = tm.freeze_tab(a).unwrap();
    assert!(s.frozen);
    tm.close_tab(a).unwrap();
    assert_eq!(tm.len(), 1);
    assert!(tm.close_tab(a).is_err());
}

#[test]
fn id_wraps_but_not_zero() {
    let mut tm = TabManager { next_id: u64::MAX, tabs: Default::default() };
    let id1 = tm.new_tab("x");
    let id2 = tm.new_tab("y");
    assert_eq!(id1, u64::MAX);
    assert_eq!(id2, 1);
}

#[test]
fn freezing_keeps_url_and_title() {
    let mut tm = TabManager::new();
    let id = tm.new_tab("https://kept.example");
    let st = tm.freeze_tab(id).unwrap();
    assert_eq!(st.url, "https://kept.example");
    assert_eq!(st.title, "");
    assert!(tm.freeze_tab(id + 1).is_err());
}
