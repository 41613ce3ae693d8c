use monazite::scripts::{extract_host, RunAt, UserScriptRegistry, World};

#[test]
fn register_and_query_by_run_at() {
    let mut reg = UserScriptRegistry::new();
    let id1 = reg.register("https://example.com/", RunAt::DocumentStart, World::Isolated, "console.log('a')");
    let id2 = reg.register("example.com", RunAt::DocumentEnd, World::Main, "console.log('b')");
    assert_eq!(reg.len(), 2);

    let url = "https://example.com/page";
    let start = reg.scripts_for_url(url, RunAt::DocumentStart);
    assert_eq!(start.len(), 1);
    assert_eq!(start[0].id, id1);

    let end = reg.scripts_for_url(url, RunAt::DocumentEnd);
    assert_eq!(end.len(), 1);
    assert_eq!(end[0].id, id2);
}

#[test]
fn remove_works() {
    let mut reg = UserScriptRegistry::new();
    let id = reg.register("rust-lang.org", RunAt::DocumentStart, World::Isolated, "1");
    assert_eq!(reg.len(), 1);
    assert!(reg.remove(id));
    assert_eq!(reg.len(), 0);
    assert!(!reg.remove(id));
}

#[test]
fn host_extraction_is_exact() {
    assert_eq!(extract_host("https://example.com/page"), "example.com");
    assert_eq!(extract_host("https://example.com:8080"), "example.com:8080");
    assert_eq!(extract_host("no-scheme/path"), "");
}
