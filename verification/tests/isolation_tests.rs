use monazite::isolation::{ProcessMap, SiteKey};

#[test]
fn different_sites_get_different_pids_until_cap() {
    let mut pm = ProcessMap::new(2);
    let p1 = pm.allocate_process("https://a.com/");
    let p2 = pm.allocate_process("https://b.com/");
    assert_ne!(p1, p2);
    // Third unique site should reuse least loaded (either p1 or p2)
    let p3 = pm.allocate_process("https://c.com/");
    assert!(p3 == p1 || p3 == p2);
}

#[test]
fn same_site_reuses() {
    let mut pm = ProcessMap::new(4);
    let p1 = pm.allocate_process("http://example.com:8080/page");
    let p2 = pm.allocate_process("http://example.com:8080/other");
    assert_eq!(p1, p2);
}

#[test]
fn parse_splits_scheme_host_and_port() {
    let k = SiteKey::parse("HTTPS://Example.COM:8443/path?q").unwrap();
    assert_eq!(k.scheme, "https");
    assert_eq!(k.host, "example.com");
    assert_eq!(k.port, 8443);
}

#[test]
fn parse_uses_scheme_default_ports() {
    assert_eq!(SiteKey::parse("http://h/").unwrap().port, 80);
    assert_eq!(SiteKey::parse("https://h").unwrap().port, 443);
    assert_eq!(SiteKey::parse("ftp://h").unwrap().port, 0);
    // an out-of-range or missing port falls back to the default
    assert_eq!(SiteKey::parse("http://h:99999").unwrap().port, 80);
    assert_eq!(SiteKey::parse("http://h:").unwrap().port, 80);
}

#[test]
fn parse_rejects_missing_scheme_or_host() {
    assert!(SiteKey::parse("example.com/page").is_none());
    assert!(SiteKey::parse("http:///path").is_none());
}

#[test]
fn release_pid_counts_down_to_zero() {
    let mut pm = ProcessMap::new(4);
    let p = pm.allocate_process("https://a.com/");
    let p2 = pm.allocate_process("https://a.com/again");
    assert_eq!(p, p2);
    assert_eq!(pm.release_pid(p), 1);
    assert_eq!(pm.release_pid(p), 0);
    assert_eq!(pm.release_pid(p), 0);
    assert_eq!(pm.release_pid(12345), 0);
}
