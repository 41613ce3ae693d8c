use monazite::permissions::{pref_key, Decision, PermissionKind, PermissionManager};

#[test]
fn default_is_prompt() {
    let pm = PermissionManager::new();
    assert_eq!(pm.check("https://example.com:443", PermissionKind::Notifications), Decision::Prompt);
}

#[test]
fn grant_then_check_is_allow() {
    let mut pm = PermissionManager::new();
    pm.grant("https://example.com:443", PermissionKind::Notifications);
    assert_eq!(pm.check("https://example.com:443", PermissionKind::Notifications), Decision::Allow);
}

#[test]
fn deny_then_check_is_deny() {
    let mut pm = PermissionManager::new();
    pm.deny("https://example.com:443", PermissionKind::Geolocation);
    assert_eq!(pm.check("https://example.com:443", PermissionKind::Geolocation), Decision::Deny);
}

#[test]
fn revoke_restores_default() {
    let mut pm = PermissionManager::new();
    pm.grant("https://example.com:443", PermissionKind::ClipboardRead);
    pm.revoke("https://example.com:443", PermissionKind::ClipboardRead);
    assert_eq!(pm.check("https://example.com:443", PermissionKind::ClipboardRead), Decision::Prompt);
}

#[test]
fn decisions_are_kept_per_origin_and_kind() {
    let mut pm = PermissionManager::new();
    pm.grant("https://a.example", PermissionKind::Camera);
    pm.deny("https://a.example", PermissionKind::Microphone);
    pm.set_default(Decision::Deny);
    assert_eq!(pm.check("https://a.example", PermissionKind::Camera), Decision::Allow);
    assert_eq!(pm.check("https://a.example", PermissionKind::Microphone), Decision::Deny);
    assert_eq!(pm.check("https://b.example", PermissionKind::Camera), Decision::Deny);
}

#[test]
fn pref_key_spells_out_origin_and_kind() {
    assert_eq!(
        pref_key("https://example.com:443", PermissionKind::Notifications),
        "perms::https://example.com:443::Notifications"
    );
    assert_eq!(PermissionKind::ClipboardWrite.as_str(), "ClipboardWrite");
    assert_eq!(Decision::default(), Decision::Prompt);
}
