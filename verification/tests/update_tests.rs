use monazite::update::{apply_patch, check_update};

#[test]
fn check_reports_the_placeholder_version() {
    let info = check_update().unwrap();
    assert_eq!(info.version, "0.0.0-stub");
}

#[test]
fn any_patch_is_accepted() {
    assert!(apply_patch(&[1, 2, 3]).is_ok());
    assert!(apply_patch(&[]).is_ok());
}
