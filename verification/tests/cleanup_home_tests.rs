use mark::cleanup_home::{app_dir_from_home, resolve_app_dir, validate_target};
use std::path::Path;

#[test]
fn resolve_app_dir_ends_with_mark() {
    let dir = resolve_app_dir().expect("resolve");
    assert_eq!(
        Path::new(&dir).file_name().and_then(|n| n.to_str()),
        Some(".mark")
    );
}

#[test]
fn resolve_app_dir_is_under_home() {
    let home = dirs::home_dir().expect("home");
    let dir = resolve_app_dir().expect("resolve");
    assert!(Path::new(&dir).starts_with(&home));
}

#[test]
fn validate_target_accepts_dot_mark() {
    let home = dirs::home_dir().expect("home");
    let target = home.join(".mark");
    validate_target(&target.to_string_lossy()).expect("should be valid");
}

#[test]
fn validate_target_rejects_wrong_name() {
    let home = dirs::home_dir().expect("home");
    let target = home.join("other");
    let err = validate_target(&target.to_string_lossy()).unwrap_err();
    assert!(err.to_string().contains("Safety check failed"));
}

#[test]
fn validate_target_rejects_root() {
    let target = ".mark";
    validate_target(target).expect("relative .mark is acceptable");
}

#[test]
fn validate_target_messages() {
    assert_eq!(
        validate_target("/"),
        Err("Target path has no file name component.".to_string())
    );
    assert_eq!(
        validate_target("/home/u/other"),
        Err("Safety check failed: target '/home/u/other' does not end in '.mark'.".to_string())
    );
    assert_eq!(validate_target("/home/u/.mark"), Ok(()));
}

#[test]
fn app_dir_from_home_joins_or_reports() {
    assert_eq!(
        app_dir_from_home(Some("/home/u".to_string())),
        Ok("/home/u/.mark".to_string())
    );
    assert_eq!(
        app_dir_from_home(None),
        Err("Cannot determine home directory.".to_string())
    );
}
