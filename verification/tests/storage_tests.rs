use mark::storage::{
    next_run_dir_action, output_filename, output_name_parts, run_name_of, AppPaths, RunDirAction,
    RunDirOutcome, RUN_DIR_ATTEMPTS,
};
use std::path::Path;

#[test]
fn app_paths_resolve_succeeds() {
    let paths = AppPaths::resolve().expect("should resolve home dir");
    assert!(Path::new(&paths.root).ends_with(".mark"));
    assert!(Path::new(&paths.rendered).ends_with("rendered"));
    assert!(Path::new(&paths.bin).ends_with("bin"));
    assert!(Path::new(&paths.config).ends_with("config.toml"));
    assert!(Path::new(&paths.render_cache).ends_with("render-cache.toml"));
}

#[test]
fn app_paths_are_under_home() {
    let home = dirs::home_dir().expect("home dir");
    let paths = AppPaths::resolve().expect("resolve");
    assert!(Path::new(&paths.root).starts_with(&home));
    assert!(Path::new(&paths.rendered).starts_with(&home));
    assert!(Path::new(&paths.bin).starts_with(&home));
    assert!(Path::new(&paths.render_cache).starts_with(&home));
}

#[test]
fn output_filename_uses_stem() {
    let name = output_filename("notes.md");
    assert!(name.starts_with("notes-"), "got: {name}");
    assert!(name.ends_with(".html"), "got: {name}");
}

#[test]
fn output_filename_is_unique_for_different_inputs() {
    let a = output_filename("a.md");
    let b = output_filename("b.md");
    assert!(a.starts_with("a-"));
    assert!(b.starts_with("b-"));
}

#[test]
fn output_filename_format_segments() {
    let name = output_filename("/tmp/my-doc.md");
    let parts: Vec<&str> = name.splitn(4, '-').collect();
    assert_eq!(parts.len(), 4, "expected 4 dash-separated segments: {name}");
    assert!(parts[3].ends_with(".html"), "got: {name}");
}

#[test]
fn app_paths_from_home_layout() {
    let p = AppPaths::from_home("/home/u");
    assert_eq!(p.root, "/home/u/.mark");
    assert_eq!(p.rendered, "/home/u/.mark/rendered");
    assert_eq!(p.bin, "/home/u/.mark/bin");
    assert_eq!(p.config, "/home/u/.mark/config.toml");
    assert_eq!(p.render_cache, "/home/u/.mark/render-cache.toml");
}

#[test]
fn output_name_parts_stem_and_hash() {
    let (stem, _ts, hash) = output_name_parts("docs/overview.md");
    assert_eq!(stem, "overview");
    let expected = "docs/overview.md"
        .bytes()
        .fold(0u32, |acc, b| acc.wrapping_mul(31).wrapping_add(b as u32));
    assert_eq!(hash, expected);
    // One byte: 0 * 31 + 'a'.
    assert_eq!(output_name_parts("a").2, 97);
    // Two bytes: 97 * 31 + 98.
    assert_eq!(output_name_parts("ab").2, 3105);
    // A path with no file name falls back to "output".
    assert_eq!(output_name_parts("/").0, "output");
}

#[test]
fn run_name_formats_timestamp_and_hash() {
    assert_eq!(run_name_of("README", 1711648523, 0xa3f2b1), "README-1711648523-00a3f2b1");
    assert_eq!(run_name_of("x", 0, 0xffff_ffff), "x-0-ffffffff");
}

#[test]
fn output_filename_carries_hash_of_path() {
    let name = output_filename("/tmp/my-doc.md");
    let (_, _, hash) = output_name_parts("/tmp/my-doc.md");
    assert!(name.ends_with(&format!("-{hash:08x}.html")), "got: {name}");
    assert!(name.starts_with("my-doc-"), "got: {name}");
}

#[test]
fn run_dir_attempts_retry_only_taken_names() {
    assert_eq!(next_run_dir_action(0, RunDirOutcome::Created), RunDirAction::Use);
    assert_eq!(next_run_dir_action(0, RunDirOutcome::AlreadyExists), RunDirAction::Retry);
    assert_eq!(next_run_dir_action(8, RunDirOutcome::AlreadyExists), RunDirAction::Retry);
    assert_eq!(
        next_run_dir_action(RUN_DIR_ATTEMPTS - 1, RunDirOutcome::AlreadyExists),
        RunDirAction::Fail
    );
    assert_eq!(next_run_dir_action(0, RunDirOutcome::Failed), RunDirAction::Fail);
    assert_eq!(RUN_DIR_ATTEMPTS, 10);
}
