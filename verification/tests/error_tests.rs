use mark::error::MarkError;

#[test]
fn error_messages() {
    assert_eq!(
        MarkError::InputNotFound("docs/a.md".to_string()).message(),
        "Input file not found: docs/a.md"
    );
    assert_eq!(MarkError::NoHomeDir.message(), "Cannot determine home directory");
    assert_eq!(
        MarkError::Io("permission denied".to_string()).message(),
        "IO error: permission denied"
    );
    assert_eq!(
        MarkError::Config("bad toml".to_string()).message(),
        "Config error: bad toml"
    );
}
