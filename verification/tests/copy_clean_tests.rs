use mark::copy_clean::{is_supported_language, strip_full_line_comments};

#[test]
fn strip_comments_rust() {
    let code = "// comment\nfn main() {}\n// another\n";
    let result = strip_full_line_comments("rust", code);
    assert!(
        !result.contains("// comment"),
        "full-line comment should be removed"
    );
    assert!(
        !result.contains("// another"),
        "second full-line comment should be removed"
    );
    assert!(
        result.contains("fn main()"),
        "code line should be preserved"
    );
}

#[test]
fn strip_comments_python() {
    let code = "# comment\nx = 1\n# another\n";
    let result = strip_full_line_comments("python", code);
    assert!(
        !result.contains("# comment"),
        "full-line comment should be removed"
    );
    assert!(
        !result.contains("# another"),
        "second full-line comment should be removed"
    );
    assert!(result.contains("x = 1"), "code line should be preserved");
}

#[test]
fn strip_comments_bash() {
    let code = "# comment\necho hello\n# another\n";
    let result = strip_full_line_comments("bash", code);
    assert!(
        !result.contains("# comment"),
        "full-line comment should be removed"
    );
    assert!(
        result.contains("echo hello"),
        "code line should be preserved"
    );
}

#[test]
fn strip_comments_keeps_inline() {
    let code = r#"println!("hello"); // comment"#;
    let result = strip_full_line_comments("rust", code);
    assert!(
        result.contains(r#"println!("hello"); // comment"#),
        "inline comment line should be preserved as-is"
    );
}

#[test]
fn supported_languages() {
    for lang in &[
        "bash",
        "sh",
        "zsh",
        "fish",
        "powershell",
        "python",
        "rust",
        "javascript",
        "typescript",
    ] {
        assert!(is_supported_language(lang), "{lang} should be supported");
    }
}

#[test]
fn unsupported_language() {
    for lang in &["sql", "html", "css", "unknown", ""] {
        assert!(
            !is_supported_language(lang),
            "{lang} should not be supported"
        );
    }
}

#[test]
fn strip_comments_exact_output() {
    assert_eq!(
        strip_full_line_comments("rust", "// a\nfn main() {}\n    // b\nlet x = 1; // c\n"),
        "fn main() {}\nlet x = 1; // c"
    );
    assert_eq!(
        strip_full_line_comments("javascript", "// x\r\nconst a = 1;\r\n"),
        "const a = 1;"
    );
    assert_eq!(strip_full_line_comments("python", "# only\n"), "");
}

#[test]
fn strip_comments_unsupported_language_keeps_everything() {
    let code = "-- comment\nSELECT 1;\n";
    assert_eq!(strip_full_line_comments("sql", code), code);
}
