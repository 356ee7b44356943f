use mark::completions::{
    bash_completion_patchable, patch_bash_completion, BASH_COMPGEN_LINE, BASH_FILE_GUARD,
    BASH_REGISTRATION_MARKER, MARK_BASH_OPTS,
};

fn sample_script() -> String {
    format!(
        "_mark() {{\n    case \"${{cmd}}\" in\n        mark)\n            opts=\"-h completions\"\n            if [[ ${{cur}} == -* ]] ; then\n{line}\n                return 0\n            fi\n{line}\n            return 0\n            ;;\n        mark__completions)\n{line}\n            ;;\n    esac\n}}\n\nif [[ \"${{BASH_VERSINFO[0]}}\" -eq 4 ]]; then\n    complete -F _mark mark\nfi\n",
        line = BASH_COMPGEN_LINE
    )
}

#[test]
fn patch_replaces_last_top_level_completion_line() {
    let script = sample_script();
    assert!(bash_completion_patchable(&script));
    let patched = patch_bash_completion(script.clone());

    let branch = format!(
        "            if _mark_has_top_level_file; then\n                COMPREPLY=( $(compgen -W \"{MARK_BASH_OPTS}\" -- \"${{cur}}\") )\n            else\n                COMPREPLY=( $(compgen -W \"${{opts}}\" -- \"${{cur}}\") )\n            fi"
    );
    let expected = format!(
        "_mark() {{\n    case \"${{cmd}}\" in\n        mark)\n            opts=\"-h completions\"\n            if [[ ${{cur}} == -* ]] ; then\n{line}\n                return 0\n            fi\n{branch}\n            return 0\n            ;;\n        mark__completions)\n{line}\n            ;;\n    esac\n}}\n{guard}\nif [[ \"${{BASH_VERSINFO[0]}}\" -eq 4 ]]; then\n    complete -F _mark mark\nfi\n",
        line = BASH_COMPGEN_LINE,
        guard = BASH_FILE_GUARD,
    );
    assert_eq!(patched, expected);
    assert_eq!(patched.matches("_mark_has_top_level_file() {").count(), 1);
    assert!(patched.contains(&format!("{BASH_FILE_GUARD}{BASH_REGISTRATION_MARKER}")));
}

#[test]
fn script_without_markers_is_not_patchable() {
    assert!(!bash_completion_patchable(""));
    assert!(!bash_completion_patchable("        mark)\n        mark__completions)"));
    let only_top = format!("        mark)\n{BASH_COMPGEN_LINE}\n");
    assert!(!bash_completion_patchable(&only_top));
}
