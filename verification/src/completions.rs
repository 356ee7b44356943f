//! Adjusting the bash completion script that clap generates.
//!
//! The generated script offers subcommand names at the top level even after
//! a Markdown file has been given. The patch below makes the top-level
//! fallback branch offer only the file-mode flags once a file argument is
//! present, and defines the shell function that detects that case.
use vstd::prelude::*;

use crate::text::{
    find, find_exec, matches_at, find_from, find_from_exec, lemma_find_from_some, lemma_rfind_from_some,
    push_chars, push_range, push_str, replace_first, replace_first_exec, rfind, rfind_exec,
    slice_chars, string_from_chars, to_chars,
};

verus! {

/// The flags offered at the top level once a file argument is present.
pub const MARK_BASH_OPTS: &'static str = "-s -r -V -h --no-open --single --recursive --theme --version --help";

/// The line that registers the completion function; the file guard goes
/// just before it.
pub const BASH_REGISTRATION_MARKER: &'static str = "\nif [[ \"${BASH_VERSINFO[0]}\"";

/// The completion line of the top-level case that is replaced.
pub const BASH_COMPGEN_LINE: &'static str = "            COMPREPLY=( $(compgen -W \"${opts}\" -- \"${cur}\") )";

/// The start of the top-level `mark` case.
pub const BASH_TOP_LEVEL_CASE_MARKER: &'static str = "        mark)\n";

/// The start of the case that follows the top-level one.
pub const BASH_NEXT_CASE_MARKER: &'static str = "        mark__completions)";

/// A shell function that succeeds when a non-flag argument (other than the
/// value of `--theme`) appears before the word being completed.
pub const BASH_FILE_GUARD: &'static str = "
_mark_has_top_level_file() {
    local idx word expecting_value=0
    for ((idx=1; idx<COMP_CWORD; idx++)); do
        word=\"${COMP_WORDS[idx]}\"
        if [[ ${expecting_value} -eq 1 ]]; then
            expecting_value=0
            continue
        fi
        case \"${word}\" in
            --theme)
                expecting_value=1
                ;;
            -*)
                ;;
            *)
                return 0
                ;;
        esac
    done
    return 1
}
";

/// The replacement branch, up to the flag list.
pub const BASH_BRANCH_HEAD: &'static str = "            if _mark_has_top_level_file; then\n                COMPREPLY=( $(compgen -W \"";

/// The replacement branch, after the flag list.
pub const BASH_BRANCH_TAIL: &'static str = "\" -- \"${cur}\") )\n            else\n                COMPREPLY=( $(compgen -W \"${opts}\" -- \"${cur}\") )\n            fi";

/// The branch that replaces the top-level completion line.
pub open spec fn fallback_branch() -> Seq<char> {
    BASH_BRANCH_HEAD@ + MARK_BASH_OPTS@ + BASH_BRANCH_TAIL@
}

/// Where the top-level case starts.
pub open spec fn top_case_start(script: Seq<char>) -> Option<int> {
    find(script, BASH_TOP_LEVEL_CASE_MARKER@)
}

/// Where the top-level case ends: the first next-case marker after the
/// top-level case marker.
pub open spec fn top_case_end(script: Seq<char>) -> Option<int> {
    match top_case_start(script) {
        Some(top) => find_from(script, BASH_NEXT_CASE_MARKER@, top + BASH_TOP_LEVEL_CASE_MARKER@.len()),
        None => None,
    }
}

/// Where the last completion line inside the top-level case starts.
pub open spec fn fallback_line(script: Seq<char>) -> Option<int> {
    match (top_case_start(script), top_case_end(script)) {
        (Some(top), Some(end)) => match rfind(script.subrange(top, end), BASH_COMPGEN_LINE@) {
            Some(k) => Some(top + k),
            None => None,
        },
        _ => None,
    }
}

/// The script has the shape the patch expects.
pub open spec fn bash_script_patchable(script: Seq<char>) -> bool {
    fallback_line(script) is Some
}

/// The patched script: the last completion line of the top-level case
/// replaced by the file-aware branch, and the file guard placed before the
/// first registration marker (when there is one).
pub open spec fn patched_bash(script: Seq<char>) -> Seq<char> {
    let p = fallback_line(script).unwrap();
    let branched = script.subrange(0, p) + fallback_branch() + script.subrange(
        p + BASH_COMPGEN_LINE@.len(),
        script.len() as int,
    );
    replace_first(branched, BASH_REGISTRATION_MARKER@, BASH_FILE_GUARD@ + BASH_REGISTRATION_MARKER@)
}

/// Locate the completion line to replace, if the script has the expected shape.
fn locate_fallback_line(s: &Vec<char>) -> (r: Option<usize>)
    ensures
        r matches Some(p) ==> fallback_line(s@) == Some(p as int) && p + BASH_COMPGEN_LINE@.len()
            <= s@.len(),
        r is None ==> fallback_line(s@) is None,
{
    let top_marker = to_chars(BASH_TOP_LEVEL_CASE_MARKER);
    let top = match find_exec(s, &top_marker) {
        Some(t) => t,
        None => {
            return None;
        },
    };
    proof {
        lemma_find_from_some(s@, top_marker@, 0);
        assert(matches_at(s@, top_marker@, top as int));
    }
    let n = s.len();
    let after = top + top_marker.len();
    let end = match find_from_exec(s, &to_chars(BASH_NEXT_CASE_MARKER), after) {
        Some(e) => e,
        None => {
            return None;
        },
    };
    proof {
        lemma_find_from_some(s@, BASH_NEXT_CASE_MARKER@, after as int);
    }
    let case_text = slice_chars(s, top, end);
    let line = to_chars(BASH_COMPGEN_LINE);
    match rfind_exec(&case_text, &line) {
        Some(k) => {
            proof {
                lemma_rfind_from_some(case_text@, line@, case_text@.len() - line@.len());
            }
            Some(top + k)
        },
        None => None,
    }
}

/// Does the script have the shape that `patch_bash_completion` expects?
pub fn bash_completion_patchable(script: &str) -> (r: bool)
    ensures
        r == bash_script_patchable(script@),
{
    locate_fallback_line(&to_chars(script)).is_some()
}

/// Make the top-level fallback completion file-aware and add the file guard.
pub fn patch_bash_completion(script: String) -> (r: String)
    requires
        bash_script_patchable(script@),
    ensures
        r@ == patched_bash(script@),
{
    let s = to_chars(script.as_str());
    let p = match locate_fallback_line(&s) {
        Some(p) => p,
        None => {
            return script;
        },
    };
    let mut branched = slice_chars(&s, 0, p);
    push_str(&mut branched, BASH_BRANCH_HEAD);
    push_str(&mut branched, MARK_BASH_OPTS);
    push_str(&mut branched, BASH_BRANCH_TAIL);
    let line = to_chars(BASH_COMPGEN_LINE);
    let n = s.len();
    push_range(&mut branched, &s, p + line.len(), n);
    let marker = to_chars(BASH_REGISTRATION_MARKER);
    let mut guarded = to_chars(BASH_FILE_GUARD);
    push_chars(&mut guarded, &marker);
    let patched = replace_first_exec(&branched, &marker, &guarded);
    proof {
        let ps = p as int;
        assert(branched@ =~= s@.subrange(0, ps) + fallback_branch() + s@.subrange(
            ps + BASH_COMPGEN_LINE@.len(),
            s@.len() as int,
        ));
    }
    string_from_chars(&patched)
}

} // verus!
