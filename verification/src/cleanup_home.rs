//! Locating and vetting the `.mark` directory before it is deleted.
use vstd::prelude::*;

use crate::paths::{
    file_name_of, home_directory, joined, parent_of, path_file_name, path_join, path_parent,
    paths_equal, same_path,
};
use crate::text::{push_str, str_eq, string_from_chars, to_chars};

verus! {

/// The outcome of the safety checks on a deletion target: `Ok` when the
/// final component is `.mark` and the path has a parent other than itself;
/// otherwise the message of the first check that fails.
pub open spec fn target_verdict(target: Seq<char>) -> Result<(), Seq<char>> {
    match file_name_of(target) {
        None => Err("Target path has no file name component."@),
        Some(name) => if name != ".mark"@ {
            Err("Safety check failed: target '"@ + target + "' does not end in '.mark'."@)
        } else {
            match parent_of(target) {
                None => Err("Target path has no parent directory."@),
                Some(parent) => if same_path(target, parent) {
                    Err("Safety check failed: target equals its own parent."@)
                } else {
                    Ok(())
                },
            }
        },
    }
}

/// Validate that `target` is safe to delete: its final component must be
/// `.mark`, and it must have a parent that is not the path itself.
pub fn validate_target(target: &str) -> (r: Result<(), String>)
    ensures
        r is Ok <==> target_verdict(target@) is Ok,
        r matches Err(m) ==> target_verdict(target@) == Err::<(), Seq<char>>(m@),
{
    let name = match path_file_name(target) {
        Some(n) => n,
        None => {
            return Err(String::from_str("Target path has no file name component."));
        },
    };
    if !str_eq(name.as_str(), ".mark") {
        let mut v = to_chars("Safety check failed: target '");
        push_str(&mut v, target);
        push_str(&mut v, "' does not end in '.mark'.");
        return Err(string_from_chars(&v));
    }
    let parent = match path_parent(target) {
        Some(p) => p,
        None => {
            return Err(String::from_str("Target path has no parent directory."));
        },
    };
    if paths_equal(target, parent.as_str()) {
        return Err(String::from_str("Safety check failed: target equals its own parent."));
    }
    Ok(())
}

/// The `.mark` directory inside the home directory `home`, or the error
/// reported when there is no home directory.
pub fn app_dir_from_home(home: Option<String>) -> (r: Result<String, String>)
    ensures
        home matches Some(h) ==> (r matches Ok(d) && d@ == joined(h@, ".mark"@)),
        home is None ==> (r matches Err(m) && m@ == "Cannot determine home directory."@),
{
    match home {
        Some(h) => Ok(path_join(h.as_str(), ".mark")),
        None => Err(String::from_str("Cannot determine home directory.")),
    }
}

/// The `.mark` directory inside the user's home directory.
pub fn resolve_app_dir() -> (r: Result<String, String>)
    ensures
        r matches Ok(d) ==> exists|h: Seq<char>| d@ == #[trigger] joined(h, ".mark"@),
        r matches Err(m) ==> m@ == "Cannot determine home directory."@,
{
    app_dir_from_home(home_directory())
}

} // verus!
