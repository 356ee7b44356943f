//! Filesystem-path operations, by way of `std::path`.
//!
//! Paths are carried as `String`s. Each function below makes one call into
//! `std::path` (on a `Path` viewing the string) and converts the result back
//! to plain values; what `std::path` computes is given a name, a function of
//! the arguments alone, since its component rules take pages to state.
use std::path::Path;

use vstd::prelude::*;

verus! {

/// The final component of `path`, as `Path::file_name` gives it.
pub uninterp spec fn file_name_of(path: Seq<char>) -> Option<Seq<char>>;

/// The file name of `path` without its extension, as `Path::file_stem` gives it.
pub uninterp spec fn file_stem_of(path: Seq<char>) -> Option<Seq<char>>;

/// `path` without its final component, as `Path::parent` gives it.
pub uninterp spec fn parent_of(path: Seq<char>) -> Option<Seq<char>>;

/// The rest of `path` after the leading components `base`, as
/// `Path::strip_prefix` gives it (`None` when `base` is not a prefix).
pub uninterp spec fn stripped_prefix(path: Seq<char>, base: Seq<char>) -> Option<Seq<char>>;

/// The components of `path`, as `Path::components` yields them: the name of
/// each normal component, `None` for a root, prefix, `.` or `..` component.
pub uninterp spec fn components_of(path: Seq<char>) -> Seq<Option<Seq<char>>>;

/// Whether `a` and `b` are equal paths, as `Path`'s `==` compares them
/// (component by component).
pub uninterp spec fn same_path(a: Seq<char>, b: Seq<char>) -> bool;

/// The extension of the file name of `path`, as `Path::extension` gives it.
pub uninterp spec fn extension_of(path: Seq<char>) -> Option<Seq<char>>;

/// `path` with the extension of its file name set to `ext`, as
/// `Path::with_extension` gives it.
pub uninterp spec fn with_extension_of(path: Seq<char>, ext: Seq<char>) -> Seq<char>;

/// `part` appended to `base`, as `Path::join` gives it.
pub uninterp spec fn joined(base: Seq<char>, part: Seq<char>) -> Seq<char>;

/// The text of an optional string.
pub open spec fn opt_str(o: Option<String>) -> Option<Seq<char>> {
    match o {
        Some(s) => Some(s@),
        None => None,
    }
}

/// The texts held by a sequence of optional strings.
pub open spec fn opt_strs(v: Seq<Option<String>>) -> Seq<Option<Seq<char>>> {
    Seq::new(v.len(), |i: int| opt_str(v[i]))
}

/// Calls `Path::file_name`; the result is the name `file_name_of` of the argument.
#[verifier::external_body]
pub(crate) fn path_file_name(path: &str) -> (r: Option<String>)
    ensures
        opt_str(r) == file_name_of(path@),
{
    Path::new(path).file_name().map(|n| n.to_string_lossy().into_owned())
}

/// Calls `Path::file_stem`; the result is the name `file_stem_of` of the argument.
#[verifier::external_body]
pub(crate) fn path_file_stem(path: &str) -> (r: Option<String>)
    ensures
        opt_str(r) == file_stem_of(path@),
{
    Path::new(path).file_stem().map(|n| n.to_string_lossy().into_owned())
}

/// Calls `Path::extension`; the result is the name `extension_of` of the argument.
#[verifier::external_body]
pub(crate) fn path_extension(path: &str) -> (r: Option<String>)
    ensures
        opt_str(r) == extension_of(path@),
{
    Path::new(path).extension().map(|n| n.to_string_lossy().into_owned())
}

/// Calls `Path::parent`; the result is the name `parent_of` of the argument.
#[verifier::external_body]
pub(crate) fn path_parent(path: &str) -> (r: Option<String>)
    ensures
        opt_str(r) == parent_of(path@),
{
    Path::new(path).parent().map(|p| p.to_string_lossy().into_owned())
}

/// Calls `Path::strip_prefix`; the result is the name `stripped_prefix` of
/// the arguments.
#[verifier::external_body]
pub(crate) fn path_strip_prefix(path: &str, base: &str) -> (r: Option<String>)
    ensures
        opt_str(r) == stripped_prefix(path@, base@),
{
    Path::new(path).strip_prefix(base).ok().map(|p| p.to_string_lossy().into_owned())
}

/// Calls `Path::components`, keeping the name of each normal component and
/// `None` for every other kind; the result is the name `components_of` of
/// the argument.
#[verifier::external_body]
pub(crate) fn path_components(path: &str) -> (r: Vec<Option<String>>)
    ensures
        opt_strs(r@) == components_of(path@),
{
    Path::new(path).components().map(|c| match c {
        std::path::Component::Normal(part) => Some(part.to_string_lossy().into_owned()),
        _ => None,
    }).collect()
}

/// Calls `==` on two `Path`s; the result is the name `same_path` of the arguments.
#[verifier::external_body]
pub(crate) fn paths_equal(a: &str, b: &str) -> (r: bool)
    ensures
        r == same_path(a@, b@),
{
    Path::new(a) == Path::new(b)
}

/// Calls `Path::with_extension`; the result is the name `with_extension_of`
/// of the arguments. `Path::with_extension` panics when the extension holds
/// a path separator, so `ext` may hold neither a slash nor a backslash.
#[verifier::external_body]
pub(crate) fn path_with_extension(path: &str, ext: &str) -> (r: String)
    requires
        !ext@.contains('/'),
        !ext@.contains('\\'),
    ensures
        r@ == with_extension_of(path@, ext@),
{
    Path::new(path).with_extension(ext).to_string_lossy().into_owned()
}

/// Calls `Path::join`; the result is the name `joined` of the arguments.
#[verifier::external_body]
pub(crate) fn path_join(base: &str, part: &str) -> (r: String)
    ensures
        r@ == joined(base@, part@),
{
    Path::new(base).join(part).to_string_lossy().into_owned()
}

/// Calls `dirs::home_dir`. The answer depends on the environment of the
/// process (and on the platform's user database), so nothing is stated of it.
/// Paths are held as text here, so a home directory whose path is not valid
/// Unicode cannot be held and is reported as none, rather than replaced by a
/// different path.
#[verifier::external_body]
pub(crate) fn home_directory() -> (r: Option<String>) {
    dirs::home_dir().and_then(|p| p.into_os_string().into_string().ok())
}

} // verus!
