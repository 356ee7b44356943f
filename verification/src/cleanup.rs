//! The rules by which old rendered output is deleted.
//!
//! Walking the rendered directory, reading modification times and deleting
//! are file-system work done by the caller; the decisions it makes on what
//! it finds are the functions below.
use vstd::prelude::*;

use crate::paths::{extension_of, parent_of, path_extension, path_parent, paths_equal, same_path};
use crate::text::str_eq;

verus! {

/// Age threshold for rendered output: 30 days, in seconds.
pub const MAX_AGE_SECS: u64 = 30 * 24 * 60 * 60;

/// Nanoseconds in a second.
pub const NANOS_PER_SEC: u128 = 1_000_000_000;

/// What a directory entry is, as its file type reports it.
#[derive(Debug, Clone, Copy, PartialEq, Eq, Structural)]
pub enum EntryKind {
    Symlink,
    Directory,
    File,
    Other,
}

/// What the cleanup does with a direct child of the rendered directory.
#[derive(Debug, Clone, Copy, PartialEq, Eq, Structural)]
pub enum EntryPlan {
    /// Leave it alone.
    Skip,
    /// A run directory: check that it lies inside the rendered directory,
    /// then age it by the oldest modification time in its tree.
    RunDirectory,
    /// A top-level `.html` file of the older layout: age it by its own
    /// modification time.
    LegacyHtml,
}

/// The plan for an entry of kind `kind` at `path`: symlinks are skipped,
/// directories are run directories, files with extension `html` are legacy
/// output, anything else is skipped.
pub open spec fn entry_plan(kind: EntryKind, path: Seq<char>) -> EntryPlan {
    match kind {
        EntryKind::Directory => EntryPlan::RunDirectory,
        EntryKind::File => if extension_of(path) == Some("html"@) {
            EntryPlan::LegacyHtml
        } else {
            EntryPlan::Skip
        },
        _ => EntryPlan::Skip,
    }
}

/// Decide what to do with the entry of kind `kind` at `path`.
pub fn plan_entry(kind: EntryKind, path: &str) -> (r: EntryPlan)
    ensures
        r == entry_plan(kind, path@),
{
    match kind {
        EntryKind::Directory => EntryPlan::RunDirectory,
        EntryKind::File => match path_extension(path) {
            Some(ext) => if str_eq(ext.as_str(), "html") {
                EntryPlan::LegacyHtml
            } else {
                EntryPlan::Skip
            },
            None => EntryPlan::Skip,
        },
        _ => EntryPlan::Skip,
    }
}

/// Is the canonical path `entry` a direct child of the canonical path
/// `base`? Only such directories may be deleted.
pub fn is_direct_child(entry: &str, base: &str) -> (r: bool)
    ensures
        r == (parent_of(entry@) matches Some(p) && same_path(p, base@)),
{
    match path_parent(entry) {
        Some(p) => paths_equal(p.as_str(), base),
        None => false,
    }
}

/// How long before `now` the time `then` was, in nanoseconds, both given
/// as nanoseconds since the Unix epoch; zero when `then` is not earlier.
pub fn age_nanos(now: i128, then: i128) -> (r: u128)
    ensures
        r == if then < now {
            now - then
        } else {
            0
        },
{
    if then < now {
        let d: u128 = if then >= 0 {
            (now - then) as u128
        } else if now < 0 {
            (now - then) as u128
        } else {
            (now as u128) + ((-(then + 1)) as u128) + 1
        };
        d
    } else {
        0
    }
}

/// Is output of age `age` (in nanoseconds) older than the threshold?
pub fn is_expired(age: u128) -> (r: bool)
    ensures
        r == (age > MAX_AGE_SECS as u128 * NANOS_PER_SEC),
{
    age > (MAX_AGE_SECS as u128) * NANOS_PER_SEC
}

/// How an entry of a run directory's tree counts towards its oldest
/// modification time.
#[derive(Debug, Clone, Copy, PartialEq, Eq, Structural)]
pub enum TreeVisit {
    /// It counts as modified just now.
    Now,
    /// It does not count at all.
    Skip,
    /// Its own modification time counts, and for a directory those of its
    /// entries too.
    Inspect,
}

/// How an entry counts: a symlink at the root of the tree counts as just
/// modified, a symlink below the root is skipped (never followed), anything
/// else is inspected.
pub fn tree_visit(at_root: bool, is_symlink: bool) -> (r: TreeVisit)
    ensures
        r == if !is_symlink {
            TreeVisit::Inspect
        } else if at_root {
            TreeVisit::Now
        } else {
            TreeVisit::Skip
        },
{
    if !is_symlink {
        TreeVisit::Inspect
    } else if at_root {
        TreeVisit::Now
    } else {
        TreeVisit::Skip
    }
}

/// The oldest of a tree's own modification time and those of its subtrees
/// (times in nanoseconds since the Unix epoch).
pub fn oldest_of(own: i128, subtrees: &Vec<i128>) -> (r: i128)
    ensures
        r <= own,
        forall|i: int| 0 <= i < subtrees@.len() ==> r <= #[trigger] subtrees@[i],
        r == own || exists|i: int| 0 <= i < subtrees@.len() && r == #[trigger] subtrees@[i],
{
    let mut oldest = own;
    let mut k: usize = 0;
    while k < subtrees.len()
        invariant
            k <= subtrees@.len(),
            oldest <= own,
            forall|i: int| 0 <= i < k ==> oldest <= #[trigger] subtrees@[i],
            oldest == own || exists|i: int| 0 <= i < k && oldest == #[trigger] subtrees@[i],
        decreases subtrees.len() - k,
    {
        if subtrees[k] < oldest {
            oldest = subtrees[k];
        }
        k = k + 1;
    }
    oldest
}

} // verus!
