//! Where the application keeps its files, and how rendered output is named.
use vstd::prelude::*;

use crate::error::MarkError;
use crate::paths::{file_stem_of, home_directory, joined, path_file_stem, path_join};
use crate::text::{decimal, hex_padded, push_decimal, push_hex_padded, push_str, string_from_chars, to_chars};

use vstd::string::StringSliceAdditionalSpecFns;

use core::time::Duration;
use std::time::SystemTime;

verus! {

#[verifier::external_type_specification]
#[verifier::external_body]
pub struct ExSystemTime(std::time::SystemTime);

/// Paths used by the application.
pub struct AppPaths {
    /// `~/.mark`
    pub root: String,
    /// `~/.mark/rendered`
    pub rendered: String,
    /// `~/.mark/bin`
    pub bin: String,
    /// `~/.mark/config.toml`
    pub config: String,
    /// `~/.mark/render-cache.toml`
    pub render_cache: String,
}

/// `p` is the application layout under the home directory `home`.
pub open spec fn laid_out_under(p: AppPaths, home: Seq<char>) -> bool {
    &&& p.root@ == joined(home, ".mark"@)
    &&& p.rendered@ == joined(p.root@, "rendered"@)
    &&& p.bin@ == joined(p.root@, "bin"@)
    &&& p.config@ == joined(p.root@, "config.toml"@)
    &&& p.render_cache@ == joined(p.root@, "render-cache.toml"@)
}

impl AppPaths {
    /// The application layout under the home directory `home`.
    pub fn from_home(home: &str) -> (p: AppPaths)
        ensures
            laid_out_under(p, home@),
    {
        let root = path_join(home, ".mark");
        let rendered = path_join(root.as_str(), "rendered");
        let bin = path_join(root.as_str(), "bin");
        let config = path_join(root.as_str(), "config.toml");
        let render_cache = path_join(root.as_str(), "render-cache.toml");
        AppPaths { root, rendered, bin, config, render_cache }
    }

    /// The application layout under the user's home directory, or
    /// `NoHomeDir` when that directory cannot be determined.
    pub fn resolve() -> (r: Result<AppPaths, MarkError>)
        ensures
            r matches Ok(p) ==> exists|home: Seq<char>| #[trigger] laid_out_under(p, home),
            r matches Err(e) ==> e == MarkError::NoHomeDir,
    {
        match home_directory() {
            Some(home) => {
                let p = AppPaths::from_home(home.as_str());
                let r = Ok(p);
                assert(laid_out_under(r->Ok_0, home@));
                r
            },
            None => Err(MarkError::NoHomeDir),
        }
    }
}

/// The stem of `input`'s file name, or `output` when it has none.
pub open spec fn stem_or_output(input: Seq<char>) -> Seq<char> {
    match file_stem_of(input) {
        Some(s) => s,
        None => "output"@,
    }
}

/// The 32-bit hash of a byte string: starting from 0, each byte `b` turns
/// the hash `h` into `h * 31 + b`, modulo 2^32.
pub open spec fn name_hash(bytes: Seq<u8>) -> u32
    decreases bytes.len(),
{
    if bytes.len() == 0 {
        0
    } else {
        ((name_hash(bytes.drop_last()) as nat * 31 + bytes.last() as nat) % 0x1_0000_0000) as u32
    }
}

/// `<stem>-<timestamp>-<hash as 8 hex digits>`.
pub open spec fn run_name(stem: Seq<char>, timestamp: nat, hash: u32) -> Seq<char> {
    stem + "-"@ + decimal(timestamp) + "-"@ + hex_padded(hash as nat, 8)
}

/// One step of the hash.
proof fn lemma_hash_step(h: u32, b: u8)
    ensures
        h.wrapping_mul(31).wrapping_add(b as u32) == ((h as nat * 31 + b as nat) % 0x1_0000_0000) as u32,
{
    let m = h.wrapping_mul(31);
    assert(m == ((h as nat * 31) % 0x1_0000_0000) as u32);
    assert(((h as nat * 31) % 0x1_0000_0000 + b as nat) % 0x1_0000_0000 == (h as nat * 31 + b as nat)
        % 0x1_0000_0000) by (nonlinear_arith);
}

/// The hash of the UTF-8 bytes of `input`.
fn hash_of(input: &str) -> (h: u32)
    ensures
        h == name_hash(input.spec_bytes()),
{
    let bytes = input.as_bytes();
    let mut h: u32 = 0;
    let mut i: usize = 0;
    while i < bytes.len()
        invariant
            i <= bytes@.len(),
            bytes@ == input.spec_bytes(),
            h == name_hash(bytes@.take(i as int)),
        decreases bytes.len() - i,
    {
        proof {
            lemma_hash_step(h, bytes@[i as int]);
            assert(bytes@.take(i + 1).drop_last() =~= bytes@.take(i as int));
        }
        h = h.wrapping_mul(31).wrapping_add(bytes[i] as u32);
        i = i + 1;
    }
    proof {
        assert(bytes@.take(i as int) =~= bytes@);
    }
    h
}

/// Calls `SystemTime::now`. The answer depends on the clock, so nothing is
/// stated of it.
#[verifier::external_body]
fn clock_now() -> (t: SystemTime) {
    SystemTime::now()
}

/// Calls `SystemTime::duration_since` with `UNIX_EPOCH`: `None` when `t`
/// lies before the epoch. Nothing more is stated of the duration.
#[verifier::external_body]
fn since_epoch(t: &SystemTime) -> (d: Option<Duration>) {
    t.duration_since(std::time::UNIX_EPOCH).ok()
}

/// Calls `Duration::as_millis`: the whole milliseconds in `d`. Nothing is
/// stated of the number.
#[verifier::external_body]
fn whole_millis(d: &Duration) -> (ms: u128) {
    d.as_millis()
}

/// Milliseconds since the Unix epoch by the system clock, or 0 when the
/// clock reads earlier than the epoch.
fn unix_millis() -> (ms: u128) {
    let now = clock_now();
    match since_epoch(&now) {
        Some(d) => whole_millis(&d),
        None => 0,
    }
}

/// The parts of a rendered output name for `input`: its file stem (or
/// `output`), the current time in milliseconds, and the hash of the path.
pub fn output_name_parts(input: &str) -> (r: (String, u128, u32))
    ensures
        r.0@ == stem_or_output(input@),
        r.2 == name_hash(input.spec_bytes()),
{
    let stem = match path_file_stem(input) {
        Some(s) => s,
        None => String::from_str("output"),
    };
    let timestamp = unix_millis();
    let hash = hash_of(input);
    (stem, timestamp, hash)
}

/// `<stem>-<timestamp>-<hash as 8 hex digits>`, the name of a run directory.
pub fn run_name_of(stem: &str, timestamp: u128, hash: u32) -> (r: String)
    ensures
        r@ == run_name(stem@, timestamp as nat, hash),
{
    let mut v = to_chars(stem);
    push_str(&mut v, "-");
    push_decimal(&mut v, timestamp);
    push_str(&mut v, "-");
    push_hex_padded(&mut v, hash as u64, 8);
    string_from_chars(&v)
}

/// A unique output filename for a rendered HTML file:
/// `<stem>-<timestamp>-<hash>.html`, the timestamp taken from the clock.
pub fn output_filename(input: &str) -> (r: String)
    ensures
        exists|t: nat| r@ == run_name(stem_or_output(input@), t, name_hash(input.spec_bytes())) + ".html"@,
{
    let (stem, timestamp, hash) = output_name_parts(input);
    let mut v = to_chars(run_name_of(stem.as_str(), timestamp, hash).as_str());
    push_str(&mut v, ".html");
    string_from_chars(&v)
}

/// How many names a new run directory is tried under before giving up.
pub const RUN_DIR_ATTEMPTS: u32 = 10;

/// What became of one attempt to create a run directory.
#[derive(Debug, Clone, Copy, PartialEq, Eq, Structural)]
pub enum RunDirOutcome {
    /// The directory was created.
    Created,
    /// A directory of that name exists already.
    AlreadyExists,
    /// Creating it failed for another reason.
    Failed,
}

/// What to do after an attempt to create a run directory.
#[derive(Debug, Clone, Copy, PartialEq, Eq, Structural)]
pub enum RunDirAction {
    /// Use the directory just created.
    Use,
    /// Wait a moment and try again under a fresh name.
    Retry,
    /// Report the failure of this attempt.
    Fail,
}

/// The action after attempt number `attempt` (counting from 0) ended with
/// `outcome`: a name that is taken is tried again while attempts remain;
/// any other failure, or a taken name on the last attempt, is reported.
pub fn next_run_dir_action(attempt: u32, outcome: RunDirOutcome) -> (r: RunDirAction)
    ensures
        r == match outcome {
            RunDirOutcome::Created => RunDirAction::Use,
            RunDirOutcome::AlreadyExists => if attempt + 1 < RUN_DIR_ATTEMPTS {
                RunDirAction::Retry
            } else {
                RunDirAction::Fail
            },
            RunDirOutcome::Failed => RunDirAction::Fail,
        },
{
    match outcome {
        RunDirOutcome::Created => RunDirAction::Use,
        RunDirOutcome::AlreadyExists => if attempt < RUN_DIR_ATTEMPTS - 1 {
            RunDirAction::Retry
        } else {
            RunDirAction::Fail
        },
        RunDirOutcome::Failed => RunDirAction::Fail,
    }
}

} // verus!
