//! Render cache: remembers the last rendered HTML output for each source file.
//!
//! The cache is keyed by the source path as text. On disk it is a TOML table
//! from source path to entry; reading and writing that file is the caller's
//! business, this module holds the entries and the rules for changing them.
use vstd::prelude::*;

use crate::assoc::{assoc, lemma_assoc_absent, lemma_assoc_index, lemma_assoc_push, lemma_assoc_update};
use crate::text::str_eq;

verus! {

/// A single cache entry for one source file.
#[derive(Debug, Clone, PartialEq, Eq)]
pub struct CacheEntry {
    /// Path to the rendered HTML file.
    pub rendered_html: String,
    /// Unix timestamp (seconds) of the source file's mtime at render time.
    pub source_mtime_secs: u64,
}

impl View for CacheEntry {
    type V = (Seq<char>, u64);

    open spec fn view(&self) -> (Seq<char>, u64) {
        (self.rendered_html@, self.source_mtime_secs)
    }
}

/// A copy of `e` with the same contents.
fn duplicate(e: &CacheEntry) -> (r: CacheEntry)
    ensures
        r@ == e@,
{
    CacheEntry { rendered_html: e.rendered_html.clone(), source_mtime_secs: e.source_mtime_secs }
}

/// The elements of `s` whose flag in `keep` is set, in their order.
pub open spec fn kept<T>(s: Seq<T>, keep: Seq<bool>) -> Seq<T>
    decreases s.len(),
{
    if s.len() == 0 {
        Seq::empty()
    } else {
        let rest = kept(s.drop_last(), keep.drop_last());
        if keep.last() {
            rest.push(s.last())
        } else {
            rest
        }
    }
}

/// No two pairs share a key.
pub open spec fn keys_distinct<V>(s: Seq<(Seq<char>, V)>) -> bool {
    forall|i: int, j: int| 0 <= i < j < s.len() ==> #[trigger] s[i].0 != #[trigger] s[j].0
}

/// Every element that `kept` keeps is an element of the original.
proof fn lemma_kept_members<T>(s: Seq<T>, keep: Seq<bool>)
    requires
        keep.len() == s.len(),
    ensures
        forall|j: int| 0 <= j < kept(s, keep).len() ==> s.contains(#[trigger] kept(s, keep)[j]),
    decreases s.len(),
{
    if s.len() > 0 {
        let rest = kept(s.drop_last(), keep.drop_last());
        lemma_kept_members(s.drop_last(), keep.drop_last());
        assert forall|j: int| 0 <= j < kept(s, keep).len() implies s.contains(
            #[trigger] kept(s, keep)[j],
        ) by {
            if j < rest.len() {
                let x = rest[j];
                assert(s.drop_last().contains(x));
                let i = choose|i: int| 0 <= i < s.drop_last().len() && s.drop_last()[i] == x;
                assert(s[i] == x);
            } else {
                assert(kept(s, keep)[j] == s[s.len() - 1]);
            }
        }
    }
}

/// Keeping some pairs of a list with distinct keys leaves distinct keys.
proof fn lemma_kept_distinct<V>(s: Seq<(Seq<char>, V)>, keep: Seq<bool>)
    requires
        keep.len() == s.len(),
        keys_distinct(s),
    ensures
        keys_distinct(kept(s, keep)),
    decreases s.len(),
{
    if s.len() > 0 {
        let d = s.drop_last();
        let rest = kept(d, keep.drop_last());
        assert(keys_distinct(d));
        lemma_kept_distinct(d, keep.drop_last());
        lemma_kept_members(d, keep.drop_last());
        if keep.last() {
            let t = rest.push(s.last());
            assert forall|i: int, j: int| 0 <= i < j < t.len() implies #[trigger] t[i].0
                != #[trigger] t[j].0 by {
                if j == t.len() - 1 {
                    assert(d.contains(rest[i]));
                    let a = choose|a: int| 0 <= a < d.len() && d[a] == rest[i];
                    assert(s[a] == rest[i]);
                    assert(s[s.len() - 1] == t[j]);
                } else {
                    assert(t[i] == rest[i]);
                    assert(t[j] == rest[j]);
                }
            }
        }
    }
}

/// In a list with distinct keys, the value found for `k` is the value of
/// the pair holding `k`.
proof fn lemma_assoc_distinct<V>(s: Seq<(Seq<char>, V)>, k: Seq<char>)
    requires
        keys_distinct(s),
    ensures
        forall|i: int| 0 <= i < s.len() && #[trigger] s[i].0 == k ==> assoc(s, k) == Some(s[i].1),
        assoc(s, k) matches Some(v) ==> exists|i: int| 0 <= i < s.len() && #[trigger] s[i] == (k, v),
    decreases s.len(),
{
    assert forall|i: int| 0 <= i < s.len() && #[trigger] s[i].0 == k implies assoc(s, k) == Some(
        s[i].1,
    ) by {
        lemma_assoc_index(s, k, i);
    }
    if s.len() > 0 {
        let t = s.drop_first();
        assert(keys_distinct(t)) by {
            assert forall|i: int, j: int| 0 <= i < j < t.len() implies #[trigger] t[i].0
                != #[trigger] t[j].0 by {
                assert(t[i] == s[i + 1]);
                assert(t[j] == s[j + 1]);
            }
        }
        lemma_assoc_distinct(t, k);
        if s[0].0 != k {
            match assoc(t, k) {
                Some(v) => {
                    let i = choose|i: int| 0 <= i < t.len() && #[trigger] t[i] == (k, v);
                    assert(s[i + 1] == (k, v));
                },
                None => {},
            }
        } else {
            assert(s[0] == (k, s[0].1));
        }
    }
}

/// In-memory render cache, saved as a TOML file at `cache_path`.
pub struct RenderCache {
    entries: Vec<(String, CacheEntry)>,
    cache_path: String,
}

impl RenderCache {
    /// The (source path, entry) pairs, in the order they were first set.
    pub closed spec fn pairs(&self) -> Seq<(Seq<char>, (Seq<char>, u64))> {
        Seq::new(self.entries@.len(), |i: int| (self.entries@[i].0@, self.entries@[i].1@))
    }

    /// The entry held for the source path `key`, if any.
    pub open spec fn lookup(&self, key: Seq<char>) -> Option<(Seq<char>, u64)> {
        assoc(self.pairs(), key)
    }

    /// Where the cache is saved.
    pub closed spec fn location(&self) -> Seq<char> {
        self.cache_path@
    }

    /// Each source path has at most one entry.
    pub open spec fn wf(&self) -> bool {
        keys_distinct(self.pairs())
    }

    /// An empty cache to be saved at `cache_path`.
    pub fn new(cache_path: String) -> (c: RenderCache)
        ensures
            c.wf(),
            c.pairs() == Seq::<(Seq<char>, (Seq<char>, u64))>::empty(),
            forall|k: Seq<char>| #[trigger] c.lookup(k) is None,
            c.location() == cache_path@,
    {
        let c = RenderCache { entries: Vec::new(), cache_path };
        assert(c.pairs() =~= Seq::<(Seq<char>, (Seq<char>, u64))>::empty());
        c
    }

    /// Where the cache is saved.
    pub fn cache_path(&self) -> (r: &str)
        ensures
            r@ == self.location(),
    {
        self.cache_path.as_str()
    }

    /// The (source path, entry) pairs.
    pub fn entries(&self) -> (r: &Vec<(String, CacheEntry)>)
        ensures
            r@.len() == self.pairs().len(),
            forall|i: int| 0 <= i < r@.len() ==> (#[trigger] r@[i].0@, r@[i].1@) == self.pairs()[i],
    {
        &self.entries
    }

    /// Look up the cache entry for `source`.
    pub fn get(&self, source: &str) -> (r: Option<&CacheEntry>)
        ensures
            r matches Some(e) ==> self.lookup(source@) == Some(e@),
            r is None ==> self.lookup(source@) is None,
    {
        let ghost e = self.pairs();
        let mut i: usize = 0;
        while i < self.entries.len()
            invariant
                i <= self.entries.len(),
                e == self.pairs(),
                forall|j: int| 0 <= j < i ==> e[j].0 != source@,
            decreases self.entries.len() - i,
        {
            if str_eq(self.entries[i].0.as_str(), source) {
                proof {
                    lemma_assoc_index(e, source@, i as int);
                }
                return Some(&self.entries[i].1);
            }
            i = i + 1;
        }
        proof {
            lemma_assoc_absent(e, source@);
        }
        None
    }

    /// The entry for `source` if it was made from the source as last
    /// modified at `mtime_secs`: a render that can be reused.
    pub fn fresh_entry(&self, source: &str, mtime_secs: u64) -> (r: Option<&CacheEntry>)
        ensures
            r matches Some(e) ==> self.lookup(source@) == Some(e@) && e.source_mtime_secs == mtime_secs,
            r is None ==> !(self.lookup(source@) matches Some(v) && v.1 == mtime_secs),
    {
        match self.get(source) {
            Some(e) => if e.source_mtime_secs == mtime_secs {
                Some(e)
            } else {
                None
            },
            None => None,
        }
    }

    /// Insert or update the cache entry for `source`.
    pub fn set(&mut self, source: &str, entry: CacheEntry)
        ensures
            forall|k: Seq<char>| #[trigger] final(self).lookup(k) == if k == source@ {
                Some(entry@)
            } else {
                old(self).lookup(k)
            },
            old(self).wf() ==> final(self).wf(),
            final(self).location() == old(self).location(),
    {
        let ghost e = self.pairs();
        let ghost ev = entry@;
        let mut i: usize = 0;
        while i < self.entries.len()
            invariant
                i <= self.entries.len(),
                e == self.pairs(),
                e == old(self).pairs(),
                self.cache_path == old(self).cache_path,
                ev == entry@,
                forall|j: int| 0 <= j < i ==> e[j].0 != source@,
            decreases self.entries.len() - i,
        {
            if str_eq(self.entries[i].0.as_str(), source) {
                proof {
                    lemma_assoc_index(e, source@, i as int);
                }
                let k2 = self.entries[i].0.clone();
                self.entries.set(i, (k2, entry));
                proof {
                    assert(self.pairs() =~= e.update(i as int, (e[i as int].0, ev)));
                    assert forall|k: Seq<char>| #[trigger] self.lookup(k) == if k == source@ {
                        Some(ev)
                    } else {
                        old(self).lookup(k)
                    } by {
                        lemma_assoc_update(e, i as int, ev, k);
                    }
                    if keys_distinct(e) {
                        let t = self.pairs();
                        assert forall|a: int, b: int| 0 <= a < b < t.len() implies #[trigger] t[a].0
                            != #[trigger] t[b].0 by {
                            assert(t[a].0 == e[a].0);
                            assert(t[b].0 == e[b].0);
                        }
                    }
                }
                return ;
            }
            i = i + 1;
        }
        let key = String::from_str(source);
        self.entries.push((key, entry));
        proof {
            assert(self.pairs() =~= e.push((source@, ev)));
            lemma_assoc_absent(e, source@);
            assert forall|k: Seq<char>| #[trigger] self.lookup(k) == if k == source@ {
                Some(ev)
            } else {
                old(self).lookup(k)
            } by {
                lemma_assoc_push(e, (source@, ev), k);
            }
        }
    }

    /// Keep the entries whose flag in `keep` is set, in their order.
    pub fn retain_entries(&mut self, keep: &Vec<bool>)
        requires
            keep@.len() == old(self).pairs().len(),
        ensures
            final(self).pairs() == kept(old(self).pairs(), keep@),
            final(self).location() == old(self).location(),
    {
        let ghost e = self.pairs();
        let mut taken: Vec<(String, CacheEntry)> = Vec::new();
        std::mem::swap(&mut taken, &mut self.entries);
        let mut i: usize = 0;
        while i < taken.len()
            invariant
                i <= taken.len(),
                keep@.len() == taken@.len(),
                taken@.len() == e.len(),
                forall|j: int| 0 <= j < e.len() ==> (#[trigger] taken@[j].0@, taken@[j].1@) == e[j],
                self.cache_path == old(self).cache_path,
                self.pairs() == kept(e.take(i as int), keep@.take(i as int)),
            decreases taken.len() - i,
        {
            proof {
                assert(e.take(i + 1).drop_last() =~= e.take(i as int));
                assert(keep@.take(i + 1).drop_last() =~= keep@.take(i as int));
            }
            if keep[i] {
                let ghost before = self.pairs();
                let k = taken[i].0.clone();
                let v = duplicate(&taken[i].1);
                self.entries.push((k, v));
                proof {
                    assert(self.pairs() =~= before.push(e[i as int]));
                }
            }
            i = i + 1;
        }
        proof {
            assert(e.take(i as int) =~= e);
            assert(keep@.take(i as int) =~= keep@);
        }
    }

    /// The rendered HTML path of each entry, in order.
    pub fn rendered_paths(&self) -> (r: Vec<String>)
        ensures
            r@.len() == self.pairs().len(),
            forall|i: int| 0 <= i < r@.len() ==> #[trigger] r@[i]@ == self.pairs()[i].1.0,
    {
        let mut r: Vec<String> = Vec::new();
        let mut i: usize = 0;
        while i < self.entries.len()
            invariant
                i <= self.entries@.len(),
                r@.len() == i,
                forall|j: int| 0 <= j < i ==> #[trigger] r@[j]@ == self.entries@[j].1.rendered_html@,
            decreases self.entries.len() - i,
        {
            r.push(self.entries[i].1.rendered_html.clone());
            i = i + 1;
        }
        r
    }

    /// Remove the entries whose rendered HTML file no longer exists on disk:
    /// each path of [`RenderCache::rendered_paths`] is asked about once, and
    /// [`RenderCache::retain_entries`] keeps the entries whose answer is yes.
    pub fn remove_missing_entries(&mut self)
        ensures
            exists|keep: Seq<bool>| #[trigger] keep.len() == old(self).pairs().len()
                && final(self).pairs() == kept(old(self).pairs(), keep),
            old(self).wf() ==> final(self).wf(),
            old(self).wf() ==> forall|k: Seq<char>| #[trigger] final(self).lookup(k) is Some
                ==> final(self).lookup(k) == old(self).lookup(k),
            final(self).location() == old(self).location(),
    {
        let paths = self.rendered_paths();
        let keep = existing_paths(&paths);
        let ghost before = self.pairs();
        self.retain_entries(&keep);
        proof {
            assert(keep@.len() == before.len());
            if keys_distinct(before) {
                lemma_kept_distinct(before, keep@);
                lemma_kept_members(before, keep@);
                let after = self.pairs();
                assert forall|k: Seq<char>| #[trigger] self.lookup(k) is Some implies self.lookup(k)
                    == old(self).lookup(k) by {
                    lemma_assoc_distinct(after, k);
                    lemma_assoc_distinct(before, k);
                    let v = self.lookup(k).unwrap();
                    let j = choose|j: int| 0 <= j < after.len() && #[trigger] after[j] == (k, v);
                    assert(before.contains(after[j]));
                    let a = choose|a: int| 0 <= a < before.len() && before[a] == after[j];
                    assert(before[a].0 == k);
                }
            }
        }
    }
}

/// `after` is `before` with `entry` set for `key`: the postcondition of
/// [`RenderCache::set`].
pub open spec fn set_step(before: RenderCache, after: RenderCache, key: Seq<char>, entry: (Seq<char>, u64)) -> bool {
    forall|k: Seq<char>| #[trigger] after.lookup(k) == if k == key {
        Some(entry)
    } else {
        before.lookup(k)
    }
}

/// `after` is `before` with some entries removed and the others unchanged:
/// the postcondition of [`RenderCache::remove_missing_entries`] on a
/// well-formed cache.
pub open spec fn prune_step(before: RenderCache, after: RenderCache) -> bool {
    forall|k: Seq<char>| #[trigger] after.lookup(k) is Some ==> after.lookup(k) == before.lookup(k)
}

/// Read after write: once `entry` is set for `key` (in `states[0]`), every
/// later state reached by setting other keys (`ops[i]` is `Some`) or by
/// pruning that keeps `key` (`ops[i]` is `None`) still holds `entry` for
/// `key`, so `get(key)` gives it.
pub proof fn lemma_read_after_write(
    states: Seq<RenderCache>,
    ops: Seq<Option<(Seq<char>, (Seq<char>, u64))>>,
    key: Seq<char>,
    entry: (Seq<char>, u64),
)
    requires
        states.len() == ops.len() + 1,
        states[0].lookup(key) == Some(entry),
        forall|i: int| 0 <= i < ops.len() ==> match #[trigger] ops[i] {
            Some((k, e)) => k != key && set_step(states[i], states[i + 1], k, e),
            None => prune_step(states[i], states[i + 1]) && states[i + 1].lookup(key) is Some,
        },
    ensures
        states.last().lookup(key) == Some(entry),
    decreases ops.len(),
{
    if ops.len() > 0 {
        let n = ops.len() - 1;
        lemma_read_after_write(states.drop_last(), ops.drop_last(), key, entry);
        assert(states.drop_last().last() == states[n]);
        match ops[n] {
            Some((k, e)) => {
                assert(states[n + 1].lookup(key) == states[n].lookup(key));
            },
            None => {
                assert(states[n + 1].lookup(key) == states[n].lookup(key));
            },
        }
    }
}

/// For each of `paths`, whether something exists there, as
/// [`path_exists`] reports it at the time of the call.
fn existing_paths(paths: &Vec<String>) -> (r: Vec<bool>)
    ensures
        r@.len() == paths@.len(),
{
    let mut r: Vec<bool> = Vec::new();
    let mut i: usize = 0;
    while i < paths.len()
        invariant
            i <= paths@.len(),
            r@.len() == i,
        decreases paths.len() - i,
    {
        r.push(path_exists(paths[i].as_str()));
        i = i + 1;
    }
    r
}

/// Whether something exists at `path`, as `Path::exists` reports it. The
/// answer depends on the file system at the time of the call, so nothing is
/// stated of it.
#[verifier::external_body]
fn path_exists(path: &str) -> (r: bool) {
    std::path::Path::new(path).exists()
}

} // verus!
