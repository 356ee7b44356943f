//! Discovering the linked Markdown files of a recursive render, breadth
//! first from the entry file, and where each rendered file is written.
//!
//! Reading files and resolving links are the caller's work; the bookkeeping
//! that decides what is scanned next, what is rendered, and each page's
//! breadcrumb is here.
use vstd::prelude::*;

use crate::paths::{
    file_name_of, joined, path_file_name, path_join, path_strip_prefix, path_with_extension,
    stripped_prefix, with_extension_of,
};
use crate::links::{is_md_extension, is_md_path, LinkMap};
use crate::text::{lemma_seq_lt_irreflexive, lemma_seq_lt_transitive, seq_lt, seq_lt_exec, str_eq, to_chars};

verus! {

/// The chain of ancestors of file `i`, from the entry file down to the file
/// that linked to `i`; empty for the entry file itself.
pub open spec fn ancestors(parents: Seq<int>, i: int) -> Seq<int>
    decreases i,
{
    if i <= 0 || i >= parents.len() || parents[i] < 0 || parents[i] >= i {
        Seq::empty()
    } else {
        ancestors(parents, parents[i]).push(parents[i])
    }
}

/// The state of a breadth-first discovery of linked files.
pub struct Crawl {
    visited: Vec<String>,
    files: Vec<String>,
    parents: Vec<usize>,
    next: usize,
}

impl Crawl {
    /// The files to render, in discovery order; the entry file is first.
    pub closed spec fn files(&self) -> Seq<Seq<char>> {
        Seq::new(self.files@.len(), |i: int| self.files@[i]@)
    }

    /// For each file, the index of the file whose links led to it (the entry
    /// file is its own).
    pub closed spec fn parents(&self) -> Seq<int> {
        Seq::new(self.parents@.len(), |i: int| self.parents@[i] as int)
    }

    /// Every path ever considered, rendered or not.
    pub closed spec fn visited(&self) -> Seq<Seq<char>> {
        Seq::new(self.visited@.len(), |i: int| self.visited@[i]@)
    }

    /// How many files have been handed out for scanning.
    pub closed spec fn scanned(&self) -> nat {
        self.next as nat
    }

    /// The bookkeeping is consistent: there is an entry file; no file is
    /// listed twice; every file was visited; every file but the entry was
    /// reached from an earlier one; scanning has not run past the list.
    pub open spec fn wf(&self) -> bool {
        let f = self.files();
        let p = self.parents();
        &&& f.len() >= 1
        &&& p.len() == f.len()
        &&& p[0] == 0
        &&& forall|i: int| 0 < i < f.len() ==> 0 <= #[trigger] p[i] < i
        &&& forall|i: int, j: int| 0 <= i < j < f.len() ==> #[trigger] f[i] != #[trigger] f[j]
        &&& forall|i: int| 0 <= i < f.len() ==> self.visited().contains(#[trigger] f[i])
        &&& self.scanned() <= f.len()
    }

    /// A discovery that starts at `entry`, which is visited and is the first
    /// file to render and to scan.
    pub fn new(entry: String) -> (c: Crawl)
        ensures
            c.wf(),
            c.files() == seq![entry@],
            c.visited() == seq![entry@],
            c.scanned() == 0,
    {
        let mut visited: Vec<String> = Vec::new();
        visited.push(entry.clone());
        let mut files: Vec<String> = Vec::new();
        files.push(entry);
        let mut parents: Vec<usize> = Vec::new();
        parents.push(0);
        let c = Crawl { visited, files, parents, next: 0 };
        proof {
            assert(c.files() =~= seq![c.files@[0]@]);
            assert(c.visited() =~= seq![c.visited@[0]@]);
            assert(c.visited()[0] == c.files()[0]);
        }
        c
    }

    /// The files to render, in discovery order.
    pub fn files_in_order(&self) -> (r: &Vec<String>)
        ensures
            r@.len() == self.files().len(),
            forall|i: int| 0 <= i < r@.len() ==> #[trigger] r@[i]@ == self.files()[i],
    {
        &self.files
    }

    /// The next file to scan for links, in the order files were discovered;
    /// `None` once every file has been scanned.
    pub fn next_to_scan(&mut self) -> (r: Option<usize>)
        requires
            old(self).wf(),
        ensures
            final(self).wf(),
            final(self).files() == old(self).files(),
            final(self).parents() == old(self).parents(),
            final(self).visited() == old(self).visited(),
            old(self).scanned() < old(self).files().len() ==> r == Some(old(self).scanned() as usize)
                && final(self).scanned() == old(self).scanned() + 1,
            old(self).scanned() >= old(self).files().len() ==> r is None && final(self).scanned()
                == old(self).scanned(),
    {
        if self.next < self.files.len() {
            let r = self.next;
            self.next = self.next + 1;
            Some(r)
        } else {
            None
        }
    }

    /// Has `path` been considered already?
    pub fn is_visited(&self, path: &str) -> (r: bool)
        ensures
            r == self.visited().contains(path@),
    {
        let mut i: usize = 0;
        while i < self.visited.len()
            invariant
                i <= self.visited@.len(),
                forall|j: int| 0 <= j < i ==> self.visited@[j]@ != path@,
            decreases self.visited.len() - i,
        {
            if str_eq(self.visited[i].as_str(), path) {
                proof {
                    assert(self.visited()[i as int] == path@);
                }
                return true;
            }
            i = i + 1;
        }
        proof {
            if self.visited().contains(path@) {
                let j = choose|j: int| 0 <= j < self.visited().len() && self.visited()[j] == path@;
                assert(self.visited@[j]@ == path@);
            }
        }
        false
    }

    /// Record a link from file `from` to `path`, which could be read when
    /// `readable` holds. A path seen before changes nothing; otherwise it is
    /// marked visited and, when readable, becomes the next file to render,
    /// reached from `from`. Returns whether it became a file to render.
    pub fn discover(&mut self, from: usize, path: String, readable: bool) -> (added: bool)
        requires
            old(self).wf(),
            from < old(self).files().len(),
        ensures
            final(self).wf(),
            final(self).scanned() == old(self).scanned(),
            old(self).visited().contains(path@) ==> !added && final(self).files() == old(
                self,
            ).files() && final(self).parents() == old(self).parents() && final(self).visited()
                == old(self).visited(),
            !old(self).visited().contains(path@) ==> final(self).visited() == old(self).visited().push(
                path@,
            ) && added == readable,
            !old(self).visited().contains(path@) && readable ==> final(self).files() == old(
                self,
            ).files().push(path@) && final(self).parents() == old(self).parents().push(from as int),
            !old(self).visited().contains(path@) && !readable ==> final(self).files() == old(
                self,
            ).files() && final(self).parents() == old(self).parents(),
    {
        if self.is_visited(path.as_str()) {
            return false;
        }
        let ghost f0 = self.files();
        let ghost p0 = self.parents();
        let ghost v0 = self.visited();
        self.visited.push(path.clone());
        proof {
            assert(self.visited() =~= v0.push(path@));
            assert forall|i: int| 0 <= i < f0.len() implies self.visited().contains(#[trigger] f0[i]) by {
                assert(v0.contains(f0[i]));
                let k = choose|k: int| 0 <= k < v0.len() && v0[k] == f0[i];
                assert(self.visited()[k] == f0[i]);
            }
        }
        if readable {
            let ghost pv = path@;
            self.files.push(path);
            self.parents.push(from);
            proof {
                assert(self.files() =~= f0.push(pv));
                assert(self.parents() =~= p0.push(from as int));
                assert(self.visited()[v0.len() as int] == pv);
                assert forall|i: int| 0 <= i < f0.len() implies #[trigger] f0[i] != pv by {
                    assert(v0.contains(f0[i]));
                }
            }
            true
        } else {
            false
        }
    }

    /// The breadcrumb of file `idx`: the indices of the files from the entry
    /// file down to the one whose links led to `idx`; empty for the entry.
    pub fn breadcrumb(&self, idx: usize) -> (r: Vec<usize>)
        requires
            self.wf(),
            idx < self.files().len(),
        ensures
            r@.len() == ancestors(self.parents(), idx as int).len(),
            forall|k: int| 0 <= k < r@.len() ==> #[trigger] r@[k] as int == ancestors(
                self.parents(),
                idx as int,
            )[k],
        decreases idx,
    {
        if idx == 0 {
            return Vec::new();
        }
        let p = self.parents[idx];
        assert(self.parents()[idx as int] == p as int);
        let mut chain = self.breadcrumb(p);
        chain.push(p);
        chain
    }
}

/// Entries of the breadcrumb of a non-entry file start at the entry file and
/// end at the file that linked to it.
pub proof fn lemma_breadcrumb_ends(parents: Seq<int>, i: int)
    requires
        0 < i < parents.len(),
        parents[0] == 0,
        forall|k: int| 0 < k < parents.len() ==> 0 <= #[trigger] parents[k] < k,
    ensures
        ancestors(parents, i).len() >= 1,
        ancestors(parents, i)[0] == 0,
        ancestors(parents, i).last() == parents[i],
        forall|k: int| 0 <= k < ancestors(parents, i).len() ==> 0 <= #[trigger] ancestors(parents, i)[k] < i,
    decreases i,
{
    let p = parents[i];
    let a = ancestors(parents, i);
    assert(a == ancestors(parents, p).push(p));
    if p > 0 {
        lemma_breadcrumb_ends(parents, p);
        assert(a[0] == ancestors(parents, p)[0]);
        assert forall|k: int| 0 <= k < a.len() implies 0 <= #[trigger] a[k] < i by {
            if k < a.len() - 1 {
                assert(a[k] == ancestors(parents, p)[k]);
            }
        }
    } else {
        assert(ancestors(parents, 0) =~= Seq::<int>::empty());
        assert(a =~= seq![0int]);
    }
}

/// Is `path` inside the directory `dir` (compared by whole components, as
/// `Path::starts_with` compares)? Only such files are rendered or copied.
pub fn in_scope(path: &str, dir: &str) -> (r: bool)
    ensures
        r == stripped_prefix(path@, dir@) is Some,
{
    path_strip_prefix(path, dir).is_some()
}

/// `path` relative to `entry_dir`; its file name when it lies elsewhere;
/// `output` when it has no file name.
pub open spec fn relative_location(path: Seq<char>, entry_dir: Seq<char>) -> Seq<char> {
    match stripped_prefix(path, entry_dir) {
        Some(r) => r,
        None => match file_name_of(path) {
            Some(n) => n,
            None => "output"@,
        },
    }
}

fn relative_location_exec(path: &str, entry_dir: &str) -> (r: String)
    ensures
        r@ == relative_location(path@, entry_dir@),
{
    match path_strip_prefix(path, entry_dir) {
        Some(r) => r,
        None => match path_file_name(path) {
            Some(n) => n,
            None => String::from_str("output"),
        },
    }
}

/// Where the rendered page of the Markdown file `file` goes inside the run
/// directory: its place relative to the entry file's directory, with the
/// extension `html`.
pub fn output_path_for_run(run_dir: &str, entry_dir: &str, file: &str) -> (r: String)
    ensures
        r@ == joined(run_dir@, with_extension_of(relative_location(file@, entry_dir@), "html"@)),
{
    let relative = relative_location_exec(file, entry_dir);
    proof {
        reveal_strlit("html");
        assert(!"html"@.contains('/'));
        assert(!"html"@.contains('\\'));
    }
    let page = path_with_extension(relative.as_str(), "html");
    path_join(run_dir, page.as_str())
}

/// Where a linked asset is copied inside the run directory: its place
/// relative to the entry file's directory.
pub fn asset_path_for_run(run_dir: &str, entry_dir: &str, asset: &str) -> (r: String)
    ensures
        r@ == joined(run_dir@, relative_location(asset@, entry_dir@)),
{
    let relative = relative_location_exec(asset, entry_dir);
    path_join(run_dir, relative.as_str())
}

/// `paths[i]` names a Markdown file and no Markdown path comes before it in
/// character order.
pub open spec fn is_first_markdown(paths: Seq<Seq<char>>, i: int) -> bool {
    &&& 0 <= i < paths.len()
    &&& is_md_path(paths[i])
    &&& forall|j: int| 0 <= j < paths.len() && is_md_path(#[trigger] paths[j]) ==> !seq_lt(paths[j], paths[i])
}

/// The texts of a sequence of strings.
pub open spec fn texts(v: Seq<String>) -> Seq<Seq<char>> {
    Seq::new(v.len(), |i: int| v[i]@)
}

/// Which of `paths` is opened when no file is named: the Markdown file whose
/// path comes first in character order; `None` when there is none.
pub fn first_markdown(paths: &Vec<String>) -> (r: Option<usize>)
    ensures
        r matches Some(i) ==> is_first_markdown(texts(paths@), i as int),
        r is None ==> forall|j: int| 0 <= j < paths@.len() ==> !is_md_path(#[trigger] texts(paths@)[j]),
{
    let ghost p = texts(paths@);
    let mut best: Option<usize> = None;
    let mut k: usize = 0;
    while k < paths.len()
        invariant
            k <= paths@.len(),
            p == texts(paths@),
            best matches Some(b) ==> b < k && is_md_path(p[b as int]) && forall|j: int|
                0 <= j < k && is_md_path(#[trigger] p[j]) ==> !seq_lt(p[j], p[b as int]),
            best is None ==> forall|j: int| 0 <= j < k ==> !is_md_path(#[trigger] p[j]),
        decreases paths.len() - k,
    {
        if is_md_extension(paths[k].as_str()) {
            assert(p[k as int] == paths@[k as int]@);
            match best {
                None => {
                    proof {
                        lemma_seq_lt_irreflexive(p[k as int]);
                    }
                    best = Some(k);
                },
                Some(b) => {
                    if seq_lt_exec(&to_chars(paths[k].as_str()), &to_chars(paths[b].as_str())) {
                        proof {
                            lemma_seq_lt_irreflexive(p[k as int]);
                            assert forall|j: int| 0 <= j <= k && is_md_path(#[trigger] p[j]) implies !seq_lt(
                                p[j],
                                p[k as int],
                            ) by {
                                if j < k && seq_lt(p[j], p[k as int]) {
                                    lemma_seq_lt_transitive(p[j], p[k as int], p[b as int]);
                                }
                            }
                        }
                        best = Some(k);
                    }
                },
            }
        }
        k = k + 1;
    }
    best
}

/// The first index of `x` in `s`, if any.
pub open spec fn position_of(s: Seq<Seq<char>>, x: Seq<char>) -> Option<int>
    decreases s.len(),
{
    if s.len() == 0 {
        None
    } else if s[0] == x {
        Some(0)
    } else {
        match position_of(s.drop_first(), x) {
            Some(i) => Some(i + 1),
            None => None,
        }
    }
}

/// Where a page's link with base `key` leads: the output of the rendered
/// file targeted by the last link with that base whose target is rendered.
pub open spec fn page_link_target(
    links: Seq<(Seq<char>, Seq<char>)>,
    sources: Seq<Seq<char>>,
    outputs: Seq<Seq<char>>,
    key: Seq<char>,
) -> Option<Seq<char>>
    decreases links.len(),
{
    if links.len() == 0 {
        None
    } else {
        let (base, target) = links.last();
        match position_of(sources, target) {
            Some(i) if base == key => Some(outputs[i]),
            _ => page_link_target(links.drop_last(), sources, outputs, key),
        }
    }
}

/// The texts of `(base, target)` pairs.
pub open spec fn pair_texts(v: Seq<(String, String)>) -> Seq<(Seq<char>, Seq<char>)> {
    Seq::new(v.len(), |i: int| (v[i].0@, v[i].1@))
}

fn position_exec(s: &Vec<String>, x: &str) -> (r: Option<usize>)
    ensures
        r matches Some(i) ==> position_of(texts(s@), x@) == Some(i as int) && i < s@.len(),
        r is None ==> position_of(texts(s@), x@) is None,
{
    let ghost t = texts(s@);
    let mut i: usize = 0;
    assert(t.skip(0) =~= t);
    while i < s.len()
        invariant
            i <= s@.len(),
            t == texts(s@),
            position_of(t, x@) == (match position_of(t.skip(i as int), x@) {
                Some(k) => Some(k + i),
                None => None,
            }),
        decreases s.len() - i,
    {
        let ghost rest = t.skip(i as int);
        assert(rest.drop_first() =~= t.skip(i + 1));
        if str_eq(s[i].as_str(), x) {
            assert(rest[0] == x@);
            return Some(i);
        }
        i = i + 1;
    }
    assert(t.skip(i as int) =~= Seq::<Seq<char>>::empty());
    None
}

/// The link map of one page: each `(base, target)` link whose target is one
/// of the rendered `sources` leads to that source's entry in `outputs`.
pub fn page_link_map(links: &Vec<(String, String)>, sources: &Vec<String>, outputs: &Vec<String>) -> (m:
    LinkMap)
    requires
        sources@.len() == outputs@.len(),
    ensures
        forall|k: Seq<char>| #[trigger] m.lookup(k) == page_link_target(
            pair_texts(links@),
            texts(sources@),
            texts(outputs@),
            k,
        ),
{
    let ghost l = pair_texts(links@);
    let ghost src = texts(sources@);
    let ghost out = texts(outputs@);
    let mut m = LinkMap::new();
    let mut i: usize = 0;
    assert(l.take(0) =~= Seq::<(Seq<char>, Seq<char>)>::empty());
    while i < links.len()
        invariant
            i <= links@.len(),
            sources@.len() == outputs@.len(),
            l == pair_texts(links@),
            src == texts(sources@),
            out == texts(outputs@),
            forall|k: Seq<char>| #[trigger] m.lookup(k) == page_link_target(l.take(i as int), src, out, k),
        decreases links.len() - i,
    {
        let ghost before = m;
        assert(l.take(i + 1).drop_last() =~= l.take(i as int));
        assert(l.take(i + 1).last() == (links@[i as int].0@, links@[i as int].1@));
        match position_exec(sources, links[i].1.as_str()) {
            Some(p) => {
                m.insert(links[i].0.clone(), outputs[p].clone());
                assert(out[p as int] == outputs@[p as int]@);
            },
            None => {},
        }
        i = i + 1;
    }
    assert(l.take(i as int) =~= l);
    m
}

} // verus!
