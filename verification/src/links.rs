//! Link destinations: which are local, which name Markdown files, and how a
//! rendered page rewrites them.
use vstd::prelude::*;

use crate::assoc::{assoc, lemma_assoc_absent, lemma_assoc_index, lemma_assoc_push, lemma_assoc_update};
use crate::markdown::{dest_view, dest_views, LinkDest, string_views};
use crate::text::{
    find, find_exec, lemma_find_from_some, lowercase, push_range, slice_chars, starts_with_exec,
    ends_with_exec, str_eq, string_from_chars, to_chars, to_lowercase, push_chars, chars_eq,
};

verus! {

/// A URL that must never be rewritten: absolute web or mail links,
/// protocol-relative links and in-page anchors.
pub open spec fn is_external(url: Seq<char>) -> bool {
    ||| "http://"@.is_prefix_of(url)
    ||| "https://"@.is_prefix_of(url)
    ||| "mailto:"@.is_prefix_of(url)
    ||| "//"@.is_prefix_of(url)
    ||| "#"@.is_prefix_of(url)
}

/// Only URLs beginning with `http://`, `https://`, `mailto:`, `//` or `#`
/// are external, so every external URL begins with `h`, `m`, `/` or `#`; a
/// relative path beginning with `.` (such as `./a.md` or `../a.md`), or with
/// a single `/` followed by something else, or any `h`-word that is not
/// `http`, is local.
pub proof fn lemma_external_prefixes(url: Seq<char>)
    ensures
        is_external(url) ==> url.len() > 0 && (url[0] == 'h' || url[0] == 'm' || url[0] == '/'
            || url[0] == '#'),
        url.len() > 0 && url[0] == '.' ==> !is_external(url),
        url.len() > 1 && url[0] == '/' && url[1] != '/' ==> !is_external(url),
        url.len() > 3 && url[0] == 'h' && url.take(4) != "http"@ ==> !is_external(url),
        is_external("http://"@ + url) && is_external("https://"@ + url) && is_external("mailto:"@ + url)
            && is_external("//"@ + url) && is_external("#"@ + url),
{
    reveal_strlit("http://");
    reveal_strlit("https://");
    reveal_strlit("mailto:");
    reveal_strlit("//");
    reveal_strlit("#");
    reveal_strlit("http");
    if "http://"@.is_prefix_of(url) {
        assert(url[0] == "http://"@[0]);
        assert(url.take(4) =~= "http"@);
    }
    if "https://"@.is_prefix_of(url) {
        assert(url[0] == "https://"@[0]);
        assert(url.take(4) =~= "http"@);
    }
    if "mailto:"@.is_prefix_of(url) {
        assert(url[0] == "mailto:"@[0]);
    }
    if "//"@.is_prefix_of(url) {
        assert(url[0] == "//"@[0]);
        assert(url[1] == "//"@[1]);
    }
    if "#"@.is_prefix_of(url) {
        assert(url[0] == "#"@[0]);
    }
    assert("http://"@.is_prefix_of("http://"@ + url));
    assert("https://"@.is_prefix_of("https://"@ + url));
    assert("mailto:"@.is_prefix_of("mailto:"@ + url));
    assert("//"@.is_prefix_of("//"@ + url));
    assert("#"@.is_prefix_of("#"@ + url));
}

/// `url` up to (not including) its first `#`.
pub open spec fn base_of(url: Seq<char>) -> Seq<char> {
    match find(url, "#"@) {
        Some(i) => url.take(i),
        None => url,
    }
}

/// `url` from its first `#` on (empty when there is none).
pub open spec fn fragment_of(url: Seq<char>) -> Seq<char> {
    match find(url, "#"@) {
        Some(i) => url.skip(i),
        None => Seq::empty(),
    }
}

/// `path` ends with `.md` or `.markdown`, ignoring case.
pub open spec fn is_md_path(path: Seq<char>) -> bool {
    ".md"@.is_suffix_of(lowercase(path)) || ".markdown"@.is_suffix_of(lowercase(path))
}

/// Returns `true` if the URL looks like an external or non-file reference that
/// should never be rewritten.
pub fn is_external_url(url: &str) -> (r: bool)
    ensures
        r == is_external(url@),
{
    let u = to_chars(url);
    starts_with_exec(&u, &to_chars("http://")) || starts_with_exec(&u, &to_chars("https://"))
        || starts_with_exec(&u, &to_chars("mailto:")) || starts_with_exec(&u, &to_chars("//"))
        || starts_with_exec(&u, &to_chars("#"))
}

fn split_chars(u: &Vec<char>) -> (r: (Vec<char>, Vec<char>))
    ensures
        r.0@ == base_of(u@),
        r.1@ == fragment_of(u@),
        r.0@ + r.1@ == u@,
{
    let hash = to_chars("#");
    match find_exec(u, &hash) {
        Some(i) => {
            proof {
                lemma_find_from_some(u@, hash@, 0);
            }
            let base = slice_chars(u, 0, i);
            let frag = slice_chars(u, i, u.len());
            proof {
                assert(base@ =~= u@.take(i as int));
                assert(frag@ =~= u@.skip(i as int));
                assert(base@ + frag@ =~= u@);
            }
            (base, frag)
        },
        None => {
            proof {
                assert(u@ + Seq::<char>::empty() =~= u@);
            }
            (u.clone(), Vec::new())
        },
    }
}

/// Split `url` into `(base, fragment)` at the first `#`; the fragment keeps
/// its `#` and is empty when there is none.
pub fn split_fragment(url: &str) -> (r: (String, String))
    ensures
        r.0@ == base_of(url@),
        r.1@ == fragment_of(url@),
        r.0@ + r.1@ == url@,
{
    let (b, f) = split_chars(&to_chars(url));
    (string_from_chars(&b), string_from_chars(&f))
}

fn is_md_chars(path: &Vec<char>) -> (r: bool)
    ensures
        r == is_md_path(path@),
{
    let lower = to_chars(to_lowercase(string_from_chars(path).as_str()).as_str());
    ends_with_exec(&lower, &to_chars(".md")) || ends_with_exec(&lower, &to_chars(".markdown"))
}

/// Returns `true` if `path` ends with `.md` or `.markdown` (case-insensitive).
pub fn is_md_extension(path: &str) -> (r: bool)
    ensures
        r == is_md_path(path@),
{
    is_md_chars(&to_chars(path))
}

/// `s` without repeated entries, each kept at its first occurrence.
pub open spec fn unique(s: Seq<Seq<char>>) -> Seq<Seq<char>>
    decreases s.len(),
{
    if s.len() == 0 {
        Seq::empty()
    } else if unique(s.drop_last()).contains(s.last()) {
        unique(s.drop_last())
    } else {
        unique(s.drop_last()).push(s.last())
    }
}

/// The link (not image) targets of a parsed document that may name local
/// Markdown files: not external, base ending in `.md`/`.markdown`; given
/// by base (fragment stripped), each base once, in document order.
pub open spec fn md_link_bases(events: Seq<Option<(bool, Seq<char>)>>) -> Seq<Seq<char>>
    decreases events.len(),
{
    if events.len() == 0 {
        Seq::empty()
    } else {
        let prev = md_link_bases(events.drop_last());
        match events.last() {
            Some((is_image, url)) => if !is_image && !is_external(url) && is_md_path(base_of(url))
                && !prev.contains(base_of(url)) {
                prev.push(base_of(url))
            } else {
                prev
            },
            None => prev,
        }
    }
}

/// The link and image targets of a parsed document that may name local
/// non-Markdown assets: not external, base not ending in `.md`/`.markdown`;
/// given by base, each base once, in document order.
pub open spec fn asset_link_bases(events: Seq<Option<(bool, Seq<char>)>>) -> Seq<Seq<char>>
    decreases events.len(),
{
    if events.len() == 0 {
        Seq::empty()
    } else {
        let prev = asset_link_bases(events.drop_last());
        match events.last() {
            Some((_, url)) => if !is_external(url) && !is_md_path(base_of(url)) && !prev.contains(
                base_of(url),
            ) {
                prev.push(base_of(url))
            } else {
                prev
            },
            None => prev,
        }
    }
}

fn contains_chars(v: &Vec<String>, x: &Vec<char>) -> (r: bool)
    ensures
        r == string_views(v@).contains(x@),
{
    let mut i: usize = 0;
    while i < v.len()
        invariant
            i <= v.len(),
            forall|k: int| 0 <= k < i ==> v@[k]@ != x@,
        decreases v.len() - i,
    {
        if chars_eq(&to_chars(v[i].as_str()), x) {
            proof {
                assert(string_views(v@)[i as int] == x@);
            }
            return true;
        }
        i = i + 1;
    }
    proof {
        if string_views(v@).contains(x@) {
            let k = choose|k: int| 0 <= k < string_views(v@).len() && string_views(v@)[k] == x@;
            assert(v@[k]@ == x@);
        }
    }
    false
}

/// Select from parsed link events the bases that `md_link_bases`
/// (`want_md`) or `asset_link_bases` (otherwise) describes.
fn select_bases(events: &Vec<Option<LinkDest>>, want_md: bool) -> (r: Vec<String>)
    ensures
        want_md ==> string_views(r@) == md_link_bases(dest_views(events@)),
        !want_md ==> string_views(r@) == asset_link_bases(dest_views(events@)),
{
    let mut r: Vec<String> = Vec::new();
    let mut i: usize = 0;
    while i < events.len()
        invariant
            i <= events.len(),
            want_md ==> string_views(r@) == md_link_bases(dest_views(events@).take(i as int)),
            !want_md ==> string_views(r@) == asset_link_bases(dest_views(events@).take(i as int)),
        decreases events.len() - i,
    {
        proof {
            let t = dest_views(events@).take(i + 1);
            assert(t.drop_last() =~= dest_views(events@).take(i as int));
            assert(t.last() == dest_view(events@[i as int]));
        }
        match &events[i] {
            Some(d) => {
                let url = to_chars(d.url.as_str());
                let (base, _frag) = split_chars(&url);
                let wanted = if want_md {
                    !d.is_image && !is_external_url(d.url.as_str()) && is_md_chars(&base)
                } else {
                    !is_external_url(d.url.as_str()) && !is_md_chars(&base)
                };
                if wanted && !contains_chars(&r, &base) {
                    let ghost before = r@;
                    r.push(string_from_chars(&base));
                    proof {
                        assert(string_views(r@) =~= string_views(before).push(base@));
                    }
                }
            },
            None => {},
        }
        i = i + 1;
    }
    proof {
        assert(dest_views(events@).take(i as int) =~= dest_views(events@));
    }
    r
}

/// The link targets of `markdown` that may name local Markdown files, by
/// base (fragment stripped), each once, in document order. Images are not
/// included. Which of them exist on disk is for the caller to find out.
pub fn local_md_link_candidates(markdown: &str) -> (r: Vec<String>)
    ensures
        string_views(r@) == md_link_bases(
            crate::markdown::parsed_dests(markdown@, crate::markdown::MARKDOWN_OPTIONS),
        ),
{
    let events = crate::markdown::parse_dests(markdown, crate::markdown::MARKDOWN_OPTIONS);
    select_bases(&events, true)
}

/// The link and image targets of `markdown` that may name local
/// non-Markdown files, by base (fragment stripped), each once, in document
/// order. Which of them exist, inside which directory, is for the caller.
pub fn local_asset_link_candidates(markdown: &str) -> (r: Vec<String>)
    ensures
        string_views(r@) == asset_link_bases(
            crate::markdown::parsed_dests(markdown@, crate::markdown::MARKDOWN_OPTIONS),
        ),
{
    let events = crate::markdown::parse_dests(markdown, crate::markdown::MARKDOWN_OPTIONS);
    select_bases(&events, false)
}

/// A map from link targets (without fragment) to the paths that replace them.
pub struct LinkMap {
    entries: Vec<(String, String)>,
}

impl LinkMap {
    pub closed spec fn pairs(&self) -> Seq<(Seq<char>, Seq<char>)> {
        Seq::new(self.entries@.len(), |i: int| (self.entries@[i].0@, self.entries@[i].1@))
    }

    /// The path stored for `key`, if any.
    pub open spec fn lookup(&self, key: Seq<char>) -> Option<Seq<char>> {
        assoc(self.pairs(), key)
    }

    /// An empty map.
    pub fn new() -> (m: LinkMap)
        ensures
            forall|k: Seq<char>| #[trigger] m.lookup(k) is None,
    {
        let m = LinkMap { entries: Vec::new() };
        assert(m.pairs() =~= Seq::<(Seq<char>, Seq<char>)>::empty());
        m
    }

    /// Insert or replace the path stored for `key`.
    pub fn insert(&mut self, key: String, value: String)
        ensures
            forall|k: Seq<char>| #[trigger] final(self).lookup(k) == if k == key@ {
                Some(value@)
            } else {
                old(self).lookup(k)
            },
    {
        let ghost e = self.pairs();
        let mut i: usize = 0;
        while i < self.entries.len()
            invariant
                i <= self.entries.len(),
                e == self.pairs(),
                e == old(self).pairs(),
                forall|j: int| 0 <= j < i ==> e[j].0 != key@,
            decreases self.entries.len() - i,
        {
            if self.entries[i].0 == key {
                proof {
                    assert(e[i as int].0 == key@);
                    lemma_assoc_index(e, key@, i as int);
                }
                let k2 = self.entries[i].0.clone();
                self.entries.set(i, (k2, value));
                proof {
                    assert(self.pairs() =~= e.update(i as int, (e[i as int].0, value@)));
                    assert forall|k: Seq<char>| #[trigger] self.lookup(k) == if k == key@ {
                        Some(value@)
                    } else {
                        old(self).lookup(k)
                    } by {
                        lemma_assoc_update(e, i as int, value@, k);
                        assert(old(self).lookup(k) == assoc(e, k));
                        assert(self.lookup(k) == assoc(e.update(i as int, (e[i as int].0, value@)), k));
                    }
                }
                return ;
            }
            i = i + 1;
        }
        let ghost kv = key@;
        self.entries.push((key, value));
        proof {
            assert(self.pairs() =~= e.push((kv, value@)));
            lemma_assoc_absent(e, kv);
            assert forall|k: Seq<char>| #[trigger] self.lookup(k) == if k == kv {
                Some(value@)
            } else {
                old(self).lookup(k)
            } by {
                lemma_assoc_push(e, (kv, value@), k);
            }
        }
    }

    /// The path stored for `key`, if any.
    pub fn get(&self, key: &str) -> (r: Option<&String>)
        ensures
            r matches Some(v) ==> self.lookup(key@) == Some(v@),
            r is None ==> self.lookup(key@) is None,
    {
        let ghost e = self.pairs();
        let mut i: usize = 0;
        while i < self.entries.len()
            invariant
                i <= self.entries.len(),
                e == self.pairs(),
                forall|j: int| 0 <= j < i ==> e[j].0 != key@,
            decreases self.entries.len() - i,
        {
            if str_eq(self.entries[i].0.as_str(), key) {
                proof {
                    lemma_assoc_index(e, key@, i as int);
                }
                return Some(&self.entries[i].1);
            }
            i = i + 1;
        }
        proof {
            lemma_assoc_absent(e, key@);
        }
        None
    }
}

/// What a rendered page puts in place of the link destination `url`:
/// external URLs stay; otherwise a base present in `map` becomes the mapped
/// path with the original fragment appended; anything else stays.
pub open spec fn rewrite_url(url: Seq<char>, map: LinkMap) -> Seq<char> {
    if is_external(url) {
        url
    } else {
        match map.lookup(base_of(url)) {
            Some(p) => p + fragment_of(url),
            None => url,
        }
    }
}

/// The destinations of the link and image events, in order.
pub open spec fn event_urls(events: Seq<Option<(bool, Seq<char>)>>) -> Seq<Seq<char>>
    decreases events.len(),
{
    if events.len() == 0 {
        Seq::empty()
    } else {
        match events.last() {
            Some((_, url)) => event_urls(events.drop_last()).push(url),
            None => event_urls(events.drop_last()),
        }
    }
}

/// The destinations of the link and image events, rewritten through `map`.
pub open spec fn rewritten_urls(events: Seq<Option<(bool, Seq<char>)>>, map: LinkMap) -> Seq<Seq<char>>
    decreases events.len(),
{
    if events.len() == 0 {
        Seq::empty()
    } else {
        match events.last() {
            Some((_, url)) => rewritten_urls(events.drop_last(), map).push(rewrite_url(url, map)),
            None => rewritten_urls(events.drop_last(), map),
        }
    }
}

/// Rewriting through a map that holds nothing changes no destination.
pub proof fn lemma_empty_map_rewrites_nothing(events: Seq<Option<(bool, Seq<char>)>>, map: LinkMap)
    requires
        forall|k: Seq<char>| #[trigger] map.lookup(k) is None,
    ensures
        rewritten_urls(events, map) == event_urls(events),
    decreases events.len(),
{
    if events.len() > 0 {
        lemma_empty_map_rewrites_nothing(events.drop_last(), map);
    }
}

/// The destinations of the link and image events of `events` (with
/// `rewrite` set, rewritten through `map`).
pub fn event_destinations(events: &Vec<Option<LinkDest>>, map: &LinkMap, rewrite: bool) -> (r: Vec<
    String,
>)
    ensures
        rewrite ==> string_views(r@) == rewritten_urls(dest_views(events@), *map),
        !rewrite ==> string_views(r@) == event_urls(dest_views(events@)),
{
    let mut r: Vec<String> = Vec::new();
    let mut i: usize = 0;
    while i < events.len()
        invariant
            i <= events.len(),
            rewrite ==> string_views(r@) == rewritten_urls(dest_views(events@).take(i as int), *map),
            !rewrite ==> string_views(r@) == event_urls(dest_views(events@).take(i as int)),
        decreases events.len() - i,
    {
        proof {
            let t = dest_views(events@).take(i + 1);
            assert(t.drop_last() =~= dest_views(events@).take(i as int));
            assert(t.last() == dest_view(events@[i as int]));
        }
        match &events[i] {
            Some(d) => {
                let ghost before = r@;
                let url = d.url.as_str();
                let out = if !rewrite || is_external_url(url) {
                    url.to_owned()
                } else {
                    let (base, frag) = split_chars(&to_chars(url));
                    match map.get(string_from_chars(&base).as_str()) {
                        Some(p) => {
                            let mut v = to_chars(p.as_str());
                            push_chars(&mut v, &frag);
                            string_from_chars(&v)
                        },
                        None => url.to_owned(),
                    }
                };
                r.push(out);
                proof {
                    assert(string_views(r@) =~= string_views(before).push(out@));
                }
            },
            None => {},
        }
        i = i + 1;
    }
    proof {
        assert(dest_views(events@).take(i as int) =~= dest_views(events@));
    }
    r
}

} // verus!
