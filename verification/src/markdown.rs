//! Parsing Markdown and writing it out as HTML, by way of `pulldown_cmark`.
use pulldown_cmark::{html, Event, Options, Parser, Tag};

use vstd::prelude::*;

verus! {

/// The parser extensions in use: tables, footnotes, strikethrough and task
/// lists (`Options::ENABLE_TABLES | ENABLE_FOOTNOTES | ENABLE_STRIKETHROUGH |
/// ENABLE_TASKLISTS`).
pub const MARKDOWN_OPTIONS: u32 = 30;

/// The destination of a link or an image in the parsed document.
pub struct LinkDest {
    pub is_image: bool,
    pub url: String,
}

/// For each event that `pulldown_cmark` parses from `markdown` with the
/// option bits `options`: the kind and destination of a link or image start,
/// `None` for any other event.
pub uninterp spec fn parsed_dests(markdown: Seq<char>, options: u32) -> Seq<Option<(bool, Seq<char>)>>;

/// The HTML that `pulldown_cmark::html::push_html` writes for the events
/// parsed from `markdown` with `options`, after the destination of the
/// `k`-th link or image start event has been replaced by `dests[k]` (those
/// past the end of `dests` keep their own).
pub uninterp spec fn html_with_dests(markdown: Seq<char>, options: u32, dests: Seq<Seq<char>>) -> Seq<char>;

/// The kind and destination text of a link or image event.
pub open spec fn dest_view(d: Option<LinkDest>) -> Option<(bool, Seq<char>)> {
    match d {
        Some(l) => Some((l.is_image, l.url@)),
        None => None,
    }
}

/// The views of a sequence of events.
pub open spec fn dest_views(v: Seq<Option<LinkDest>>) -> Seq<Option<(bool, Seq<char>)>> {
    Seq::new(v.len(), |i: int| dest_view(v[i]))
}

/// The texts of a sequence of strings.
pub open spec fn string_views(v: Seq<String>) -> Seq<Seq<char>> {
    Seq::new(v.len(), |i: int| v[i]@)
}

/// Runs `pulldown_cmark::Parser::new_ext` over `markdown` and converts each
/// event: a link or image start to its kind and destination, anything else to
/// `None`. The result is the name `parsed_dests` of the arguments.
#[verifier::external_body]
pub(crate) fn parse_dests(markdown: &str, options: u32) -> (r: Vec<Option<LinkDest>>)
    ensures
        dest_views(r@) == parsed_dests(markdown@, options),
{
    Parser::new_ext(markdown, Options::from_bits_truncate(options)).map(|event| match event {
        Event::Start(Tag::Link { dest_url, .. }) => Some(
            LinkDest { is_image: false, url: dest_url.to_string() },
        ),
        Event::Start(Tag::Image { dest_url, .. }) => Some(
            LinkDest { is_image: true, url: dest_url.to_string() },
        ),
        _ => None,
    }).collect()
}

/// Runs `pulldown_cmark::Parser::new_ext` over `markdown`, gives the `k`-th
/// link or image start event the destination `dests[k]`, and writes the
/// events out with `pulldown_cmark::html::push_html`. The result is the name
/// `html_with_dests` of the arguments.
#[verifier::external_body]
pub(crate) fn render_with_dests(markdown: &str, options: u32, dests: &Vec<String>) -> (r: String)
    ensures
        r@ == html_with_dests(markdown@, options, string_views(dests@)),
{
    let mut next = dests.iter();
    let events = Parser::new_ext(markdown, Options::from_bits_truncate(options)).map(|e| match e {
        Event::Start(Tag::Link { link_type, dest_url, title, id }) => Event::Start(Tag::Link {
            link_type, dest_url: next.next().map_or(dest_url, |n| n.clone().into()), title, id }),
        Event::Start(Tag::Image { link_type, dest_url, title, id }) => Event::Start(Tag::Image {
            link_type, dest_url: next.next().map_or(dest_url, |n| n.clone().into()), title, id }),
        other => other,
    });
    let mut body = String::new();
    html::push_html(&mut body, events);
    body
}

} // verus!
