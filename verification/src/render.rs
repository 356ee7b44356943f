//! Rendering Markdown to a complete standalone HTML5 page.
//!
//! Raw HTML embedded in Markdown is passed through unchanged: pages are
//! rendered from local files owned by the user, so untrusted Markdown must
//! not be rendered with this module.
pub use crate::links::{
    is_external_url, is_md_extension, local_asset_link_candidates, local_md_link_candidates,
    split_fragment, LinkMap,
};
pub use crate::page::RenderChrome;
pub use crate::sidebar::{build_sidebar_tree, SidebarNode};

use vstd::prelude::*;

use crate::code_block::{post_process_code_blocks, with_code_toolbars};
use crate::config::{AppearanceConfig, Theme};
use crate::links::{event_destinations, event_urls, lemma_empty_map_rewrites_nothing, rewritten_urls};
use crate::markdown::{html_with_dests, parse_dests, parsed_dests, render_with_dests, MARKDOWN_OPTIONS};
use crate::page::{build_html_document, chrome_page, crumb_entries, page};
use crate::sidebar::file_entries;
use crate::text::{string_from_chars, to_chars};

verus! {

/// The rendered body of `markdown` with the given link and image
/// destinations, code blocks wrapped in their toolbars.
pub open spec fn rendered_body(markdown: Seq<char>, dests: Seq<Seq<char>>) -> Seq<char> {
    with_code_toolbars(html_with_dests(markdown, MARKDOWN_OPTIONS, dests))
}

/// The reader layout used when none is configured.
pub open spec fn default_appearance() -> AppearanceConfig {
    AppearanceConfig {
        font_size_px: 16,
        letter_width_hundredths: 850,
        letter_radius_px: 12,
        sidebar_button_radius_px: 999,
        theme_button_radius_px: 999,
    }
}

/// The standalone page of `markdown`: links left as written, no
/// breadcrumb, no sidebar, the default layout.
pub open spec fn standalone_page(markdown: Seq<char>, title: Seq<char>, theme: Theme) -> Seq<char> {
    page(
        title,
        rendered_body(markdown, event_urls(parsed_dests(markdown, MARKDOWN_OPTIONS))),
        theme,
        Seq::empty(),
        Seq::empty(),
        Seq::empty(),
        false,
        default_appearance(),
    )
}

/// The page of `markdown` with its link and image destinations rewritten
/// through `link_map`, in the given chrome.
pub open spec fn rewritten_page(
    markdown: Seq<char>,
    title: Seq<char>,
    theme: Theme,
    link_map: LinkMap,
    chrome: RenderChrome,
) -> Seq<char> {
    chrome_page(
        title,
        rendered_body(
            markdown,
            rewritten_urls(parsed_dests(markdown, MARKDOWN_OPTIONS), link_map),
        ),
        theme,
        chrome,
    )
}

/// Render Markdown source to a complete standalone HTML5 document.
///
/// The output is self-contained: no external stylesheets or scripts are
/// referenced. `title` is used as the `<title>` and shown as an `<h1>` in the
/// page header; `theme` controls the colour scheme. Code blocks get copy buttons (see
/// [`crate::code_block::post_process_code_blocks`]).
pub fn render_markdown(markdown: &str, title: &str, theme: Theme) -> (r: String)
    ensures
        r@ == standalone_page(markdown@, title@, theme),
{
    let events = parse_dests(markdown, MARKDOWN_OPTIONS);
    let dests = event_destinations(&events, &LinkMap::new(), false);
    let html = render_with_dests(markdown, MARKDOWN_OPTIONS, &dests);
    let body = post_process_code_blocks(&to_chars(html.as_str()));
    let crumbs: Vec<(String, String)> = Vec::new();
    let files: Vec<(String, String, bool)> = Vec::new();
    let chrome = RenderChrome {
        breadcrumb: crumbs.as_slice(),
        all_files: files.as_slice(),
        run_dir: "",
        sidebar_visible: false,
        appearance: AppearanceConfig::default(),
    };
    let doc = build_html_document(title, &body, theme, &chrome);
    proof {
        assert(crumb_entries(chrome.breadcrumb@) =~= Seq::<(Seq<char>, Seq<char>)>::empty());
        assert(file_entries(chrome.all_files@) =~= Seq::<(Seq<char>, Seq<char>, bool)>::empty());
    }
    string_from_chars(&doc)
}

/// Render `markdown` to a complete HTML5 document, rewriting the
/// destination of every link and image whose base target (the part before
/// any `#`) is in `link_map` to the mapped path, the original fragment kept.
///
/// External URLs and targets not in `link_map` are left unchanged. The
/// breadcrumb, sidebar and layout come from `chrome`.
pub fn render_markdown_rewriting_links(
    markdown: &str,
    title: &str,
    theme: Theme,
    link_map: &LinkMap,
    chrome: RenderChrome,
) -> (r: String)
    ensures
        r@ == rewritten_page(markdown@, title@, theme, *link_map, chrome),
{
    let events = parse_dests(markdown, MARKDOWN_OPTIONS);
    let dests = event_destinations(&events, link_map, true);
    let html = render_with_dests(markdown, MARKDOWN_OPTIONS, &dests);
    let body = post_process_code_blocks(&to_chars(html.as_str()));
    let doc = build_html_document(title, &body, theme, &chrome);
    string_from_chars(&doc)
}

/// Rendering with an empty link map, no breadcrumb, no sidebar and the
/// default layout gives exactly the standalone page of the same Markdown:
/// rewriting through a map that holds nothing changes nothing.
pub proof fn lemma_empty_link_map_renders_standalone_page(
    markdown: Seq<char>,
    title: Seq<char>,
    theme: Theme,
    link_map: LinkMap,
    chrome: RenderChrome,
)
    requires
        forall|k: Seq<char>| #[trigger] link_map.lookup(k) is None,
        chrome.breadcrumb@.len() == 0,
        chrome.all_files@.len() == 0,
        chrome.appearance == default_appearance(),
    ensures
        rewritten_page(markdown, title, theme, link_map, chrome) == standalone_page(
            markdown,
            title,
            theme,
        ),
{
    lemma_empty_map_rewrites_nothing(parsed_dests(markdown, MARKDOWN_OPTIONS), link_map);
    assert(crumb_entries(chrome.breadcrumb@) =~= Seq::<(Seq<char>, Seq<char>)>::empty());
    assert(file_entries(chrome.all_files@) =~= Seq::<(Seq<char>, Seq<char>, bool)>::empty());
}

} // verus!
