//! Assembling a complete HTML page around a rendered Markdown body.
use vstd::prelude::*;

use crate::config::{theme_name, AppearanceConfig, Theme};
use crate::html::{escape, escape_chars};
use crate::page_text::{
    CSS_0, CSS_1, CSS_2, CSS_3, CSS_4, CSS_5, EARLY_THEME_SCRIPT, ENHANCEMENT_JS, ICON_DARK,
    ICON_LIGHT, ICON_SYSTEM, PAGE_TEMPLATE, SIDEBAR_CTL_0, SIDEBAR_CTL_1, SIDEBAR_CTL_2,
    SIDEBAR_SHELL_0, SIDEBAR_SHELL_1, SIDEBAR_SHELL_2, THEME_CTL_0, THEME_CTL_1, THEME_CTL_2,
    THEME_CTL_3, THEME_CTL_4, THEME_CTL_5, THEME_CTL_6, THEME_CTL_7, THEME_CTL_8, THEME_CTL_9,
    THEME_OPT_0, THEME_OPT_1, THEME_OPT_2, THEME_OPT_3,
};
use crate::sidebar::{build_sidebar_tree, file_entries, nodes_html, models, render_sidebar_nodes, sidebar_tree};
use crate::text::{
    decimal, digit_char, find, find_exec, find_from_exec, lemma_find_from_some, lemma_find_skip,
    push_chars, push_decimal, push_range, push_str, replace_first, replace_first_exec, slice_chars,
    string_from_chars, to_chars,
};

verus! {

/// A letter width given in hundredths of an inch, written as `{:.2}` writes
/// it with trailing zeros (and a then trailing `.`) removed: `850` is `8.5`,
/// `775` is `7.75`, `1000` is `10`.
pub open spec fn hundredths_text(w: nat) -> Seq<char> {
    let whole = decimal(w / 100);
    let f = w % 100;
    if f == 0 {
        whole
    } else if f % 10 == 0 {
        whole + seq!['.', digit_char(f / 10)]
    } else {
        whole + seq!['.', digit_char(f / 10), digit_char(f % 10)]
    }
}

/// The `mark config set-layout` command that persists `a`.
pub open spec fn layout_command(a: AppearanceConfig) -> Seq<char> {
    "mark config set-layout --font-size "@ + decimal(a.font_size_px as nat) + " --letter-width "@
        + hundredths_text(a.letter_width_hundredths as nat) + " --letter-radius "@ + decimal(
        a.letter_radius_px as nat,
    ) + " --sidebar-button-radius "@ + decimal(a.sidebar_button_radius_px as nat)
        + " --theme-button-radius "@ + decimal(a.theme_button_radius_px as nat)
}

/// One entry of the theme menu.
pub open spec fn theme_option(theme: Seq<char>, label: Seq<char>, icon: Seq<char>) -> Seq<char> {
    THEME_OPT_0@ + theme + THEME_OPT_1@ + icon + THEME_OPT_2@ + label + THEME_OPT_3@
}

/// The theme menu: system, light and dark.
pub open spec fn theme_menu() -> Seq<char> {
    theme_option("system"@, "System"@, ICON_SYSTEM@) + theme_option("light"@, "Light"@, ICON_LIGHT@)
        + theme_option("dark"@, "Dark"@, ICON_DARK@)
}

/// The theme button with its menu and the reader-layout form.
pub open spec fn theme_controls(theme_attr: Seq<char>, a: AppearanceConfig) -> Seq<char> {
    THEME_CTL_0@ + theme_attr + THEME_CTL_1@ + theme_attr + THEME_CTL_2@ + theme_menu()
        + THEME_CTL_3@ + decimal(a.font_size_px as nat) + THEME_CTL_4@ + hundredths_text(
        a.letter_width_hundredths as nat,
    ) + THEME_CTL_5@ + decimal(a.letter_radius_px as nat) + THEME_CTL_6@ + decimal(
        a.sidebar_button_radius_px as nat,
    ) + THEME_CTL_7@ + decimal(a.theme_button_radius_px as nat) + THEME_CTL_8@ + escape(
        layout_command(a),
    ) + THEME_CTL_9@
}

/// The sidebar toggle: a checkbox, checked when the sidebar starts visible,
/// and the toggle button.
pub open spec fn sidebar_controls(visible: bool) -> Seq<char> {
    SIDEBAR_CTL_0@ + (if visible {
        " checked"@
    } else {
        ""@
    }) + SIDEBAR_CTL_1@ + (if visible {
        "true"@
    } else {
        "false"@
    }) + SIDEBAR_CTL_2@
}

/// The sidebar with the file tree of `files`, hidden unless `visible`.
pub open spec fn sidebar_shell(
    files: Seq<(Seq<char>, Seq<char>, bool)>,
    run_dir: Seq<char>,
    visible: bool,
) -> Seq<char> {
    SIDEBAR_SHELL_0@ + (if visible {
        ""@
    } else {
        " -translate-x-full"@
    }) + SIDEBAR_SHELL_1@ + "<div class=\"space-y-2\">"@ + nodes_html(sidebar_tree(files, run_dir))
        + "</div>"@ + SIDEBAR_SHELL_2@
}

/// The links of a breadcrumb trail, each followed by a separator.
pub open spec fn crumb_links(crumbs: Seq<(Seq<char>, Seq<char>)>) -> Seq<char>
    decreases crumbs.len(),
{
    if crumbs.len() == 0 {
        Seq::empty()
    } else {
        crumb_links(crumbs.drop_last()) + CRUMB_LINK@ + escape(crumbs.last().1) + "\">"@ + escape(
            crumbs.last().0,
        ) + CRUMB_SEP@
    }
}

/// The links of two trails one after the other are the links of the first
/// trail followed by those of the second.
pub proof fn lemma_crumb_links_concat(s: Seq<(Seq<char>, Seq<char>)>, t: Seq<(Seq<char>, Seq<char>)>)
    ensures
        crumb_links(s + t) == crumb_links(s) + crumb_links(t),
    decreases t.len(),
{
    if t.len() == 0 {
        assert(s + t =~= s);
        assert(crumb_links(s) + crumb_links(t) =~= crumb_links(s));
    } else {
        lemma_crumb_links_concat(s, t.drop_last());
        assert((s + t).drop_last() =~= s + t.drop_last());
        assert((s + t).last() == t.last());
        let c = t.last();
        let link = CRUMB_LINK@ + escape(c.1) + "\">"@ + escape(c.0) + CRUMB_SEP@;
        assert(crumb_links(s + t) =~= crumb_links(s + t.drop_last()) + link);
        assert(crumb_links(t) =~= crumb_links(t.drop_last()) + link);
        assert(crumb_links(s + t) =~= crumb_links(s) + crumb_links(t));
    }
}

/// Breadcrumb links come in the order of the trail: the links of the
/// crumbs before crumb `i`, then the link to crumb `i`'s escaped path
/// showing its escaped name, then the links of the crumbs after it.
pub proof fn lemma_crumb_order(crumbs: Seq<(Seq<char>, Seq<char>)>, i: int)
    requires
        0 <= i < crumbs.len(),
    ensures
        crumb_links(crumbs) == crumb_links(crumbs.take(i)) + (CRUMB_LINK@ + escape(crumbs[i].1)
            + "\">"@ + escape(crumbs[i].0) + CRUMB_SEP@) + crumb_links(crumbs.skip(i + 1)),
{
    let c = crumbs[i];
    let one = seq![c];
    assert(one.drop_last() =~= Seq::<(Seq<char>, Seq<char>)>::empty());
    assert(crumb_links(one.drop_last()) =~= Seq::<char>::empty());
    assert(crumb_links(one) =~= CRUMB_LINK@ + escape(c.1) + "\">"@ + escape(c.0) + CRUMB_SEP@);
    assert(crumbs =~= crumbs.take(i) + one + crumbs.skip(i + 1));
    lemma_crumb_links_concat(crumbs.take(i) + one, crumbs.skip(i + 1));
    lemma_crumb_links_concat(crumbs.take(i), one);
}

/// The breadcrumb trail of `(name, html path)` ancestors ending in `title`;
/// nothing when there are no ancestors.
pub open spec fn breadcrumb_html(title: Seq<char>, crumbs: Seq<(Seq<char>, Seq<char>)>) -> Seq<char> {
    if crumbs.len() == 0 {
        Seq::empty()
    } else {
        CRUMB_NAV@ + crumb_links(crumbs) + CRUMB_CURRENT@ + escape(title) + "</span></nav>"@
    }
}

/// The style sheet carrying the reader-layout variables of `a`.
pub open spec fn extra_css(a: AppearanceConfig) -> Seq<char> {
    CSS_0@ + decimal(a.font_size_px as nat) + CSS_1@ + hundredths_text(
        a.letter_width_hundredths as nat,
    ) + CSS_2@ + decimal(a.letter_radius_px as nat) + CSS_3@ + decimal(
        a.sidebar_button_radius_px as nat,
    ) + CSS_4@ + decimal(a.theme_button_radius_px as nat) + CSS_5@
}

/// The opening `<html>` tag for `theme`.
pub open spec fn html_root(theme: Theme) -> Seq<char> {
    match theme {
        Theme::Dark => "<html lang=\"en\" data-theme=\"dark\" class=\"dark\">"@,
        _ => "<html lang=\"en\" data-theme=\""@ + theme_name(theme) + "\">"@,
    }
}

/// `doc` with the text from the first `start` up to (not including) the
/// first `end` after it replaced by `replacement`; `doc` when either is missing.
pub open spec fn replace_between(
    doc: Seq<char>,
    start: Seq<char>,
    end: Seq<char>,
    replacement: Seq<char>,
) -> Seq<char> {
    match find(doc, start) {
        None => doc,
        Some(s) => match find(doc.skip(s), end) {
            None => doc,
            Some(e) => doc.take(s) + replacement + doc.skip(s + e),
        },
    }
}

/// `doc` with `injection` placed just before the first `marker`; `doc` when
/// there is none.
pub open spec fn inject_at(doc: Seq<char>, marker: Seq<char>, injection: Seq<char>) -> Seq<char> {
    match find(doc, marker) {
        None => doc,
        Some(i) => doc.take(i) + injection + doc.skip(i),
    }
}

/// The views of the breadcrumb entries.
pub open spec fn crumb_entries(crumbs: Seq<(String, String)>) -> Seq<(Seq<char>, Seq<char>)> {
    Seq::new(crumbs.len(), |i: int| (crumbs[i].0@, crumbs[i].1@))
}

/// The page chrome around a rendered body.
pub struct RenderChrome<'a> {
    /// `(display_name, html_path)` ancestors from the entry point down to
    /// (not including) the current file; empty for the entry point itself.
    pub breadcrumb: &'a [(String, String)],
    /// `(display_name, html_path, is_current)` entries for the sidebar;
    /// empty for a single-file render, which then has no sidebar.
    pub all_files: &'a [(String, String, bool)],
    /// The run directory under which the sidebar paths are laid out.
    pub run_dir: &'a str,
    /// Whether the sidebar starts visible.
    pub sidebar_visible: bool,
    /// Reader layout settings.
    pub appearance: AppearanceConfig,
}

/// The page header: the title as a heading.
pub open spec fn page_header(title: Seq<char>) -> Seq<char> {
    PAGE_HEADER_OPEN@ + escape(title) + PAGE_HEADER_CLOSE@
}

/// The complete page for `body`: the page shell with its title, theme,
/// content (breadcrumb, header with the title, body), sidebar, controls,
/// styles and scripts filled in.
pub open spec fn page(
    title: Seq<char>,
    body: Seq<char>,
    theme: Theme,
    crumbs: Seq<(Seq<char>, Seq<char>)>,
    files: Seq<(Seq<char>, Seq<char>, bool)>,
    run_dir: Seq<char>,
    visible: bool,
    a: AppearanceConfig,
) -> Seq<char> {
    let content = breadcrumb_html(title, crumbs) + page_header(title) + "<div class=\"markdown-prose\">"@
        + body + "</div>"@;
    let controls = if files.len() == 0 {
        Seq::empty()
    } else {
        sidebar_controls(visible)
    };
    let shell = if files.len() == 0 {
        Seq::empty()
    } else {
        sidebar_shell(files, run_dir, visible)
    };
    let d1 = replace_first(PAGE_TEMPLATE@, "<html lang=\"en\">"@, html_root(theme));
    let d2 = replace_first(d1, TEMPLATE_TITLE@, "<title>"@ + escape(title) + "</title>"@);
    let d3 = replace_first(d2, CONTENT_PLACEHOLDER@, content);
    let d4 = replace_first(d3, WIDTH_SHELL@, WIDTH_SHELL_MARKED@);
    let d5 = replace_between(d4, LEFT_CONTROL_START@, RIGHT_CONTROL_START@, controls);
    let d6 = replace_between(
        d5,
        RIGHT_CONTROL_START@,
        ASIDE_START@,
        theme_controls(theme_name(theme), a),
    );
    let d7 = replace_between(d6, ASIDE_START@, MAIN_START@, shell);
    let d8 = inject_at(d7, "</head>"@, extra_css(a) + EARLY_THEME_SCRIPT@);
    inject_at(d8, "</body>"@, ENHANCEMENT_JS@)
}

/// The page for `body` with the given chrome.
pub open spec fn chrome_page(title: Seq<char>, body: Seq<char>, theme: Theme, chrome: RenderChrome) -> Seq<char> {
    page(
        title,
        body,
        theme,
        crumb_entries(chrome.breadcrumb@),
        file_entries(chrome.all_files@),
        chrome.run_dir@,
        chrome.sidebar_visible,
        chrome.appearance,
    )
}

/// The opening of the page header, up to the title.
pub const PAGE_HEADER_OPEN: &'static str = "<header class=\"mark-page-header\"><h1>";

/// The end of the page header, after the title.
pub const PAGE_HEADER_CLOSE: &'static str = "</h1></header>";

/// The title of the page template, replaced by the document title.
pub const TEMPLATE_TITLE: &'static str = "<title>Mark HTML Template</title>";

/// The placeholder of the template that the rendered body replaces.
pub const CONTENT_PLACEHOLDER: &'static str = "<div class=\"markdown-prose\"><p>&lt;put rendered html here&gt;</p></div>";

/// The container that bounds the letter width.
pub const WIDTH_SHELL: &'static str = "<div class=\"w-full max-w-[calc(8.5in+4rem)]\">";

/// The same container, marked for the layout controls.
pub const WIDTH_SHELL_MARKED: &'static str = "<div class=\"mark-page-width-shell w-full max-w-[calc(8.5in+4rem)]\">";

/// The start of the left control area (sidebar toggle).
pub const LEFT_CONTROL_START: &'static str = "<div class=\"fixed left-4 top-4 z-40 md:left-6 md:top-6\">";

/// The start of the right control area (theme and layout controls).
pub const RIGHT_CONTROL_START: &'static str = "<div class=\"fixed right-4 top-4 z-40 md:right-6 md:top-6\">";

/// The start of the sidebar area.
pub const ASIDE_START: &'static str = "<aside class=\"editor-scrollbar";

/// The start of the main area, which ends the sidebar area.
pub const MAIN_START: &'static str = "<main class=\"relative flex min-h-screen items-center justify-center px-4 py-24 md:px-6\">";

/// The opening tag of the breadcrumb navigation.
pub const CRUMB_NAV: &'static str = "<nav class=\"mark-breadcrumb mb-6 flex flex-wrap items-center gap-2 text-sm text-[var(--muted-foreground)]\" aria-label=\"Breadcrumb\">";

/// The start of a breadcrumb link, up to its target.
pub const CRUMB_LINK: &'static str = "<a class=\"transition-colors hover:text-[var(--foreground)] hover:underline\" href=\"";

/// The end of a breadcrumb link and the separator after it.
pub const CRUMB_SEP: &'static str = "</a><span class=\"mark-breadcrumb-sep\">&rsaquo;</span>";

/// The opening tag of the current page in the breadcrumb.
pub const CRUMB_CURRENT: &'static str = "<span class=\"mark-breadcrumb-current font-medium text-[var(--foreground)]\">";

/// Append the text of a letter width in hundredths of an inch.
fn push_hundredths(out: &mut Vec<char>, w: u32)
    ensures
        final(out)@ == old(out)@ + hundredths_text(w as nat),
{
    push_decimal(out, (w / 100) as u128);
    let f = w % 100;
    if f != 0 {
        out.push('.');
        let tens: u8 = (f / 10) as u8;
        out.push((48u8 + tens) as char);
        if f % 10 != 0 {
            let ones: u8 = (f % 10) as u8;
            out.push((48u8 + ones) as char);
        }
    }
    proof {
        let whole = decimal((w / 100) as nat);
        if f == 0 {
        } else if f % 10 == 0 {
            assert(out@ =~= old(out)@ + (whole + seq!['.', digit_char((f / 10) as nat)]));
        } else {
            assert(out@ =~= old(out)@ + (whole + seq![
                '.',
                digit_char((f / 10) as nat),
                digit_char((f % 10) as nat),
            ]));
        }
    }
}

/// Format a letter width in hundredths of an inch with at most two decimals
/// and no trailing zeros.
pub fn format_decimal(hundredths: u32) -> (r: String)
    ensures
        r@ == hundredths_text(hundredths as nat),
{
    let mut v: Vec<char> = Vec::new();
    push_hundredths(&mut v, hundredths);
    string_from_chars(&v)
}

fn push_layout_command(out: &mut Vec<char>, a: AppearanceConfig)
    ensures
        final(out)@ == old(out)@ + layout_command(a),
{
    push_str(out, "mark config set-layout --font-size ");
    push_decimal(out, a.font_size_px as u128);
    push_str(out, " --letter-width ");
    push_hundredths(out, a.letter_width_hundredths);
    push_str(out, " --letter-radius ");
    push_decimal(out, a.letter_radius_px as u128);
    push_str(out, " --sidebar-button-radius ");
    push_decimal(out, a.sidebar_button_radius_px as u128);
    push_str(out, " --theme-button-radius ");
    push_decimal(out, a.theme_button_radius_px as u128);
    proof {
        assert(out@ =~= old(out)@ + layout_command(a));
    }
}

/// The `mark config set-layout` command that persists `appearance`.
pub fn render_layout_command(appearance: AppearanceConfig) -> (r: String)
    ensures
        r@ == layout_command(appearance),
{
    let mut v: Vec<char> = Vec::new();
    push_layout_command(&mut v, appearance);
    proof {
        assert(v@ =~= layout_command(appearance));
    }
    string_from_chars(&v)
}

fn render_theme_option(out: &mut Vec<char>, theme: &str, label: &str, icon: &str)
    ensures
        final(out)@ == old(out)@ + theme_option(theme@, label@, icon@),
{
    push_str(out, THEME_OPT_0);
    push_str(out, theme);
    push_str(out, THEME_OPT_1);
    push_str(out, icon);
    push_str(out, THEME_OPT_2);
    push_str(out, label);
    push_str(out, THEME_OPT_3);
    proof {
        assert(out@ =~= old(out)@ + theme_option(theme@, label@, icon@));
    }
}

#[verifier::spinoff_prover]
#[verifier::rlimit(40)]
fn render_theme_controls(out: &mut Vec<char>, theme_attr: &str, a: AppearanceConfig)
    ensures
        final(out)@ == old(out)@ + theme_controls(theme_attr@, a),
{
    push_str(out, THEME_CTL_0);
    push_str(out, theme_attr);
    push_str(out, THEME_CTL_1);
    push_str(out, theme_attr);
    push_str(out, THEME_CTL_2);
    let ghost before_menu = out@;
    render_theme_option(out, "system", "System", ICON_SYSTEM);
    render_theme_option(out, "light", "Light", ICON_LIGHT);
    render_theme_option(out, "dark", "Dark", ICON_DARK);
    proof {
        assert(out@ =~= before_menu + theme_menu());
    }
    push_str(out, THEME_CTL_3);
    push_decimal(out, a.font_size_px as u128);
    push_str(out, THEME_CTL_4);
    push_hundredths(out, a.letter_width_hundredths);
    push_str(out, THEME_CTL_5);
    push_decimal(out, a.letter_radius_px as u128);
    push_str(out, THEME_CTL_6);
    push_decimal(out, a.sidebar_button_radius_px as u128);
    push_str(out, THEME_CTL_7);
    push_decimal(out, a.theme_button_radius_px as u128);
    push_str(out, THEME_CTL_8);
    let mut cmd: Vec<char> = Vec::new();
    push_layout_command(&mut cmd, a);
    proof {
        assert(cmd@ =~= layout_command(a));
    }
    push_chars(out, &escape_chars(&cmd));
    push_str(out, THEME_CTL_9);
    proof {
        assert(out@ =~= old(out)@ + theme_controls(theme_attr@, a));
    }
}

fn render_sidebar_controls(out: &mut Vec<char>, visible: bool)
    ensures
        final(out)@ == old(out)@ + sidebar_controls(visible),
{
    push_str(out, SIDEBAR_CTL_0);
    if visible {
        push_str(out, " checked");
    } else {
        push_str(out, "");
    }
    push_str(out, SIDEBAR_CTL_1);
    if visible {
        push_str(out, "true");
    } else {
        push_str(out, "false");
    }
    push_str(out, SIDEBAR_CTL_2);
    proof {
        assert(out@ =~= old(out)@ + sidebar_controls(visible));
    }
}

fn render_sidebar_shell(out: &mut Vec<char>, all_files: &[(String, String, bool)], run_dir: &str, visible: bool)
    ensures
        final(out)@ == old(out)@ + sidebar_shell(file_entries(all_files@), run_dir@, visible),
{
    push_str(out, SIDEBAR_SHELL_0);
    if visible {
        push_str(out, "");
    } else {
        push_str(out, " -translate-x-full");
    }
    push_str(out, SIDEBAR_SHELL_1);
    let tree = build_sidebar_tree(all_files, run_dir);
    push_str(out, "<div class=\"space-y-2\">");
    render_sidebar_nodes(&tree, out);
    push_str(out, "</div>");
    push_str(out, SIDEBAR_SHELL_2);
    proof {
        assert(out@ =~= old(out)@ + sidebar_shell(file_entries(all_files@), run_dir@, visible));
    }
}

fn render_breadcrumb_html(out: &mut Vec<char>, title: &str, breadcrumb: &[(String, String)])
    ensures
        final(out)@ == old(out)@ + breadcrumb_html(title@, crumb_entries(breadcrumb@)),
{
    if breadcrumb.len() == 0 {
        proof {
            assert(out@ =~= out@ + breadcrumb_html(title@, crumb_entries(breadcrumb@)));
        }
        return ;
    }
    let ghost start = out@;
    push_str(out, CRUMB_NAV);
    let ghost after_nav = out@;
    let mut i: usize = 0;
    proof {
        assert(crumb_entries(breadcrumb@).take(0) =~= Seq::<(Seq<char>, Seq<char>)>::empty());
    }
    while i < breadcrumb.len()
        invariant
            i <= breadcrumb.len(),
            out@ == after_nav + crumb_links(crumb_entries(breadcrumb@).take(i as int)),
        decreases breadcrumb.len() - i,
    {
        let (name, path) = &breadcrumb[i];
        proof {
            let t = crumb_entries(breadcrumb@).take(i + 1);
            assert(t.drop_last() =~= crumb_entries(breadcrumb@).take(i as int));
            assert(t.last() == (name@, path@));
        }
        let ghost o = out@;
        push_str(out, CRUMB_LINK);
        push_chars(out, &escape_chars(&to_chars(path.as_str())));
        push_str(out, "\">");
        push_chars(out, &escape_chars(&to_chars(name.as_str())));
        push_str(out, CRUMB_SEP);
        proof {
            assert(out@ =~= o + (CRUMB_LINK@ + escape(path@) + "\">"@ + escape(name@) + CRUMB_SEP@));
        }
        i = i + 1;
    }
    proof {
        assert(crumb_entries(breadcrumb@).take(i as int) =~= crumb_entries(breadcrumb@));
    }
    push_str(out, CRUMB_CURRENT);
    push_chars(out, &escape_chars(&to_chars(title)));
    push_str(out, "</span></nav>");
    proof {
        assert(out@ =~= start + breadcrumb_html(title@, crumb_entries(breadcrumb@)));
    }
}

fn push_extra_css(out: &mut Vec<char>, a: AppearanceConfig)
    ensures
        final(out)@ == old(out)@ + extra_css(a),
{
    push_str(out, CSS_0);
    push_decimal(out, a.font_size_px as u128);
    push_str(out, CSS_1);
    push_hundredths(out, a.letter_width_hundredths);
    push_str(out, CSS_2);
    push_decimal(out, a.letter_radius_px as u128);
    push_str(out, CSS_3);
    push_decimal(out, a.sidebar_button_radius_px as u128);
    push_str(out, CSS_4);
    push_decimal(out, a.theme_button_radius_px as u128);
    push_str(out, CSS_5);
    proof {
        assert(out@ =~= old(out)@ + extra_css(a));
    }
}

/// `doc` with the text from the first `start` up to the first `end` after
/// it replaced by `replacement`.
pub fn replace_range(doc: &Vec<char>, start: &Vec<char>, end: &Vec<char>, replacement: &Vec<char>) -> (r:
    Vec<char>)
    ensures
        r@ == replace_between(doc@, start@, end@, replacement@),
{
    let s = match find_exec(doc, start) {
        None => {
            return doc.clone();
        },
        Some(s) => s,
    };
    proof {
        lemma_find_from_some(doc@, start@, 0);
    }
    let e = find_from_exec(doc, end, s);
    proof {
        lemma_find_skip(doc@, end@, s as int);
        lemma_find_from_some(doc@, end@, s as int);
    }
    match e {
        None => doc.clone(),
        Some(e) => {
            let mut out = slice_chars(doc, 0, s);
            push_chars(&mut out, replacement);
            push_range(&mut out, doc, e, doc.len());
            proof {
                assert(doc@.take(s as int) =~= doc@.subrange(0, s as int));
                assert(doc@.skip(s + (e - s)) =~= doc@.subrange(e as int, doc@.len() as int));
            }
            out
        },
    }
}

/// `doc` with `injection` placed just before the first `marker`.
pub fn inject_before(doc: &Vec<char>, marker: &Vec<char>, injection: &Vec<char>) -> (r: Vec<char>)
    ensures
        r@ == inject_at(doc@, marker@, injection@),
{
    match find_exec(doc, marker) {
        None => doc.clone(),
        Some(i) => {
            proof {
                lemma_find_from_some(doc@, marker@, 0);
            }
            let mut out = slice_chars(doc, 0, i);
            push_chars(&mut out, injection);
            push_range(&mut out, doc, i, doc.len());
            proof {
                assert(doc@.take(i as int) =~= doc@.subrange(0, i as int));
                assert(doc@.skip(i as int) =~= doc@.subrange(i as int, doc@.len() as int));
            }
            out
        },
    }
}

fn html_root_exec(theme: Theme) -> (r: Vec<char>)
    ensures
        r@ == html_root(theme),
{
    match theme {
        Theme::Dark => to_chars("<html lang=\"en\" data-theme=\"dark\" class=\"dark\">"),
        _ => {
            let mut v = to_chars("<html lang=\"en\" data-theme=\"");
            push_str(&mut v, theme.name());
            push_str(&mut v, "\">");
            v
        },
    }
}

/// Place a rendered HTML `body` in the page shell: title, theme, breadcrumb,
/// sidebar (when `chrome.all_files` is non-empty), theme and layout
/// controls, styles and scripts.
pub fn build_html_document(title: &str, body: &Vec<char>, theme: Theme, chrome: &RenderChrome) -> (r:
    Vec<char>)
    ensures
        r@ == chrome_page(title@, body@, theme, *chrome),
{
    let d0 = to_chars(PAGE_TEMPLATE);
    let d1 = replace_first_exec(&d0, &to_chars("<html lang=\"en\">"), &html_root_exec(theme));
    let mut t = to_chars("<title>");
    push_chars(&mut t, &escape_chars(&to_chars(title)));
    push_str(&mut t, "</title>");
    let d2 = replace_first_exec(&d1, &to_chars(TEMPLATE_TITLE), &t);
    let mut content: Vec<char> = Vec::new();
    render_breadcrumb_html(&mut content, title, chrome.breadcrumb);
    push_str(&mut content, PAGE_HEADER_OPEN);
    push_chars(&mut content, &escape_chars(&to_chars(title)));
    push_str(&mut content, PAGE_HEADER_CLOSE);
    push_str(&mut content, "<div class=\"markdown-prose\">");
    push_chars(&mut content, body);
    push_str(&mut content, "</div>");
    let d3 = replace_first_exec(&d2, &to_chars(CONTENT_PLACEHOLDER), &content);
    let d4 = replace_first_exec(&d3, &to_chars(WIDTH_SHELL), &to_chars(WIDTH_SHELL_MARKED));
    let mut controls: Vec<char> = Vec::new();
    let mut shell: Vec<char> = Vec::new();
    if chrome.all_files.len() > 0 {
        render_sidebar_controls(&mut controls, chrome.sidebar_visible);
        render_sidebar_shell(&mut shell, chrome.all_files, chrome.run_dir, chrome.sidebar_visible);
    }
    let d5 = replace_range(&d4, &to_chars(LEFT_CONTROL_START), &to_chars(RIGHT_CONTROL_START), &controls);
    let mut theme_ctl: Vec<char> = Vec::new();
    render_theme_controls(&mut theme_ctl, theme.name(), chrome.appearance);
    let d6 = replace_range(&d5, &to_chars(RIGHT_CONTROL_START), &to_chars(ASIDE_START), &theme_ctl);
    let d7 = replace_range(&d6, &to_chars(ASIDE_START), &to_chars(MAIN_START), &shell);
    let mut head: Vec<char> = Vec::new();
    push_extra_css(&mut head, chrome.appearance);
    push_str(&mut head, EARLY_THEME_SCRIPT);
    let d8 = inject_before(&d7, &to_chars("</head>"), &head);
    let d9 = inject_before(&d8, &to_chars("</body>"), &to_chars(ENHANCEMENT_JS));
    proof {
        assert(content@ =~= breadcrumb_html(title@, crumb_entries(chrome.breadcrumb@))
            + page_header(title@) + "<div class=\"markdown-prose\">"@ + body@ + "</div>"@);
        assert(t@ =~= "<title>"@ + escape(title@) + "</title>"@);
        assert(head@ =~= extra_css(chrome.appearance) + EARLY_THEME_SCRIPT@);
        if chrome.all_files.len() == 0 {
            assert(controls@ =~= Seq::<char>::empty());
            assert(shell@ =~= Seq::<char>::empty());
        } else {
            assert(controls@ =~= sidebar_controls(chrome.sidebar_visible));
            assert(shell@ =~= sidebar_shell(file_entries(chrome.all_files@), chrome.run_dir@, chrome.sidebar_visible));
        }
        assert(theme_ctl@ =~= theme_controls(theme_name(theme), chrome.appearance));
    }
    d9
}

} // verus!
