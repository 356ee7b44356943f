use mark::config::{AppearanceConfig, Theme};
use mark::render::{
    build_sidebar_tree, is_external_url, is_md_extension, local_asset_link_candidates,
    local_md_link_candidates, render_markdown, render_markdown_rewriting_links, split_fragment,
    LinkMap, RenderChrome,
};

fn chrome<'a>(
    breadcrumb: &'a [(String, String)],
    all_files: &'a [(String, String, bool)],
    run_dir: &'a str,
    sidebar_visible: bool,
) -> RenderChrome<'a> {
    RenderChrome {
        breadcrumb,
        all_files,
        run_dir,
        sidebar_visible,
        appearance: AppearanceConfig::default(),
    }
}

fn join(dir: &std::path::Path, rest: &str) -> String {
    dir.join(rest).to_string_lossy().into_owned()
}

#[test]
fn render_produces_nonempty_html() {
    let html = render_markdown("# Hello\n\nWorld.", "Hello", Theme::Light);
    assert!(!html.is_empty());
    assert!(html.contains("<!DOCTYPE html>"));
}

#[test]
fn render_contains_heading() {
    let html = render_markdown("# My Title\n", "My Title", Theme::Light);
    assert!(html.contains("<h1>My Title</h1>"));
}

#[test]
fn render_contains_paragraph() {
    let html = render_markdown("Hello world\n", "test", Theme::Light);
    assert!(html.contains("<p>Hello world</p>"));
}

#[test]
fn render_title_in_head() {
    let html = render_markdown("text", "My Doc", Theme::Light);
    assert!(html.contains("<title>My Doc</title>"));
}

#[test]
fn render_escapes_title_html() {
    let html = render_markdown("x", "<script>alert(1)</script>", Theme::Light);
    assert!(html.contains("&lt;script&gt;"));
    assert!(!html.contains("<title><script>"));
    assert!(!html.contains("<script>alert(1)"));
}

#[test]
fn render_includes_embedded_css() {
    let html = render_markdown("x", "t", Theme::Light);
    assert!(html.contains("<style>"));
}

#[test]
fn render_light_theme_has_data_attribute() {
    let html = render_markdown("x", "t", Theme::Light);
    assert!(html.contains(r#"data-theme="light""#));
}

#[test]
fn render_system_theme_has_data_attribute() {
    let html = render_markdown("x", "t", Theme::System);
    assert!(html.contains(r#"data-theme="system""#));
}

#[test]
fn render_dark_theme_has_data_attribute() {
    let html = render_markdown("x", "t", Theme::Dark);
    assert!(html.contains(r#"data-theme="dark""#));
}

#[test]
fn render_dark_theme_contains_dark_css() {
    let html = render_markdown("x", "t", Theme::Dark);
    assert!(html.contains(r#"<html lang="en" data-theme="dark" class="dark">"#));
}

#[test]
fn render_includes_theme_toggle_controls() {
    let html = render_markdown("x", "t", Theme::System);
    assert!(html.contains("data-theme-option=\"system\""));
    assert!(html.contains("data-theme-option=\"light\""));
    assert!(html.contains("data-theme-option=\"dark\""));
    assert!(html.contains("mark-theme-option-icon"));
    assert!(html.contains("lucide lucide-monitor h-3.5 w-3.5"));
    assert!(html.contains("lucide lucide-sun h-3.5 w-3.5"));
    assert!(html.contains("lucide lucide-moon h-3.5 w-3.5"));
    assert!(html.contains(">System</span>"));
    assert!(html.contains(">Light</span>"));
    assert!(html.contains(">Dark</span>"));
}

#[test]
fn render_includes_theme_and_sidebar_client_side_scripts() {
    let html = render_markdown("x", "t", Theme::System);
    assert!(html.contains("document.addEventListener('keydown'"));
    assert!(html.contains("isEditableTarget"));
    assert!(html.contains("setTheme(button.dataset.themeOption)"));
}

#[test]
fn render_uses_template_shell_and_replaces_placeholders() {
    let html = render_markdown("# Hello\n\nWorld.", "hello", Theme::Light);
    assert!(html.contains("class=\"editor-shell\""), "{html}");
    assert!(html.contains("class=\"paper-sheet"), "{html}");
    assert!(!html.contains("Placeholder file tree"), "{html}");
    assert!(!html.contains("&lt;put rendered html here&gt;"), "{html}");
}

#[test]
fn code_block_has_copy_button() {
    let md = "```\nsome code\n```\n";
    let html = render_markdown(md, "t", Theme::Light);
    assert!(
        html.contains("mark-copy-btn"),
        "copy button should be present"
    );
}

#[test]
fn code_block_supported_lang_has_clean_button() {
    let md = "```rust\nfn main() {}\n```\n";
    let html = render_markdown(md, "t", Theme::Light);
    assert!(
        html.contains(r#"class="mark-btn mark-copy-clean-btn""#),
        "clean button element should be present for rust"
    );
}

#[test]
fn code_block_unsupported_lang_no_clean_button() {
    let md = "```html\n<p>hello</p>\n```\n";
    let html = render_markdown(md, "t", Theme::Light);
    assert!(
        !html.contains(r#"class="mark-btn mark-copy-clean-btn""#),
        "clean button element should NOT be present for html"
    );
}

#[test]
fn code_block_no_lang_no_clean_button() {
    let md = "```\nsome code\n```\n";
    let html = render_markdown(md, "t", Theme::Light);
    assert!(
        !html.contains(r#"class="mark-btn mark-copy-clean-btn""#),
        "clean button element should NOT be present when no language specified"
    );
}

#[test]
fn rewrite_links_replaces_md_href() {
    let dir = tempfile::tempdir().expect("tempdir");
    // Rendering reads no file: the link map alone decides the rewrite.
    let html_path = join(dir.path(), "api-123-abcd1234.html");
    let mut link_map = LinkMap::new();
    link_map.insert("api.md".to_string(), html_path.clone());

    let md = "[API](api.md)\n";
    let run_dir = dir.path().to_string_lossy().into_owned();
    let html = render_markdown_rewriting_links(
        md,
        "t",
        Theme::Light,
        &link_map,
        chrome(&[], &[], &run_dir, false),
    );
    let expected = format!("href=\"{}\"", html_path);
    assert!(
        html.contains(&expected),
        "expected rewritten href in html:\n{html}"
    );
    assert!(
        !html.contains("href=\"api.md\""),
        "original .md href must not survive"
    );
}

#[test]
fn rewrite_links_preserves_fragment() {
    let dir = tempfile::tempdir().expect("tempdir");
    let html_path = join(dir.path(), "api-123-abcd1234.html");
    let mut link_map = LinkMap::new();
    link_map.insert("api.md".to_string(), html_path.clone());

    let md = "[Section](api.md#endpoints)\n";
    let run_dir = dir.path().to_string_lossy().into_owned();
    let html = render_markdown_rewriting_links(
        md,
        "t",
        Theme::Light,
        &link_map,
        chrome(&[], &[], &run_dir, false),
    );
    let expected = format!("href=\"{}#endpoints\"", html_path);
    assert!(
        html.contains(&expected),
        "fragment must be preserved:\n{html}"
    );
}

#[test]
fn rewrite_links_leaves_external_urls_unchanged() {
    let link_map = LinkMap::new();
    let md = "[Google](https://google.com)\n";
    let html = render_markdown_rewriting_links(
        md,
        "t",
        Theme::Light,
        &link_map,
        chrome(&[], &[], "", false),
    );
    assert!(
        html.contains("href=\"https://google.com\""),
        "external URL must not be modified:\n{html}"
    );
}

#[test]
fn rewrite_links_leaves_non_md_local_links_unchanged() {
    let link_map = LinkMap::new();
    let md = "[Image](photo.png)\n";
    let html = render_markdown_rewriting_links(
        md,
        "t",
        Theme::Light,
        &link_map,
        chrome(&[], &[], "", false),
    );
    assert!(
        html.contains("href=\"photo.png\""),
        "non-md link must not be modified:\n{html}"
    );
}

#[test]
fn rewrite_links_rewrites_image_sources_when_present_in_map() {
    let dir = tempfile::tempdir().expect("tempdir");
    let asset_path = join(dir.path(), "assets/logo.png");
    let mut link_map = LinkMap::new();
    link_map.insert("logo.png".to_string(), asset_path.clone());

    let md = "![Logo](logo.png)\n";
    let run_dir = dir.path().to_string_lossy().into_owned();
    let html = render_markdown_rewriting_links(
        md,
        "t",
        Theme::Light,
        &link_map,
        chrome(&[], &[], &run_dir, false),
    );
    let expected = format!("src=\"{}\"", asset_path);
    assert!(html.contains(&expected), "{html}");
}

#[test]
fn rewrite_links_empty_map_is_identity() {
    let link_map = LinkMap::new();
    let md = "[Chapter](chapter.md)\n";
    let html_rewrite = render_markdown_rewriting_links(
        md,
        "t",
        Theme::Light,
        &link_map,
        chrome(&[], &[], "", false),
    );
    let html_plain = render_markdown(md, "t", Theme::Light);
    assert_eq!(
        html_rewrite, html_plain,
        "empty link_map must produce identical output to render_markdown"
    );
}

#[test]
fn no_breadcrumb_on_entry_point() {
    let link_map = LinkMap::new();
    let html = render_markdown_rewriting_links(
        "# Entry",
        "entry",
        Theme::Light,
        &link_map,
        chrome(&[], &[], "", false),
    );
    assert!(
        !html.contains("aria-label=\"Breadcrumb\""),
        "entry-point must not have breadcrumb nav element:\n{html}"
    );
}

#[test]
fn breadcrumb_present_on_depth_one_page() {
    let dir = tempfile::tempdir().expect("tempdir");
    let entry_html = join(dir.path(), "entry-abc.html");
    let breadcrumb = vec![("entry".to_string(), entry_html.clone())];
    let link_map = LinkMap::new();
    let html = render_markdown_rewriting_links(
        "# Chapter",
        "chapter",
        Theme::Light,
        &link_map,
        chrome(&breadcrumb, &[], "", false),
    );
    assert!(
        html.contains("aria-label=\"Breadcrumb\""),
        "depth-1 page must have breadcrumb:\n{html}"
    );
    let href = format!("href=\"{}\"", entry_html);
    assert!(
        html.contains(&href),
        "breadcrumb must link to entry html:\n{html}"
    );
    assert!(
        html.contains("mark-breadcrumb-current"),
        "current page must appear as non-link span:\n{html}"
    );
}

#[test]
fn sidebar_present_when_all_files_provided() {
    let dir = tempfile::tempdir().expect("tempdir");
    let entry_html = join(dir.path(), "entry-abc.html");
    let chapter_html = join(dir.path(), "chapter-abc.html");
    let all_files = vec![
        ("entry".to_string(), entry_html.clone(), false),
        ("chapter".to_string(), chapter_html.clone(), true),
    ];
    let link_map = LinkMap::new();
    let run_dir = dir.path().to_string_lossy().into_owned();
    let html = render_markdown_rewriting_links(
        "# Chapter",
        "chapter",
        Theme::Light,
        &link_map,
        chrome(&[], &all_files, &run_dir, false),
    );
    assert!(
        html.contains("id=\"mark-sidebar\""),
        "sidebar must be present when all_files is non-empty:\n{html}"
    );
    assert!(
        html.contains("mark-sidebar-toggle"),
        "sidebar toggle must be present:\n{html}"
    );
    assert!(
        html.contains("mark-sidebar-current"),
        "current page must be highlighted in sidebar:\n{html}"
    );
    assert!(
        html.contains("aria-label=\"Rendered file tree\""),
        "sidebar tree list must be present:\n{html}"
    );
    let entry_href = format!("href=\"{}\"", entry_html);
    assert!(
        html.contains(&entry_href),
        "non-current entry must be a link in sidebar:\n{html}"
    );
    assert!(
        html.contains("title=\"Toggle sidebar (e)\""),
        "sidebar toggle should advertise the e hotkey:\n{html}"
    );
}

#[test]
fn sidebar_is_hidden_by_default_when_not_requested_visible() {
    let dir = tempfile::tempdir().expect("tempdir");
    let html_path = join(dir.path(), "entry-abc.html");
    let all_files = vec![("entry".to_string(), html_path, true)];
    let link_map = LinkMap::new();
    let run_dir = dir.path().to_string_lossy().into_owned();
    let html = render_markdown_rewriting_links(
        "# Entry",
        "entry",
        Theme::System,
        &link_map,
        chrome(&[], &all_files, &run_dir, false),
    );
    assert!(
        html.contains("id=\"mark-sidebar-toggle\" class=\"mark-sidebar-toggle\">"),
        "sidebar checkbox should start unchecked when hidden by default:\n{html}"
    );
}

#[test]
fn sidebar_can_start_visible_from_config_default() {
    let dir = tempfile::tempdir().expect("tempdir");
    let html_path = join(dir.path(), "entry-abc.html");
    let all_files = vec![("entry".to_string(), html_path, true)];
    let link_map = LinkMap::new();
    let run_dir = dir.path().to_string_lossy().into_owned();
    let html = render_markdown_rewriting_links(
        "# Entry",
        "entry",
        Theme::System,
        &link_map,
        chrome(&[], &all_files, &run_dir, true),
    );
    assert!(
        html.contains("id=\"mark-sidebar-toggle\" class=\"mark-sidebar-toggle\" checked>"),
        "sidebar checkbox should reflect a visible default:\n{html}"
    );
}

#[test]
fn sidebar_absent_when_all_files_empty() {
    let link_map = LinkMap::new();
    let html = render_markdown_rewriting_links(
        "# Solo",
        "solo",
        Theme::Light,
        &link_map,
        chrome(&[], &[], "", false),
    );
    assert!(
        !html.contains("id=\"mark-sidebar\""),
        "no sidebar nav element when all_files is empty:\n{html}"
    );
}

#[test]
fn sidebar_present_on_dark_theme() {
    let dir = tempfile::tempdir().expect("tempdir");
    let html_path = join(dir.path(), "entry-abc.html");
    let all_files = vec![("entry".to_string(), html_path.clone(), true)];
    let link_map = LinkMap::new();
    let run_dir = dir.path().to_string_lossy().into_owned();
    let html = render_markdown_rewriting_links(
        "# Entry",
        "entry",
        Theme::Dark,
        &link_map,
        chrome(&[], &all_files, &run_dir, false),
    );
    assert!(
        html.contains("id=\"mark-sidebar\""),
        "sidebar must be present in dark theme:\n{html}"
    );
    assert!(
        html.contains(r#"<html lang="en" data-theme="dark" class="dark">"#),
        "dark theme root class must be present:\n{html}"
    );
}

#[test]
fn build_sidebar_tree_groups_nested_directories() {
    let run_dir = "/rendered/overview-123-abcdef12".to_string();
    let at = |rest: &str| format!("{run_dir}/{rest}");
    let all_files = vec![
        ("overview".to_string(), at("overview.html"), false),
        ("intro".to_string(), at("chapters/intro.html"), false),
        ("endpoints".to_string(), at("chapters/api/endpoints.html"), true),
    ];

    let tree = build_sidebar_tree(&all_files, &run_dir);
    assert_eq!(tree.len(), 2, "root should contain file + top-level dir");
    assert_eq!(tree[0].name, "overview");
    assert_eq!(tree[0].path, Some(at("overview.html")));
    assert_eq!(tree[1].name, "chapters");
    assert!(tree[1].path.is_none());
    assert_eq!(tree[1].children[0].name, "intro");
    assert_eq!(tree[1].children[1].name, "api");
    assert_eq!(tree[1].children[1].children[0].name, "endpoints");
    assert!(tree[1].children[1].children[0].is_current);
}

#[test]
fn build_sidebar_tree_sorts_files_before_directories_recursively() {
    let run_dir = "/rendered/overview-123-abcdef12".to_string();
    let at = |rest: &str| format!("{run_dir}/{rest}");
    let all_files = vec![
        ("zeta".to_string(), at("chapters/zeta.html"), false),
        ("overview".to_string(), at("overview.html"), false),
        ("alpha".to_string(), at("chapters/alpha.html"), false),
        ("appendix".to_string(), at("appendix/readme.html"), false),
        ("beta".to_string(), at("beta.html"), true),
    ];

    let tree = build_sidebar_tree(&all_files, &run_dir);
    assert_eq!(tree[0].name, "beta");
    assert_eq!(tree[1].name, "overview");
    assert_eq!(tree[2].name, "appendix");
    assert_eq!(tree[3].name, "chapters");
    assert_eq!(tree[3].children[0].name, "alpha");
    assert_eq!(tree[3].children[1].name, "zeta");
}

#[test]
fn sidebar_renders_collapsible_directories() {
    let dir = tempfile::tempdir().expect("tempdir");
    let run_dir = join(dir.path(), "overview-123-abcdef12");
    let all_files = vec![
        ("overview".to_string(), format!("{run_dir}/overview.html"), false),
        ("intro".to_string(), format!("{run_dir}/chapters/intro.html"), true),
    ];
    let link_map = LinkMap::new();

    let html = render_markdown_rewriting_links(
        "# Intro",
        "intro",
        Theme::Light,
        &link_map,
        chrome(&[], &all_files, &run_dir, false),
    );

    assert!(
        html.contains("class=\"mark-sidebar-dir mark-sidebar-group\""),
        "got: {html}"
    );
    assert!(html.contains("<details"), "got: {html}");
    assert!(html.contains(">chapters/</summary>"), "got: {html}");
}

#[test]
fn link_helpers_classify_urls() {
    assert!(is_external_url("https://example.com"));
    assert!(is_external_url("http://localhost/a.md"));
    assert!(is_external_url("mailto:me@example.com"));
    assert!(is_external_url("//cdn.example.com/x.js"));
    assert!(is_external_url("#heading"));
    assert!(!is_external_url("chapter.md"));
    assert_eq!(
        split_fragment("api.md#endpoints"),
        ("api.md".to_string(), "#endpoints".to_string())
    );
    assert_eq!(split_fragment("api.md"), ("api.md".to_string(), String::new()));
    assert!(is_md_extension("notes.MD"));
    assert!(is_md_extension("guide.markdown"));
    assert!(!is_md_extension("photo.png"));
}

#[test]
fn link_candidates_in_document_order_without_duplicates() {
    let md = "[A](a.md)\n[B](b.md#x)\n[A2](a.md)\n[Ext](https://x.org/c.md)\n[Top](#top)\n\
              [Data](data.csv)\n![Logo](logo.png)\n[Data2](data.csv#row)\n";
    assert_eq!(
        local_md_link_candidates(md),
        vec!["a.md".to_string(), "b.md".to_string()]
    );
    assert_eq!(
        local_asset_link_candidates(md),
        vec!["data.csv".to_string(), "logo.png".to_string()]
    );
}

#[test]
fn link_map_get_after_insert() {
    let mut m = LinkMap::new();
    assert_eq!(m.get("a.md"), None);
    m.insert("a.md".to_string(), "/out/a.html".to_string());
    m.insert("b.md".to_string(), "/out/b.html".to_string());
    m.insert("a.md".to_string(), "/out/a2.html".to_string());
    assert_eq!(m.get("a.md"), Some(&"/out/a2.html".to_string()));
    assert_eq!(m.get("b.md"), Some(&"/out/b.html".to_string()));
    assert_eq!(m.get("c.md"), None);
}

#[test]
fn out_of_scope_link_href_is_unchanged_in_html() {
    let link_map = LinkMap::new();

    let markdown = "[Out](../other/out.md)\n";
    let html = render_markdown_rewriting_links(
        markdown,
        "entry",
        Theme::Light,
        &link_map,
        RenderChrome {
            breadcrumb: &[],
            all_files: &[],
            run_dir: "",
            sidebar_visible: false,
            appearance: AppearanceConfig::default(),
        },
    );

    assert!(
        html.contains(r#"href="../other/out.md""#),
        "out-of-scope href must be unchanged; html snippet: {}",
        &html[html.find("<a").unwrap_or(0)
            ..std::cmp::min(html.len(), html.find("<a").unwrap_or(0) + 200)]
    );
    assert!(
        !html.contains("out.html"),
        "out-of-scope href must NOT be rewritten to .html"
    );
}

#[test]
fn escaping_and_decoding() {
    use_html_helpers();
}

fn use_html_helpers() {
    let raw = "a < b && \"c\" > d";
    let escaped = mark::html::escape_html(raw);
    assert_eq!(escaped, "a &lt; b &amp;&amp; &quot;c&quot; &gt; d");
    assert_eq!(mark::html::html_decode(&escaped), raw);
    assert_eq!(mark::html::html_encode_attr("x\"y"), "x&quot;y");
    assert_eq!(mark::html::html_decode("&amp;lt; &#39; &#x27; &nbsp;"), "&lt; ' ' &nbsp;");
}

#[test]
fn layout_command_and_decimal_format() {
    assert_eq!(mark::page::format_decimal(850), "8.5");
    assert_eq!(mark::page::format_decimal(775), "7.75");
    assert_eq!(mark::page::format_decimal(1000), "10");
    assert_eq!(mark::page::format_decimal(5), "0.05");
    assert_eq!(
        mark::page::render_layout_command(AppearanceConfig::default()),
        "mark config set-layout --font-size 16 --letter-width 8.5 --letter-radius 12 --sidebar-button-radius 999 --theme-button-radius 999"
    );
}

#[test]
fn render_shows_title_as_page_header_heading() {
    let html = render_markdown("text", "My Doc", Theme::Light);
    assert!(html.contains("<title>My Doc</title>"));
    assert!(html.contains("<h1>My Doc</h1>"));
    let escaped = render_markdown("x", "a < b", Theme::Light);
    assert!(escaped.contains("<h1>a &lt; b</h1>"));
}
