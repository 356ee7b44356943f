use mark::crawl::{
    asset_path_for_run, first_markdown, in_scope, output_path_for_run, page_link_map, Crawl,
};

/// Run the discovery over an in-memory link graph; `links[i]` lists the
/// files that file `i` links to, and unreadable files are listed in `broken`.
fn discover_all(names: &[&str], links: &[Vec<&str>], broken: &[&str]) -> Crawl {
    let index = |n: &str| names.iter().position(|m| *m == n);
    let mut crawl = Crawl::new(names[0].to_string());
    while let Some(current) = crawl.next_to_scan() {
        let name = crawl.files_in_order()[current].clone();
        let i = index(&name).expect("known file");
        for target in &links[i] {
            if crawl.is_visited(target) {
                continue;
            }
            let readable = !broken.contains(target);
            crawl.discover(current, target.to_string(), readable);
        }
    }
    crawl
}

#[test]
fn circular_links_are_discovered_once() {
    let crawl = discover_all(&["a.md", "b.md"], &[vec!["b.md"], vec!["a.md"]], &[]);
    assert_eq!(crawl.files_in_order(), &vec!["a.md".to_string(), "b.md".to_string()]);
}

#[test]
fn shared_file_is_discovered_once_in_breadth_first_order() {
    let names = ["overview.md", "chapter.md", "shared.md", "deep.md"];
    let links = [
        vec!["chapter.md", "shared.md"],
        vec!["shared.md", "deep.md"],
        vec!["overview.md"],
        vec![],
    ];
    let crawl = discover_all(&names, &links, &[]);
    assert_eq!(
        crawl.files_in_order(),
        &vec![
            "overview.md".to_string(),
            "chapter.md".to_string(),
            "shared.md".to_string(),
            "deep.md".to_string()
        ]
    );
    assert_eq!(crawl.breadcrumb(0), Vec::<usize>::new());
    assert_eq!(crawl.breadcrumb(2), vec![0]);
    assert_eq!(crawl.breadcrumb(3), vec![0, 1]);
}

#[test]
fn unreadable_file_is_visited_but_not_rendered() {
    let crawl = discover_all(
        &["a.md", "gone.md", "b.md"],
        &[vec!["gone.md", "b.md"], vec![], vec!["gone.md"]],
        &["gone.md"],
    );
    assert_eq!(crawl.files_in_order(), &vec!["a.md".to_string(), "b.md".to_string()]);
    assert!(crawl.is_visited("gone.md"));
}

#[test]
fn discover_reports_what_it_added() {
    let mut crawl = Crawl::new("a.md".to_string());
    assert!(crawl.discover(0, "b.md".to_string(), true));
    assert!(!crawl.discover(0, "b.md".to_string(), true));
    assert!(!crawl.discover(0, "c.md".to_string(), false));
    assert!(!crawl.discover(1, "c.md".to_string(), true));
    assert_eq!(crawl.next_to_scan(), Some(0));
    assert_eq!(crawl.next_to_scan(), Some(1));
    assert_eq!(crawl.next_to_scan(), None);
}

#[test]
fn scope_is_checked_by_whole_components() {
    assert!(in_scope("/root/docs/subdir/page.md", "/root/docs"));
    assert!(!in_scope("/root/other/out.md", "/root/docs"));
    assert!(!in_scope("/root/docs2/sibling.md", "/root/docs"));
}

#[test]
fn rendered_output_and_assets_preserve_folder_hierarchy() {
    let run = "/tmp/rendered/overview-123-abcdef12";
    let docs = "/tmp/docs";
    assert_eq!(
        output_path_for_run(run, docs, "/tmp/docs/overview.md"),
        format!("{run}/overview.html")
    );
    assert_eq!(
        output_path_for_run(run, docs, "/tmp/docs/chapters/intro.md"),
        format!("{run}/chapters/intro.html")
    );
    assert_eq!(
        output_path_for_run(run, docs, "/tmp/docs/chapters/api/endpoints.md"),
        format!("{run}/chapters/api/endpoints.html")
    );
    assert_eq!(
        asset_path_for_run(run, docs, "/tmp/docs/assets/images/logo.png"),
        format!("{run}/assets/images/logo.png")
    );
    // A file outside the entry directory keeps only its name.
    assert_eq!(
        output_path_for_run(run, docs, "/elsewhere/notes.markdown"),
        format!("{run}/notes.html")
    );
}

#[test]
fn first_markdown_is_least_markdown_path() {
    let paths: Vec<String> = ["/d/zeta.md", "/d/notes.txt", "/d/Alpha.MD", "/d/beta.markdown"]
        .iter()
        .map(|s| s.to_string())
        .collect();
    assert_eq!(first_markdown(&paths), Some(2));
    let none: Vec<String> = vec!["/d/a.txt".to_string()];
    assert_eq!(first_markdown(&none), None);
    assert_eq!(first_markdown(&Vec::new()), None);
}

#[test]
fn page_link_map_points_links_at_rendered_outputs() {
    let sources = vec!["/d/a.md".to_string(), "/d/b.md".to_string()];
    let outputs = vec!["/r/a.html".to_string(), "/r/b.html".to_string()];
    let links = vec![
        ("b.md".to_string(), "/d/b.md".to_string()),
        ("./a.md".to_string(), "/d/a.md".to_string()),
        ("out.md".to_string(), "/elsewhere/out.md".to_string()),
    ];
    let map = page_link_map(&links, &sources, &outputs);
    assert_eq!(map.get("b.md"), Some(&"/r/b.html".to_string()));
    assert_eq!(map.get("./a.md"), Some(&"/r/a.html".to_string()));
    assert_eq!(map.get("out.md"), None);
}
