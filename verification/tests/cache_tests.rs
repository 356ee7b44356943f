use mark::cache::{CacheEntry, RenderCache};

fn make_cache(dir: &std::path::Path) -> RenderCache {
    RenderCache::new(dir.join("render-cache.toml").to_string_lossy().into_owned())
}

#[test]
fn get_returns_none_for_unknown_source() {
    let dir = tempfile::tempdir().expect("tempdir");
    let cache = make_cache(dir.path());
    assert!(cache.get("/no/such/file.md").is_none());
}

#[test]
fn set_then_get_returns_entry() {
    let dir = tempfile::tempdir().expect("tempdir");
    let mut cache = make_cache(dir.path());
    let source = "/project/doc.md";
    let entry = CacheEntry {
        rendered_html: "/tmp/doc-1-00000001.html".to_string(),
        source_mtime_secs: 42,
    };
    cache.set(source, entry.clone());
    assert_eq!(cache.get(source), Some(&entry));
}

#[test]
fn set_overwrites_existing_entry() {
    let dir = tempfile::tempdir().expect("tempdir");
    let mut cache = make_cache(dir.path());
    let source = "/project/doc.md";

    cache.set(
        source,
        CacheEntry {
            rendered_html: "/old.html".to_string(),
            source_mtime_secs: 1,
        },
    );
    let newer = CacheEntry {
        rendered_html: "/new.html".to_string(),
        source_mtime_secs: 2,
    };
    cache.set(source, newer.clone());
    assert_eq!(cache.get(source), Some(&newer));
}

#[test]
fn mtime_hit_when_secs_match() {
    let dir = tempfile::tempdir().expect("tempdir");
    let mut cache = make_cache(dir.path());
    let source = "/project/doc.md";
    let mtime: u64 = 1_711_648_523;
    cache.set(
        source,
        CacheEntry {
            rendered_html: "/out.html".to_string(),
            source_mtime_secs: mtime,
        },
    );
    let entry = cache.get(source).expect("entry");
    assert_eq!(entry.source_mtime_secs, mtime);
}

#[test]
fn mtime_miss_when_secs_differ() {
    let dir = tempfile::tempdir().expect("tempdir");
    let mut cache = make_cache(dir.path());
    let source = "/project/doc.md";
    cache.set(
        source,
        CacheEntry {
            rendered_html: "/out.html".to_string(),
            source_mtime_secs: 100,
        },
    );
    let entry = cache.get(source).expect("entry");
    assert_ne!(entry.source_mtime_secs, 200u64);
}

#[test]
fn remove_missing_entries_keeps_existing_html() {
    let dir = tempfile::tempdir().expect("tempdir");
    let html_file = tempfile::Builder::new()
        .suffix(".html")
        .tempfile_in(dir.path())
        .expect("html file");
    let html = html_file.path().to_path_buf();

    let mut cache = make_cache(dir.path());
    let source = "/doc.md";
    cache.set(
        source,
        CacheEntry {
            rendered_html: html.to_string_lossy().into_owned(),
            source_mtime_secs: 1,
        },
    );
    cache.remove_missing_entries();
    assert!(
        cache.get(source).is_some(),
        "entry for existing html must survive"
    );
}

#[test]
fn remove_missing_entries_drops_stale_entry() {
    let dir = tempfile::tempdir().expect("tempdir");
    let mut cache = make_cache(dir.path());
    let source = "/doc.md";
    cache.set(
        source,
        CacheEntry {
            rendered_html: dir.path().join("ghost.html").to_string_lossy().into_owned(),
            source_mtime_secs: 1,
        },
    );
    assert!(
        cache.get(source).is_some(),
        "entry should exist before pruning"
    );
    cache.remove_missing_entries();
    assert!(cache.get(source).is_none(), "stale entry must be pruned");
}

#[test]
fn remove_missing_entries_is_selective() {
    let dir = tempfile::tempdir().expect("tempdir");
    let good_file = tempfile::Builder::new()
        .suffix(".html")
        .tempfile_in(dir.path())
        .expect("html file");
    let html_good = good_file.path().to_path_buf();

    let mut cache = make_cache(dir.path());
    let good = "/good.md";
    let stale = "/stale.md";

    cache.set(
        good,
        CacheEntry {
            rendered_html: html_good.to_string_lossy().into_owned(),
            source_mtime_secs: 1,
        },
    );
    cache.set(
        stale,
        CacheEntry {
            rendered_html: dir.path().join("gone.html").to_string_lossy().into_owned(),
            source_mtime_secs: 2,
        },
    );

    cache.remove_missing_entries();
    assert!(cache.get(good).is_some(), "good entry must survive");
    assert!(cache.get(stale).is_none(), "stale entry must be pruned");
}

#[test]
fn retain_entries_keeps_flagged_entries_in_order() {
    let mut cache = RenderCache::new("/tmp/cache.toml".to_string());
    for (i, name) in ["/a.md", "/b.md", "/c.md"].iter().enumerate() {
        cache.set(
            name,
            CacheEntry {
                rendered_html: format!("/out/{i}.html"),
                source_mtime_secs: i as u64,
            },
        );
    }
    cache.retain_entries(&vec![true, false, true]);
    let keys: Vec<&str> = cache.entries().iter().map(|(k, _)| k.as_str()).collect();
    assert_eq!(keys, vec!["/a.md", "/c.md"]);
    assert_eq!(cache.get("/c.md").map(|e| e.source_mtime_secs), Some(2));
    assert!(cache.get("/b.md").is_none());
    assert_eq!(cache.cache_path(), "/tmp/cache.toml");
}

#[test]
fn set_keeps_one_entry_per_source() {
    let mut cache = RenderCache::new("/tmp/cache.toml".to_string());
    let e = |n: u64| CacheEntry {
        rendered_html: format!("/out/{n}.html"),
        source_mtime_secs: n,
    };
    cache.set("/a.md", e(1));
    cache.set("/b.md", e(2));
    cache.set("/a.md", e(3));
    assert_eq!(cache.entries().len(), 2);
    assert_eq!(cache.get("/a.md"), Some(&e(3)));
    assert_eq!(cache.get("/b.md"), Some(&e(2)));
}

#[test]
fn fresh_entry_requires_matching_mtime() {
    let mut cache = RenderCache::new("/tmp/cache.toml".to_string());
    let entry = CacheEntry {
        rendered_html: "/out.html".to_string(),
        source_mtime_secs: 100,
    };
    cache.set("/doc.md", entry.clone());
    assert_eq!(cache.fresh_entry("/doc.md", 100), Some(&entry));
    assert_eq!(cache.fresh_entry("/doc.md", 200), None);
    assert_eq!(cache.fresh_entry("/other.md", 100), None);
}

#[test]
fn entry_survives_later_sets_of_other_sources() {
    let mut cache = RenderCache::new("/tmp/cache.toml".to_string());
    let e = CacheEntry {
        rendered_html: "/tmp/doc-1-00000001.html".to_string(),
        source_mtime_secs: 42,
    };
    cache.set("/project/doc.md", e.clone());
    cache.set("/project/other.md", CacheEntry { rendered_html: "/o.html".to_string(), source_mtime_secs: 1 });
    assert_eq!(cache.get("/project/doc.md"), Some(&e));
    assert!(cache.get("/no/such/file.md").is_none());
}

#[test]
fn rendered_paths_lists_each_entry_output() {
    let mut cache = RenderCache::new("/tmp/cache.toml".to_string());
    cache.set("/a.md", CacheEntry { rendered_html: "/out/a.html".to_string(), source_mtime_secs: 1 });
    cache.set("/b.md", CacheEntry { rendered_html: "/out/b.html".to_string(), source_mtime_secs: 2 });
    assert_eq!(
        cache.rendered_paths(),
        vec!["/out/a.html".to_string(), "/out/b.html".to_string()]
    );
}
