use weaver_lib::config::{ServeConfig, WeaverConfig};
use weaver_lib::document::{apply_published_policy, finish_document_dates, BaseMetaData, Document};
use weaver_lib::document_toc::{extract_text_from_mdast_inline, toc_from_tree, MdNode, MdNodeKind};
use weaver_lib::partial::Partial;
use weaver_lib::reload::ClientRegistry;
use weaver_lib::server::resolve_request_path;
use weaver_lib::tasks::{AtomFeedTask, CleanBuildDirTask, PublicCopyTask, SiteMapTask,
    WellKnownCopyTask};
use weaver_lib::watch::{any_relevant_path, should_skip_path, watch_step, WatchAction, WatchState};

#[test]
fn test_skip_path_under_build_dir() {
    assert!(should_skip_path("site/index.html", "site", &vec![]));
    assert!(should_skip_path("site", "site", &vec![]));
    assert!(!should_skip_path("sitemap-src/x", "site", &vec![]));
}

#[test]
fn test_skip_path_by_exclusion_pattern() {
    let excludes = vec!["\\.git".to_string(), "node_modules".to_string()];
    assert!(should_skip_path(".git/config", "site", &excludes));
    assert!(should_skip_path("a/node_modules/b", "site", &excludes));
    assert!(!should_skip_path("content/post.md", "site", &excludes));
}

#[test]
fn test_invalid_pattern_matches_nothing() {
    let excludes = vec!["(unclosed".to_string()];
    assert!(!should_skip_path("content/post.md", "site", &excludes));
}

#[test]
fn test_excluded_event_never_rebuilds() {
    let excludes = vec!["\\.git".to_string()];
    let paths = vec![".git/HEAD".to_string(), "site/out.html".to_string()];
    assert!(!any_relevant_path(&paths, "site", &excludes));
    let mut state = WatchState { last_build_ms: 0, has_built: false };
    let a = watch_step(&mut state, 500, false, 100);
    assert_eq!(a, WatchAction::Ignore);
    assert_eq!(state, WatchState { last_build_ms: 0, has_built: false });
}

#[test]
fn test_rapid_events_trigger_one_rebuild() {
    let mut state = WatchState { last_build_ms: 0, has_built: false };
    assert_eq!(watch_step(&mut state, 1000, true, 100), WatchAction::Rebuild);
    // A second qualifying event inside the window is coalesced.
    assert_eq!(watch_step(&mut state, 1050, true, 100), WatchAction::Ignore);
    // After the window, the next event rebuilds again.
    assert_eq!(watch_step(&mut state, 1200, true, 100), WatchAction::Rebuild);
    assert_eq!(state.last_build_ms, 1200);
}

#[test]
fn test_reload_broadcast_reaches_all_clients() {
    let mut reg = ClientRegistry::new();
    reg.register(10);
    reg.register(20);
    reg.register(30);
    assert_eq!(reg.client_count(), 3);
    let targets = reg.broadcast_targets();
    assert_eq!(targets, vec![10, 20, 30]);
}

#[test]
fn test_reload_disconnect_keeps_others() {
    let mut reg = ClientRegistry::new();
    reg.register(10);
    reg.register(20);
    reg.register(30);
    // The middle client's send failed; the other two stay, in order.
    reg.prune_failed(&vec![false, true, false]);
    assert_eq!(reg.clients, vec![10, 30]);
    assert_eq!(reg.broadcast_targets(), vec![10, 30]);
}

#[test]
fn test_resolve_request_trailing_slash() {
    let r = resolve_request_path("/b/site", "/public", "/blog/", false, false);
    assert_eq!(r, "/b/site/blog/index.html");
}

#[test]
fn test_resolve_request_existing_file() {
    let r = resolve_request_path("/b/site", "/public", "/style.css", true, false);
    assert_eq!(r, "/b/site/style.css");
}

#[test]
fn test_resolve_request_missing_falls_back() {
    let r = resolve_request_path("/b/site", "/public", "/blog", false, false);
    assert_eq!(r, "/b/site/blog/index.html");
}

#[test]
fn test_resolve_request_public_passthrough() {
    let r = resolve_request_path("/b/site", "/public", "/public/logo.png", false, false);
    assert_eq!(r, "/b/site/public/logo.png");
}

#[test]
fn test_resolve_request_sanitizes_traversal() {
    let r = resolve_request_path("/b/site", "/public", "/../../secret.txt", true, false);
    assert_eq!(r, "/b/site/secret.txt");
}

#[test]
fn test_public_copy_plan() {
    let p = PublicCopyTask::plan("/base/public", "/base/site", true).unwrap();
    assert_eq!(p.0, "/base/public");
    assert_eq!(p.1, "/base/site/public");
    assert!(PublicCopyTask::plan("/base/public", "/base/site", false).is_none());
}

#[test]
fn test_well_known_copy_plan() {
    let p = WellKnownCopyTask::plan("/base", "/base/site", true).unwrap();
    assert_eq!(p.0, "/base/.well-known");
    assert_eq!(p.1, "/base/site/.well-known");
    assert!(WellKnownCopyTask::plan("/base", "/base/site", false).is_none());
}

#[test]
fn test_feed_and_sitemap_targets() {
    assert_eq!(SiteMapTask::output_path("/b/site"), "/b/site/sitemap.xml");
    assert_eq!(AtomFeedTask::output_path("/b/site"), "/b/site/atom.xml");
}

#[test]
fn test_clean_plan_spares_current_and_protected() {
    let entries = vec![
        ("public".to_string(), true),
        ("sitemap.xml".to_string(), false),
        ("atom.xml".to_string(), false),
        ("blog".to_string(), true),
        ("blog/post1".to_string(), true),
        ("blog/post1/index.html".to_string(), false),
        ("old".to_string(), true),
        ("old/index.html".to_string(), false),
    ];
    let routes = vec![
        "/blog/".to_string(),
        "/blog/post1/".to_string(),
        "/blog/post1/index.html".to_string(),
    ];
    let deletions = CleanBuildDirTask::plan(entries, &routes, "public");
    let paths: Vec<&str> = deletions.iter().map(|e| e.0.as_str()).collect();
    assert_eq!(paths, vec!["old", "old/index.html"]);
}

#[test]
fn test_published_policy_normalizes_parsed_date() {
    let mut meta = BaseMetaData { published: Some("02 Jan 2021".to_string()), ..Default::default() };
    apply_published_policy(
        &mut meta,
        Some("2021-01-02 00:00:00 +00:00".to_string()),
        "c".to_string(),
        "m".to_string(),
    );
    assert_eq!(meta.published.as_deref(), Some("2021-01-02 00:00:00 +00:00"));
    assert_eq!(meta.last_updated.as_deref(), Some("2021-01-02 00:00:00 +00:00"));
}

#[test]
fn test_published_policy_keeps_unparseable_date() {
    let mut meta = BaseMetaData { published: Some("not a date".to_string()), ..Default::default() };
    apply_published_policy(&mut meta, None, "c".to_string(), "m".to_string());
    assert_eq!(meta.published.as_deref(), Some("not a date"));
    assert!(meta.last_updated.is_none());
}

#[test]
fn test_published_policy_falls_back_to_file_times() {
    let mut meta = BaseMetaData::default();
    apply_published_policy(&mut meta, None, "created".to_string(), "modified".to_string());
    assert_eq!(meta.published.as_deref(), Some("created"));
    assert_eq!(meta.last_updated.as_deref(), Some("modified"));
}

#[test]
fn test_metadata_defaults() {
    let meta = BaseMetaData::default();
    assert_eq!(meta.template, "default");
    assert!(meta.emit);
    assert!(meta.published.is_none());
    assert!(meta.user.is_empty());
}

#[test]
fn test_document_mirrors_emit_flag() {
    let mut meta = BaseMetaData::default();
    meta.emit = false;
    let d = Document::from_parts(
        "/c".to_string(),
        "/c/a.md".to_string(),
        meta,
        "body".to_string(),
        Vec::new(),
        Some(5),
        Some(6),
    );
    assert!(!d.emit);
    assert_eq!(d.markdown, "body");
    assert!(d.html.is_none());
}

#[test]
fn test_document_dates_parse_given_published() {
    let mut meta = BaseMetaData {
        published: Some("2021-01-02T03:04:05Z".to_string()),
        ..Default::default()
    };
    let (published_ts, updated_ts) = finish_document_dates(&mut meta, 11, 22);
    assert_eq!(published_ts, Some(1609556645));
    assert_eq!(updated_ts, Some(1609556645));
    assert_eq!(meta.published, meta.last_updated);
    assert_ne!(meta.published.as_deref(), Some("2021-01-02T03:04:05Z"));
}

#[test]
fn test_document_dates_keep_unparseable_published() {
    let mut meta = BaseMetaData {
        published: Some("definitely not a date".to_string()),
        ..Default::default()
    };
    let (published_ts, updated_ts) = finish_document_dates(&mut meta, 11, 22);
    assert_eq!(published_ts, None);
    assert_eq!(updated_ts, None);
    assert_eq!(meta.published.as_deref(), Some("definitely not a date"));
    assert!(meta.last_updated.is_none());
}

#[test]
fn test_document_dates_fall_back_to_file_times() {
    let mut meta = BaseMetaData::default();
    let (published_ts, updated_ts) = finish_document_dates(&mut meta, 11, 22);
    assert_eq!(published_ts, Some(11));
    assert_eq!(updated_ts, Some(22));
    assert!(meta.published.is_some());
    assert!(meta.last_updated.is_some());
}

#[test]
fn test_partial_inserts_newline_after_tags() {
    let p = Partial::new_from_parts(
        "/p/test.liquid".to_string(),
        "test.liquid".to_string(),
        "<div>\r\n\ttest\r\n</div>\r\n",
    );
    assert_eq!(p.contents, "<div>\n\n\ttest\n</div>\n");
    assert_eq!(p.name, "test.liquid");
}

fn text_node(s: &str) -> MdNode {
    MdNode {
        kind: MdNodeKind::Text,
        value: s.to_string(),
        depth: 0,
        children: Vec::new(),
    }
}

fn heading_node(depth: u8, children: Vec<MdNode>) -> MdNode {
    MdNode { kind: MdNodeKind::Heading, value: String::new(), depth, children }
}

fn other_node(children: Vec<MdNode>) -> MdNode {
    MdNode { kind: MdNodeKind::Other, value: String::new(), depth: 0, children }
}

#[test]
fn test_markdown_toc_generation() {
    let root = other_node(vec![
        heading_node(1, vec![text_node("heading 1")]),
        other_node(vec![text_node("I am a paragraph.")]),
        heading_node(2, vec![text_node("heading 2")]),
        heading_node(3, vec![text_node("heading 3")]),
    ]);
    let toc = toc_from_tree(&root);
    let entries: Vec<(u8, &str, &str)> = toc
        .iter()
        .map(|h| (h.depth, h.text.as_str(), h.slug.as_str()))
        .collect();
    assert_eq!(
        entries,
        vec![
            (1, "heading 1", "heading-1"),
            (2, "heading 2", "heading-2"),
            (3, "heading 3", "heading-3"),
        ]
    );
}

#[test]
fn test_toc_skips_unsluggable_heading() {
    let root = other_node(vec![heading_node(1, vec![text_node("!!!")])]);
    assert!(toc_from_tree(&root).is_empty());
}

#[test]
fn test_extract_text_recurses_inline_nodes() {
    let strong = other_node(vec![text_node("bold"), text_node(" tail")]);
    let n = other_node(vec![text_node("head "), strong]);
    assert_eq!(extract_text_from_mdast_inline(&n), "head bold tail");
}

#[test]
fn test_config_resolution() {
    let user = WeaverConfig::defaults_at("ignored".to_string());
    let c = WeaverConfig::resolve("/base", user);
    assert_eq!(c.base_dir, "/base");
    assert_eq!(c.content_dir, "/base/content");
    assert_eq!(c.partials_dir, "/base/partials");
    assert_eq!(c.public_dir, "/base/public");
    assert_eq!(c.build_dir, "/base/site");
    assert_eq!(c.template_dir, "/base/templates");
    assert_eq!(c.base_url, "localhost:8080");
}

#[test]
fn test_serve_config_defaults() {
    let s = ServeConfig::default();
    assert_eq!(s.watch_excludes, vec![".git", "node_modules", "site"]);
    assert_eq!(s.address, "localhost:8080");
    assert!(!s.npm_build);
}
