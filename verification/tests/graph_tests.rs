use weaver_lib::config::WeaverConfig;
use weaver_lib::document::BaseMetaData;
use weaver_lib::graph::{build_content_graph, Bucket, LiquidGlobals, LiquidGlobalsPage};

fn page(route: &str, title: &str, published_ts: Option<i64>) -> LiquidGlobalsPage {
    LiquidGlobalsPage {
        route: route.to_string(),
        title: title.to_string(),
        body: String::new(),
        meta: BaseMetaData::default(),
        toc: Vec::new(),
        published_ts,
    }
}

fn bucket<'a>(g: &'a [Bucket], key: &str) -> &'a Bucket {
    g.iter().find(|b| b.key == key).unwrap()
}

#[test]
fn test_liquid_globals_new() {
    let pages = vec![
        page("/page", "Page Title", None),
        page("/posts/post-1", "Post One", None),
        page("/about", "About Us", None),
    ];
    let g = build_content_graph("/page", pages);

    // The current page's own route appears in no bucket.
    for b in &g {
        for p in &b.pages {
            assert_ne!(p.route, "/page");
        }
    }

    // `/posts/post-1` files under `posts`; `/about` under `about`.
    assert_eq!(g.len(), 2);
    let posts = bucket(&g, "posts");
    assert_eq!(posts.pages.len(), 1);
    assert_eq!(posts.pages[0].route, "/posts/post-1");
    assert_eq!(posts.pages[0].title, "Post One");
    let about = bucket(&g, "about");
    assert_eq!(about.pages.len(), 1);
    assert_eq!(about.pages[0].route, "/about");
}

#[test]
fn test_list_page_not_in_own_bucket() {
    let pages = vec![
        page("/posts/", "Posts", None),
        page("/posts/post-1", "Post One", None),
    ];
    let g = build_content_graph("/x", pages);
    let posts = bucket(&g, "posts");
    assert_eq!(posts.pages.len(), 1);
    assert_eq!(posts.pages[0].route, "/posts/post-1");
}

#[test]
fn test_bucket_sorted_by_published_descending() {
    let pages = vec![
        page("/blog/a", "A", Some(5)),
        page("/blog/b", "B", None),
        page("/blog/c", "C", Some(9)),
    ];
    let g = build_content_graph("/", pages);
    let blog = bucket(&g, "blog");
    let routes: Vec<&str> = blog.pages.iter().map(|p| p.route.as_str()).collect();
    assert_eq!(routes, vec!["/blog/c", "/blog/a", "/blog/b"]);
    for w in blog.pages.windows(2) {
        match (w[0].published_ts, w[1].published_ts) {
            (Some(x), Some(y)) => assert!(x >= y),
            (None, Some(_)) => panic!("a page without a timestamp sorted before one with"),
            _ => {}
        }
    }
}

#[test]
fn test_bucket_sort_ties_are_stable() {
    let pages = vec![
        page("/blog/first", "First", Some(7)),
        page("/blog/second", "Second", Some(7)),
        page("/blog/third", "Third", None),
        page("/blog/fourth", "Fourth", None),
    ];
    let g = build_content_graph("/", pages);
    let blog = bucket(&g, "blog");
    let routes: Vec<&str> = blog.pages.iter().map(|p| p.route.as_str()).collect();
    assert_eq!(
        routes,
        vec!["/blog/first", "/blog/second", "/blog/third", "/blog/fourth"]
    );
}

#[test]
fn test_unemitted_page_still_linked() {
    let mut hidden = page("/blog/hidden", "Hidden", Some(3));
    hidden.meta.emit = false;
    let pages = vec![hidden, page("/blog/shown", "Shown", Some(1))];
    let g = build_content_graph("/", pages);
    let blog = bucket(&g, "blog");
    assert_eq!(blog.pages.len(), 2);
    assert!(blog.pages.iter().any(|p| p.route == "/blog/hidden"));
}

#[test]
fn test_empty_content_graph() {
    let g = build_content_graph("/page", Vec::new());
    assert!(g.is_empty());
}

#[test]
fn test_rootless_route_keyed_by_itself() {
    let pages = vec![page("relative", "R", None)];
    let g = build_content_graph("/x", pages);
    assert_eq!(g.len(), 1);
    assert_eq!(g[0].key, "relative");
}

#[test]
fn test_liquid_globals_new_fields() {
    let current = page("/page", "Page Title", None);
    let pages = vec![page("/posts/post-1", "Post One", None)];
    let g = LiquidGlobals::new(current, pages, WeaverConfig::defaults_at("/b".to_string()));
    assert_eq!(g.page.route, "/page");
    assert_eq!(g.extra_css, "");
    assert_eq!(g.site_config.base_dir, "/b");
    assert_eq!(g.content.len(), 1);
    assert_eq!(g.content[0].key, "posts");
}
