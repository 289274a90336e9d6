use weaver_lib::routes::route_from_path;
use weaver_lib::BuildError;

#[test]
fn test_root_index_maps_to_root() {
    let r = route_from_path("/site/content", "/site/content/index.md").unwrap();
    assert_eq!(r, "/");
}

#[test]
fn test_route_from_path() {
    let r = route_from_path("/site/content", "/site/content/blog/post1.md").unwrap();
    assert_eq!(r, "/blog/post1/");
}

#[test]
fn test_nested_index_collapses_to_directory() {
    let r = route_from_path("/c", "/c/posts/index.md").unwrap();
    assert_eq!(r, "/posts/");
}

#[test]
fn test_route_keeps_stem_only() {
    let r = route_from_path("/c", "/c/about.md").unwrap();
    assert_eq!(r, "/about/");
}

#[test]
fn test_route_multi_dot_file() {
    let r = route_from_path("/c", "/c/a/b.tar.gz").unwrap();
    assert_eq!(r, "/a/b.tar/");
}

#[test]
fn test_route_root_with_trailing_slash() {
    let r = route_from_path("/c/", "/c/blog/post1.md").unwrap();
    assert_eq!(r, "/blog/post1/");
}

#[test]
fn test_content_out_of_path() {
    let r = route_from_path("/site/content", "madeup/blog/post1.md");
    assert!(matches!(r, Err(BuildError::RouteError(_))));
}

#[test]
fn test_route_not_at_component_boundary() {
    // `/site/contents` begins with `/site/content` but is a different directory.
    let r = route_from_path("/site/content", "/site/contentx/blog.md");
    assert!(matches!(r, Err(BuildError::RouteError(_))));
}

#[test]
fn test_route_always_slash_delimited() {
    for p in [
        "/c/index.md",
        "/c/a.md",
        "/c/a/b.md",
        "/c/a/b/c/d.md",
        "/c/a/index.md",
    ] {
        let r = route_from_path("/c", p).unwrap();
        assert!(r.starts_with('/'));
        assert!(r.ends_with('/'));
    }
}

#[test]
fn test_directory_and_index_share_route() {
    let dir = route_from_path("/c", "/c/blog").unwrap();
    let idx = route_from_path("/c", "/c/blog/index.md").unwrap();
    assert_eq!(dir, idx);
    assert_eq!(dir, "/blog/");
}
