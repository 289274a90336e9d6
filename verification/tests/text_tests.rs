use weaver_lib::normalize_line_endings;
use weaver_lib::server::{inject_reload_script, sanitize_path};
use weaver_lib::slugify::{is_gfm_punctuation, slugify};
use weaver_lib::textops::{replace_all, split_components, str_ends_with, str_starts_with};

#[test]
fn test_normalize_line_endings() {
    assert_eq!(normalize_line_endings("a\r\nb\r\n"), "a\nb\n");
    assert_eq!(normalize_line_endings("no endings"), "no endings");
    assert_eq!(normalize_line_endings("\r\n\r\n"), "\n\n");
    assert_eq!(normalize_line_endings("keep\rlone\ncr"), "keep\rlone\ncr");
}

#[test]
fn test_replace_all_non_overlapping() {
    assert_eq!(replace_all("aaaa", "aa", "b"), "bb");
    assert_eq!(replace_all("abcabc", "b", "xy"), "axycaxyc");
    assert_eq!(replace_all("abc", "", "x"), "abc");
}

#[test]
fn test_split_components_drops_markers() {
    let parts = split_components("/a/./../b//c/");
    let views: Vec<&str> = parts.iter().map(|p| p.as_str()).collect();
    assert_eq!(views, vec!["a", "b", "c"]);
}

#[test]
fn test_prefix_suffix_helpers() {
    assert!(str_starts_with("/site/content/a.md", "/site/content"));
    assert!(!str_starts_with("/site", "/site/content"));
    assert!(str_ends_with("templates/default.liquid", "default.liquid"));
    assert!(!str_ends_with("default.liquid", "templates/default.liquid"));
}

#[test]
fn test_slugify_gfm_example() {
    // The module's own example: `Intro - description` → `intro---description`.
    assert_eq!(slugify("Intro - description"), "intro---description");
}

#[test]
fn test_slugify_headings() {
    assert_eq!(slugify("heading 1"), "heading-1");
    assert_eq!(slugify("Mixed CASE text"), "mixed-case-text");
    assert_eq!(slugify("keep0digits9"), "keep0digits9");
    // Unmapped punctuation is dropped outright.
    assert_eq!(slugify("what's up"), "whats-up");
}

#[test]
fn test_gfm_punctuation_classification() {
    for c in ['!', '#', '.', '/', ':', '-', '_', '~'] {
        assert!(is_gfm_punctuation(c));
    }
    for c in ['a', '0', '\'', ' ', '?'] {
        assert!(!is_gfm_punctuation(c));
    }
}

#[test]
fn test_sanitize_path_drops_traversal() {
    assert_eq!(sanitize_path("/../../etc//passwd", false), "etc/passwd");
    assert_eq!(sanitize_path("./a/../b", false), "a/b");
    assert_eq!(sanitize_path("/a/b/", true), "/a/b");
    assert_eq!(sanitize_path("", true), "/");
}

#[test]
fn test_inject_reload_script_before_body_close() {
    let out = inject_reload_script(
        "<html><body>x</body></html>",
        "<script>reload()</script>",
    );
    assert_eq!(
        out,
        "<html><body>x<script>reload()</script></body></html>"
    );
}

#[test]
fn test_inject_reload_script_no_body_tag() {
    assert_eq!(inject_reload_script("plain text", "<script></script>"), "plain text");
}
