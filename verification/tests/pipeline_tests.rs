use weaver_lib::config::TemplateLang;
use weaver_lib::coordinator::collect_build_results;
use weaver_lib::render::{
    body_pass_result, find_template_by_string, get_css_for_theme, markdown_to_html,
    out_path_for_document, page_wrap_result, WritableFile,
};
use weaver_lib::routes::route_from_path;
use weaver_lib::template::{language_for_path, Template};
use weaver_lib::BuildError;

fn tpl(path: &str) -> Template {
    Template {
        at_path: path.to_string(),
        contents: String::new(),
        template_language: TemplateLang::Liquid,
    }
}

#[test]
fn test_find_template_first_match() {
    let templates = vec![
        tpl("/t/other.liquid"),
        tpl("/t/default.liquid"),
        tpl("/t/sub/default.liquid"),
    ];
    assert_eq!(find_template_by_string(&templates, "default").unwrap(), 1);
    assert_eq!(find_template_by_string(&templates, "other").unwrap(), 0);
}

#[test]
fn test_find_template_missing_is_template_error() {
    let templates = vec![tpl("/t/default.liquid")];
    let r = find_template_by_string(&templates, "missing");
    assert!(matches!(r, Err(BuildError::TemplateError(_))));
}

#[test]
fn test_out_path_for_document() {
    assert_eq!(out_path_for_document("site", "/blog/a/"), "site/blog/a/index.html");
    assert_eq!(out_path_for_document("/b/site", "/"), "/b/site/index.html");
}

#[test]
fn test_body_pass_maps_engine_failure_to_render_error() {
    assert_eq!(body_pass_result(Ok("x".to_string())).unwrap(), "x");
    let r = body_pass_result(Err("bad tag".to_string()));
    match r {
        Err(BuildError::RenderError(m)) => assert_eq!(m, "bad tag"),
        _ => panic!("expected a render error"),
    }
}

#[test]
fn test_page_wrap_success_and_failure() {
    let ok = page_wrap_result("site", "/a/", true, Ok("<p>x</p>".to_string())).unwrap();
    assert_eq!(ok.path, "site/a/index.html");
    assert_eq!(ok.contents, "<p>x</p>");
    assert!(ok.emit);
    let err = page_wrap_result("site", "/a/", true, Err("oops".to_string()));
    assert!(matches!(err, Err(BuildError::TemplateError(_))));
}

#[test]
fn test_markdown_conversion_produces_html() {
    let html = markdown_to_html("# Hello world");
    assert!(html.contains("Hello world"));
    assert!(html.contains("<h1"));
    assert_ne!(html, "# Hello world");
}

#[test]
fn test_markdown_conversion_table_extension() {
    let html = markdown_to_html("|a|b|\n|-|-|\n|1|2|\n");
    assert!(html.contains("<table"));
}

#[test]
fn test_theme_css_known_and_fallback() {
    let known = get_css_for_theme("base16-ocean.dark");
    assert!(!known.is_empty());
    let fallback = get_css_for_theme("definitely-not-a-theme");
    assert_eq!(fallback, known);
}

fn writable(path: &str, emit: bool) -> WritableFile {
    WritableFile { contents: "c".to_string(), path: path.to_string(), emit }
}

#[test]
fn test_collect_results_filters_unemitted() {
    let results = vec![
        Ok(Some(writable("site/a/index.html", true))),
        Ok(None),
        Ok(Some(writable("site/hidden/index.html", false))),
        Ok(Some(writable("", true))),
        Ok(Some(writable("site/b/index.html", true))),
    ];
    let files = collect_build_results(results).unwrap();
    let paths: Vec<&str> = files.iter().map(|w| w.path.as_str()).collect();
    assert_eq!(paths, vec!["site/a/index.html", "site/b/index.html"]);
    assert!(files.iter().all(|w| w.emit));
}

#[test]
fn test_collect_results_empty_build() {
    let files = collect_build_results(Vec::new()).unwrap();
    assert!(files.is_empty());
}

#[test]
fn test_collect_results_first_error_aborts() {
    let results = vec![
        Ok(Some(writable("site/a/index.html", true))),
        Err(BuildError::RenderError("first".to_string())),
        Err(BuildError::IoError("second".to_string())),
    ];
    match collect_build_results(results) {
        Err(BuildError::RenderError(m)) => assert_eq!(m, "first"),
        _ => panic!("expected the first error back"),
    }
}

#[test]
fn test_build_error_describe() {
    let e = BuildError::TemplateError("no such template".to_string());
    assert_eq!(e.describe(), "no such template");
}

#[test]
fn test_template_language_for_path() {
    assert!(matches!(language_for_path("t/default.liquid"), Some(TemplateLang::Liquid)));
    assert!(language_for_path("t/default.html").is_none());
}

#[test]
fn test_template_from_file_contents_normalizes() {
    let t = Template::from_file_contents(
        "/t/a.liquid".to_string(),
        "line1\r\nline2\r\n",
        TemplateLang::Liquid,
    );
    assert_eq!(t.contents, "line1\nline2\n");
    assert_eq!(t.at_path, "/t/a.liquid");
}

#[test]
fn test_template_new_from_string() {
    let t = Template::new_from_string("{{x}}".to_string(), TemplateLang::Liquid);
    assert_eq!(t.at_path, "");
    assert_eq!(t.contents, "{{x}}");
}

#[test]
fn test_end_to_end_title_substituted_once() {
    // One page template, one content file with `title: test` and no body:
    // the engine renders the template, and the pipeline places the result
    // at `{build}/{route}/index.html` with the title substituted once.
    let parser = liquid::ParserBuilder::with_stdlib().build().unwrap();
    let template = parser.parse("<html><title>{{page.title}}</title></html>").unwrap();
    let mut page = liquid::Object::new();
    page.insert("title".into(), liquid::model::Value::scalar("test"));
    page.insert("body".into(), liquid::model::Value::scalar(""));
    let mut globals = liquid::Object::new();
    globals.insert("page".into(), liquid::model::Value::Object(page));
    let html = template.render(&globals).unwrap();

    let route = route_from_path("/c", "/c/index.md").unwrap();
    assert_eq!(route, "/");
    let out = page_wrap_result("/b/site", &route, true, Ok(html)).unwrap();
    assert_eq!(out.path, "/b/site/index.html");
    assert_eq!(out.contents, "<html><title>test</title></html>");
    assert_eq!(out.contents.matches("test").count(), 1);
    assert!(out.emit);
}
