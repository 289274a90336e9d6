//! The per-document render pipeline, staged: resolve the page template,
//! render the body through the template engine, convert to HTML, wrap in
//! the page template, and compute the output file. The template engine
//! itself runs outside; this module fixes what each stage's outcome means.

use vstd::prelude::*;
use vstd::string::StringExecFns;

use crate::template::Template;
use crate::textops::{concat2, concat3, str_ends_with};
use crate::BuildError;

verus! {

/// One file a task wants written: target path, contents, and whether it
/// may reach the disk at all.
#[derive(Debug, Clone)]
pub struct WritableFile {
    pub contents: String,
    pub path: String,
    pub emit: bool,
}

/// Whether a template at `path` serves documents that name `name`: its
/// path ends in `{name}.liquid`.
pub open spec fn template_matches(path: Seq<char>, name: Seq<char>) -> bool {
    let suffix = name + ".liquid"@;
    path.len() >= suffix.len() && path.skip(path.len() - suffix.len()) == suffix
}

/// Find the first template whose base name matches the document's declared
/// template name. A missing match is fatal for the document's render.
pub fn find_template_by_string(templates: &Vec<Template>, template_name: &str) -> (r: Result<
    usize,
    BuildError,
>)
    ensures
        r matches Ok(i) ==> 0 <= i < templates@.len() && template_matches(
            templates@[i as int].at_path@,
            template_name@,
        ) && (forall|j: int|
            0 <= j < i ==> !template_matches(templates@[j].at_path@, template_name@)),
        r is Err <==> (forall|j: int|
            0 <= j < templates@.len() ==> !template_matches(
                (#[trigger] templates@[j]).at_path@,
                template_name@,
            )),
        r matches Err(e) ==> e is TemplateError,
{
    let suffix = concat2(template_name, ".liquid");
    let mut i: usize = 0;
    while i < templates.len()
        invariant
            0 <= i <= templates@.len(),
            suffix@ == template_name@ + ".liquid"@,
            forall|j: int| 0 <= j < i ==> !template_matches(templates@[j].at_path@, template_name@),
        decreases templates@.len() - i,
    {
        if str_ends_with(templates[i].at_path.as_str(), suffix.as_str()) {
            return Ok(i);
        }
        i += 1;
    }
    Err(BuildError::TemplateError(String::from_str("no template matches the document's template name")))
}

/// What the external markdown engine returns for a given text: a function
/// of the text alone.
pub uninterp spec fn html_of(md: Seq<char>) -> Seq<char>;

/// Relies on comrak's markdown_to_html_with_plugins with fixed options
/// (tables, strikethrough, autolink, tagfilter, alerts, heading anchors,
/// raw HTML allowed, GFM quirks, figure captions) and syntect class-based
/// code-fence highlighting: a deterministic function of the text.
#[verifier::external_body]
pub fn markdown_to_html(md: &str) -> (r: String)
    ensures
        r@ == html_of(md@),
{
    let adapter = comrak::plugins::syntect::SyntectAdapterBuilder::new().css().build();
    let mut plugins = comrak::options::Plugins::default();
    plugins.render.codefence_syntax_highlighter = Some(&adapter);
    let mut options = comrak::Options::default();
    options.render.figure_with_caption = true;
    options.render.gfm_quirks = true;
    options.extension.strikethrough = true;
    options.extension.tagfilter = true;
    options.extension.table = true;
    options.extension.autolink = true;
    options.extension.header_id_prefix = Some(String::new());
    options.extension.alerts = true;
    comrak::markdown_to_html_with_plugins(md, &options, &plugins)
}

/// What syntect's built-in theme set yields as CSS for a theme name: None
/// for an unknown theme, and a fixed stylesheet otherwise.
pub uninterp spec fn theme_css_of(name: Seq<char>) -> Option<Seq<char>>;

/// Relies on syntect's ThemeSet::load_defaults and
/// css_for_theme_with_class_style: the CSS of a built-in theme, a function
/// of the theme name alone.
#[verifier::external_body]
fn theme_css(name: &str) -> (r: Option<String>)
    ensures
        r is Some <==> theme_css_of(name@) is Some,
        r matches Some(c) ==> Some(c@) == theme_css_of(name@),
{
    let theme_set = syntect::highlighting::ThemeSet::load_defaults();
    match theme_set.themes.get(name) {
        Some(theme) => syntect::html::css_for_theme_with_class_style(
            theme,
            syntect::html::ClassStyle::Spaced,
        ).ok(),
        None => None,
    }
}

/// The stylesheet a site gets for its configured syntax theme: the theme's
/// own CSS, the default theme's CSS when the name is unknown, or nothing
/// when even that fails.
pub open spec fn spec_theme_css(name: Seq<char>) -> Seq<char> {
    match theme_css_of(name) {
        Some(c) => c,
        None => match theme_css_of("base16-ocean.dark"@) {
            Some(c) => c,
            None => Seq::empty(),
        },
    }
}

/// The CSS for the configured syntax-highlighting theme, falling back to
/// the default theme for an unknown name.
pub fn get_css_for_theme(theme_name: &str) -> (r: String)
    ensures
        r@ == spec_theme_css(theme_name@),
{
    match theme_css(theme_name) {
        Some(c) => c,
        None => match theme_css("base16-ocean.dark") {
            Some(c) => c,
            None => String::new(),
        },
    }
}

/// A document's output file stands at `{build_dir}{route}index.html`; the
/// route supplies its own leading and trailing slashes.
pub fn out_path_for_document(build_dir: &str, route: &str) -> (r: String)
    ensures
        r@ == build_dir@ + route@ + "index.html"@,
{
    concat3(build_dir, route, "index.html")
}

/// Interpret the body pass: the engine's output moves forward; an engine
/// failure aborts this document's render with a `RenderError`, and later
/// stages never run.
pub fn body_pass_result(result: Result<String, String>) -> (r: Result<String, BuildError>)
    ensures
        result matches Ok(s) ==> r == Ok::<String, BuildError>(s),
        result matches Err(m) ==> r == Err::<String, BuildError>(BuildError::RenderError(m)),
{
    match result {
        Ok(s) => Ok(s),
        Err(m) => Err(BuildError::RenderError(m)),
    }
}

/// Interpret the page-wrap pass: successful engine output becomes the
/// document's writable file at its route's output path, carrying the
/// document's emit flag; an engine failure is a `TemplateError`.
pub fn page_wrap_result(
    build_dir: &str,
    route: &str,
    emit: bool,
    result: Result<String, String>,
) -> (r: Result<WritableFile, BuildError>)
    ensures
        result matches Ok(html) ==> r matches Ok(w) && w.contents == html && w.path@ == build_dir@
            + route@ + "index.html"@ && w.emit == emit,
        result matches Err(m) ==> r == Err::<WritableFile, BuildError>(
            BuildError::TemplateError(m),
        ),
        r is Ok <==> result is Ok,
{
    match result {
        Ok(html) => Ok(
            WritableFile { contents: html, path: out_path_for_document(build_dir, route), emit },
        ),
        Err(m) => Err(BuildError::TemplateError(m)),
    }
}

} // verus!
