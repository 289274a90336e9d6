//! A page template: its path, its contents with normalized line endings,
//! and the language it is written in, recognized from the file extension.

use vstd::prelude::*;
use vstd::string::StringExecFns;

use crate::config::TemplateLang;
use crate::textops::{replaced, str_ends_with};

verus! {

/// One template file.
#[derive(Debug, Clone)]
pub struct Template {
    pub at_path: String,
    pub contents: String,
    pub template_language: TemplateLang,
}

impl Template {
    /// A template held in memory only: it has no path of its own.
    pub fn new_from_string(contents: String, template_language: TemplateLang) -> (t: Template)
        ensures
            t.at_path@ == Seq::<char>::empty(),
            t.contents == contents,
            t.template_language == template_language,
    {
        Template { at_path: String::new(), contents, template_language }
    }

    /// A template read from a file: the raw text gets its line endings
    /// normalized; the language comes from the caller (see
    /// `language_for_path`).
    pub fn from_file_contents(at_path: String, raw: &str, template_language: TemplateLang) -> (t:
        Template)
        ensures
            t.at_path == at_path,
            t.contents@ == replaced(raw@, "\r\n"@, "\n"@),
            t.template_language == template_language,
    {
        let contents = crate::normalize_line_endings(raw);
        Template { at_path, contents, template_language }
    }
}

/// The template language a file is written in, by its extension: only
/// `.liquid` is known.
pub fn language_for_path(path: &str) -> (r: Option<TemplateLang>)
    ensures
        r is Some <==> (path@.len() >= ".liquid"@.len() && path@.skip(
            path@.len() - ".liquid"@.len(),
        ) == ".liquid"@),
        r matches Some(l) ==> l is Liquid,
{
    if str_ends_with(path, ".liquid") {
        Some(TemplateLang::Liquid)
    } else {
        None
    }
}

} // verus!
