//! A reusable template partial: its file contents, line-endings
//! normalized, with a newline forced after each opening HTML tag so the
//! template engine's whitespace control behaves.

use vstd::prelude::*;

use crate::textops::replaced;

verus! {

/// One template partial, registered under its file name.
#[derive(Debug, Clone)]
pub struct Partial {
    pub name: String,
    pub at_path: String,
    pub contents: String,
}

/// What the regex engine's replace-all yields for a pattern, a
/// replacement and a text: a function of the three alone, or nothing when
/// the pattern does not compile.
pub uninterp spec fn regex_replaced(
    pattern: Seq<char>,
    replacement: Seq<char>,
    text: Seq<char>,
) -> Option<Seq<char>>;

/// Relies on regex::Regex::new and Regex::replace_all: every match of the
/// pattern replaced, with `$0`-style references expanded.
#[verifier::external_body]
fn regex_replace_all(pattern: &str, replacement: &str, text: &str) -> (r: Option<String>)
    ensures
        r is Some <==> regex_replaced(pattern@, replacement@, text@) is Some,
        r matches Some(s) ==> Some(s@) == regex_replaced(pattern@, replacement@, text@),
{
    match regex::Regex::new(pattern) {
        Ok(re) => Some(re.replace_all(text, replacement).to_string()),
        Err(_) => None,
    }
}

impl Partial {
    /// Assemble a partial from its file's raw text: line endings are
    /// normalized, and a newline is inserted after each opening HTML tag
    /// (matched case-insensitively). Were the tag pattern ever rejected
    /// by the regex engine, the normalized text would stand unchanged.
    pub fn new_from_parts(at_path: String, name: String, raw: &str) -> (p: Partial)
        ensures
            p.at_path == at_path,
            p.name == name,
            ({
                let normalized = replaced(raw@, "\r\n"@, "\n"@);
                match regex_replaced(
                    "(?i)<([a-zA-Z][a-zA-Z0-9]*)([^>]*)>"@,
                    "$0\n"@,
                    normalized,
                ) {
                    Some(c) => p.contents@ == c,
                    None => p.contents@ == normalized,
                }
            }),
    {
        let normalized = crate::normalize_line_endings(raw);
        let contents = match regex_replace_all(
            "(?i)<([a-zA-Z][a-zA-Z0-9]*)([^>]*)>",
            "$0\n",
            normalized.as_str(),
        ) {
            Some(c) => c,
            None => normalized,
        };
        Partial { at_path, name, contents }
    }
}

} // verus!
