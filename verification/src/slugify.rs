//! Heading slugs in the CommonMark/GFM style: normalize and lowercase the
//! text, keep alphanumerics, turn whitespace and common punctuation into
//! dashes, and drop the rest, without collapsing runs of dashes.

use vstd::prelude::*;
use vstd::string::StrSliceExecFns;
use vstd::string::StringExecFns;

verus! {

/// What NFKD normalization yields for a text: a function of its
/// characters alone.
pub uninterp spec fn nfkd_of(s: Seq<char>) -> Seq<char>;

/// Relies on unicode_normalization's nfkd iterator: the NFKD decomposition
/// of the text.
#[verifier::external_body]
fn nfkd(s: &str) -> (r: String)
    ensures
        r@ == nfkd_of(s@),
{
    unicode_normalization::UnicodeNormalization::nfkd(s).collect()
}

/// What Unicode lowercasing yields for a text: a function of its
/// characters alone.
pub uninterp spec fn lower_of(s: Seq<char>) -> Seq<char>;

/// Relies on str::to_lowercase: the Unicode lowercase of the text,
/// a function of its characters alone.
#[verifier::external_body]
fn to_lowercase(s: &str) -> (r: String)
    ensures
        r@ == lower_of(s@),
{
    s.to_lowercase()
}

/// Whether a character is alphanumeric, as Unicode classifies it.
pub uninterp spec fn char_alnum(c: char) -> bool;

/// Relies on char::is_alphanumeric: Unicode's classification of the
/// character.
#[verifier::external_body]
fn is_alphanumeric_char(c: char) -> (r: bool)
    ensures
        r == char_alnum(c),
{
    c.is_alphanumeric()
}

/// Whether a character is whitespace, as Unicode classifies it.
pub uninterp spec fn char_ws(c: char) -> bool;

/// Relies on char::is_whitespace: Unicode's classification of the
/// character.
#[verifier::external_body]
fn is_whitespace_char(c: char) -> (r: bool)
    ensures
        r == char_ws(c),
{
    c.is_whitespace()
}

/// The punctuation characters GFM maps to a dash.
pub open spec fn is_gfm_punct(c: char) -> bool {
    c == '!' || c == '"' || c == '#' || c == '$' || c == '%' || c == '&' || c == '(' || c == ')'
        || c == '*' || c == '+' || c == ',' || c == '.' || c == '/' || c == ':' || c == ';' || c
        == '<' || c == '=' || c == '>' || c == '@' || c == '[' || c == '\\' || c == ']' || c == '^'
        || c == '_' || c == '`' || c == '{' || c == '|' || c == '}' || c == '~' || c == '-'
}

/// Whether GFM maps this punctuation character to a dash.
pub fn is_gfm_punctuation(c: char) -> (r: bool)
    ensures
        r == is_gfm_punct(c),
{
    match c {
        '!' | '"' | '#' | '$' | '%' | '&' | '(' | ')' | '*' | '+' | ',' | '.' | '/' | ':' | ';'
            | '<' | '=' | '>' | '@' | '[' | '\\' | ']' | '^' | '_' | '`' | '{' | '|' | '}' | '~'
            | '-' => true,
        _ => false,
    }
}

/// What one normalized character contributes to a slug.
pub open spec fn slug_char(c: char) -> Seq<char> {
    if char_alnum(c) {
        seq![c]
    } else if char_ws(c) || is_gfm_punct(c) {
        seq!['-']
    } else {
        Seq::empty()
    }
}

/// The slug of the first `n` normalized characters.
pub open spec fn slug_upto(s: Seq<char>, n: int) -> Seq<char>
    decreases n,
{
    if n <= 0 {
        Seq::empty()
    } else {
        slug_upto(s, n - 1) + slug_char(s[n - 1])
    }
}

/// The slug of a heading: its NFKD-normalized, lowercased characters,
/// with alphanumerics kept, whitespace and GFM punctuation dashed, and
/// everything else dropped.
pub open spec fn slug_of(s: Seq<char>) -> Seq<char> {
    let norm = lower_of(nfkd_of(s));
    slug_upto(norm, norm.len() as int)
}

/// Convert a heading into its GFM-compatible slug. Runs of dashes are
/// kept as they fall.
pub fn slugify(input: &str) -> (r: String)
    ensures
        r@ == slug_of(input@),
{
    let normalized = to_lowercase(nfkd(input).as_str());
    let norm_str = normalized.as_str();
    let n = norm_str.unicode_len();
    let mut r = String::new();
    let mut i: usize = 0;
    while i < n
        invariant
            0 <= i <= n,
            n == norm_str@.len(),
            norm_str@ == lower_of(nfkd_of(input@)),
            r@ == slug_upto(norm_str@, i as int),
        decreases n - i,
    {
        let c = norm_str.get_char(i);
        if is_alphanumeric_char(c) {
            let piece = norm_str.substring_char(i, i + 1);
            r.append(piece);
            proof {
                assert(piece@ =~= seq![norm_str@[i as int]]);
            }
        } else if is_whitespace_char(c) || is_gfm_punctuation(c) {
            r.append("-");
            proof {
                reveal_strlit("-");
                assert("-"@ =~= seq!['-']);
            }
        }
        i += 1;
    }
    r
}

} // verus!
