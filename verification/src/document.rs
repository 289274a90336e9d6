//! The document model: one content file's metadata, body and table of
//! contents, together with the policies that fill publish timestamps and
//! mirror the emit flag.

use vstd::prelude::*;
use vstd::string::StringExecFns;

verus! {

/// One table-of-contents entry.
#[derive(Debug, Clone)]
pub struct Heading {
    pub depth: u8,
    pub text: String,
    pub slug: String,
}

/// The recognized frontmatter keys of a content file, plus the user's own
/// extension keys carried through as raw key/value text.
#[derive(Debug, Clone)]
pub struct BaseMetaData {
    pub title: String,
    pub description: String,
    pub tags: Vec<String>,
    pub keywords: Vec<String>,
    pub template: String,
    pub emit: bool,
    pub published: Option<String>,
    pub last_updated: Option<String>,
    pub excerpt: Option<String>,
    pub user: Vec<(String, String)>,
}

impl Default for BaseMetaData {
    /// A document with no frontmatter: untitled, emitted, rendered through
    /// the `default` template, with no timestamps.
    fn default() -> (r: Self)
        ensures
            r.title@ == Seq::<char>::empty(),
            r.description@ == Seq::<char>::empty(),
            r.tags@ == Seq::<String>::empty(),
            r.keywords@ == Seq::<String>::empty(),
            r.template@ == "default"@,
            r.emit == true,
            r.published is None,
            r.last_updated is None,
            r.excerpt is None,
            r.user@ == Seq::<(String, String)>::empty(),
    {
        BaseMetaData {
            title: String::new(),
            description: String::new(),
            tags: Vec::new(),
            keywords: Vec::new(),
            template: String::from_str("default"),
            emit: true,
            published: None,
            last_updated: None,
            excerpt: None,
            user: Vec::new(),
        }
    }
}

/// One content file, loaded once per build and immutable afterwards.
/// `published_ts` and `updated_ts` carry the machine-readable timestamps
/// that ordering works on; `published`/`last_updated` in the metadata keep
/// the display text.
#[derive(Debug, Clone)]
pub struct Document {
    pub at_path: String,
    pub content_root: String,
    pub metadata: BaseMetaData,
    pub markdown: String,
    pub html: Option<String>,
    pub toc: Vec<Heading>,
    pub emit: bool,
    pub published_ts: Option<i64>,
    pub updated_ts: Option<i64>,
}

impl Document {
    /// Assemble a document from already-parsed pieces. The emit flag is
    /// computed once here and mirrors the metadata.
    pub fn from_parts(
        content_root: String,
        at_path: String,
        metadata: BaseMetaData,
        markdown: String,
        toc: Vec<Heading>,
        published_ts: Option<i64>,
        updated_ts: Option<i64>,
    ) -> (d: Document)
        ensures
            d.content_root == content_root,
            d.at_path == at_path,
            d.emit == metadata.emit,
            d.metadata == metadata,
            d.markdown == markdown,
            d.html is None,
            d.toc == toc,
            d.published_ts == published_ts,
            d.updated_ts == updated_ts,
    {
        let emit = metadata.emit;
        Document {
            content_root,
            at_path,
            metadata,
            markdown,
            html: None,
            toc,
            emit,
            published_ts,
            updated_ts,
        }
    }
}

/// Fill the publish timestamps of `meta`. A given `published` value that
/// parsed is normalized (and mirrored into `last_updated`); one that did
/// not parse is left as written; a document without one falls back to the
/// file's own created/modified times.
pub fn apply_published_policy(
    meta: &mut BaseMetaData,
    parsed: Option<String>,
    created: String,
    modified: String,
)
    ensures
        old(meta).published is Some && parsed is Some ==> final(meta).published == parsed
            && final(meta).last_updated == parsed,
        old(meta).published is Some && parsed is None ==> final(meta).published == old(meta).published
            && final(meta).last_updated == old(meta).last_updated,
        old(meta).published is None ==> final(meta).published == Some(created)
            && final(meta).last_updated == Some(modified),
        final(meta).title == old(meta).title,
        final(meta).description == old(meta).description,
        final(meta).tags == old(meta).tags,
        final(meta).keywords == old(meta).keywords,
        final(meta).template == old(meta).template,
        final(meta).emit == old(meta).emit,
        final(meta).excerpt == old(meta).excerpt,
        final(meta).user == old(meta).user,
{
    if meta.published.is_some() {
        match parsed {
            Some(p) => {
                meta.published = Some(p.clone());
                meta.last_updated = Some(p);
            },
            None => {},
        }
    } else {
        meta.published = Some(created);
        meta.last_updated = Some(modified);
    }
}

/// Relies on dateparser::parse: the accepted formats are turned into a UTC
/// timestamp. Formats without a date or zone borrow the current date or the
/// local zone, so nothing is claimed of the value.
#[verifier::external_body]
fn parse_date_epoch(s: &str) -> (r: Option<i64>) {
    match dateparser::parse(s) {
        Ok(dt) => Some(dt.timestamp()),
        Err(_) => None,
    }
}

/// Relies on chrono: an epoch second rendered in the machine's local zone,
/// as `DateTime<Local>` displays itself. The text depends on that zone, so
/// nothing is claimed of it.
#[verifier::external_body]
fn format_epoch_local(epoch: i64) -> (r: Option<String>) {
    match chrono::TimeZone::timestamp_opt(&chrono::Local, epoch, 0) {
        chrono::LocalResult::Single(dt) => Some(dt.to_string()),
        _ => None,
    }
}

/// Fill the metadata's publish fields and yield the machine-readable
/// timestamps `(published, last_updated)`. A given `published` text that
/// the date parser accepts is normalized and mirrored into `last_updated`;
/// one it rejects is left as written, with no timestamps; a document
/// without one falls back to the file's created/modified epochs. Whatever
/// the parser and formatter return, the other metadata fields stand.
pub fn finish_document_dates(
    meta: &mut BaseMetaData,
    file_created_epoch: i64,
    file_modified_epoch: i64,
) -> (ts: (Option<i64>, Option<i64>))
    ensures
        final(meta).title == old(meta).title,
        final(meta).description == old(meta).description,
        final(meta).tags == old(meta).tags,
        final(meta).keywords == old(meta).keywords,
        final(meta).template == old(meta).template,
        final(meta).emit == old(meta).emit,
        final(meta).excerpt == old(meta).excerpt,
        final(meta).user == old(meta).user,
        old(meta).published is None ==> final(meta).published is Some
            && final(meta).last_updated is Some && ts == (
            Some(file_created_epoch),
            Some(file_modified_epoch),
        ),
        old(meta).published is Some && ts.0 is None ==> final(meta).published == old(meta).published
            && final(meta).last_updated == old(meta).last_updated && ts.1 is None,
        old(meta).published is Some && ts.0 is Some ==> ts.1 == ts.0 && final(meta).published
            is Some && final(meta).last_updated == final(meta).published,
{
    let parsed_epoch: Option<i64> = match &meta.published {
        Some(p) => parse_date_epoch(p.as_str()),
        None => None,
    };
    if meta.published.is_some() {
        match parsed_epoch {
            Some(epoch) => {
                match format_epoch_local(epoch) {
                    Some(display) => {
                        apply_published_policy(meta, Some(display), String::new(), String::new());
                        (Some(epoch), Some(epoch))
                    },
                    None => {
                        // The machine's zone cannot render the instant; the
                        // text stands as written.
                        (None, None)
                    },
                }
            },
            None => (None, None),
        }
    } else {
        let created = match format_epoch_local(file_created_epoch) {
            Some(s) => s,
            None => String::new(),
        };
        let modified = match format_epoch_local(file_modified_epoch) {
            Some(s) => s,
            None => String::new(),
        };
        apply_published_policy(meta, None, created, modified);
        (Some(file_created_epoch), Some(file_modified_epoch))
    }
}

} // verus!
