//! Static-site build engine: derives stable routes from content paths, builds
//! per-page content graphs, stages the render pipeline, and drives the
//! dev-server loop (watch debounce, live-reload registry, preview routing).

use vstd::prelude::*;

pub mod config;
pub mod coordinator;
pub mod document;
pub mod document_toc;
pub mod graph;
pub mod partial;
pub mod reload;
pub mod render;
pub mod routes;
pub mod scaffold;
pub mod server;
pub mod slugify;
pub mod tasks;
pub mod template;
pub mod textops;
pub mod watch;

verus! {

/// The error kinds a build can surface.
#[derive(Debug, Clone)]
pub enum BuildError {
    Other(String),
    IoError(String),
    GlobError(String),
    DocumentError(String),
    TemplateError(String),
    RouteError(String),
    RenderError(String),
    JoinError(String),
}

impl BuildError {
    /// A human-readable description, in place of a `Display` impl.
    pub fn describe(&self) -> (r: &String)
        ensures
            r == self.message(),
    {
        match self {
            BuildError::Other(m) => m,
            BuildError::IoError(m) => m,
            BuildError::GlobError(m) => m,
            BuildError::DocumentError(m) => m,
            BuildError::TemplateError(m) => m,
            BuildError::RouteError(m) => m,
            BuildError::RenderError(m) => m,
            BuildError::JoinError(m) => m,
        }
    }

    /// The message carried by any of the variants.
    pub open spec fn message(&self) -> String {
        match self {
            BuildError::Other(m) => *m,
            BuildError::IoError(m) => *m,
            BuildError::GlobError(m) => *m,
            BuildError::DocumentError(m) => *m,
            BuildError::TemplateError(m) => *m,
            BuildError::RouteError(m) => *m,
            BuildError::RenderError(m) => *m,
            BuildError::JoinError(m) => *m,
        }
    }
}

/// Normalize line endings: every CRLF pair becomes a bare LF.
pub fn normalize_line_endings(s: &str) -> (r: String)
    ensures
        r@ == textops::replaced(s@, "\r\n"@, "\n"@),
{
    textops::replace_all(s, "\r\n", "\n")
}

} // verus!
