//! Site scaffolding: the starter templates a new site can be created
//! from, and a file of such a template. Fetching and copying a template
//! is outside work.

use vstd::prelude::*;

verus! {

/// One file of a starter template.
#[derive(Debug, Clone)]
pub struct TemplateAt {
    pub path: String,
    pub content: String,
}

/// The starter templates on offer.
#[derive(Debug, Clone, PartialEq, Eq, Structural)]
pub enum Templates {
    DefaultSite,
}

} // verus!
