//! The per-level records declared by the on-disk authoring format.
//!
//! A root manifest declares site-wide metadata and root pages; a section or
//! subsection file declares a name, an optional description and its pages.
//! Parsing the on-disk text into these records is the caller's business:
//! the library receives them as plain values.

use vstd::prelude::*;

verus! {

/// A page declaration: a display name, an optional description and a path
/// relative to the directory the declaration sits in.
#[derive(Debug, Clone, PartialEq)]
pub struct PageSpec {
    pub name: String,
    pub desc: String,
    pub path: String,
}

/// The root manifest: site title, title-append flag, the main page's
/// relative path, footer text, an href prefix, and the root-level pages.
#[derive(Debug, PartialEq)]
pub struct ManifestSpec {
    pub title: String,
    pub append_title: bool,
    pub main_page: String,
    pub footer_content: String,
    pub href_prepend: String,
    pub pages: Vec<PageSpec>,
}

/// The name and description a section or subsection declares for itself.
#[derive(Debug, PartialEq)]
pub struct SectionField {
    pub name: String,
    pub desc: String,
}

/// A section's declaration: its header and its pages.
#[derive(Debug, PartialEq)]
pub struct SectionSpec {
    pub section: SectionField,
    pub pages: Vec<PageSpec>,
}

/// A subsection's declaration: its header and its pages.
#[derive(Debug, PartialEq)]
pub struct SubsectionSpec {
    pub subsection: SectionField,
    pub pages: Vec<PageSpec>,
}

} // verus!
