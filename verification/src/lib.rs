//! A verified core for a small static-site generator.
//!
//! The library discovers a three-level content hierarchy (root, sections,
//! subsections) from a plain description of the directory layout, and
//! assembles the parsed per-level records into an immutable document tree
//! whose entries carry canonical site-rooted hrefs and human-readable
//! modification dates. The caller walks the filesystem, parses the
//! declaration files and reads timestamps; everything the tree's shape,
//! ordering, hrefs and dates depend on is computed and proved here.

pub mod dates;
pub mod discover;
pub mod laws;
pub mod paths;
pub mod records;
pub mod render;
pub mod tree;
