//! Turns semi-structured API reference pages — markup describing a
//! browser-extension API surface of namespaces, types, properties, methods
//! and events — into a strongly-typed schema tree.
//!
//! The page arrives as a tree of [`dom::Node`] values, a plain structural
//! model of the markup that the caller builds; locating and fetching the
//! raw markup is the caller's concern. The extractors in [`parse`] segment
//! the page into sections, classify free-text type descriptors into a
//! closed type-shape model, and recursively resolve nested callback,
//! method and property structures into one [`api::Namespace`] per page,
//! skipping malformed entries where the design calls for it instead of
//! abandoning the whole page.
//!
//! Every extractor is specified against a spec-level model of the same
//! traversal; [`laws`] states and proves the properties the extractors
//! obey.

pub mod api;
pub mod dom;
pub mod laws;
pub mod parse;
pub mod text;
pub mod util;
