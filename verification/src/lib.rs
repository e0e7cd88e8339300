//! Verified core of three mdBook preprocessors: a data collector, a tagger
//! and a table-of-contents script installer.

pub mod book;
pub mod collector;
pub mod index;
pub mod json;
pub mod marker;
pub mod settings;
pub mod span;
pub mod tagger;
pub mod text;
pub mod tocjs;
