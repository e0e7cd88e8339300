//! The chapters of a book, as the preprocessors read and change them.

use vstd::prelude::*;

verus! {

/// A chapter of a book: its title, its source path (when it has one that is
/// valid UTF-8) and its Markdown text.
pub struct Chapter {
    pub name: String,
    pub path: Option<String>,
    pub content: String,
}

/// A copy of `path`.
pub fn copy_path(path: &Option<String>) -> (r: Option<String>)
    ensures
        r == *path,
{
    match path {
        Some(p) => Some(p.clone()),
        None => None,
    }
}

} // verus!
