//! A loaded source unit: the raw text of one file together with the path it
//! came from. Reading the file from disk is the caller's business; the
//! lexer only consumes the materialized text.

use vstd::prelude::*;

verus! {

/// The mathematical image of a [`File`]: its content and path as character
/// sequences.
pub struct FileView {
    pub content: Seq<char>,
    pub path: Seq<char>,
}

/// One source unit: raw text content plus an opaque origin path.
pub struct File {
    content: String,
    path: String,
}

impl View for File {
    type V = FileView;

    closed spec fn view(&self) -> FileView {
        FileView { content: self.content@, path: self.path@ }
    }
}

impl File {
    /// Wraps raw text and its origin path as a source unit.
    pub fn new(content: String, path: String) -> (r: File)
        ensures
            r@.content == content@,
            r@.path == path@,
    {
        File { content, path }
    }

    /// The raw text content of the unit.
    pub fn get_content(&self) -> (r: &str)
        ensures
            r@ == self@.content,
    {
        self.content.as_str()
    }

    /// The origin path of the unit.
    pub fn get_path(&self) -> (r: &str)
        ensures
            r@ == self@.path,
    {
        self.path.as_str()
    }
}

} // verus!
