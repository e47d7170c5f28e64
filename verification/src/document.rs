//! An open document: its full text and the editor's version counter.

use vstd::prelude::*;

verus! {

/// One open document, as handed over by the editor: the complete text and
/// the version number of the last change notification.
pub struct Document {
    pub content: String,
    pub version: i32,
}

impl Document {
    /// Packs a document text and version together.
    pub fn new(content: String, version: i32) -> (d: Document)
        ensures
            d.content@ == content@,
            d.version == version,
    {
        Document { content, version }
    }
}

} // verus!
