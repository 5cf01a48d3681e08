//! The list of open documents, most recently opened first.

use vstd::prelude::*;
use crate::apperr::Error;
use crate::buffer::TextBuffer;

verus! {

/// An open document.
#[derive(Debug)]
pub struct Document {
    pub buffer: TextBuffer,
    pub filename: String,
}

/// The open documents; the first one is active.
#[derive(Debug, Default)]
pub struct DocumentManager {
    list: Vec<Document>,
}

impl DocumentManager {
    pub closed spec fn docs(&self) -> Seq<Document> {
        self.list@
    }

    /// The active document, if any.
    pub fn active(&self) -> (r: Option<&Document>)
        ensures
            r is None <==> self.docs().len() == 0,
            r matches Some(d) ==> *d == self.docs()[0],
    {
        if self.list.len() == 0 {
            None
        } else {
            Some(&self.list[0])
        }
    }

    fn create_buffer() -> (r: Result<TextBuffer, Error>)
        ensures
            r matches Ok(b) && !b.dirty_spec(),
    {
        TextBuffer::new(false)
    }

    /// Opens a new document for `path` in front of the others; the file is
    /// not read here, and the document starts without a name.
    pub fn add_file_path(&mut self, path: &str) -> (r: Result<&mut Document, Error>)
        ensures
            r matches Ok(d) && !d.buffer.dirty_spec() && d.filename@.len() == 0,
            final(self).docs().len() == old(self).docs().len() + 1,
            final(self).docs().subrange(1, final(self).docs().len() as int) == old(self).docs(),
    {
        self.push_new()
    }

    /// Opens a new, untitled document in front of the others.
    pub fn add_untitled(&mut self) -> (r: Result<&mut Document, Error>)
        ensures
            r matches Ok(d) && !d.buffer.dirty_spec() && d.filename@.len() == 0,
            final(self).docs().len() == old(self).docs().len() + 1,
            final(self).docs().subrange(1, final(self).docs().len() as int) == old(self).docs(),
    {
        self.push_new()
    }

    fn push_new(&mut self) -> (r: Result<&mut Document, Error>)
        ensures
            r matches Ok(d) && !d.buffer.dirty_spec() && d.filename@.len() == 0,
            final(self).docs().len() == old(self).docs().len() + 1,
            final(self).docs().subrange(1, final(self).docs().len() as int) == old(self).docs(),
    {
        let buffer = match Self::create_buffer() {
            Ok(b) => b,
            Err(e) => {
                return Err(e);
            },
        };
        let doc = Document { buffer, filename: String::new() };
        self.list.insert(0, doc);
        assert(self.list@.subrange(1, self.list@.len() as int) =~= old(self).list@);
        Ok(&mut self.list[0])
    }

    /// Re-wraps every document after a change of character widths; the
    /// documents hold no layout yet, so there is nothing to redo.
    pub fn reflow_all(&self) {
    }
}

} // verus!
