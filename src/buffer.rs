//! The text buffer of a document.

use vstd::prelude::*;
use crate::apperr::Error;

verus! {

/// A document's text.
#[derive(Debug)]
pub struct TextBuffer {
    dirty: bool,
}

impl TextBuffer {
    pub closed spec fn dirty_spec(&self) -> bool {
        self.dirty
    }

    /// An empty, clean buffer.
    pub fn new(small: bool) -> (r: Result<Self, Error>)
        ensures
            r matches Ok(b) && !b.dirty_spec(),
    {
        Ok(TextBuffer { dirty: false })
    }

    /// Marks the buffer as changed since it was last saved.
    pub fn mark_as_dirty(&mut self)
        ensures
            final(self).dirty_spec(),
    {
        self.dirty = true;
    }

    /// Whether the buffer changed since it was last saved.
    pub fn is_dirty(&self) -> (r: bool)
        ensures
            r == self.dirty_spec(),
    {
        self.dirty
    }
}

} // verus!
