//! The input parser's state.

use vstd::prelude::*;

verus! {

/// Turns VT sequences into input events; lives as long as the input stream.
pub struct Parser {
    bracketed_paste: bool,
    bracketed_paste_buf: Vec<u8>,
    x10_mouse_want: bool,
    x10_mouse_buf: [char; 3],
    x10_mouse_len: usize,
}

impl Parser {
    pub closed spec fn is_fresh(&self) -> bool {
        &&& !self.bracketed_paste
        &&& self.bracketed_paste_buf@.len() == 0
        &&& !self.x10_mouse_want
        &&& self.x10_mouse_len == 0
    }

    /// A parser with no pending sequence.
    pub fn new() -> (r: Self)
        ensures
            r.is_fresh(),
    {
        Parser {
            bracketed_paste: false,
            bracketed_paste_buf: Vec::new(),
            x10_mouse_want: false,
            x10_mouse_buf: ['\0', '\0', '\0'],
            x10_mouse_len: 0,
        }
    }
}

} // verus!
