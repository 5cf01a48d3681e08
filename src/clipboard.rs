//! The editor's built-in clipboard.

use vstd::prelude::*;

verus! {

/// The built-in clipboard, used when the terminal cannot hold the contents
/// (no OSC 52 support, or contents too large).
#[derive(Debug)]
pub struct Clipboard {
    data: Vec<u8>,
    line_copy: bool,
    wants_host_sync: bool,
}

impl Default for Clipboard {
    /// An empty clipboard.
    fn default() -> (r: Self)
        ensures
            r.contents().len() == 0,
    {
        Clipboard { data: Vec::new(), line_copy: false, wants_host_sync: false }
    }
}

impl Clipboard {
    pub closed spec fn contents(&self) -> Seq<u8> {
        self.data@
    }

    /// The current contents.
    pub fn read(&self) -> (r: &[u8])
        ensures
            r@ == self.contents(),
    {
        self.data.as_slice()
    }
}

} // verus!
