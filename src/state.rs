//! Small pieces of the editor's state.

use vstd::prelude::*;
use crate::apperr::Error;

verus! {

/// What the file picker has been asked to do.
#[derive(Debug, Clone, Copy, PartialEq, Eq, Structural)]
pub enum StateFilePicker {
    /// Nothing requested.
    Idle,
    Open,
    SaveAs,
    /// Shown after `SaveAs` was requested.
    SaveAsShown,
}

/// An error on its way to being shown to the user.
#[derive(Debug, Clone, Copy, PartialEq, Eq, Structural)]
pub struct FormatApperr(pub Error);

impl From<Error> for FormatApperr {
    fn from(err: Error) -> (r: Self)
        ensures
            r.0 == err,
    {
        FormatApperr(err)
    }
}

impl vstd::std_specs::convert::FromSpecImpl<Error> for FormatApperr {
    open spec fn obeys_from_spec() -> bool {
        true
    }

    open spec fn from_spec(err: Error) -> FormatApperr {
        FormatApperr(err)
    }
}

} // verus!
