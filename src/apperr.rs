//! The application's error codes.

use vstd::prelude::*;

verus! {

/// An error code, tagged with where it came from.
#[derive(Debug, Clone, Copy, PartialEq, Eq, Structural)]
pub enum Error {
    /// Raised by the application itself.
    App(u32),
    /// Raised by the ICU library.
    Icu(u32),
    /// Raised by the operating system (an errno value).
    Sys(u32),
}

impl Error {
    pub fn new_app(code: u32) -> (r: Self)
        ensures
            r == Error::App(code),
    {
        Error::App(code)
    }

    pub fn new_icu(code: u32) -> (r: Self)
        ensures
            r == Error::Icu(code),
    {
        Error::Icu(code)
    }

    pub fn new_sys(code: u32) -> (r: Self)
        ensures
            r == Error::Sys(code),
    {
        Error::Sys(code)
    }
}

} // verus!
