//! Platform glue that is plain computation: errno values to errors, and the
//! text of a system error.

use vstd::prelude::*;
use crate::apperr::Error;

verus! {

/// Restores the terminal when the application ends; the restoring itself is
/// done by the binary, which owns the terminal.
#[derive(Debug)]
pub struct Deinit;

/// Starts platform handling; the returned guard marks its lifetime.
pub fn init() -> (r: Deinit) {
    Deinit
}

/// The error for an errno value; negative values count as 0.
pub fn errno_to_apperr(no: i32) -> (r: Error)
    ensures
        r == Error::Sys(if no < 0 { 0u32 } else { no as u32 }),
{
    Error::new_sys(if no < 0 { 0 } else { no as u32 })
}

/// Relies on `std::io::Error::last_os_error`: the calling thread's last OS
/// error code (0 when there is none). It depends on what ran before, so
/// nothing is promised about its value.
#[verifier::external_body]
fn last_os_errno() -> (r: i32) {
    std::io::Error::last_os_error().raw_os_error().unwrap_or(0)
}

/// The last OS error as an application error.
pub fn get_last_error() -> (r: Error)
    ensures
        r is Sys,
{
    errno_to_apperr(last_os_errno())
}

/// Passes a non-negative return value of a system call through; a negative
/// one becomes the last OS error.
pub fn check_int_return(ret: i32) -> (r: Result<i32, Error>)
    ensures
        ret >= 0 ==> r == Ok::<i32, Error>(ret),
        ret < 0 ==> r matches Err(Error::Sys(_)),
{
    if ret < 0 {
        Err(get_last_error())
    } else {
        Ok(ret)
    }
}

/// The decimal digits of `n`.
pub uninterp spec fn decimal_of(n: u32) -> Seq<char>;

/// Relies on `u32`'s `Display` (through `format!`): its decimal digits,
/// which depend on the value alone.
#[verifier::external_body]
fn decimal(n: u32) -> (r: String)
    ensures
        r@ == decimal_of(n),
{
    format!("{n}")
}

/// The message for a system error code: "Error " followed by the code.
pub fn apperr_format(code: u32) -> (r: String)
    ensures
        r@ == "Error "@ + decimal_of(code),
{
    let mut s = String::from_str("Error ");
    let digits = decimal(code);
    s.append(digits.as_str());
    s
}

} // verus!
