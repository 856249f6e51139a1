//! Status codes of Windows.

use vstd::prelude::*;

verus! {

pub const ERROR_SUCCESS: u32 = 0;

pub const ERROR_FILE_NOT_FOUND: u32 = 2;

pub const ERROR_NOT_SUPPORTED: u32 = 50;

pub const ERROR_INVALID_PARAMETER: u32 = 87;

pub const ERROR_INSUFFICIENT_BUFFER: u32 = 122;

pub const ERROR_ALREADY_EXISTS: u32 = 183;

/// Whether a display call returned the code `code`.
pub fn windows_status_is(status: i32, code: u32) -> (r: bool)
    ensures
        r == (status == code as i32),
{
    status == code as i32
}

/// Whether a registry call returned the code `code`.
pub fn registry_status_is(status: i32, code: u32) -> (r: bool)
    ensures
        r == (status == code as i32),
{
    status == code as i32
}

/// Whether an error, by its operating system code, says that something does not exist.
pub fn is_not_found(raw_os_error: Option<i32>) -> (r: bool)
    ensures
        r == (raw_os_error == Some(2i32)),
{
    match raw_os_error {
        Some(code) => code == ERROR_FILE_NOT_FOUND as i32,
        None => false,
    }
}

/// The result of a call that returns nothing but its status: any status but success is the error.
pub open spec fn result_of(status: i32) -> Result<(), i32> {
    if status == 0 {
        Ok(())
    } else {
        Err(status)
    }
}

/// The result of a call that returns nothing but its status.
pub fn status_result(status: i32) -> (r: Result<(), i32>)
    ensures
        r == result_of(status),
{
    if status == ERROR_SUCCESS as i32 {
        Ok(())
    } else {
        Err(status)
    }
}

/// A call succeeded exactly where its status is zero, and any other status is its error.
pub proof fn only_zero_is_success(status: i32)
    ensures
        result_of(status) is Ok <==> status == 0,
        result_of(status) matches Err(code) ==> code == status,
{
}

} // verus!
