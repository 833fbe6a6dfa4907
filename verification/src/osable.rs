//! Operating-system lookups: their errors, and the decisions of the loops
//! that ask the C library for users and groups.
use vstd::prelude::*;

verus! {

/// An error of an operating-system call.
#[derive(Debug)]
pub enum OsableError {
    Utf8,
    CString,
    Libc { source: std::io::Error },
    NotFound,
}

/// Calls `std::io::Error::last_os_error`: the error that the last call into
/// the system left; what it holds depends on that call, so it is not stated.
#[verifier::external_body]
fn last_os_error() -> std::io::Error {
    std::io::Error::last_os_error()
}

/// Calls `std::io::Error::from_raw_os_error`; the error is opaque here, so
/// nothing is stated of it.
#[verifier::external_body]
fn io_error_from_raw(raw: i32) -> std::io::Error {
    std::io::Error::from_raw_os_error(raw)
}

impl OsableError {
    /// The error of the last call into the C library.
    pub fn libc_last() -> (r: Self)
        ensures
            r is Libc,
    {
        OsableError::Libc { source: last_os_error() }
    }

    /// The error of the C library's error code `raw`.
    pub fn libc(raw: i32) -> (r: Self)
        ensures
            r is Libc,
    {
        OsableError::Libc { source: io_error_from_raw(raw) }
    }

    pub fn err_libc_last<T>() -> (r: Result<T, OsableError>)
        ensures
            r matches Err(e) && e is Libc,
    {
        Err(Self::libc_last())
    }

    pub fn err_libc<T>(raw: i32) -> (r: Result<T, OsableError>)
        ensures
            r matches Err(e) && e is Libc,
    {
        Err(Self::libc(raw))
    }
}

/// The name of the effective user, from the lookup of its id: a missing
/// user is `NotFound`.
pub fn effective_username(lookup: Result<Option<String>, OsableError>) -> (r: Result<String, OsableError>)
    ensures
        match lookup {
            Ok(Some(name)) => r == Ok::<String, OsableError>(name),
            Ok(None) => r matches Err(e) && e is NotFound,
            Err(e) => r == Err::<String, OsableError>(e),
        },
{
    match lookup {
        Ok(Some(name)) => Ok(name),
        Ok(None) => Err(OsableError::NotFound),
        Err(e) => Err(e),
    }
}

/// The name of the effective group, from the lookup of its id: a missing
/// group is `NotFound`.
pub fn effective_groupname(lookup: Result<Option<String>, OsableError>) -> (r: Result<String, OsableError>)
    ensures
        match lookup {
            Ok(Some(name)) => r == Ok::<String, OsableError>(name),
            Ok(None) => r matches Err(e) && e is NotFound,
            Err(e) => r == Err::<String, OsableError>(e),
        },
{
    match lookup {
        Ok(Some(name)) => Ok(name),
        Ok(None) => Err(OsableError::NotFound),
        Err(e) => Err(e),
    }
}

/// The first buffer size for a lookup, from what `sysconf` reports: that
/// size where it is positive, 1024 otherwise.
pub fn sysconf_size(v: i64) -> (r: usize)
    requires
        v <= usize::MAX,
    ensures
        r == (if v <= 0 { 1024 } else { v as int }),
{
    if v <= 0 {
        1024
    } else {
        v as usize
    }
}

/// What a lookup loop does after a call into the C library.
#[derive(Debug, Clone, Copy, PartialEq, Eq)]
pub enum LookupStep {
    /// The entry was found.
    Found,
    /// There is no such entry.
    Missing,
    /// The buffer was too small: retry with this size.
    Retry(usize),
    /// The call failed with this error code.
    Fail(i32),
}

/// The next step of a lookup with a buffer of `cap` bytes, after the call
/// returned `ret` and left a result that is null or not; `erange` is the
/// system's code of a buffer too small (`libc::ERANGE`).
pub fn lookup_step(cap: usize, ret: i32, result_is_null: bool, erange: i32) -> (r: LookupStep)
    requires
        2 * cap <= usize::MAX,
    ensures
        ret == 0 && !result_is_null ==> r == LookupStep::Found,
        ret == 0 && result_is_null ==> r == LookupStep::Missing,
        ret != 0 && ret == erange ==> r == LookupStep::Retry((2 * cap) as usize),
        ret != 0 && ret != erange ==> r == LookupStep::Fail(ret),
{
    if ret == 0 {
        if result_is_null {
            LookupStep::Missing
        } else {
            LookupStep::Found
        }
    } else if ret == erange {
        LookupStep::Retry(cap * 2)
    } else {
        LookupStep::Fail(ret)
    }
}

} // verus!
