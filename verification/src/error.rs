//! Library error codes and the conversions of raw return values into `Result`s.
use vstd::prelude::*;

verus! {

/// A passed argument is invalid.
pub const ERR_INVALID_ARGUMENT: i32 = -101;

/// The requested operation is not allowed in the current state.
pub const ERR_INVALID_STATE: i32 = -102;

/// The stream ID is already in use.
pub const ERR_STREAM_IN_USE: i32 = -104;

/// Error codes below this one are fatal.
pub const ERR_FATAL: i32 = -900;

/// A callback failed; the only failure code a callback may hand back as is.
pub const ERR_CALLBACK_FAILURE: i32 = -902;

/// An nghttp3 library error code.
#[derive(Clone, Copy, Debug, PartialEq, Eq)]
pub struct Error(i32);

impl View for Error {
    type V = i32;

    closed spec fn view(&self) -> i32 {
        self.0
    }
}

/// `r` is a failure that carries the error code `code`.
pub open spec fn fails_with<T>(r: Result<T, Error>, code: i32) -> bool {
    r is Err && r->Err_0@ == code
}

impl Error {
    /// Returns the raw error code.
    pub fn code(self) -> (r: i32)
        ensures
            r == self@,
    {
        self.0
    }

    pub(crate) fn new(code: i32) -> (e: Error)
        ensures
            e@ == code,
    {
        Error(code)
    }

    /// Returns whether the error is fatal: its code lies below `ERR_FATAL`.
    pub fn is_fatal(self) -> (r: bool)
        ensures
            r == (self@ < ERR_FATAL),
    {
        self.0 < ERR_FATAL
    }
}

/// Converts a return code: zero is success, anything else is that error.
pub fn cvt(code: i32) -> (r: Result<(), Error>)
    ensures
        code == 0 ==> r is Ok,
        code != 0 ==> fails_with(r, code),
{
    if code == 0 {
        Ok(())
    } else {
        Err(Error(code))
    }
}

/// Converts a signed size: a negative value is the error code it carries
/// (truncated to `i32`), anything else is the size.
pub fn cvt_ssize(value: isize) -> (r: Result<usize, Error>)
    ensures
        value < 0 ==> fails_with(r, value as i32),
        value >= 0 ==> r == Ok::<usize, Error>(value as usize),
{
    if value < 0 {
        Err(Error(value as i32))
    } else {
        Ok(value as usize)
    }
}

/// The code that a callback hands back to the library for the outcome of the
/// application's handler: `0` on success, `ERR_CALLBACK_FAILURE` for every
/// failure (a handler cannot make the library see any other error).
pub fn callback_return_code(outcome: Result<(), Error>) -> (r: i32)
    ensures
        outcome is Ok ==> r == 0,
        outcome is Err ==> r == ERR_CALLBACK_FAILURE,
{
    match outcome {
        Ok(()) => 0,
        Err(err) => {
            if err.code() == ERR_CALLBACK_FAILURE {
                err.code()
            } else {
                ERR_CALLBACK_FAILURE
            }
        },
    }
}

} // verus!
