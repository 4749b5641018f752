//! Error codes of the libmpv client API (`mpv_error`) and the rules that turn
//! a returned code into a `Result`.

use vstd::prelude::*;
use crate::text::{push_char, push_signed_decimal, push_str, signed_decimal};
use std::str::Utf8Error;

verus! {

/// `MPV_ERROR_SUCCESS`: no error happened.
pub const ERROR_SUCCESS: i32 = 0;
/// `MPV_ERROR_EVENT_QUEUE_FULL`: the event ringbuffer is full.
pub const ERROR_EVENT_QUEUE_FULL: i32 = -1;
/// `MPV_ERROR_NOMEM`: memory allocation failed.
pub const ERROR_NOMEM: i32 = -2;
/// `MPV_ERROR_UNINITIALIZED`: the core was not initialized yet.
pub const ERROR_UNINITIALIZED: i32 = -3;
/// `MPV_ERROR_INVALID_PARAMETER`: a parameter was invalid or unsupported.
pub const ERROR_INVALID_PARAMETER: i32 = -4;
/// `MPV_ERROR_PROPERTY_NOT_FOUND`: the property does not exist.
pub const ERROR_PROPERTY_NOT_FOUND: i32 = -8;
/// `MPV_ERROR_PROPERTY_FORMAT`: the property was accessed in a wrong format.
pub const ERROR_PROPERTY_FORMAT: i32 = -9;
/// `MPV_ERROR_PROPERTY_UNAVAILABLE`: the property exists but has no value.
pub const ERROR_PROPERTY_UNAVAILABLE: i32 = -10;
/// `MPV_ERROR_COMMAND`: running a command failed.
pub const ERROR_COMMAND: i32 = -12;
/// `MPV_ERROR_GENERIC`: unspecified error.
pub const ERROR_GENERIC: i32 = -20;

/// An error reported by mpv, holding its `mpv_error` code.
#[derive(Debug, Clone, Copy, PartialEq, Eq, Structural)]
pub struct Error(i32);

impl View for Error {
    type V = i32;

    closed spec fn view(&self) -> i32 {
        self.0
    }
}

/// The outcome that mpv's convention gives to a returned code: success for
/// `MPV_ERROR_SUCCESS`, the error with that code otherwise.
pub open spec fn outcome_of_code(code: i32, r: Result<(), Error>) -> bool {
    match r {
        Ok(()) => code == ERROR_SUCCESS,
        Err(e) => code != ERROR_SUCCESS && e@ == code,
    }
}

/// The text that describes an error: its code in square brackets, a space,
/// then the description that mpv gives of the code.
pub open spec fn error_text(code: i32, description: Seq<char>) -> Seq<char> {
    seq!['['] + signed_decimal(code as int) + seq![']', ' '] + description
}

impl Error {
    /// The error with the given `mpv_error` code.
    pub fn new(error: i32) -> (e: Error)
        ensures
            e@ == error,
    {
        Error(error)
    }

    /// The error used where no code from mpv applies (`MPV_ERROR_GENERIC`).
    pub fn generic() -> (e: Error)
        ensures
            e@ == ERROR_GENERIC,
    {
        Error(ERROR_GENERIC)
    }

    /// The `mpv_error` code of this error.
    pub fn code(&self) -> (c: i32)
        ensures
            c == self@,
    {
        self.0
    }

    /// The text of this error, given mpv's description of its code
    /// (`mpv_error_string`).
    pub fn message(&self, description: &str) -> (s: String)
        ensures
            s@ == error_text(self@, description@),
    {
        let mut s = String::new();
        push_char(&mut s, '[');
        push_signed_decimal(&mut s, self.0 as i64);
        push_char(&mut s, ']');
        push_char(&mut s, ' ');
        push_str(&mut s, description);
        s
    }
}

/// The outcome of a call that returns `MPV_ERROR_SUCCESS` or an error code.
pub fn check(code: i32) -> (r: Result<(), Error>)
    ensures
        outcome_of_code(code, r),
{
    if code == ERROR_SUCCESS {
        Ok(())
    } else {
        Err(Error::new(code))
    }
}

/// The outcome of a call that returns a non-negative value on success and
/// a negative error code otherwise.
pub fn check_with_code(code: i32) -> (r: Result<i32, Error>)
    ensures
        code >= ERROR_SUCCESS ==> r == Ok::<i32, Error>(code),
        code < ERROR_SUCCESS ==> (r matches Err(e) && e@ == code),
{
    if code >= ERROR_SUCCESS {
        Ok(code)
    } else {
        Err(Error::new(code))
    }
}

/// The std error `str::Utf8Error`, carried as an opaque value.
#[verifier::external_type_specification]
#[verifier::external_body]
pub struct ExUtf8Error(Utf8Error);

impl From<Utf8Error> for Error {
    fn from(_e: Utf8Error) -> (r: Error)
        ensures
            r@ == ERROR_GENERIC,
    {
        Error::generic()
    }
}

impl vstd::std_specs::convert::FromSpecImpl<Utf8Error> for Error {
    open spec fn obeys_from_spec() -> bool {
        true
    }

    closed spec fn from_spec(v: Utf8Error) -> Error {
        Error(ERROR_GENERIC)
    }
}

} // verus!
