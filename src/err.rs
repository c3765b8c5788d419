//! The errors that the library reports.
use vstd::prelude::*;

verus! {

#[verifier::external_type_specification]
#[verifier::external_body]
pub struct ExIoError(std::io::Error);

#[verifier::external_type_specification]
#[verifier::external_body]
pub struct ExPushError(io_uring::squeue::PushError);

/// An error from the kernel or from a full submission queue.
#[derive(Debug)]
pub enum Error {
    /// An error code that the kernel reported.
    Os(std::io::Error),
    /// The submission queue was full.
    Dev(io_uring::squeue::PushError),
}

/// The error that carries the kernel error code `code`.
pub uninterp spec fn os_error_of(code: i32) -> std::io::Error;

/// Relies on std::io::Error::from_raw_os_error: the error that carries the
/// kernel error code `code`, which depends on the code alone.
#[verifier::external_body]
fn os_error(code: i32) -> (r: std::io::Error)
    ensures
        r == os_error_of(code),
{
    std::io::Error::from_raw_os_error(code)
}

/// The error code that a negated code stands for; the one code without a
/// negation stands for itself.
pub open spec fn errno_code(errno: i32) -> i32 {
    if errno == i32::MIN {
        errno
    } else {
        (-errno) as i32
    }
}

/// Relies on the `Display` impl of std::io::Error: its message.
#[verifier::external_body]
fn io_error_message(e: &std::io::Error) -> String {
    e.to_string()
}

/// Relies on the `Display` impl of io_uring::squeue::PushError: its message.
#[verifier::external_body]
fn push_error_message(e: &io_uring::squeue::PushError) -> String {
    e.to_string()
}

impl Error {
    /// The error for a negated kernel error code, as a call that failed
    /// returns it (`-errno`).
    pub fn from_errno(errno: i32) -> (r: Error)
        ensures
            r == Error::Os(os_error_of(errno_code(errno))),
    {
        let code = if errno == i32::MIN {
            errno
        } else {
            -errno
        };
        Error::Os(os_error(code))
    }

    /// The message that describes the error.
    pub fn message(&self) -> String {
        match self {
            Error::Os(io) => io_error_message(io),
            Error::Dev(d) => push_error_message(d),
        }
    }
}

impl From<std::io::Error> for Error {
    fn from(io: std::io::Error) -> (r: Error) {
        Error::Os(io)
    }
}

impl vstd::std_specs::convert::FromSpecImpl<std::io::Error> for Error {
    open spec fn obeys_from_spec() -> bool {
        true
    }

    open spec fn from_spec(io: std::io::Error) -> Error {
        Error::Os(io)
    }
}

impl From<io_uring::squeue::PushError> for Error {
    fn from(d: io_uring::squeue::PushError) -> (r: Error) {
        Error::Dev(d)
    }
}

impl vstd::std_specs::convert::FromSpecImpl<io_uring::squeue::PushError> for Error {
    open spec fn obeys_from_spec() -> bool {
        true
    }

    open spec fn from_spec(d: io_uring::squeue::PushError) -> Error {
        Error::Dev(d)
    }
}

} // verus!
