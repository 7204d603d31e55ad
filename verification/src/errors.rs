//! The library's error taxonomy. I/O failures stay with the caller
//! that performs the I/O; the library reports what it can decide from
//! values alone.

use vstd::prelude::*;

verus! {

/// Why an operation of the library refused its input.
#[derive(Clone, Copy, Debug, PartialEq, Eq, Structural)]
pub enum TransferError {
    /// A required argument was absent.
    MissingArgument,
    /// The byte stream ended before a complete header field.
    TruncatedHeader,
    /// The header declared a digest length above the configured ceiling.
    DigestLengthTooLarge,
    /// The header declared a file size above the configured ceiling.
    FileSizeTooLarge,
    /// The byte stream ended before the declared payload was complete.
    TruncatedPayload,
}

/// Return the argument when it is present; report it missing otherwise.
/// The caller owns any usage message: this is only the decision.
pub fn get_required_arg(arg: Option<String>) -> (r: Result<String, TransferError>)
    ensures
        arg is Some ==> r == Ok::<String, TransferError>(arg->0),
        arg is None ==> r == Err::<String, TransferError>(TransferError::MissingArgument),
{
    match arg {
        Some(value) => Ok(value),
        None => Err(TransferError::MissingArgument),
    }
}

} // verus!
