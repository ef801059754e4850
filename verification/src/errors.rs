use vstd::prelude::*;

verus! {

/// Errors that can arise while working on variant records.
#[derive(Debug)]
pub enum Error {
    /// The underlying variant I/O library reported a failure; its message is
    /// kept.
    RustHtslibError(String),
    /// Owned bytes (an identifier, or an allele copied out of a record) were
    /// not valid UTF-8 text.
    FromUtf8Error,
    /// Borrowed allele bytes were not valid UTF-8 text.
    Utf8Error,
    /// The record has no associated sequence (reference) id.
    ReferenceIdNotFoundError,
}

} // verus!
