//! The crate-level error: one kind per failure class, each wrapping the
//! structured detail its source carries.

use vstd::prelude::*;

verus! {

/// Why reading, converting or writing a photometric web failed.
#[derive(Debug)]
pub enum Error {
    /// A file could not be read or written; carries the message text.
    IOError(String),
    /// The IES parser rejected the input.
    IESError(crate::io::ies::err::Error),
    /// The EULUMDAT parser rejected the input.
    LDTError(crate::io::eulumdat::err::Error),
    /// The file extension names no supported format.
    InvalidFileType(String),
    /// Building a web failed; wraps the underlying error.
    BuildError(Box<Error>),
    /// A web-level operation was refused.
    OperationError(Box<crate::ops::err::Error>),
    /// The file parsed, but its expansion would carry more planes than this
    /// crate can hold; carries the expanded count, saturated at the platform
    /// limit.
    WebTooLarge(usize),
    /// The file parsed, but its photometry system or its angle layout is one
    /// this crate does not interpret.
    UnsupportedPhotometry,
}

} // verus!
