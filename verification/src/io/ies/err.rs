//! Errors of the IES LM-63 parser.

use vstd::prelude::*;

verus! {

/// Why an IES file was rejected.  Line and item numbers are 1-based.
#[derive(Debug, Clone, PartialEq, Eq)]
pub enum Error {
    /// The file contains no lines.
    EmptyFile,
    /// No `TILT=` line was found.
    TiltNotDefined,
    /// A TILT sub-table lives in another file, which this crate does not
    /// read itself; the caller must load it and parse its text.
    TiltFileNotFound(String),
    /// The TILT sub-table runs past its four lines.
    TiltFiltTooLong(usize),
    /// A keyword line does not read as `[KEYWORD] value`.
    InvalidKeyword(usize),
    /// A floating-point item failed to parse: the line and, when known, the
    /// item position on it.
    ParseFloatError(usize, Option<usize>),
    /// An integer item failed to parse: the line and, when known, the item
    /// position on it.
    ParseIntError(usize, Option<usize>),
    /// An unsupported unit indicator.
    InvalidUnit(usize),
    /// An array has the wrong length: the line, the expected count and the
    /// found count.
    ArrayIncorrectLength(usize, usize, usize),
    /// The vertical angles fit no allowed hemisphere.
    VerticalAnglesInvalid(usize),
    /// The horizontal angles fit no allowed lateral symmetry.
    HorizontalAnglesInvalid(usize),
    /// The file ended before a declared section was complete.
    UnexpectedEndOfFile(usize),
    /// More items arrived than the declared counts allow: the line, the
    /// expected count and the found count.
    UnexpectedIitem(usize, usize, usize),
    /// An enumerated code outside its closed set of values.
    FromPrimitiveError(usize),
}

} // verus!
