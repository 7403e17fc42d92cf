//! Errors of the EULUMDAT (LDT) parser.

use vstd::prelude::*;

verus! {

/// Why an EULUMDAT file was rejected; each variant carries the 1-based line
/// number it arose on.
#[derive(Debug, Clone, Copy, PartialEq, Eq, Structural)]
pub enum Error {
    /// The file holds more lines than its header declares.
    TooManyLines(usize),
    /// A line that should hold a number does not parse as one, or the number
    /// is out of the range this crate can hold.
    ParseFloatError(usize),
    /// A line that should hold an integer does not parse as one, or the
    /// integer is out of the range its slot allows.
    ParseIntError(usize),
    /// An unsupported unit indicator.
    InvalidUnit(usize),
    /// An array is shorter than its declared length: the line, the expected
    /// count and the found count.
    ArrayTooShort(usize, usize, usize),
    /// An enumerated code (type or symmetry indicator) outside its closed
    /// set of values.
    FromPrimitiveError(usize),
}

} // verus!
