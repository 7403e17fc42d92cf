//! A library for reading and working with luminous intensity
//! distributions ("photometric webs"), as stored in the two common ASCII
//! interchange formats: IES LM-63 and EULUMDAT (LDT).
//!
//! All angles and intensities are held as 64-bit fixed-point numbers with
//! nine decimal places (see [`fixed`]), so that parsing, symmetry expansion
//! and the flux integral are exact, machine-checkable arithmetic.  Two
//! limits of that model: numbers are read as plain decimals (exponent forms
//! such as `1e5` are malformed), and magnitudes are capped at ten million.

pub mod err;
pub mod fixed;
pub mod io;
pub mod numtext;
pub mod ops;
pub mod photweb;
pub mod text;

pub use fixed::SCALE;
