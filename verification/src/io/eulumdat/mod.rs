//! EULUMDAT (LDT) photometric files.
//!
//! A strictly line-positional ASCII format: a fixed header, lamp-set
//! sections whose boundaries follow from earlier header values, then
//! C-angles, G-angles and luminous intensities.

pub mod err;
pub mod eulumdat_file;
pub mod ltyp;
pub mod symmetry;
pub mod util;

pub use eulumdat_file::EulumdatFile;
pub use ltyp::EulumdatType;
pub use symmetry::EulumdatSymmetry;
pub use util::{parse_fixed, parse_i32, parse_u32};
