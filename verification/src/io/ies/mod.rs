//! IES LM-63 photometric files.

pub mod err;
pub mod ies_file;
pub mod lum_opening;
pub mod phot_type;
pub mod standard;

pub use ies_file::IesFile;
pub use lum_opening::{IesLuminousOpening, LuminousOpeningUnits};
pub use phot_type::IesPhotometryType;
pub use standard::IesStandard;
