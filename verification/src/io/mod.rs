//! Format-specific readers and writers for photometric files.

pub mod eulumdat;
pub mod ies;
