//! Photometric web: the common representation of a luminous intensity
//! distribution as an ordered set of angular planes around a full circle.

pub mod funcs;
pub mod photweb;
pub mod photweb_builder;
pub mod plane;

pub use funcs::{mirror_first_hemisphere, mirror_first_quadrant, mirror_second_and_third_quadrants};
pub use photweb::PhotometricWeb;
pub use photweb_builder::{PhotometricFormat, PhotometricWebBuilder};
pub use plane::{IntensityUnits, Plane, PlaneOrientation, PlaneWidth};
