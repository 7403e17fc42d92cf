//! Errors of the web-level operations.

use vstd::prelude::*;

verus! {

/// Why an operation over several photometric webs was refused.
#[derive(Debug, Clone, Copy, PartialEq, Eq, Structural)]
pub enum Error {
    /// No webs were handed in.
    NoPlanes,
    /// Two webs disagree on their plane count: the expected count, the count
    /// found, and the position of the web that disagrees.
    InconsistentNumberOfPlanes(usize, usize, usize),
    /// Two planes disagree on their number of intensities: the expected and
    /// the found count.
    InconsistentIntensitiesInPlane(usize, usize),
    /// The secondary-angle arrays differ between planes.
    InconsistentPlaneAngles,
}

} // verus!
