//! The EULUMDAT symmetry indicator.

use vstd::prelude::*;

verus! {

/// The symmetry indicator of an EULUMDAT file (line three): which wedge of
/// the full circle the stored C-planes cover, and how to replicate it.
#[derive(Debug, Clone, Copy, PartialEq, Eq, Structural)]
pub enum EulumdatSymmetry {
    NoSymmetry,
    AboutVerticalAxis,
    C0C180Plane,
    C90C270Plane,
    C0C180C90C270Plane,
}

impl Default for EulumdatSymmetry {
    fn default() -> (r: Self)
        ensures
            r == EulumdatSymmetry::NoSymmetry,
    {
        EulumdatSymmetry::NoSymmetry
    }
}

impl EulumdatSymmetry {
    /// The fallible conversion from the raw integer code the file carries.
    pub fn from_primitive(v: usize) -> (r: Option<Self>)
        ensures
            r == Self::from_primitive_spec(v as int),
    {
        if v == 0 {
            Some(EulumdatSymmetry::NoSymmetry)
        } else if v == 1 {
            Some(EulumdatSymmetry::AboutVerticalAxis)
        } else if v == 2 {
            Some(EulumdatSymmetry::C0C180Plane)
        } else if v == 3 {
            Some(EulumdatSymmetry::C90C270Plane)
        } else if v == 4 {
            Some(EulumdatSymmetry::C0C180C90C270Plane)
        } else {
            None
        }
    }

    /// The raw integer code this indicator is written as.
    pub fn to_primitive(&self) -> (r: usize)
        ensures
            Self::from_primitive_spec(r as int) == Some(*self),
    {
        match self {
            EulumdatSymmetry::NoSymmetry => 0,
            EulumdatSymmetry::AboutVerticalAxis => 1,
            EulumdatSymmetry::C0C180Plane => 2,
            EulumdatSymmetry::C90C270Plane => 3,
            EulumdatSymmetry::C0C180C90C270Plane => 4,
        }
    }

    /// The conversion from raw codes, as a spec-level map.
    pub open spec fn from_primitive_spec(v: int) -> Option<EulumdatSymmetry> {
        if v == 0 {
            Some(EulumdatSymmetry::NoSymmetry)
        } else if v == 1 {
            Some(EulumdatSymmetry::AboutVerticalAxis)
        } else if v == 2 {
            Some(EulumdatSymmetry::C0C180Plane)
        } else if v == 3 {
            Some(EulumdatSymmetry::C90C270Plane)
        } else if v == 4 {
            Some(EulumdatSymmetry::C0C180C90C270Plane)
        } else {
            None
        }
    }
}

} // verus!
