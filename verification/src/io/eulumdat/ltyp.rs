//! The EULUMDAT luminaire type indicator.

use vstd::prelude::*;

verus! {

/// The type indicator of an EULUMDAT file (line two): a closed, three-value
/// enumeration.
#[derive(Debug, Clone, Copy, PartialEq, Eq, Structural)]
pub enum EulumdatType {
    PointSourceWithSymmetryAboutVerticalAxis,
    LinearLumminaire,
    PointSourceWithOtherSymmetry,
}

impl Default for EulumdatType {
    fn default() -> (r: Self)
        ensures
            r == EulumdatType::PointSourceWithSymmetryAboutVerticalAxis,
    {
        EulumdatType::PointSourceWithSymmetryAboutVerticalAxis
    }
}

impl EulumdatType {
    /// The fallible conversion from the raw integer code the file carries.
    pub fn from_primitive(v: usize) -> (r: Option<Self>)
        ensures
            r == (if v == 1 {
                Some(EulumdatType::PointSourceWithSymmetryAboutVerticalAxis)
            } else if v == 2 {
                Some(EulumdatType::LinearLumminaire)
            } else if v == 3 {
                Some(EulumdatType::PointSourceWithOtherSymmetry)
            } else {
                None
            }),
    {
        if v == 1 {
            Some(EulumdatType::PointSourceWithSymmetryAboutVerticalAxis)
        } else if v == 2 {
            Some(EulumdatType::LinearLumminaire)
        } else if v == 3 {
            Some(EulumdatType::PointSourceWithOtherSymmetry)
        } else {
            None
        }
    }

    /// The raw integer code this indicator is written as.
    pub fn to_primitive(&self) -> (r: usize)
        ensures
            Self::from_primitive_spec(r as int) == Some(*self),
    {
        match self {
            EulumdatType::PointSourceWithSymmetryAboutVerticalAxis => 1,
            EulumdatType::LinearLumminaire => 2,
            EulumdatType::PointSourceWithOtherSymmetry => 3,
        }
    }

    /// The conversion from raw codes, as a spec-level map.
    pub open spec fn from_primitive_spec(v: int) -> Option<EulumdatType> {
        if v == 1 {
            Some(EulumdatType::PointSourceWithSymmetryAboutVerticalAxis)
        } else if v == 2 {
            Some(EulumdatType::LinearLumminaire)
        } else if v == 3 {
            Some(EulumdatType::PointSourceWithOtherSymmetry)
        } else {
            None
        }
    }
}

} // verus!
