//! The IES photometry type indicator.

use vstd::prelude::*;

verus! {

/// The type of photometry in an IES file: a closed, three-value
/// enumeration.  Type C (the C-gamma system) is by far the most common.
#[derive(Debug, Clone, Copy, PartialEq, Eq, Structural)]
pub enum IesPhotometryType {
    TypeC,
    TypeB,
    TypeA,
}

impl Default for IesPhotometryType {
    fn default() -> (r: Self)
        ensures
            r == IesPhotometryType::TypeC,
    {
        IesPhotometryType::TypeC
    }
}

impl IesPhotometryType {
    /// The fallible conversion from the raw integer code the file carries.
    pub fn from_primitive(v: usize) -> (r: Option<Self>)
        ensures
            r == Self::from_primitive_spec(v as int),
    {
        if v == 1 {
            Some(IesPhotometryType::TypeC)
        } else if v == 2 {
            Some(IesPhotometryType::TypeB)
        } else if v == 3 {
            Some(IesPhotometryType::TypeA)
        } else {
            None
        }
    }

    /// The raw integer code a photometry type is written as.
    pub open spec fn spec_code_of(t: IesPhotometryType) -> int {
        match t {
            IesPhotometryType::TypeC => 1,
            IesPhotometryType::TypeB => 2,
            IesPhotometryType::TypeA => 3,
        }
    }

    /// The conversion from raw codes, as a spec-level map.
    pub open spec fn from_primitive_spec(v: int) -> Option<IesPhotometryType> {
        if v == 1 {
            Some(IesPhotometryType::TypeC)
        } else if v == 2 {
            Some(IesPhotometryType::TypeB)
        } else if v == 3 {
            Some(IesPhotometryType::TypeA)
        } else {
            None
        }
    }
}

} // verus!
