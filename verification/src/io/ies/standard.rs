//! The IES standard revision tag: the first line of a file names one of
//! four known revisions; anything unrecognized falls back to the oldest.

use vstd::prelude::*;
use crate::text::str_eq;

verus! {

/// A list of possible IES standards.
#[derive(Debug, Clone, Copy, PartialEq, Eq, Structural)]
pub enum IesStandard {
    Iesna1986,
    Iesna1991,
    Iesna1995,
    Iesna2002,
}

impl Default for IesStandard {
    fn default() -> (r: Self)
        ensures
            r == IesStandard::Iesna1986,
    {
        IesStandard::Iesna1986
    }
}

/// The standard a header line names; the 1986 revision wrote no tag, so it
/// is the fallback for every unrecognized line.
pub open spec fn spec_standard_of(s: Seq<char>) -> IesStandard {
    if s == "IESNA91"@ {
        IesStandard::Iesna1991
    } else if s == "IESNA:LM-63-1995"@ {
        IesStandard::Iesna1995
    } else if s == "IESNA:LM-63-2002"@ {
        IesStandard::Iesna2002
    } else {
        IesStandard::Iesna1986
    }
}

/// The tag text each standard writes on the first line of a file.
pub open spec fn spec_tag_of(st: IesStandard) -> Seq<char> {
    match st {
        IesStandard::Iesna1986 => ""@,
        IesStandard::Iesna1991 => "IESNA91"@,
        IesStandard::Iesna1995 => "IESNA:LM-63-1995"@,
        IesStandard::Iesna2002 => "IESNA:LM-63-2002"@,
    }
}

impl IesStandard {
    /// Converts the header line of a file into a known standard.
    pub fn from_tag(tag: &str) -> (r: IesStandard)
        ensures
            r == spec_standard_of(tag@),
    {
        if str_eq(tag, "IESNA91") {
            IesStandard::Iesna1991
        } else if str_eq(tag, "IESNA:LM-63-1995") {
            IesStandard::Iesna1995
        } else if str_eq(tag, "IESNA:LM-63-2002") {
            IesStandard::Iesna2002
        } else {
            IesStandard::Iesna1986
        }
    }

    /// The tag this standard is written as; the 1986 revision writes none.
    pub fn to_tag(&self) -> (r: &'static str)
        ensures
            r@ == spec_tag_of(*self),
    {
        match self {
            IesStandard::Iesna1986 => "",
            IesStandard::Iesna1991 => "IESNA91",
            IesStandard::Iesna1995 => "IESNA:LM-63-1995",
            IesStandard::Iesna2002 => "IESNA:LM-63-2002",
        }
    }
}

} // verus!
