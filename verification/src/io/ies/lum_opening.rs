//! The shape of a luminaire's luminous opening, decoded from the three
//! signed dimensions an IES file declares.

use vstd::prelude::*;

verus! {

/// The length unit the luminous-opening dimensions are given in.
#[derive(Debug, Clone, Copy, PartialEq, Eq, Structural)]
pub enum LuminousOpeningUnits {
    Feet,
    Meters,
}

impl Default for LuminousOpeningUnits {
    fn default() -> (r: Self)
        ensures
            r == LuminousOpeningUnits::Meters,
    {
        LuminousOpeningUnits::Meters
    }
}

impl LuminousOpeningUnits {
    /// The conversion from the raw integer code the file carries; anything
    /// outside the closed set falls back to metres.
    pub fn from_primitive(v: usize) -> (r: Self)
        ensures
            r == (if v == 1 {
                LuminousOpeningUnits::Feet
            } else {
                LuminousOpeningUnits::Meters
            }),
    {
        if v == 1 {
            LuminousOpeningUnits::Feet
        } else {
            LuminousOpeningUnits::Meters
        }
    }

    /// The raw integer code this unit is written as.
    pub fn to_primitive(&self) -> (r: usize)
        ensures
            r == (if *self == LuminousOpeningUnits::Feet {
                1int
            } else {
                2int
            }),
    {
        match self {
            LuminousOpeningUnits::Feet => 1,
            LuminousOpeningUnits::Meters => 2,
        }
    }
}

/// The shape of the luminous opening, with its dimensions as fixed-point
/// values.  The IES encoding packs the shape into the signs of the three
/// dimensions; here each shape is its own variant.
#[derive(Debug, Clone, Copy, PartialEq, Eq, Structural)]
pub enum IesLuminousOpening {
    Point,
    Rectangular { width: i64, length: i64 },
    RectanguarLuminousSides { width: i64, length: i64, height: i64 },
    Circular { diameter: i64 },
    Ellipse { width: i64, length: i64 },
    VerticalCylinder { diameter: i64, height: i64 },
    VerticalEllipsoidalCylinder { width: i64, length: i64, height: i64 },
    Sphere { diameter: i64 },
    EllipsoidalSpheroid { width: i64, length: i64, height: i64 },
    HorizontalCylinderAlong { diameter: i64, length: i64 },
    HorizontalEllipsoidalCylinderAlong { width: i64, length: i64, height: i64 },
    HorizontalCylinderPerpendicular { width: i64, diameter: i64 },
    HorizontalEllipsoidalCylinderPerpendicular { width: i64, length: i64, height: i64 },
    VerticalCircle { diameter: i64 },
    VerticalEllipse { width: i64, height: i64 },
}

/// The shape the three signed dimensions stand for: negative dimensions mark
/// round openings, and the pattern of signs picks the geometry.
pub open spec fn spec_opening_of(width: int, length: int, height: int) -> IesLuminousOpening {
    if width == 0 && length == 0 && height == 0 {
        IesLuminousOpening::Point
    } else if width < 0 {
        if length == 0 {
            if width == height {
                IesLuminousOpening::VerticalCircle { diameter: (-width) as i64 }
            } else {
                IesLuminousOpening::VerticalEllipse {
                    width: (-width) as i64,
                    height: (-height) as i64,
                }
            }
        } else if length < 0 {
            if height == 0 {
                if width == length {
                    IesLuminousOpening::Circular { diameter: (-width) as i64 }
                } else {
                    IesLuminousOpening::Ellipse {
                        width: (-width) as i64,
                        length: (-length) as i64,
                    }
                }
            } else if height < 0 {
                if width == length && length == height {
                    IesLuminousOpening::Sphere { diameter: (-width) as i64 }
                } else {
                    IesLuminousOpening::EllipsoidalSpheroid {
                        width: (-width) as i64,
                        length: (-length) as i64,
                        height: (-height) as i64,
                    }
                }
            } else {
                if width == length {
                    IesLuminousOpening::VerticalCylinder {
                        diameter: (-width) as i64,
                        height: height as i64,
                    }
                } else {
                    IesLuminousOpening::VerticalEllipsoidalCylinder {
                        width: (-width) as i64,
                        length: (-length) as i64,
                        height: height as i64,
                    }
                }
            }
        } else {
            if width == height {
                IesLuminousOpening::HorizontalCylinderAlong {
                    diameter: (-width) as i64,
                    length: length as i64,
                }
            } else {
                IesLuminousOpening::HorizontalEllipsoidalCylinderAlong {
                    width: (-width) as i64,
                    length: length as i64,
                    height: (-height) as i64,
                }
            }
        }
    } else {
        if length < 0 {
            if length == height {
                IesLuminousOpening::HorizontalCylinderPerpendicular {
                    width: width as i64,
                    diameter: (-length) as i64,
                }
            } else {
                IesLuminousOpening::HorizontalEllipsoidalCylinderPerpendicular {
                    width: width as i64,
                    length: (-length) as i64,
                    height: (-height) as i64,
                }
            }
        } else {
            if height == 0 {
                IesLuminousOpening::Rectangular {
                    width: width as i64,
                    length: length as i64,
                }
            } else {
                IesLuminousOpening::RectanguarLuminousSides {
                    width: width as i64,
                    length: length as i64,
                    height: height as i64,
                }
            }
        }
    }
}

impl IesLuminousOpening {
    /// Gets the type and properties of the luminous opening from the
    /// supplied width, length and height (fixed-point values).
    pub fn from_dimensions(width: i64, length: i64, height: i64) -> (r: Self)
        requires
            i64::MIN < width,
            i64::MIN < length,
            i64::MIN < height,
        ensures
            r == spec_opening_of(width as int, length as int, height as int),
    {
        if width == 0 && length == 0 && height == 0 {
            return IesLuminousOpening::Point;
        }
        if width < 0 {
            if length == 0 {
                if width == height {
                    IesLuminousOpening::VerticalCircle { diameter: -width }
                } else {
                    IesLuminousOpening::VerticalEllipse { width: -width, height: -height }
                }
            } else if length < 0 {
                if height == 0 {
                    if width == length {
                        IesLuminousOpening::Circular { diameter: -width }
                    } else {
                        IesLuminousOpening::Ellipse { width: -width, length: -length }
                    }
                } else if height < 0 {
                    if width == length && length == height {
                        IesLuminousOpening::Sphere { diameter: -width }
                    } else {
                        IesLuminousOpening::EllipsoidalSpheroid {
                            width: -width,
                            length: -length,
                            height: -height,
                        }
                    }
                } else {
                    if width == length {
                        IesLuminousOpening::VerticalCylinder { diameter: -width, height }
                    } else {
                        IesLuminousOpening::VerticalEllipsoidalCylinder {
                            width: -width,
                            length: -length,
                            height,
                        }
                    }
                }
            } else {
                if width == height {
                    IesLuminousOpening::HorizontalCylinderAlong { diameter: -width, length }
                } else {
                    IesLuminousOpening::HorizontalEllipsoidalCylinderAlong {
                        width: -width,
                        length,
                        height: -height,
                    }
                }
            }
        } else {
            if length < 0 {
                if length == height {
                    IesLuminousOpening::HorizontalCylinderPerpendicular {
                        width,
                        diameter: -length,
                    }
                } else {
                    IesLuminousOpening::HorizontalEllipsoidalCylinderPerpendicular {
                        width,
                        length: -length,
                        height: -height,
                    }
                }
            } else {
                if height == 0 {
                    IesLuminousOpening::Rectangular { width, length }
                } else {
                    IesLuminousOpening::RectanguarLuminousSides { width, length, height }
                }
            }
        }
    }
}

} // verus!
