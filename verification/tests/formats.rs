//! Tests of the format-facing pieces: number parsing, the EULUMDAT symmetry
//! expansion, the IES helpers, and the parser dispatch.

use lidrs::fixed::SCALE;
use lidrs::io::eulumdat::err::Error as LdtError;
use lidrs::io::eulumdat::{
    EulumdatFile, EulumdatSymmetry, EulumdatType, parse_fixed, parse_i32, parse_u32,
};
use lidrs::io::ies::lum_opening::{IesLuminousOpening, LuminousOpeningUnits};
use lidrs::io::ies::phot_type::IesPhotometryType;
use lidrs::io::ies::standard::IesStandard;
use lidrs::err::Error;
use lidrs::photweb::{PhotometricFormat, PhotometricWeb, PhotometricWebBuilder};

#[test]
fn test_parse_u32_values() {
    assert_eq!(parse_u32(&4, "36"), Ok(36));
    assert_eq!(parse_u32(&4, "+7"), Ok(7));
    assert_eq!(parse_u32(&4, "0042"), Ok(42));
    assert_eq!(parse_u32(&9, ""), Err(LdtError::ParseIntError(9)));
    assert_eq!(parse_u32(&9, "-3"), Err(LdtError::ParseIntError(9)));
    assert_eq!(parse_u32(&9, "12x"), Err(LdtError::ParseIntError(9)));
    assert_eq!(parse_u32(&9, "4294967295"), Ok(u32::MAX));
    assert_eq!(parse_u32(&9, "4294967296"), Err(LdtError::ParseIntError(9)));
}

#[test]
fn test_parse_i32_values() {
    assert_eq!(parse_i32(&4, "36"), Ok(36));
    assert_eq!(parse_i32(&4, "-36"), Ok(-36));
    assert_eq!(parse_i32(&4, "+1"), Ok(1));
    assert_eq!(parse_i32(&4, "2147483647"), Ok(i32::MAX));
    assert_eq!(parse_i32(&4, "-2147483648"), Ok(i32::MIN));
    assert_eq!(parse_i32(&4, "2147483648"), Err(LdtError::ParseIntError(4)));
    assert_eq!(parse_i32(&4, "1.5"), Err(LdtError::ParseIntError(4)));
}

#[test]
fn test_parse_fixed_values() {
    assert_eq!(parse_fixed(&5, "1.5"), Ok(SCALE + SCALE / 2));
    assert_eq!(parse_fixed(&5, "-0.25"), Ok(-SCALE / 4));
    assert_eq!(parse_fixed(&5, ".5"), Ok(SCALE / 2));
    assert_eq!(parse_fixed(&5, "5."), Ok(5 * SCALE));
    assert_eq!(parse_fixed(&5, "180"), Ok(180 * SCALE));
    assert_eq!(parse_fixed(&5, "0.000000001"), Ok(1));
    assert_eq!(parse_fixed(&5, "."), Err(LdtError::ParseFloatError(5)));
    assert_eq!(parse_fixed(&5, "1e5"), Err(LdtError::ParseFloatError(5)));
    assert_eq!(parse_fixed(&5, "10000001"), Err(LdtError::ParseFloatError(5)));
    assert_eq!(parse_fixed(&5, "two"), Err(LdtError::ParseFloatError(5)));
}

#[test]
fn test_enum_codes() {
    assert_eq!(
        EulumdatType::from_primitive(1),
        Some(EulumdatType::PointSourceWithSymmetryAboutVerticalAxis)
    );
    assert_eq!(EulumdatType::from_primitive(3), Some(EulumdatType::PointSourceWithOtherSymmetry));
    assert_eq!(EulumdatType::from_primitive(0), None);
    assert_eq!(EulumdatSymmetry::from_primitive(0), Some(EulumdatSymmetry::NoSymmetry));
    assert_eq!(EulumdatSymmetry::from_primitive(4), Some(EulumdatSymmetry::C0C180C90C270Plane));
    assert_eq!(EulumdatSymmetry::from_primitive(5), None);
    assert_eq!(IesPhotometryType::from_primitive(1), Some(IesPhotometryType::TypeC));
    assert_eq!(IesPhotometryType::from_primitive(4), None);
    assert_eq!(LuminousOpeningUnits::from_primitive(1), LuminousOpeningUnits::Feet);
    assert_eq!(LuminousOpeningUnits::from_primitive(2), LuminousOpeningUnits::Meters);
    assert_eq!(LuminousOpeningUnits::from_primitive(9), LuminousOpeningUnits::Meters);
    assert_eq!(IesStandard::from_tag("IESNA91"), IesStandard::Iesna1991);
    assert_eq!(IesStandard::from_tag("IESNA:LM-63-2002"), IesStandard::Iesna2002);
    assert_eq!(IesStandard::from_tag("anything else"), IesStandard::Iesna1986);
}

fn ldt_with(symmetry: EulumdatSymmetry, first_deg: i64, step_deg: i64, count: usize) -> EulumdatFile {
    let mut ldt = EulumdatFile::new();
    ldt.n_cplanes = 18;
    ldt.symmetry = symmetry;
    ldt.n_luminous_intensities_per_cplane = 1;
    ldt.g_angles = vec![0];
    ldt.c_angles = (0..count).map(|k| (first_deg + step_deg * k as i64) * SCALE).collect();
    // Intensity equal to the angle value itself.
    ldt.intensities = (0..count).map(|k| (first_deg + step_deg * k as i64) * SCALE).collect();
    ldt
}

fn angles_deg(web: &PhotometricWeb) -> Vec<f64> {
    web.planes().iter().map(|p| p.angle_deg() as f64 / SCALE as f64).collect()
}

fn first_intensities(web: &PhotometricWeb) -> Vec<i64> {
    web.planes().iter().map(|p| p.intensities()[0]).collect()
}

/// EULUMDAT C0-C180 symmetry: 18 stored planes at ten-degree spacing expand
/// to the full 36, and the mirrored half repeats the stored intensities in
/// reverse.
#[test]
fn test_get_planes_c0c180_symmetry() {
    let ldt = ldt_with(EulumdatSymmetry::C0C180Plane, 0, 10, 19);
    let photweb = ldt.to_photweb();
    assert_eq!(photweb.planes().iter().count(), 36);
    let expect_deg: Vec<f64> = (0..36).map(|k| 10.0 * k as f64).collect();
    for (got, want) in angles_deg(&photweb).iter().zip(expect_deg.iter()) {
        assert!((got - want).abs() < 1e-6);
    }
    let expect: Vec<i64> = vec![
        0, 10, 20, 30, 40, 50, 60, 70, 80, 90, 100, 110, 120, 130, 140, 150, 160, 170, 180,
        170, 160, 150, 140, 130, 120, 110, 100, 90, 80, 70, 60, 50, 40, 30, 20, 10,
    ]
    .into_iter()
    .map(|v| v * SCALE)
    .collect();
    assert_eq!(first_intensities(&photweb), expect);
}

/// EULUMDAT C90-C270 symmetry: the stored wedge runs from 90 to 270 degrees
/// and is reflected about 90 and about 270 to fill the rest.
#[test]
fn test_get_planes_c90c270_symmetry() {
    let ldt = ldt_with(EulumdatSymmetry::C90C270Plane, 90, 10, 19);
    let photweb = ldt.to_photweb();
    assert_eq!(photweb.planes().iter().count(), 36);
    let expect_deg: Vec<f64> = (0..36).map(|k| 10.0 * k as f64).collect();
    for (got, want) in angles_deg(&photweb).iter().zip(expect_deg.iter()) {
        assert!((got - want).abs() < 1e-6);
    }
    let expect: Vec<i64> = vec![
        180, 170, 160, 150, 140, 130, 120, 110, 100, 90, 100, 110, 120, 130, 140, 150, 160,
        170, 180, 190, 200, 210, 220, 230, 240, 250, 260, 270, 260, 250, 240, 230, 220, 210,
        200, 190,
    ]
    .into_iter()
    .map(|v| v * SCALE)
    .collect();
    assert_eq!(first_intensities(&photweb), expect);
}

/// EULUMDAT quadrant symmetry: the stored quadrant is mirrored twice.
#[test]
fn test_get_planes_c0c180c90c270_symmetry() {
    let mut ldt = ldt_with(EulumdatSymmetry::C0C180C90C270Plane, 0, 10, 10);
    ldt.n_cplanes = 9;
    let photweb = ldt.to_photweb();
    assert_eq!(photweb.planes().iter().count(), 36);
    let expect_deg: Vec<f64> = (0..36).map(|k| 10.0 * k as f64).collect();
    for (got, want) in angles_deg(&photweb).iter().zip(expect_deg.iter()) {
        assert!((got - want).abs() < 1e-6);
    }
    let expect: Vec<i64> = vec![
        0, 10, 20, 30, 40, 50, 60, 70, 80, 90, 80, 70, 60, 50, 40, 30, 20, 10, 0, 10, 20, 30,
        40, 50, 60, 70, 80, 90, 80, 70, 60, 50, 40, 30, 20, 10,
    ]
    .into_iter()
    .map(|v| v * SCALE)
    .collect();
    assert_eq!(first_intensities(&photweb), expect);
}

/// Symmetry about the vertical axis keeps the single stored plane, and the
/// web it builds is spherically symmetric.
#[test]
fn test_get_planes_spherical_symmetry() {
    let mut ldt = EulumdatFile::new();
    ldt.n_cplanes = 1;
    ldt.symmetry = EulumdatSymmetry::AboutVerticalAxis;
    ldt.n_luminous_intensities_per_cplane = 1;
    ldt.g_angles = vec![0];
    ldt.c_angles = vec![0];
    ldt.intensities = vec![SCALE];
    let photweb = ldt.to_photweb();
    assert_eq!(photweb.planes().iter().count(), 1);
    assert!(photweb.is_spherically_symmetric());
    assert_eq!(photweb.planes()[0].angle(), 0);
    assert_eq!(first_intensities(&photweb), vec![SCALE]);
}

#[test]
fn test_mc1_mc2() {
    let mut ldt = EulumdatFile::new();
    ldt.n_cplanes = 36;
    ldt.symmetry = EulumdatSymmetry::NoSymmetry;
    assert_eq!(ldt.mc1(), 1);
    assert_eq!(ldt.mc2(), 36);
    ldt.symmetry = EulumdatSymmetry::AboutVerticalAxis;
    assert_eq!(ldt.mc1(), 1);
    assert_eq!(ldt.mc2(), 1);
    ldt.symmetry = EulumdatSymmetry::C0C180Plane;
    assert_eq!(ldt.mc1(), 1);
    assert_eq!(ldt.mc2(), 19);
    ldt.symmetry = EulumdatSymmetry::C90C270Plane;
    assert_eq!(ldt.mc1(), 28);
    assert_eq!(ldt.mc2(), 46);
    ldt.symmetry = EulumdatSymmetry::C0C180C90C270Plane;
    assert_eq!(ldt.mc1(), 1);
    assert_eq!(ldt.mc2(), 10);
}

/// Every case of the luminous-opening decision tree.
#[test]
fn test_from_dimensions() {
    let one = SCALE;
    let two = 2 * SCALE;
    let three = 3 * SCALE;
    assert_eq!(IesLuminousOpening::from_dimensions(0, 0, 0), IesLuminousOpening::Point);
    assert_eq!(
        IesLuminousOpening::from_dimensions(one, one, 0),
        IesLuminousOpening::Rectangular { width: one, length: one }
    );
    assert_eq!(
        IesLuminousOpening::from_dimensions(one, one, one),
        IesLuminousOpening::RectanguarLuminousSides { width: one, length: one, height: one }
    );
    assert_eq!(
        IesLuminousOpening::from_dimensions(-one, -one, 0),
        IesLuminousOpening::Circular { diameter: one }
    );
    assert_eq!(
        IesLuminousOpening::from_dimensions(-one, -two, 0),
        IesLuminousOpening::Ellipse { width: one, length: two }
    );
    assert_eq!(
        IesLuminousOpening::from_dimensions(-one, -one, one),
        IesLuminousOpening::VerticalCylinder { diameter: one, height: one }
    );
    assert_eq!(
        IesLuminousOpening::from_dimensions(-one, -two, one),
        IesLuminousOpening::VerticalEllipsoidalCylinder { width: one, length: two, height: one }
    );
    assert_eq!(
        IesLuminousOpening::from_dimensions(-one, -one, -one),
        IesLuminousOpening::Sphere { diameter: one }
    );
    assert_eq!(
        IesLuminousOpening::from_dimensions(-one, -one, -two),
        IesLuminousOpening::EllipsoidalSpheroid { width: one, length: one, height: two }
    );
    assert_eq!(
        IesLuminousOpening::from_dimensions(-three, -two, -one),
        IesLuminousOpening::EllipsoidalSpheroid { width: three, length: two, height: one }
    );
    assert_eq!(
        IesLuminousOpening::from_dimensions(-one, one, -one),
        IesLuminousOpening::HorizontalCylinderAlong { diameter: one, length: one }
    );
    assert_eq!(
        IesLuminousOpening::from_dimensions(-one, one, -two),
        IesLuminousOpening::HorizontalEllipsoidalCylinderAlong {
            width: one,
            length: one,
            height: two
        }
    );
    assert_eq!(
        IesLuminousOpening::from_dimensions(one, -one, -one),
        IesLuminousOpening::HorizontalCylinderPerpendicular { width: one, diameter: one }
    );
    assert_eq!(
        IesLuminousOpening::from_dimensions(one, -one, -two),
        IesLuminousOpening::HorizontalEllipsoidalCylinderPerpendicular {
            width: one,
            length: one,
            height: two
        }
    );
    assert_eq!(
        IesLuminousOpening::from_dimensions(-one, 0, -one),
        IesLuminousOpening::VerticalCircle { diameter: one }
    );
    assert_eq!(
        IesLuminousOpening::from_dimensions(-one, 0, -two),
        IesLuminousOpening::VerticalEllipse { width: one, height: two }
    );
}

/// The parser dispatch goes by file extension; anything unknown is a hard
/// error naming the offending extension.
#[test]
fn test_get_file_parser() {
    assert!(matches!(
        PhotometricWebBuilder::get_file_parser("lamp.ldt"),
        Ok(PhotometricFormat::Eulumdat)
    ));
    assert!(matches!(
        PhotometricWebBuilder::get_file_parser("lamp.eul"),
        Ok(PhotometricFormat::Eulumdat)
    ));
    assert!(matches!(
        PhotometricWebBuilder::get_file_parser("dir.v2/lamp.ies"),
        Ok(PhotometricFormat::Ies)
    ));
    match PhotometricWebBuilder::get_file_parser("lamp.txt") {
        Err(Error::InvalidFileType(ext)) => assert_eq!(ext, "txt"),
        _ => panic!("a .txt path must be refused"),
    }
    match PhotometricWebBuilder::get_file_parser("lamp") {
        Err(Error::InvalidFileType(ext)) => assert_eq!(ext, ""),
        _ => panic!("an extensionless path must be refused"),
    }
    let builder = PhotometricWebBuilder::from_file("lamp.ldt");
    assert_eq!(builder.input_file.as_deref(), Some("lamp.ldt"));
}
