//! Tests of the text parsers: the EULUMDAT line grammar and the IES
//! positional token stream, with their structural validation.

use lidrs::fixed::SCALE;
use lidrs::io::eulumdat::err::Error as LdtError;
use lidrs::io::eulumdat::{EulumdatFile, EulumdatSymmetry, EulumdatType};
use lidrs::io::ies::err::Error as IesError;
use lidrs::io::ies::ies_file::IesFile;
use lidrs::io::ies::phot_type::IesPhotometryType;
use lidrs::io::ies::lum_opening::LuminousOpeningUnits;

/// A small EULUMDAT file: two lamp sets, four C-planes of one intensity
/// each, no symmetry.
fn sample_ldt() -> String {
    let mut lines: Vec<String> = vec![
        "sample photometric bench".into(), // 1 header
        "3".into(),                        // 2 type
        "0".into(),                        // 3 symmetry: none
        "4".into(),                        // 4 Mc
        "90".into(),                       // 5 Dc
        "1".into(),                        // 6 Ng
        "0".into(),                        // 7 Dg
        "report-7".into(),                 // 8
        "bench lamp".into(),               // 9
        "L-1".into(),                      // 10
        "sample.ldt".into(),               // 11
        "bench".into(),                    // 12
        "200".into(),                      // 13..25 dimensions and factors
        "200".into(),
        "120".into(),
        "150".into(),
        "150".into(),
        "80".into(),
        "80".into(),
        "80".into(),
        "80".into(),
        "100".into(),
        "95".into(),
        "1".into(),
        "0".into(),
        "2".into(), // 26 lamp sets
    ];
    // Two lamp sets: count, type, flux, temperature, rendering, wattage.
    lines.extend(["1", "2", "A60", "A60", "1200", "1150"].map(String::from));
    lines.extend(["2700K", "2700K", "80", "80", "11.5", "11"].map(String::from));
    // Ten direct ratios.
    for _ in 0..10 {
        lines.push("0.5".into());
    }
    // Four C-angles, one G-angle, four intensities (Mc2 - Mc1 + 1 == 4).
    lines.extend(["0", "90", "180", "270"].map(String::from));
    lines.push("45".into());
    lines.extend(["100", "200", "300", "400"].map(String::from));
    lines.join("\n")
}

#[test]
fn test_parse_ldt() {
    let mut ldt = EulumdatFile::new();
    match ldt.parse(&sample_ldt()) {
        Ok(()) => {
            assert_eq!(ldt.c_angles.iter().count(), ldt.n_cplanes);
            assert_eq!(
                ldt.g_angles.iter().count(),
                ldt.n_luminous_intensities_per_cplane
            );
            assert_eq!(
                ldt.intensities.iter().count(),
                (ldt.mc2() - ldt.mc1() + 1) * ldt.n_luminous_intensities_per_cplane
            );
        }
        Err(e) => panic!("LDT parse error: {:?}", e),
    }
}

#[test]
fn test_parse_ldt_fields() {
    let mut ldt = EulumdatFile::new();
    ldt.parse(&sample_ldt()).expect("the sample parses");
    assert_eq!(ldt.header, "sample photometric bench");
    assert_eq!(ldt.ltype, EulumdatType::PointSourceWithOtherSymmetry);
    assert_eq!(ldt.symmetry, EulumdatSymmetry::NoSymmetry);
    assert_eq!(ldt.n_cplanes, 4);
    assert_eq!(ldt.cplane_dist, 90 * SCALE);
    assert_eq!(ldt.n_lamp_sets, 2);
    assert_eq!(ldt.n_lamp, vec![1, 2]);
    assert_eq!(ldt.lamp_type, vec!["A60".to_string(), "A60".to_string()]);
    assert_eq!(ldt.tot_luminous_flux, vec![1200 * SCALE, 1150 * SCALE]);
    assert_eq!(ldt.wattage, vec![SCALE * 23 / 2, 11 * SCALE]);
    assert_eq!(ldt.direct_ratios.len(), 10);
    assert_eq!(ldt.c_angles, vec![0, 90 * SCALE, 180 * SCALE, 270 * SCALE]);
    assert_eq!(ldt.g_angles, vec![45 * SCALE]);
    assert_eq!(
        ldt.intensities,
        vec![100 * SCALE, 200 * SCALE, 300 * SCALE, 400 * SCALE]
    );
    // A parsed document converts into a web directly.
    let web = ldt.to_photweb();
    assert_eq!(web.n_planes(), 4);
}

/// A line that does not read as a number is reported under its 1-based
/// line number.
#[test]
fn test_parse_ldt_bad_number() {
    let text = sample_ldt().replace("\n90\n", "\nninety\n");
    let mut ldt = EulumdatFile::new();
    assert_eq!(ldt.parse(&text), Err(LdtError::ParseFloatError(5)));
}

/// A symmetry code outside the closed set is rejected on its line.
#[test]
fn test_parse_ldt_bad_symmetry() {
    let text = sample_ldt().replacen("\n0\n", "\n9\n", 1);
    let mut ldt = EulumdatFile::new();
    assert_eq!(ldt.parse(&text), Err(LdtError::FromPrimitiveError(3)));
}

/// A C-angle section shorter than the declared count is a structural error
/// naming the expected and the found count.
#[test]
fn test_parse_ldt_short_c_angles() {
    let text = sample_ldt().replace("\n0\n90\n180\n270\n", "\n0\n90\n180\n");
    let mut ldt = EulumdatFile::new();
    match ldt.parse(&text) {
        Err(LdtError::ArrayTooShort(_, expected, found)) => {
            assert_eq!(expected, 4);
            assert!(found < 4);
        }
        other => panic!("expected a short-array error, got {:?}", other),
    }
}

const VALUES_TEST: &str = "TILT=INCLUDE
1
13
0 15 30 45 60 75 90 105 120 135 150 165 180
1.0 .95 .94 .90 .88 .87 .98 .87 .88 .90 .94 .95 1.0
1 50000 1 5 3 1 1 .5 .6 0
1.0 1.0 495
0 22.5 45 67.5 90
0 45 90
100000 50000 25000 10000 5000
100000 35000 16000 8000 3000
100000 20000 10000 5000 1000";

#[test]
fn parse_properties_test() {
    let mut ies = IesFile::new();
    match ies.parse_properties(&VALUES_TEST.to_owned()) {
        Ok(()) => {
            assert_eq!(ies.vertical_angles.iter().count(), ies.n_vertical_angles);
            assert_eq!(
                ies.horizontal_angles.iter().count(),
                ies.n_horizontal_angles
            );
            assert!(IesFile::vertical_angles_valid(&ies.vertical_angles));
            assert!(IesFile::horizontal_angles_valid(&ies.horizontal_angles));
        }
        Err(e) => panic!("Properties parse error: {:?}", e),
    }
}

#[test]
fn parse_properties_values() {
    let mut ies = IesFile::new();
    ies.parse_properties(&VALUES_TEST.to_owned())
        .expect("the sample parses");
    assert_eq!(ies.n_lamps, 1);
    assert_eq!(ies.lumens_per_lamp, 50000 * SCALE);
    assert_eq!(ies.n_vertical_angles, 5);
    assert_eq!(ies.n_horizontal_angles, 3);
    assert_eq!(ies.photometric_type, IesPhotometryType::TypeC);
    assert_eq!(ies.luminous_opening_units, LuminousOpeningUnits::Feet);
    assert_eq!(ies.luminous_opening_width, SCALE / 2);
    assert_eq!(ies.input_watts, 495 * SCALE);
    assert_eq!(
        ies.vertical_angles,
        vec![0, 45 * SCALE / 2, 45 * SCALE, 135 * SCALE / 2, 90 * SCALE]
    );
    assert_eq!(ies.horizontal_angles, vec![0, 45 * SCALE, 90 * SCALE]);
    assert_eq!(ies.candela_values.len(), 15);
    assert_eq!(ies.candela_values[0], 100000 * SCALE);
    assert_eq!(ies.candela_values[14], 1000 * SCALE);
}

/// A horizontal-angle section that supplies fewer values than the declared
/// count is a structural-length error citing the line it ended on, the
/// declared count and the found count.
#[test]
fn parse_properties_short_horizontal() {
    let text = "TILT=NONE\n1 1000 1 2 3 1 2 0 0 0\n1 1 100\n0 90\n0 45\n";
    let mut ies = IesFile::new();
    assert_eq!(
        ies.parse_properties(&text.to_owned()),
        Err(IesError::ArrayIncorrectLength(5, 3, 2))
    );
}

/// A candela section that does not hold exactly one value per angle pair is
/// a structural-length error naming both counts.
#[test]
fn parse_properties_short_candela() {
    let text = "TILT=NONE\n1 1000 1 2 2 1 2 0 0 0\n1 1 100\n0 90\n0 180\n10 20 30\n";
    let mut ies = IesFile::new();
    assert_eq!(
        ies.parse_properties(&text.to_owned()),
        Err(IesError::ArrayIncorrectLength(6, 4, 3))
    );
}

/// Without a TILT line the numeric section cannot be located.
#[test]
fn parse_properties_no_tilt() {
    let mut ies = IesFile::new();
    assert_eq!(
        ies.parse_properties(&"1 2 3\n4 5 6\n".to_owned()),
        Err(IesError::TiltNotDefined)
    );
}

/// An IES Type-C document expands by the exact symmetry boundary its last
/// horizontal angle sits on: a wedge to 90 degrees fills the whole circle
/// through two mirror steps.
#[test]
fn test_ies_get_planes_type_c() {
    let mut ies = IesFile::new();
    ies.n_vertical_angles = 2;
    ies.vertical_angles = vec![0, 90 * SCALE];
    ies.n_horizontal_angles = 3;
    ies.horizontal_angles = vec![0, 45 * SCALE, 90 * SCALE];
    ies.candela_values = vec![
        100 * SCALE,
        100 * SCALE,
        200 * SCALE,
        200 * SCALE,
        300 * SCALE,
        300 * SCALE,
    ];
    let web = ies.to_photweb();
    // 3 stored planes -> 5 after the quadrant mirror -> 8 after the
    // hemisphere mirror.
    assert_eq!(web.n_planes(), 8);
    let intensities: Vec<i64> = web.planes().iter().map(|p| p.intensities()[0]).collect();
    assert_eq!(
        intensities,
        vec![
            100 * SCALE,
            200 * SCALE,
            300 * SCALE,
            200 * SCALE,
            100 * SCALE,
            200 * SCALE,
            300 * SCALE,
            200 * SCALE,
        ]
    );
}

const IESNA_1991_FILE: &str = "IESNA91
[TEST] Simple demo intensity distribution 
[MANUFAC] Lightscape Technologies, Inc.
TILT=NONE
1
-1
1
8
1
1
2
0.0 0.0 0.0
1.0 1.0 0.0
0.0 5.0 10.0 20.0 30.0 45.0 65.0 90.0
0.0
1000.0 1100.0 1300.0 1150.0 930.0 650.0 350.0 0.0
";

/// The last pair stored under a keyword, as the lookup a caller would make.
fn kw_get<'a>(ies: &'a IesFile, key: &str) -> Option<&'a str> {
    ies.keywords
        .iter()
        .rev()
        .find(|(k, _)| k == key)
        .map(|(_, v)| v.as_str())
}

#[test]
fn basic_parse_test() {
    let mut ies = IesFile::new();
    match ies.parse(&IESNA_1991_FILE.to_owned()) {
        Err(e) => panic!("Parse error: {:?}", e),
        Ok(()) => {
            assert_eq!(ies.candela_multiplying_factor, SCALE);
            assert_eq!(ies.n_horizontal_angles, 1);
            assert_eq!(ies.n_vertical_angles, 8);
            assert_eq!(ies.luminous_opening_units, LuminousOpeningUnits::Meters);
            assert_eq!(ies.luminous_opening_width, 0);
            assert_eq!(ies.luminous_opening_length, 0);
            assert_eq!(ies.luminous_opening_height, 0);
            assert_eq!(
                ies.vertical_angles,
                vec![0, 5, 10, 20, 30, 45, 65, 90]
                    .into_iter()
                    .map(|d| d * SCALE)
                    .collect::<Vec<i64>>()
            );
            assert_eq!(ies.horizontal_angles, vec![0]);
            assert_eq!(
                ies.candela_values,
                vec![1000, 1100, 1300, 1150, 930, 650, 350, 0]
                    .into_iter()
                    .map(|d| d * SCALE)
                    .collect::<Vec<i64>>()
            );
            assert_eq!(ies.vertical_angles.iter().count(), ies.n_vertical_angles);
            assert_eq!(
                ies.horizontal_angles.iter().count(),
                ies.n_horizontal_angles
            );
            assert!(IesFile::vertical_angles_valid(&ies.vertical_angles));
            assert!(IesFile::horizontal_angles_valid(&ies.horizontal_angles));
        }
    }
}

const KEYWORDS_TEST: &str = "[TEST] ABC1234
[TESTLAB] ABC Laboratories 
[ISSUEDATE] 18-FEB-2001
[MANUFAC] Aardvark lighting Inc. 
[LUMCAT] SKYVIEW 123-XYZ-abs-400 
[LUMINAIRE] Wide beam flood to be used without tilt
[LAMPCAT] MH-400-CLEAR
[LAMP] 400 Watt Metal Halide
[BALLASTCAT] Global 16G6031-17R
[BALLAST] 400W 277V MH Magnetic
[MAINTCAT] 4
[OTHER] This luminaire is useful as an indirect flood
[MORE] and to reduce light pollution in down light applications. 
[LAMPPOSITION] 0,0
[SEARCH] POLLUTION SPORTS INDIRECT
[_NEMATYPE] 4h x 6v
[_PRICE] Make us an offer
TILT=";

#[test]
fn parse_keywords_test() {
    let mut ies = IesFile::new();
    match ies.parse_keywords(&KEYWORDS_TEST.to_owned()) {
        Ok(()) => {
            assert_eq!(ies.keywords.len(), 16);
            assert_eq!(kw_get(&ies, "TEST"), Some("ABC1234"));
            assert_eq!(
                kw_get(&ies, "OTHER"),
                Some(
                    "This luminaire is useful as an indirect flood and to reduce light pollution in down light applications. "
                )
            );
            assert_eq!(kw_get(&ies, "MAINTCAT"), Some("4"));
            assert_eq!(kw_get(&ies, "_NEMATYPE"), Some("4h x 6v"));
            assert_eq!(kw_get(&ies, "_PRICE"), Some("Make us an offer"));
        }
        Err(e) => panic!("Keyword parse error: {:?}", e),
    }
}

const TILT_TEST: &str = "TILT=INCLUDE
1
7
0 15 30 45 60 75 90
1.0 0.95 0.94 0.90 0.88 0.87 0.94";

#[test]
fn parse_tilt_include_test() {
    let mut ies = IesFile::new();
    match ies.parse_tilt(&TILT_TEST.to_owned()) {
        Ok(()) => {
            let tilt = ies.tilt.as_ref().expect("an inline sub-table was parsed");
            assert_eq!(tilt.lamp_to_lumminaire_geometry, 1);
            assert_eq!(tilt.no_tilt_angles, 7);
            assert_eq!(tilt.angles.len(), 7);
            assert_eq!(tilt.angles[1], 15 * SCALE);
            assert_eq!(tilt.multiplying_factors[1], 95 * SCALE / 100);
        }
        Err(e) => panic!("Tilt parse error: {:?}", e),
    }
}

#[test]
fn parse_tilt_none_test() {
    const TILT_NONE: &str = "TILT=NONE\n";
    let mut ies = IesFile::new();
    match ies.parse_tilt(&TILT_NONE.to_owned()) {
        Ok(()) => {
            assert!(ies.tilt.is_none());
        }
        Err(e) => panic!("Tilt parse error: {:?}", e),
    }
}

/// The builder reads a whole file's text end to end: extension dispatch,
/// parse, validation and conversion.
#[test]
fn test_build_from_contents() {
    let builder = lidrs::photweb::PhotometricWebBuilder::from_file("bench.ldt");
    let web = builder.build(&sample_ldt()).expect("the sample builds");
    assert_eq!(web.n_planes(), 4);
    let ies_builder = lidrs::photweb::PhotometricWebBuilder::from_file("demo.ies");
    let web2 = ies_builder.build(IESNA_1991_FILE).expect("the demo builds");
    assert_eq!(web2.n_planes(), 1);
}

/// A TILT sub-table whose angle line disagrees with the declared count is a
/// structural error naming the line, the declared and the found count.
#[test]
fn parse_tilt_count_mismatch() {
    let text = "1\n3\n0 15\n1.0 0.95 0.9";
    assert_eq!(
        lidrs::io::ies::ies_file::Tilt::parse(text),
        Err(IesError::ArrayIncorrectLength(3, 3, 2))
    );
}

/// A TILT sub-table of five lines is refused at the fifth.
#[test]
fn parse_tilt_too_long() {
    let text = "1\n1\n0\n1.0\nextra";
    assert_eq!(
        lidrs::io::ies::ies_file::Tilt::parse(text),
        Err(IesError::TiltFiltTooLong(5))
    );
}

/// A `TILT=<path>` line names a companion file this crate does not read
/// itself; the error carries the path for the caller.
#[test]
fn parse_tilt_companion_file() {
    let text = "TILT=lamp.tlt\n1 2 3\n";
    let mut ies = IesFile::new();
    assert_eq!(
        ies.parse_tilt(&text.to_owned()),
        Err(IesError::TiltFileNotFound("lamp.tlt".to_string()))
    );
}

/// A photometry system this crate does not interpret is refused by the
/// builder with its own kind, not a parse error.
#[test]
fn test_build_unsupported_photometry() {
    // Type B (code 2), one vertical angle, one horizontal angle.
    let text = "IESNA91\nTILT=NONE\n1 100 1 1 1 2 2 0 0 0\n1 1 50\n0\n0\n700\n";
    let builder = lidrs::photweb::PhotometricWebBuilder::from_file("flood.ies");
    match builder.build(text) {
        Err(lidrs::err::Error::UnsupportedPhotometry) => {}
        other => panic!("expected the unsupported-photometry refusal, got {:?}", other),
    }
}

/// Surplus intensity lines beyond the computed section end are refused with
/// the line the surplus starts on.
#[test]
fn test_parse_ldt_surplus_intensities() {
    let text = sample_ldt() + "\n500";
    let mut ldt = EulumdatFile::new();
    match ldt.parse(&text) {
        Err(LdtError::TooManyLines(at)) => {
            // The sample's intensity section ends after four values.
            assert_eq!(at, 58);
        }
        other => panic!("expected a too-many-lines error, got {:?}", other),
    }
}

/// Writing a parsed EULUMDAT document and parsing the text again restores
/// every field: the writer and the reader are exact inverses on parsed
/// documents.
#[test]
fn test_ldt_round_trip() {
    let mut ldt = EulumdatFile::new();
    ldt.parse(&sample_ldt()).expect("the sample parses");
    let text = ldt.to_string();
    let mut again = EulumdatFile::new();
    again.parse(&text).expect("the written text parses");
    assert_eq!(again.header, ldt.header);
    assert_eq!(again.ltype, ldt.ltype);
    assert_eq!(again.symmetry, ldt.symmetry);
    assert_eq!(again.n_cplanes, ldt.n_cplanes);
    assert_eq!(again.cplane_dist, ldt.cplane_dist);
    assert_eq!(again.n_lamp, ldt.n_lamp);
    assert_eq!(again.lamp_type, ldt.lamp_type);
    assert_eq!(again.tot_luminous_flux, ldt.tot_luminous_flux);
    assert_eq!(again.wattage, ldt.wattage);
    assert_eq!(again.direct_ratios, ldt.direct_ratios);
    assert_eq!(again.c_angles, ldt.c_angles);
    assert_eq!(again.g_angles, ldt.g_angles);
    assert_eq!(again.intensities, ldt.intensities);
}

/// Writing a parsed IES document and parsing the text again restores the
/// numeric fields, the keywords and the standard tag.
#[test]
fn test_ies_round_trip() {
    let mut ies = IesFile::new();
    ies.parse(&IESNA_1991_FILE.to_owned()).expect("the sample parses");
    let text = ies.to_string();
    let mut again = IesFile::new();
    again.parse(&text).expect("the written text parses");
    assert_eq!(again.standard, ies.standard);
    assert_eq!(again.keywords, ies.keywords);
    assert_eq!(again.n_lamps, ies.n_lamps);
    assert_eq!(again.lumens_per_lamp, ies.lumens_per_lamp);
    assert_eq!(again.candela_multiplying_factor, ies.candela_multiplying_factor);
    assert_eq!(again.n_vertical_angles, ies.n_vertical_angles);
    assert_eq!(again.n_horizontal_angles, ies.n_horizontal_angles);
    assert_eq!(again.photometric_type, ies.photometric_type);
    assert_eq!(again.luminous_opening_units, ies.luminous_opening_units);
    assert_eq!(again.vertical_angles, ies.vertical_angles);
    assert_eq!(again.horizontal_angles, ies.horizontal_angles);
    assert_eq!(again.candela_values, ies.candela_values);
    assert_eq!(again.tilt.is_none(), ies.tilt.is_none());
}

/// Fixed-point values are written with all nine decimal places.
#[test]
fn test_ldt_written_values() {
    let mut ldt = EulumdatFile::new();
    ldt.parse(&sample_ldt()).expect("the sample parses");
    let text = ldt.to_string();
    assert!(text.contains("\n11.500000000\n"));
    assert!(text.starts_with("sample photometric bench\n3\n0\n4\n90.000000000\n"));
}
