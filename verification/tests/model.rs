//! Tests of the photometric-web model: angle arithmetic, adjacency, the
//! flux integral and averaging.

use lidrs::fixed::{
    HALF_PI_FP, PI_FP, SCALE, TWO_PI_FP, angle_difference, degrees_to_radians,
    radians_to_degrees, sin_fixed,
};
use lidrs::ops::average_photmetric_web_intensities;
use lidrs::ops::err::Error as OpsError;
use lidrs::photweb::{Plane, PhotometricWeb, PlaneWidth};

const FOUR_PI: f64 = 4.0 * std::f64::consts::PI;

fn fp(v: f64) -> i64 {
    (v * (SCALE as f64)).round() as i64
}

fn to_f64(v: i128) -> f64 {
    (v as f64) / (SCALE as f64)
}

fn unit_hemisphere_plane() -> Plane {
    let mut plane = Plane::new();
    plane.set_angle(0);
    let degs: Vec<i64> = (0..181).map(|d| d * SCALE).collect();
    plane.set_angles_degrees(&degs);
    let ones: Vec<i64> = (0..181).map(|_| SCALE).collect();
    plane.set_intensities(ones);
    plane
}

#[test]
fn test_degrees_to_radians() {
    assert_eq!(degrees_to_radians(0), 0);
    assert_eq!(degrees_to_radians(90 * SCALE), HALF_PI_FP);
    assert_eq!(degrees_to_radians(180 * SCALE), PI_FP);
    assert_eq!(degrees_to_radians(360 * SCALE), TWO_PI_FP);
}

#[test]
fn test_radians_to_degrees() {
    assert_eq!(radians_to_degrees(0), 0);
    assert_eq!(radians_to_degrees(HALF_PI_FP), 90 * SCALE);
    assert_eq!(radians_to_degrees(PI_FP), 180 * SCALE);
    assert_eq!(radians_to_degrees(TWO_PI_FP), 360 * SCALE);
}

#[test]
fn test_angle_difference() {
    let eps = fp(1e-6);
    assert!((angle_difference(0, PI_FP) - PI_FP).abs() <= eps);
    assert!((angle_difference(PI_FP, 0) - PI_FP).abs() <= eps);
    assert!((angle_difference(PI_FP, TWO_PI_FP) - PI_FP).abs() <= eps);
    // Around the 0 / 2 pi wrap point.
    let a350 = degrees_to_radians(350 * SCALE);
    let a10 = degrees_to_radians(10 * SCALE);
    let a20 = degrees_to_radians(20 * SCALE);
    assert!((angle_difference(a350, a10) - a20).abs() <= eps);
    assert!((angle_difference(a10, a350) - a20).abs() <= eps);
}

#[test]
fn test_sin_fixed_values() {
    assert_eq!(sin_fixed(0), 0);
    let one = sin_fixed(HALF_PI_FP) as f64 / SCALE as f64;
    assert!((one - 1.0).abs() < 1e-6);
    let half = sin_fixed(degrees_to_radians(30 * SCALE)) as f64 / SCALE as f64;
    assert!((half - 0.5).abs() < 1e-6);
    let top = sin_fixed(PI_FP) as f64 / SCALE as f64;
    assert!(top.abs() < 1e-6);
}

/// With a constant intensity of one, the per-plane integral reduces to the
/// integral of sine over the hemisphere, which is two.
#[test]
fn test_integrate_plane() {
    let mut plane = unit_hemisphere_plane();
    plane.set_width(PlaneWidth::Symmetric(SCALE));
    let res = to_f64(plane.integrate_intensity());
    assert!((res - 2.0).abs() <= 2.0e-4);
}

/// By default, the integrated intensity is zero.
#[test]
fn test_integrate_zero() {
    let web = PhotometricWeb::new();
    let res = web.total_intensity();
    assert_eq!(res, 0);
}

/// A spherically symmetric web of unit intensity radiates four pi.
#[test]
fn test_integrate_spherically_symmetric() {
    let plane = unit_hemisphere_plane();
    let mut web = PhotometricWeb::new();
    web.set_planes(vec![plane]);
    assert!(web.is_spherically_symmetric());
    let int = to_f64(web.total_intensity());
    assert!((int - FOUR_PI).abs() <= FOUR_PI * 1e-4);
}

/// Thirty-six identical unit-intensity planes around the circle also
/// radiate four pi.
#[test]
fn test_integrate_planes() {
    let plane = unit_hemisphere_plane();
    let planes: Vec<Plane> = (0..36)
        .map(|k| {
            let mut p = plane.clone();
            p.set_angle_degrees(10 * k * SCALE);
            p
        })
        .collect();
    let mut web = PhotometricWeb::new();
    web.set_planes(planes);
    assert_eq!(web.n_planes(), 36);
    let int = to_f64(web.total_intensity());
    assert!((int - FOUR_PI).abs() <= FOUR_PI * 1e-4);
}

/// Adjacency wraps around the circle in both directions.
#[test]
fn test_get_adjacent_planes() {
    let plane = unit_hemisphere_plane();
    let planes: Vec<Plane> = (0..36)
        .map(|k| {
            let mut p = plane.clone();
            p.set_angle_degrees(10 * k * SCALE);
            p
        })
        .collect();
    let mut web = PhotometricWeb::new();
    web.set_planes(planes);

    let (lp, up) = web.get_adjacent_planes(0);
    assert_eq!(lp.angle(), degrees_to_radians(350 * SCALE));
    assert_eq!(up.angle(), degrees_to_radians(10 * SCALE));

    let (lp, up) = web.get_adjacent_planes(35);
    assert_eq!(lp.angle(), degrees_to_radians(340 * SCALE));
    assert_eq!(up.angle(), degrees_to_radians(0));

    let (lp, up) = web.get_adjacent_planes(10);
    assert_eq!(lp.angle(), degrees_to_radians(90 * SCALE));
    assert_eq!(up.angle(), degrees_to_radians(110 * SCALE));

    let (lp, up) = web.get_adjacent_planes(20);
    assert_eq!(lp.angle(), degrees_to_radians(190 * SCALE));
    assert_eq!(up.angle(), degrees_to_radians(210 * SCALE));
}

/// A single plane is its own neighbour in both directions, at any index.
#[test]
fn test_get_adjacent_planes_polar_symmetry() {
    let plane = unit_hemisphere_plane();
    let mut web = PhotometricWeb::new();
    web.set_planes(vec![plane]);

    let (lp, up) = web.get_adjacent_planes(0);
    assert_eq!(lp.angle(), 0);
    assert_eq!(up.angle(), 0);

    let (lp, up) = web.get_adjacent_planes(7);
    assert_eq!(lp.angle(), 0);
    assert_eq!(up.angle(), 0);
}

fn one_sample_web(angle_deg: &[i64], intensity: &[i64]) -> PhotometricWeb {
    let planes: Vec<Plane> = angle_deg
        .iter()
        .zip(intensity.iter())
        .map(|(a, v)| {
            let mut p = Plane::new();
            p.set_angle_degrees(*a * SCALE);
            p.set_angles_degrees(&vec![0]);
            p.set_intensities(vec![*v]);
            p
        })
        .collect();
    let mut web = PhotometricWeb::new();
    web.set_planes(planes);
    web
}

/// Averaging two structurally identical webs takes the sample-by-sample
/// arithmetic mean of the intensities.
#[test]
fn test_average_two_webs() {
    let a = one_sample_web(&[0, 90, 180, 270], &[2 * SCALE; 4]);
    let b = one_sample_web(&[0, 90, 180, 270], &[4 * SCALE; 4]);
    let avg = average_photmetric_web_intensities(vec![&a, &b]).expect("webs are compatible");
    assert_eq!(avg.n_planes(), 4);
    for pl in avg.planes() {
        assert_eq!(pl.intensities(), &vec![3 * SCALE]);
    }
    for (pl, orig) in avg.planes().iter().zip(a.planes().iter()) {
        assert_eq!(pl.angle(), orig.angle());
    }
}

/// Averaging webs with different plane counts names both counts and the
/// position of the web that disagrees.
#[test]
fn test_average_plane_count_mismatch() {
    let a = one_sample_web(&[0, 90, 180, 270], &[SCALE; 4]);
    let b = one_sample_web(&[0, 180], &[SCALE; 2]);
    let res = average_photmetric_web_intensities(vec![&a, &b]);
    assert_eq!(res.unwrap_err(), OpsError::InconsistentNumberOfPlanes(4, 2, 1));
}

/// Averaging nothing at all is refused.
#[test]
fn test_average_no_webs() {
    let res = average_photmetric_web_intensities(vec![]);
    assert_eq!(res.unwrap_err(), OpsError::NoPlanes);
}

/// Averaging webs whose secondary angles differ is refused.
#[test]
fn test_average_inconsistent_angles() {
    let a = one_sample_web(&[0, 180], &[SCALE; 2]);
    let mut p1 = Plane::new();
    p1.set_angle_degrees(0);
    p1.set_angles_degrees(&vec![10 * SCALE]);
    p1.set_intensities(vec![SCALE]);
    let mut p2 = Plane::new();
    p2.set_angle_degrees(180 * SCALE);
    p2.set_angles_degrees(&vec![10 * SCALE]);
    p2.set_intensities(vec![SCALE]);
    let mut b = PhotometricWeb::new();
    b.set_planes(vec![p1, p2]);
    let res = average_photmetric_web_intensities(vec![&a, &b]);
    assert_eq!(res.unwrap_err(), OpsError::InconsistentPlaneAngles);
}
