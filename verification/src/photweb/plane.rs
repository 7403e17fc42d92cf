//! A single angular cross-section ("plane") of a photometric web: a curve of
//! luminous intensities over a secondary angle, at one fixed primary angle.

use vstd::prelude::*;
use crate::fixed::{
    DEG_FULL_TURN, DEG_HALF_TURN, DEG_STEP_MIN, HALF_PI_FP, MAX_FIXED, PI_FP, SCALE,
    TWO_PI_FP, degrees_to_radians, lemma_deg_to_rad_half_turn, lemma_deg_to_rad_strict,
    radians_to_degrees, sin_fixed, spec_deg_to_rad, spec_rad_to_deg, spec_sin,
};

verus! {

/// The most samples a plane may carry; keeps the flux integral inside `i128`.
pub const MAX_SAMPLES: usize = 1_000_000;

/// The largest primary angle a plane may carry, in fixed-point radians.
pub const PLANE_ANGLE_MAX: i64 = 200_000_000_000;

/// Upper bound on one term of the per-plane integral, after rescaling.
pub const MAX_INTEGRAL_TERM: i128 = 50_000_000_000_000_000;

/// Upper bound on a whole per-plane integral, per sample.
pub const MAX_INTEGRAL_PER_SAMPLE: i128 = 700_000_000_000_000_000;

/// Whether a plane cuts the web vertically or horizontally; carried through
/// unchanged, it does not affect any computation.
#[derive(Debug, Clone, Copy, PartialEq, Eq, Structural)]
pub enum PlaneOrientation {
    Vertical,
    Horizontal,
}

impl Default for PlaneOrientation {
    fn default() -> (r: Self)
        ensures
            r == PlaneOrientation::Vertical,
    {
        PlaneOrientation::Vertical
    }
}

/// The unit the intensities of a plane are measured in.
#[derive(Debug, Clone, Copy, PartialEq, Eq, Structural)]
pub enum IntensityUnits {
    Candela,
}

impl Default for IntensityUnits {
    fn default() -> (r: Self)
        ensures
            r == IntensityUnits::Candela,
    {
        IntensityUnits::Candela
    }
}

/// The angular width a plane is assigned by the enclosing web: one shared
/// half-spacing when both neighbours are equally far, or two separate
/// half-widths when they are not.
#[derive(Debug, Clone, Copy, PartialEq, Eq, Structural)]
pub enum PlaneWidth {
    Symmetric(i64),
    Asymmetric { lower: i64, upper: i64 },
}

impl Default for PlaneWidth {
    fn default() -> (r: Self)
        ensures
            r == PlaneWidth::Symmetric(0),
    {
        PlaneWidth::Symmetric(0)
    }
}

/// The total angular span a width stands for.
pub open spec fn width_span(w: PlaneWidth) -> int {
    match w {
        PlaneWidth::Symmetric(v) => v as int,
        PlaneWidth::Asymmetric { lower, upper } => lower + upper,
    }
}

/// Whether each component of a width lies in `[0, 2 * pi]`.
pub open spec fn width_bounded(w: PlaneWidth) -> bool {
    match w {
        PlaneWidth::Symmetric(v) => 0 <= v <= TWO_PI_FP,
        PlaneWidth::Asymmetric { lower, upper } => 0 <= lower <= TWO_PI_FP && 0 <= upper
            <= TWO_PI_FP,
    }
}

/// The mathematical value of a [`Plane`].
#[verifier::ext_equal]
pub ghost struct PlaneV {
    pub angle: i64,
    pub width: PlaneWidth,
    pub orientation: PlaneOrientation,
    pub angles: Seq<i64>,
    pub intensities: Seq<i64>,
    pub units: IntensityUnits,
}

/// One angular slice of the distribution at a fixed primary angle, holding
/// strictly increasing secondary-axis samples and one intensity per sample.
/// All angles are fixed-point radians; intensities are fixed-point values in
/// `units`.
#[derive(Debug)]
pub struct Plane {
    pub angle: i64,
    pub width: PlaneWidth,
    pub orientation: PlaneOrientation,
    pub angles: Vec<i64>,
    pub intensities: Vec<i64>,
    pub units: IntensityUnits,
}

impl View for Plane {
    type V = PlaneV;

    open spec fn view(&self) -> PlaneV {
        PlaneV {
            angle: self.angle,
            width: self.width,
            orientation: self.orientation,
            angles: self.angles@,
            intensities: self.intensities@,
            units: self.units,
        }
    }
}

/// Whether a sequence of secondary angles is admissible: strictly increasing,
/// each inside `[0, pi]`, and short enough for the integral to stay in range.
pub open spec fn sample_angles_wf(angles: Seq<i64>) -> bool {
    &&& angles.len() <= MAX_SAMPLES
    &&& forall|i: int| 0 <= i < angles.len() ==> 0 <= #[trigger] angles[i] <= PI_FP
    &&& forall|i: int, j: int| 0 <= i < j < angles.len() ==> angles[i] < angles[j]
}

/// Whether a sequence of intensities is admissible: non-negative and bounded.
pub open spec fn intensities_wf(intensities: Seq<i64>) -> bool {
    forall|i: int| 0 <= i < intensities.len() ==> 0 <= #[trigger] intensities[i] <= MAX_FIXED
}

/// The structural invariant of a plane's mathematical value.
pub open spec fn plane_wf(p: PlaneV) -> bool {
    &&& p.angles.len() == p.intensities.len()
    &&& sample_angles_wf(p.angles)
    &&& intensities_wf(p.intensities)
    &&& 0 <= p.angle <= PLANE_ANGLE_MAX
    &&& width_bounded(p.width)
}

/// The local angular weight of sample `i`: the single adjacent gap at either
/// edge, and the mean of the two adjacent gaps in the interior.  Defined for
/// `angles.len() >= 2` and `0 <= i < angles.len()`.
pub open spec fn spec_delta_angle(angles: Seq<i64>, i: int) -> int {
    if i == 0 {
        angles[1] - angles[0]
    } else if i >= angles.len() - 1 {
        angles[i] - angles[i - 1]
    } else {
        (angles[i + 1] - angles[i - 1]) / 2
    }
}

/// One rescaled term of the per-plane integral:
/// `intensity * sin(angle) * local_delta`, brought back to fixed-point.
pub open spec fn spec_integral_term(angles: Seq<i64>, intensities: Seq<i64>, i: int) -> int {
    intensities[i] * spec_sin(angles[i] as int) * spec_delta_angle(angles, i) / (
    (SCALE as int) * (SCALE as int))
}

/// The sum of the first `n` rescaled integral terms.
pub open spec fn spec_integral_sum(angles: Seq<i64>, intensities: Seq<i64>, n: int) -> int
    decreases n,
{
    if n <= 0 {
        0
    } else {
        spec_integral_sum(angles, intensities, n - 1) + spec_integral_term(
            angles,
            intensities,
            n - 1,
        )
    }
}

/// The flux integral of a whole plane: its sample sum weighted by the total
/// span of its width.
pub open spec fn spec_plane_integral(p: PlaneV) -> int {
    width_span(p.width) * spec_integral_sum(p.angles, p.intensities, p.angles.len() as int) / (
    SCALE as int)
}

impl Plane {
    /// Creates a new plane, filled with default values.
    pub fn new() -> (r: Self)
        ensures
            r@.angle == 0,
            r@.width == PlaneWidth::Symmetric(0),
            r@.orientation == PlaneOrientation::Vertical,
            r@.angles =~= Seq::<i64>::empty(),
            r@.intensities =~= Seq::<i64>::empty(),
            r@.units == IntensityUnits::Candela,
            plane_wf(r@),
    {
        Plane {
            angle: 0,
            width: PlaneWidth::Symmetric(0),
            orientation: PlaneOrientation::Vertical,
            angles: Vec::new(),
            intensities: Vec::new(),
            units: IntensityUnits::Candela,
        }
    }

    /// Gets the primary angle of the plane, in fixed-point radians.
    pub fn angle(&self) -> (r: i64)
        ensures
            r == self@.angle,
    {
        self.angle
    }

    /// Sets the primary angle of the plane, in fixed-point radians.
    pub fn set_angle(&mut self, angle: i64)
        requires
            0 <= angle <= PLANE_ANGLE_MAX,
        ensures
            final(self)@ =~= (PlaneV { angle: angle, ..old(self)@ }),
    {
        self.angle = angle;
    }

    /// Gets the width of the plane.
    pub fn width(&self) -> (r: PlaneWidth)
        ensures
            r == self@.width,
    {
        self.width
    }

    /// Sets the width of the plane.
    pub fn set_width(&mut self, width: PlaneWidth)
        requires
            width_bounded(width),
        ensures
            final(self)@ =~= (PlaneV { width: width, ..old(self)@ }),
    {
        self.width = width;
    }

    /// Gets the orientation of the plane.
    pub fn orientation(&self) -> (r: PlaneOrientation)
        ensures
            r == self@.orientation,
    {
        self.orientation
    }

    /// Sets the orientation of the plane.
    pub fn set_orientation(&mut self, orientation: PlaneOrientation)
        ensures
            final(self)@ =~= (PlaneV { orientation: orientation, ..old(self)@ }),
    {
        self.orientation = orientation;
    }

    /// Gets the units of the plane's intensities.
    pub fn units(&self) -> (r: IntensityUnits)
        ensures
            r == self@.units,
    {
        self.units
    }

    /// Sets the units of the plane's intensities.
    pub fn set_units(&mut self, units: IntensityUnits)
        ensures
            final(self)@ =~= (PlaneV { units: units, ..old(self)@ }),
    {
        self.units = units;
    }

    /// Gets the secondary angles of the plane, in fixed-point radians.
    pub fn angles(&self) -> (r: &Vec<i64>)
        ensures
            r@ == self@.angles,
    {
        &self.angles
    }

    /// Sets the secondary angles of the plane, in fixed-point radians.
    pub fn set_angles(&mut self, angles: Vec<i64>)
        requires
            sample_angles_wf(angles@),
        ensures
            final(self)@ =~= (PlaneV { angles: angles@, ..old(self)@ }),
    {
        self.angles = angles;
    }

    /// Gets the intensities of the plane.
    pub fn intensities(&self) -> (r: &Vec<i64>)
        ensures
            r@ == self@.intensities,
    {
        &self.intensities
    }

    /// Sets the intensities of the plane.
    pub fn set_intensities(&mut self, intensities: Vec<i64>)
        requires
            intensities_wf(intensities@),
        ensures
            final(self)@ =~= (PlaneV { intensities: intensities@, ..old(self)@ }),
    {
        self.intensities = intensities;
    }

    /// Returns the number of angle / intensity pairs in the plane.
    pub fn n_samples(&self) -> (r: usize)
        ensures
            r == self@.angles.len(),
    {
        self.angles.len()
    }

    /// Sets the primary angle of the plane, given in fixed-point degrees.
    pub fn set_angle_degrees(&mut self, ang_deg: i64)
        requires
            0 <= ang_deg <= DEG_FULL_TURN,
        ensures
            final(self)@ =~= (PlaneV {
                angle: spec_deg_to_rad(ang_deg as int) as i64,
                ..old(self)@
            }),
            0 <= final(self)@.angle <= TWO_PI_FP,
    {
        let rad = degrees_to_radians(ang_deg);
        self.angle = rad;
    }

    /// Gets the primary angle of the plane in fixed-point degrees.
    pub fn angle_deg(&self) -> (r: i64)
        requires
            0 <= self@.angle <= TWO_PI_FP,
        ensures
            r == spec_rad_to_deg(self@.angle as int),
    {
        radians_to_degrees(self.angle)
    }

    /// Sets the secondary angles of the plane, given in fixed-point degrees;
    /// they must be spaced at least [`crate::fixed::DEG_STEP_MIN`] apart and
    /// lie within a half turn, so the converted radians stay strictly
    /// increasing.
    pub fn set_angles_degrees(&mut self, ang_deg: &Vec<i64>)
        requires
            deg_angles_admissible(ang_deg@),
        ensures
            final(self)@ =~= (PlaneV {
                angles: ang_deg@.map_values(|d: i64| spec_deg_to_rad(d as int) as i64),
                ..old(self)@
            }),
            sample_angles_wf(final(self)@.angles),
    {
        let ghost target = ang_deg@.map_values(|d: i64| spec_deg_to_rad(d as int) as i64);
        let mut rads: Vec<i64> = Vec::new();
        let n = ang_deg.len();
        let mut i: usize = 0;
        while i < n
            invariant
                i <= n,
                n == ang_deg@.len(),
                deg_angles_admissible(ang_deg@),
                rads@.len() == i,
                forall|k: int| 0 <= k < i ==> rads@[k]
                    == spec_deg_to_rad(ang_deg@[k] as int) as i64,
            decreases n - i,
        {
            proof {
                lemma_deg_to_rad_half_turn(ang_deg@[i as int] as int);
            }
            let r = degrees_to_radians(ang_deg[i]);
            rads.push(r);
            i = i + 1;
        }
        proof {
            assert(rads@ =~= target);
            assert forall|p: int, q: int| 0 <= p < q < target.len() implies target[p]
                < target[q] by {
                lemma_deg_gap_pairwise(ang_deg@, p, q);
                lemma_deg_to_rad_strict(ang_deg@[p] as int, ang_deg@[q] as int);
                lemma_deg_to_rad_half_turn(ang_deg@[p] as int);
                lemma_deg_to_rad_half_turn(ang_deg@[q] as int);
            }
            assert forall|k: int| 0 <= k < target.len() implies 0 <= #[trigger] target[k]
                <= PI_FP by {
                lemma_deg_to_rad_half_turn(ang_deg@[k] as int);
            }
        }
        self.angles = rads;
    }

    /// Gets the secondary angles of the plane as fixed-point degrees.
    pub fn angles_deg(&self) -> (r: Vec<i64>)
        requires
            sample_angles_wf(self@.angles),
        ensures
            r@.len() == self@.angles.len(),
            forall|k: int| 0 <= k < r@.len() ==> r@[k]
                == spec_rad_to_deg(#[trigger] self@.angles[k] as int) as i64,
    {
        let mut degs: Vec<i64> = Vec::new();
        let n = self.angles.len();
        let mut i: usize = 0;
        while i < n
            invariant
                i <= n,
                n == self@.angles.len(),
                sample_angles_wf(self@.angles),
                degs@.len() == i,
                forall|k: int| 0 <= k < i ==> degs@[k]
                    == spec_rad_to_deg(#[trigger] self@.angles[k] as int) as i64,
            decreases n - i,
        {
            let d = radians_to_degrees(self.angles[i]);
            degs.push(d);
            i = i + 1;
        }
        degs
    }

    /// The local angular weight of the sample at index `i`, used by the flux
    /// integral: the single adjacent gap at either edge, and the mean of the
    /// two adjacent gaps in the interior.
    pub fn delta_angle(&self, i: usize) -> (r: i64)
        requires
            sample_angles_wf(self@.angles),
            self@.angles.len() >= 2,
            i < self@.angles.len(),
        ensures
            r == spec_delta_angle(self@.angles, i as int),
            0 <= r <= PI_FP,
    {
        let n = self.angles.len();
        if i == 0 {
            self.angles[1] - self.angles[0]
        } else if i >= n - 1 {
            self.angles[i] - self.angles[i - 1]
        } else {
            let gap: u64 = (self.angles[i + 1] - self.angles[i - 1]) as u64;
            (gap / 2) as i64
        }
    }

    /// Integrate the total energy being emitted by this plane: the sum of
    /// `intensity * sin(angle) * local_delta` over all samples, weighted by
    /// the plane's angular width.  Exact with respect to
    /// [`spec_plane_integral`].
    pub fn integrate_intensity(&self) -> (r: i128)
        requires
            plane_wf(self@),
            self@.angles.len() != 1,
        ensures
            r == spec_plane_integral(self@),
            0 <= r <= MAX_INTEGRAL_PER_SAMPLE * self@.angles.len(),
    {
        let n = self.angles.len();
        let w: i64 = match self.width {
            PlaneWidth::Symmetric(v) => v,
            PlaneWidth::Asymmetric { lower, upper } => lower + upper,
        };
        if n == 0 {
            return 0;
        }
        let mut sum: u128 = 0;
        let mut i: usize = 0;
        while i < n
            invariant
                i <= n,
                n == self@.angles.len(),
                plane_wf(self@),
                n >= 2,
                sum == spec_integral_sum(self@.angles, self@.intensities, i as int),
                sum <= (i as int) * MAX_INTEGRAL_TERM,
            decreases n - i,
        {
            let a = self.angles[i];
            let v = self.intensities[i];
            let s = sin_fixed(a);
            let d = self.delta_angle(i);
            proof {
                lemma_integral_term_bound(v as int, s as int, d as int);
            }
            let term: u128 = (v as u128) * (s as u128) * (d as u128) / (
            (SCALE as u128) * (SCALE as u128));
            sum = sum + term;
            i = i + 1;
        }
        proof {
            lemma_integral_total_bound(
                w as int,
                sum as int,
                n as int,
                spec_integral_sum(self@.angles, self@.intensities, n as int),
            );
        }
        let total: u128 = (w as u128) * sum / (SCALE as u128);
        total as i128
    }
}

impl Clone for Plane {
    /// Clones the plane; the copy has the same mathematical value.
    fn clone(&self) -> (r: Self)
        ensures
            r@ == self@,
    {
        let r = Plane {
            angle: self.angle,
            width: self.width,
            orientation: self.orientation,
            angles: self.angles.clone(),
            intensities: self.intensities.clone(),
            units: self.units,
        };
        proof {
            assert(r@ =~= self@);
        }
        r
    }
}

/// Whether a list of fixed-point degrees may become a plane's secondary
/// angles: within a half turn, spaced at least [`crate::fixed::DEG_STEP_MIN`]
/// apart, and no longer than [`MAX_SAMPLES`].  The step is far coarser than
/// the conversion's granularity strictly needs; a thousandth of a degree is
/// chosen as a round bound no real sample grid goes below.
pub open spec fn deg_angles_admissible(degs: Seq<i64>) -> bool {
    &&& degs.len() <= MAX_SAMPLES
    &&& forall|i: int| 0 <= i < degs.len() ==> 0 <= #[trigger] degs[i] <= DEG_HALF_TURN
    &&& forall|i: int| 0 <= i < degs.len() - 1 ==> #[trigger] degs[i] + DEG_STEP_MIN <= degs[i
        + 1]
}

/// Degrees spaced at least one step apart consecutively are spaced at least
/// one step apart pairwise.
pub proof fn lemma_deg_gap_pairwise(degs: Seq<i64>, i: int, j: int)
    requires
        forall|k: int| 0 <= k < degs.len() - 1 ==> #[trigger] degs[k] + DEG_STEP_MIN <= degs[k
            + 1],
        0 <= i < j < degs.len(),
    ensures
        degs[i] + DEG_STEP_MIN <= degs[j],
    decreases j - i,
{
    if j == i + 1 {
    } else {
        lemma_deg_gap_pairwise(degs, i, j - 1);
        assert(degs[j - 1] + DEG_STEP_MIN <= degs[j]);
    }
}

/// One rescaled integral term never exceeds [`MAX_INTEGRAL_TERM`].
pub proof fn lemma_integral_term_bound(v: int, s: int, d: int)
    requires
        0 <= v <= MAX_FIXED,
        0 <= s <= HALF_PI_FP,
        0 <= d <= PI_FP,
    ensures
        0 <= v * s * d / ((SCALE as int) * (SCALE as int)) <= MAX_INTEGRAL_TERM,
        0 <= v * s <= 100_000_000_000_000_000_000_000_000,
        0 <= v * s * d <= 1_000_000_000_000_000_000_000_000_000_000_000_000,
{
    let c = (SCALE as int) * (SCALE as int);
    assert((MAX_FIXED as int) * (HALF_PI_FP as int) <= 100_000_000_000_000_000_000_000_000)
        by (nonlinear_arith);
    assert(MAX_INTEGRAL_TERM * ((SCALE as int) * (SCALE as int))
        <= 1_000_000_000_000_000_000_000_000_000_000_000_000) by (nonlinear_arith);
    assert(0 <= v * s <= (MAX_FIXED as int) * (HALF_PI_FP as int)) by (nonlinear_arith)
        requires
            0 <= v <= MAX_FIXED,
            0 <= s <= HALF_PI_FP,
    ;
    assert(0 <= v * s * d <= MAX_INTEGRAL_TERM * ((SCALE as int) * (SCALE as int)))
        by (nonlinear_arith)
        requires
            0 <= v * s <= (MAX_FIXED as int) * (HALF_PI_FP as int),
            0 <= d <= PI_FP,
    ;
    vstd::arithmetic::div_mod::lemma_div_is_ordered(0, v * s * d, c);
    vstd::arithmetic::div_mod::lemma_div_is_ordered(v * s * d, MAX_INTEGRAL_TERM * c, c);
    vstd::arithmetic::div_mod::lemma_div_multiples_vanish(MAX_INTEGRAL_TERM as int, c);
}

/// The width-weighted integral stays within its per-sample budget.
pub proof fn lemma_integral_total_bound(w: int, sum: int, n: int, spec_sum: int)
    requires
        0 <= w <= 2 * TWO_PI_FP,
        0 <= sum <= n * MAX_INTEGRAL_TERM,
        0 <= n,
        sum == spec_sum,
    ensures
        0 <= w * sum / (SCALE as int) <= MAX_INTEGRAL_PER_SAMPLE * n,
        w * sum / (SCALE as int) == w * spec_sum / (SCALE as int),
{
    let sc = SCALE as int;
    assert(0 <= w * sum <= w * (n * MAX_INTEGRAL_TERM)) by (nonlinear_arith)
        requires
            0 <= w,
            0 <= sum <= n * MAX_INTEGRAL_TERM,
    ;
    assert(w * (n * MAX_INTEGRAL_TERM) <= n * (2 * (TWO_PI_FP as int) * MAX_INTEGRAL_TERM))
        by (nonlinear_arith)
        requires
            0 <= w <= 2 * TWO_PI_FP,
            0 <= n,
    ;
    assert(n * (2 * (TWO_PI_FP as int) * MAX_INTEGRAL_TERM) <= (MAX_INTEGRAL_PER_SAMPLE * n)
        * sc) by (nonlinear_arith)
        requires
            0 <= n,
            sc == SCALE as int,
    ;
    vstd::arithmetic::div_mod::lemma_div_is_ordered(0, w * sum, sc);
    vstd::arithmetic::div_mod::lemma_div_is_ordered(w * sum, (MAX_INTEGRAL_PER_SAMPLE * n) * sc, sc);
    vstd::arithmetic::div_mod::lemma_div_multiples_vanish(MAX_INTEGRAL_PER_SAMPLE * n, sc);
}

} // verus!
