//! The photometric web: an ordered collection of planes arranged around a
//! full circle, with circular adjacency and the total flux integral.

use vstd::prelude::*;
use crate::fixed::{TWO_PI_FP, angle_difference, spec_angle_difference};
use crate::photweb::plane::{
    MAX_INTEGRAL_PER_SAMPLE, MAX_SAMPLES, PLANE_ANGLE_MAX, Plane, PlaneV, PlaneWidth,
    plane_wf, spec_plane_integral, width_bounded,
};
use vstd::pervasive::VecAdditionalExecFns;

verus! {

/// The most planes a web may carry; keeps the total flux inside `i128`.
pub const MAX_PLANES: usize = 1_000_000;

/// Upper bound on one plane's flux integral inside a well-formed web.
pub const MAX_PLANE_INTEGRAL: i128 = 700_000_000_000_000_000_000_000;

/// An ordered collection of planes indexed by primary angle.  A web holding
/// exactly one plane is spherically symmetric: that plane stands for every
/// primary angle.
#[derive(Debug)]
pub struct PhotometricWeb {
    pub planes: Vec<Plane>,
}

impl View for PhotometricWeb {
    type V = Seq<PlaneV>;

    open spec fn view(&self) -> Seq<PlaneV> {
        self.planes@.map_values(|p: Plane| p@)
    }
}

/// The structural invariant of a web: a bounded number of well-formed planes.
pub open spec fn web_wf(w: Seq<PlaneV>) -> bool {
    &&& w.len() <= MAX_PLANES
    &&& forall|i: int| 0 <= i < w.len() ==> plane_wf(#[trigger] w[i])
}

/// Whether every plane's primary angle is in range for circular distances.
pub open spec fn web_angles_ok(w: Seq<PlaneV>) -> bool {
    forall|i: int| 0 <= i < w.len() ==> 0 <= (#[trigger] w[i]).angle <= PLANE_ANGLE_MAX
}

/// A plane index folded into `[0, n)` by walking around the circle.
pub open spec fn spec_resolve_index(i: int, n: int) -> int {
    i % n
}

/// The angular width owed to plane `i` of a web: the whole circle for a
/// single plane, else derived from the circular distances to the two
/// adjacent planes — one shared half-spacing when those distances agree, and
/// two separate half-widths when they do not.
#[verifier::opaque]
pub open spec fn spec_web_delta(w: Seq<PlaneV>, i: int) -> PlaneWidth {
    if w.len() == 1 {
        PlaneWidth::Symmetric(TWO_PI_FP)
    } else {
        let n = w.len() as int;
        let lo = spec_angle_difference(w[i].angle as int, w[(i - 1) % n].angle as int);
        let up = spec_angle_difference(w[(i + 1) % n].angle as int, w[i].angle as int);
        if lo == up {
            PlaneWidth::Symmetric(lo as i64)
        } else {
            PlaneWidth::Asymmetric { lower: (lo / 2) as i64, upper: (up / 2) as i64 }
        }
    }
}

/// Plane `m` of a web, carrying the width its circular neighbours owe it.
pub open spec fn spec_widened(w: Seq<PlaneV>, m: int) -> PlaneV {
    PlaneV { width: spec_web_delta(w, m), ..w[m] }
}

/// The sum of the flux integrals of the first `n` planes of a web.
pub open spec fn spec_total_intensity(w: Seq<PlaneV>, n: int) -> int
    decreases n,
{
    if n <= 0 {
        0
    } else {
        spec_total_intensity(w, n - 1) + spec_plane_integral(w[n - 1])
    }
}

impl PhotometricWeb {
    /// Returns a new, empty photometric web.
    pub fn new() -> (r: PhotometricWeb)
        ensures
            r@ =~= Seq::<PlaneV>::empty(),
    {
        PhotometricWeb { planes: Vec::new() }
    }

    /// Gets the planes contained in the web.
    pub fn planes(&self) -> (r: &Vec<Plane>)
        ensures
            r@.map_values(|p: Plane| p@) == self@,
    {
        &self.planes
    }

    /// Returns the number of planes in the photometric web.
    pub fn n_planes(&self) -> (r: usize)
        ensures
            r == self@.len(),
    {
        self.planes.len()
    }

    /// Is this a full web, or spherically symmetric (exactly one plane)?
    pub fn is_spherically_symmetric(&self) -> (r: bool)
        ensures
            r == (self@.len() == 1),
    {
        self.planes.len() == 1
    }

    /// Resolves any index (also negative, or past the end) to a plane index
    /// by iterating around the circle.
    fn resolve_index(&self, iplane: i64) -> (r: usize)
        requires
            self@.len() >= 1,
            i64::MIN < iplane,
        ensures
            r == spec_resolve_index(iplane as int, self@.len() as int),
            r < self@.len(),
    {
        let c = self.planes.len();
        if iplane >= 0 {
            ((iplane as u64) % (c as u64)) as usize
        } else {
            let a: u64 = (-iplane) as u64;
            let ra: u64 = a % (c as u64);
            proof {
                let ci = c as int;
                let ai = a as int;
                vstd::arithmetic::div_mod::lemma_fundamental_div_mod(ai, ci);
                vstd::arithmetic::div_mod::lemma_mod_bound(ai, ci);
                if ai % ci == 0 {
                    assert(iplane == (-(ai / ci)) * ci + 0) by (nonlinear_arith)
                        requires
                            iplane == -ai,
                            ai == ci * (ai / ci) + ai % ci,
                            ai % ci == 0,
                    ;
                    vstd::arithmetic::div_mod::lemma_fundamental_div_mod_converse(
                        iplane as int,
                        ci,
                        -(ai / ci),
                        0,
                    );
                } else {
                    assert(iplane == (-(ai / ci) - 1) * ci + (ci - ai % ci))
                        by (nonlinear_arith)
                        requires
                            iplane == -ai,
                            ai == ci * (ai / ci) + ai % ci,
                    ;
                    vstd::arithmetic::div_mod::lemma_fundamental_div_mod_converse(
                        iplane as int,
                        ci,
                        -(ai / ci) - 1,
                        ci - ai % ci,
                    );
                }
            }
            if ra == 0 {
                0
            } else {
                c - (ra as usize)
            }
        }
    }

    /// Returns the two planes adjacent to the plane at a given index.  The
    /// index is resolved around the circle, so going below zero or past the
    /// last plane is permitted.
    pub fn get_adjacent_planes(&self, iplane: i32) -> (r: (&Plane, &Plane))
        requires
            self@.len() >= 1,
        ensures
            r.0@ == self@[spec_resolve_index(iplane - 1, self@.len() as int)],
            r.1@ == self@[spec_resolve_index(iplane + 1, self@.len() as int)],
    {
        let lo = self.resolve_index(iplane as i64 - 1);
        let hi = self.resolve_index(iplane as i64 + 1);
        (&self.planes[lo], &self.planes[hi])
    }

    /// The angular width for a given plane, used during integration: the
    /// whole circle when the web is spherically symmetric, else resolved
    /// from the two circularly adjacent planes.
    pub fn delta_angle(&self, i: usize) -> (r: PlaneWidth)
        requires
            self@.len() >= 1,
            self@.len() <= MAX_PLANES,
            i < self@.len(),
            web_angles_ok(self@),
        ensures
            r == spec_web_delta(self@, i as int),
            width_bounded(r),
    {
        proof {
            reveal(spec_web_delta);
        }
        let n = self.planes.len();
        if n == 1 {
            PlaneWidth::Symmetric(TWO_PI_FP)
        } else {
            let prev = self.resolve_index(i as i64 - 1);
            let next = self.resolve_index(i as i64 + 1);
            let lo = angle_difference(self.planes[i].angle, self.planes[prev].angle);
            let up = angle_difference(self.planes[next].angle, self.planes[i].angle);
            if lo == up {
                PlaneWidth::Symmetric(lo)
            } else {
                let lo_half: u64 = (lo as u64) / 2;
                let up_half: u64 = (up as u64) / 2;
                PlaneWidth::Asymmetric { lower: lo_half as i64, upper: up_half as i64 }
            }
        }
    }

    /// Sets the planes of the web, assigning each its angular width as
    /// resolved from its circular neighbours.
    #[verifier::rlimit(100)]
    pub fn set_planes(&mut self, planes: Vec<Plane>)
        requires
            planes@.len() <= MAX_PLANES,
            forall|i: int| 0 <= i < planes@.len() ==> plane_wf(#[trigger] planes@[i]@),
        ensures
            final(self)@.len() == planes@.len(),
            forall|i: int| 0 <= i < planes@.len() ==> final(self)@[i] == spec_widened(
                planes@.map_values(|p: Plane| p@),
                i,
            ),
            web_wf(final(self)@),
    {
        let ghost orig = planes@.map_values(|p: Plane| p@);
        self.planes = planes;
        let n = self.planes.len();
        let mut widths: Vec<PlaneWidth> = Vec::new();
        let mut k: usize = 0;
        while k < n
            invariant
                k <= n,
                n == self@.len(),
                n <= MAX_PLANES,
                self@ == orig,
                forall|m: int| 0 <= m < orig.len() ==> plane_wf(#[trigger] orig[m]),
                widths@.len() == k,
                forall|m: int| 0 <= m < k ==> widths@[m] == spec_web_delta(orig, m),
                forall|m: int| 0 <= m < k ==> width_bounded(#[trigger] widths@[m]),
            decreases n - k,
        {
            let w = self.delta_angle(k);
            widths.push(w);
            k = k + 1;
        }
        let mut i: usize = 0;
        while i < n
            invariant
                i <= n,
                n == self@.len(),
                n == orig.len(),
                n <= MAX_PLANES,
                widths@.len() == n,
                forall|m: int| 0 <= m < n ==> widths@[m] == spec_web_delta(orig, m),
                forall|m: int| 0 <= m < n ==> width_bounded(#[trigger] widths@[m]),
                forall|m: int| i <= m < n ==> self@[m] == orig[m],
                forall|m: int| 0 <= m < i ==> self@[m] == spec_widened(orig, m),
            decreases n - i,
        {
            let ghost before = self@;
            let mut p = self.planes[i].clone();
            p.set_width(widths[i]);
            proof {
                assert(p@ =~= spec_widened(orig, i as int));
            }
            self.planes.set(i, p);
            proof {
                assert forall|m: int| 0 <= m < n && m != i implies self@[m] == before[m]
                    by {}
                assert(self@[i as int] == p@);
            }
            i = i + 1;
        }
        proof {
            assert forall|m: int| 0 <= m < n implies plane_wf(#[trigger] self@[m]) by {
                assert(self@[m] == spec_widened(orig, m));
                assert(plane_wf(orig[m]));
            }
        }
    }

    /// Integrates the total energy coming from the intensity distribution:
    /// the sum of every plane's flux integral.
    pub fn total_intensity(&self) -> (r: i128)
        requires
            web_wf(self@),
            forall|i: int| 0 <= i < self@.len() ==> (#[trigger] self@[i]).angles.len() != 1,
        ensures
            r == spec_total_intensity(self@, self@.len() as int),
    {
        let n = self.planes.len();
        let mut total: i128 = 0;
        let mut i: usize = 0;
        while i < n
            invariant
                i <= n,
                n == self@.len(),
                web_wf(self@),
                forall|k: int| 0 <= k < self@.len() ==> (#[trigger] self@[k]).angles.len()
                    != 1,
                total == spec_total_intensity(self@, i as int),
                0 <= total <= (i as int) * MAX_PLANE_INTEGRAL,
            decreases n - i,
        {
            let part = self.planes[i].integrate_intensity();
            proof {
                lemma_total_step_bound(part as int, self@[i as int].angles.len() as int, i as int);
            }
            total = total + part;
            i = i + 1;
        }
        total
    }
}

/// One plane's integral fits the running total's budget.
proof fn lemma_total_step_bound(part: int, samples: int, i: int)
    requires
        0 <= part <= MAX_INTEGRAL_PER_SAMPLE * samples,
        0 <= samples <= MAX_SAMPLES,
        0 <= i < MAX_PLANES,
    ensures
        0 <= part <= MAX_PLANE_INTEGRAL,
        (i + 1) * MAX_PLANE_INTEGRAL <= i128::MAX,
{
    assert(MAX_INTEGRAL_PER_SAMPLE * samples <= MAX_PLANE_INTEGRAL) by (nonlinear_arith)
        requires
            0 <= samples <= MAX_SAMPLES,
    ;
    assert((i + 1) * MAX_PLANE_INTEGRAL <= i128::MAX) by (nonlinear_arith)
        requires
            0 <= i < MAX_PLANES,
    ;
}

} // verus!
