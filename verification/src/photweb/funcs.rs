//! Mirroring utilities: reconstruct a full angular sweep from the partial
//! wedge a photometric file is allowed to store.  Every reflection drops the
//! shared boundary plane so that no angle appears twice.

use vstd::prelude::*;
use crate::fixed::{HALF_PI_FP, PI_FP, TWO_PI_FP};
use crate::photweb::plane::{PLANE_ANGLE_MAX, Plane, PlaneV};

verus! {

/// The mirror image of a plane about the axis `m / 2`: a plane at angle `a`
/// lands at `m - a`; everything else is kept.
pub open spec fn reflected(p: PlaneV, m: int) -> PlaneV {
    PlaneV { angle: (m - p.angle) as i64, ..p }
}

/// A quadrant of planes followed by its mirror image about `pi/2`, without
/// the boundary plane: `0..pi/2` grows to `0..pi`.
pub open spec fn quadrant_expansion(s: Seq<PlaneV>) -> Seq<PlaneV> {
    Seq::new(
        (2 * s.len() - 1) as nat,
        |i: int|
            if i < s.len() {
                s[i]
            } else {
                reflected(s[2 * s.len() - 2 - i], PI_FP as int)
            },
    )
}

/// A hemisphere of planes followed by its mirror image about `pi`, without
/// either boundary plane: `0..pi` grows to `0..2 * pi`.
pub open spec fn hemisphere_expansion(s: Seq<PlaneV>) -> Seq<PlaneV> {
    Seq::new(
        (2 * s.len() - 2) as nat,
        |i: int|
            if i < s.len() {
                s[i]
            } else {
                reflected(s[2 * s.len() - 2 - i], 2 * (PI_FP as int))
            },
    )
}

/// The wedge `pi/2..3 * pi/2` mirrored onto the opposing hemisphere: planes
/// below `pi/2` reflect about `pi/2`, planes above `3 * pi/2` reflect about
/// `3 * pi/2`, and the stored wedge sits in between.
pub open spec fn opposing_expansion(s: Seq<PlaneV>) -> Seq<PlaneV> {
    let h = s.len() as int / 2;
    Seq::new(
        (s.len() + 2 * (s.len() as int / 2) - 1) as nat,
        |i: int|
            if i < h {
                reflected(s[h - i], PI_FP as int)
            } else if i < h + s.len() {
                s[i - h]
            } else {
                reflected(s[2 * h - 1 - (i - h - s.len())], 3 * (PI_FP as int))
            },
    )
}

/// Reflecting a well-formed plane keeps it well-formed, as long as the new
/// angle stays in range.
pub proof fn lemma_reflected_wf(p: PlaneV, m: int)
    requires
        crate::photweb::plane::plane_wf(p),
        0 <= m - p.angle <= PLANE_ANGLE_MAX,
    ensures
        crate::photweb::plane::plane_wf(reflected(p, m)),
{
}

/// Mirrors the first quadrant of planes into the second quadrant: given
/// planes covering `0..pi/2`, returns planes covering `0..pi`.  A plane at
/// angle `a` is reflected to `pi - a`; the boundary plane itself is not
/// duplicated.
pub fn mirror_first_quadrant(planes: &Vec<Plane>) -> (r: Vec<Plane>)
    requires
        planes@.len() >= 1,
        forall|i: int| 0 <= i < planes@.len() ==> 0 <= (#[trigger] planes@[i]@).angle
            <= PI_FP,
    ensures
        r@.len() == 2 * planes@.len() - 1,
        forall|i: int| 0 <= i < planes@.len() ==> (#[trigger] r@[i]@) == planes@[i]@,
        forall|j: int| 0 <= j < planes@.len() - 1 ==> (#[trigger] r@[planes@.len() + j]@)
            == reflected(planes@[planes@.len() - 2 - j]@, PI_FP as int),
{
    let n = planes.len();
    let mut out: Vec<Plane> = Vec::new();
    let mut i: usize = 0;
    while i < n
        invariant
            i <= n,
            n == planes@.len(),
            out@.len() == i,
            forall|k: int| 0 <= k < i ==> (#[trigger] out@[k]@) == planes@[k]@,
        decreases n - i,
    {
        out.push(planes[i].clone());
        i = i + 1;
    }
    let mut j: usize = 0;
    while j < n - 1
        invariant
            j <= n - 1,
            n == planes@.len(),
            n >= 1,
            forall|i: int| 0 <= i < planes@.len() ==> 0 <= (#[trigger] planes@[i]@).angle
                <= PI_FP,
            out@.len() == n + j,
            forall|k: int| 0 <= k < n ==> (#[trigger] out@[k]@) == planes@[k]@,
            forall|k: int| 0 <= k < j ==> (#[trigger] out@[n + k]@) == reflected(
                planes@[n - 2 - k]@,
                PI_FP as int,
            ),
        decreases n - 1 - j,
    {
        let src = n - 2 - j;
        let mut p = planes[src].clone();
        p.set_angle(PI_FP - planes[src].angle());
        proof {
            assert(p@ =~= reflected(planes@[src as int]@, PI_FP as int));
        }
        out.push(p);
        j = j + 1;
    }
    out
}

/// Mirrors the first hemisphere of planes into the second: given planes
/// covering `0..pi`, returns planes covering `0..2 * pi`.  A plane at angle
/// `a` is reflected to `2 * pi - a`; neither boundary plane is duplicated.
pub fn mirror_first_hemisphere(planes: &Vec<Plane>) -> (r: Vec<Plane>)
    requires
        planes@.len() >= 2,
        forall|i: int| 0 <= i < planes@.len() ==> 0 <= (#[trigger] planes@[i]@).angle
            <= PI_FP,
    ensures
        r@.len() == 2 * planes@.len() - 2,
        forall|i: int| 0 <= i < planes@.len() ==> (#[trigger] r@[i]@) == planes@[i]@,
        forall|j: int| 0 <= j < planes@.len() - 2 ==> (#[trigger] r@[planes@.len() + j]@)
            == reflected(planes@[planes@.len() - 2 - j]@, 2 * (PI_FP as int)),
{
    let n = planes.len();
    let mut out: Vec<Plane> = Vec::new();
    let mut i: usize = 0;
    while i < n
        invariant
            i <= n,
            n == planes@.len(),
            out@.len() == i,
            forall|k: int| 0 <= k < i ==> (#[trigger] out@[k]@) == planes@[k]@,
        decreases n - i,
    {
        out.push(planes[i].clone());
        i = i + 1;
    }
    let mut j: usize = 0;
    while j < n - 2
        invariant
            j <= n - 2,
            n == planes@.len(),
            n >= 2,
            forall|i: int| 0 <= i < planes@.len() ==> 0 <= (#[trigger] planes@[i]@).angle
                <= PI_FP,
            out@.len() == n + j,
            forall|k: int| 0 <= k < n ==> (#[trigger] out@[k]@) == planes@[k]@,
            forall|k: int| 0 <= k < j ==> (#[trigger] out@[n + k]@) == reflected(
                planes@[n - 2 - k]@,
                2 * (PI_FP as int),
            ),
        decreases n - 2 - j,
    {
        let src = n - 2 - j;
        let mut p = planes[src].clone();
        p.set_angle(TWO_PI_FP - planes[src].angle());
        proof {
            assert(TWO_PI_FP == 2 * (PI_FP as int));
            assert(p@ =~= reflected(planes@[src as int]@, 2 * (PI_FP as int)));
        }
        out.push(p);
        j = j + 1;
    }
    out
}

/// Takes the hemisphere occupying the second and third quadrants (a wedge
/// from `pi/2` to `3 * pi/2`) and mirrors it onto the opposing hemisphere:
/// planes below `pi/2` are reflections about `pi/2`, planes above `3 * pi/2`
/// are reflections about `3 * pi/2`, and the stored wedge sits in between.
pub fn mirror_second_and_third_quadrants(planes: &Vec<Plane>) -> (r: Vec<Plane>)
    requires
        planes@.len() >= 2,
        forall|i: int| 0 <= i < planes@.len() ==> 0 <= (#[trigger] planes@[i]@).angle
            <= TWO_PI_FP,
        forall|i: int| 1 <= i <= planes@.len() / 2 ==> (#[trigger] planes@[i]@).angle
            <= PI_FP,
    ensures
        r@.len() == planes@.len() + 2 * (planes@.len() / 2) - 1,
        forall|j: int| 0 <= j < planes@.len() / 2 ==> (#[trigger] r@[j]@) == reflected(
            planes@[planes@.len() / 2 - j]@,
            PI_FP as int,
        ),
        forall|i: int| 0 <= i < planes@.len() ==> (#[trigger] r@[planes@.len() / 2 + i]@)
            == planes@[i]@,
        forall|j: int| 0 <= j < planes@.len() / 2 - 1 ==> (#[trigger] r@[planes@.len() / 2
            + planes@.len() + j]@) == reflected(
            planes@[2 * (planes@.len() / 2) - 1 - j]@,
            3 * (PI_FP as int),
        ),
{
    let n = planes.len();
    let half = n / 2;
    let mut out: Vec<Plane> = Vec::new();
    let mut j: usize = 0;
    while j < half
        invariant
            j <= half,
            half == n / 2,
            n == planes@.len(),
            n >= 2,
            forall|i: int| 1 <= i <= planes@.len() / 2 ==> (#[trigger] planes@[i]@).angle
                <= PI_FP,
            forall|i: int| 0 <= i < planes@.len() ==> 0 <= (#[trigger] planes@[i]@).angle
                <= TWO_PI_FP,
            out@.len() == j,
            forall|k: int| 0 <= k < j ==> (#[trigger] out@[k]@) == reflected(
                planes@[half - k]@,
                PI_FP as int,
            ),
        decreases half - j,
    {
        let src = half - j;
        let mut p = planes[src].clone();
        p.set_angle(PI_FP - planes[src].angle());
        proof {
            assert(p@ =~= reflected(planes@[src as int]@, PI_FP as int));
        }
        out.push(p);
        j = j + 1;
    }
    let mut i: usize = 0;
    while i < n
        invariant
            i <= n,
            half == n / 2,
            n == planes@.len(),
            out@.len() == half + i,
            forall|k: int| 0 <= k < half ==> (#[trigger] out@[k]@) == reflected(
                planes@[half - k]@,
                PI_FP as int,
            ),
            forall|k: int| 0 <= k < i ==> (#[trigger] out@[half + k]@) == planes@[k]@,
        decreases n - i,
    {
        out.push(planes[i].clone());
        i = i + 1;
    }
    let mut j2: usize = 0;
    while j2 < half - 1
        invariant
            j2 <= half - 1,
            half == n / 2,
            n == planes@.len(),
            n >= 2,
            forall|i: int| 0 <= i < planes@.len() ==> 0 <= (#[trigger] planes@[i]@).angle
                <= TWO_PI_FP,
            out@.len() == half + n + j2,
            forall|k: int| 0 <= k < half ==> (#[trigger] out@[k]@) == reflected(
                planes@[half - k]@,
                PI_FP as int,
            ),
            forall|k: int| 0 <= k < n ==> (#[trigger] out@[half + k]@) == planes@[k]@,
            forall|k: int| 0 <= k < j2 ==> (#[trigger] out@[half + n + k]@) == reflected(
                planes@[2 * half - 1 - k]@,
                3 * (PI_FP as int),
            ),
        decreases half - 1 - j2,
    {
        let src = 2 * half - 1 - j2;
        let mut p = planes[src].clone();
        p.set_angle(3 * PI_FP - planes[src].angle());
        proof {
            assert(p@ =~= reflected(planes@[src as int]@, 3 * (PI_FP as int)));
        }
        out.push(p);
        j2 = j2 + 1;
    }
    out
}

} // verus!
