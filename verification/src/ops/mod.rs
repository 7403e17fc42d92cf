//! Operations over several photometric webs: element-wise averaging of
//! repeated measurements of one fixture.

pub mod err;

use vstd::prelude::*;
use crate::fixed::MAX_FIXED;
use crate::ops::err::Error;
use crate::photweb::photweb::{PhotometricWeb, spec_web_delta, spec_widened, web_wf};
use crate::photweb::plane::{
    IntensityUnits, Plane, PlaneOrientation, PlaneV, plane_wf, sample_angles_wf,
};

verus! {

/// The mathematical values of a list of webs.
pub open spec fn webs_view(ws: Seq<&PhotometricWeb>) -> Seq<Seq<PlaneV>> {
    ws.map_values(|w: &PhotometricWeb| w@)
}

/// The sum of intensity sample `j` of plane `i` over the first `k` webs.
pub open spec fn spec_intensity_total(ws: Seq<Seq<PlaneV>>, i: int, j: int, k: int) -> int
    decreases k,
{
    if k <= 0 {
        0
    } else {
        spec_intensity_total(ws, i, j, k - 1) + ws[k - 1][i].intensities[j]
    }
}

/// Whether every web reports the same plane count as the first one.
pub open spec fn counts_agree(ws: Seq<Seq<PlaneV>>) -> bool {
    forall|k: int| 0 <= k < ws.len() ==> (#[trigger] ws[k]).len() == ws[0].len()
}

/// Whether every plane of every web carries exactly the secondary angles of
/// the first web's first plane.
pub open spec fn angles_agree(ws: Seq<Seq<PlaneV>>) -> bool {
    forall|k: int, i: int| 0 <= k < ws.len() && 0 <= i < ws[k].len() ==> (#[trigger] ws[k][
        i]).angles == ws[0][0].angles
}

/// Compares two vectors of fixed-point values.
fn fixed_vec_eq(a: &Vec<i64>, b: &Vec<i64>) -> (r: bool)
    ensures
        r == (a@ == b@),
{
    if a.len() != b.len() {
        proof {
            assert(a@.len() != b@.len());
        }
        return false;
    }
    let n = a.len();
    let mut i: usize = 0;
    while i < n
        invariant
            i <= n,
            n == a@.len(),
            n == b@.len(),
            forall|k: int| 0 <= k < i ==> a@[k] == b@[k],
        decreases n - i,
    {
        if a[i] != b[i] {
            return false;
        }
        i = i + 1;
    }
    proof {
        assert(a@ =~= b@);
    }
    true
}

/// Checks that every web reports the first web's plane count, and reports
/// the first disagreeing position otherwise.
fn check_counts(input_webs: &Vec<&PhotometricWeb>) -> (r: Option<Error>)
    requires
        input_webs@.len() > 0,
    ensures
        match r {
            None => counts_agree(webs_view(input_webs@)),
            Some(Error::InconsistentNumberOfPlanes(expect, found, at)) => {
                let ws = webs_view(input_webs@);
                &&& expect == ws[0].len()
                &&& 0 < at < ws.len()
                &&& found == ws[at as int].len()
                &&& found != expect
                &&& forall|k: int| 0 <= k < at ==> (#[trigger] ws[k]).len() == ws[0].len()
            },
            Some(_) => false,
        },
{
    let ghost ws = webs_view(input_webs@);
    let n_webs = input_webs.len();
    let n_planes = input_webs[0].n_planes();
    let mut k: usize = 1;
    while k < n_webs
        invariant
            1 <= k <= n_webs,
            n_webs == ws.len(),
            ws == webs_view(input_webs@),
            n_planes == ws[0].len(),
            forall|m: int| 0 <= m < k ==> (#[trigger] ws[m]).len() == ws[0].len(),
        decreases n_webs - k,
    {
        let found = input_webs[k].n_planes();
        if found != n_planes {
            return Some(Error::InconsistentNumberOfPlanes(n_planes, found, k));
        }
        k = k + 1;
    }
    None
}

/// Checks that every plane of every web carries exactly the given secondary
/// angles, which are the first web's first plane's.
fn check_angles(input_webs: &Vec<&PhotometricWeb>, angles: &Vec<i64>) -> (ok: bool)
    requires
        input_webs@.len() > 0,
        angles@ == webs_view(input_webs@)[0][0].angles,
    ensures
        ok == angles_agree(webs_view(input_webs@)),
{
    let ghost ws = webs_view(input_webs@);
    let n_webs = input_webs.len();
    let mut k: usize = 0;
    while k < n_webs
        invariant
            k <= n_webs,
            n_webs == ws.len(),
            n_webs > 0,
            ws == webs_view(input_webs@),
            angles@ == ws[0][0].angles,
            forall|m: int, i: int| 0 <= m < k && 0 <= i < ws[m].len() ==> (#[trigger] ws[m][
                i]).angles == ws[0][0].angles,
        decreases n_webs - k,
    {
        let web_planes = input_webs[k].planes();
        let n_here = web_planes.len();
        let mut i: usize = 0;
        while i < n_here
            invariant
                i <= n_here,
                n_webs == ws.len(),
                0 <= k < n_webs,
                ws == webs_view(input_webs@),
                web_planes@.map_values(|p: Plane| p@) == ws[k as int],
                n_here == ws[k as int].len(),
                angles@ == ws[0][0].angles,
                forall|q: int| 0 <= q < i ==> (#[trigger] ws[k as int][q]).angles == ws[0][
                    0].angles,
            decreases n_here - i,
        {
            let same = fixed_vec_eq(web_planes[i].angles(), angles);
            proof {
                assert(web_planes@.map_values(|p: Plane| p@)[i as int] == web_planes@[
                    i as int]@);
            }
            if !same {
                proof {
                    assert(ws[k as int][i as int].angles != ws[0][0].angles);
                }
                return false;
            }
            i = i + 1;
        }
        k = k + 1;
    }
    true
}

/// The arithmetic mean, sample by sample, of plane `i`'s intensities across
/// all the webs.
fn average_plane_intensities(input_webs: &Vec<&PhotometricWeb>, i: usize) -> (r: Vec<i64>)
    requires
        input_webs@.len() > 0,
        forall|k: int| 0 <= k < input_webs@.len() ==> web_wf(
            #[trigger] webs_view(input_webs@)[k],
        ),
        counts_agree(webs_view(input_webs@)),
        angles_agree(webs_view(input_webs@)),
        i < webs_view(input_webs@)[0].len(),
    ensures
        r@.len() == webs_view(input_webs@)[0][0].angles.len(),
        forall|j: int| 0 <= j < r@.len() ==> (#[trigger] r@[j]) == spec_intensity_total(
            webs_view(input_webs@),
            i as int,
            j,
            webs_view(input_webs@).len() as int,
        ) / (webs_view(input_webs@).len() as int),
        forall|j: int| 0 <= j < r@.len() ==> 0 <= #[trigger] r@[j] <= MAX_FIXED,
{
    let ghost ws = webs_view(input_webs@);
    let n_webs = input_webs.len();
    let n_samples = input_webs[0].planes()[0].angles().len();
    proof {
        assert(input_webs[0]@ == ws[0]);
        assert(web_wf(ws[0]));
        assert(plane_wf(ws[0][0]));
    }
    let mut avg: Vec<i64> = Vec::new();
    let mut j: usize = 0;
    while j < n_samples
        invariant
            j <= n_samples,
            n_webs == ws.len(),
            n_webs > 0,
            ws == webs_view(input_webs@),
            forall|m: int| 0 <= m < ws.len() ==> web_wf(#[trigger] ws[m]),
            counts_agree(ws),
            angles_agree(ws),
            0 <= i < ws[0].len(),
            n_samples == ws[0][0].angles.len(),
            avg@.len() == j,
            forall|q: int| 0 <= q < j ==> (#[trigger] avg@[q]) == spec_intensity_total(
                ws,
                i as int,
                q,
                ws.len() as int,
            ) / (ws.len() as int),
            forall|q: int| 0 <= q < j ==> 0 <= #[trigger] avg@[q] <= MAX_FIXED,
        decreases n_samples - j,
    {
        let mut acc: u128 = 0;
        let mut k: usize = 0;
        while k < n_webs
            invariant
                k <= n_webs,
                n_webs == ws.len(),
                ws == webs_view(input_webs@),
                forall|m: int| 0 <= m < ws.len() ==> web_wf(#[trigger] ws[m]),
                counts_agree(ws),
                angles_agree(ws),
                0 <= i < ws[0].len(),
                n_samples == ws[0][0].angles.len(),
                0 <= j < n_samples,
                acc == spec_intensity_total(ws, i as int, j as int, k as int),
                acc <= (k as int) * MAX_FIXED,
            decreases n_webs - k,
        {
            let web_planes = input_webs[k].planes();
            proof {
                assert(web_planes@.map_values(|p: Plane| p@) == ws[k as int]);
                assert(web_wf(ws[k as int]));
                assert(ws[k as int].len() == ws[0].len());
                assert(web_planes@.map_values(|p: Plane| p@)[i as int] == web_planes@[
                    i as int]@);
                assert(plane_wf(ws[k as int][i as int]));
                assert(ws[k as int][i as int].angles == ws[0][0].angles);
            }
            let sample = web_planes[i].intensities()[j];
            acc = acc + (sample as u128);
            k = k + 1;
        }
        let mean: u128 = acc / (n_webs as u128);
        proof {
            vstd::arithmetic::div_mod::lemma_div_is_ordered(0, acc as int, n_webs as int);
            vstd::arithmetic::div_mod::lemma_div_is_ordered(
                acc as int,
                (n_webs as int) * MAX_FIXED,
                n_webs as int,
            );
            vstd::arithmetic::div_mod::lemma_div_multiples_vanish(
                MAX_FIXED as int,
                n_webs as int,
            );
            assert((n_webs as int) * MAX_FIXED == (n_webs as int) * (MAX_FIXED as int));
        }
        avg.push(mean as i64);
        j = j + 1;
    }
    avg
}

/// Builds the averaged planes: one per plane of the first web, carrying its
/// primary angle, the shared secondary angles, and the mean intensities.
fn build_average_planes(input_webs: &Vec<&PhotometricWeb>, angles: &Vec<i64>) -> (r: Vec<
    Plane,
>)
    requires
        input_webs@.len() > 0,
        forall|k: int| 0 <= k < input_webs@.len() ==> web_wf(
            #[trigger] webs_view(input_webs@)[k],
        ),
        counts_agree(webs_view(input_webs@)),
        angles_agree(webs_view(input_webs@)),
        webs_view(input_webs@)[0].len() >= 1,
        angles@ == webs_view(input_webs@)[0][0].angles,
    ensures
        ({
            let ws = webs_view(input_webs@);
            &&& r@.len() == ws[0].len()
            &&& forall|m: int| 0 <= m < r@.len() ==> plane_wf(#[trigger] r@[m]@)
            &&& forall|m: int| 0 <= m < r@.len() ==> (#[trigger] r@[m]@).angle == ws[0][
                m].angle
            &&& forall|m: int| 0 <= m < r@.len() ==> (#[trigger] r@[m]@).angles == ws[0][
                0].angles
            &&& forall|m: int| 0 <= m < r@.len() ==> (#[trigger] r@[m]@).intensities.len()
                == ws[0][0].angles.len()
            &&& forall|m: int, j: int|
                0 <= m < r@.len() && 0 <= j < ws[0][0].angles.len() ==> (#[trigger] r@[
                    m]@.intensities[j]) == spec_intensity_total(ws, m, j, ws.len() as int) / (
                ws.len() as int)
            &&& forall|m: int| 0 <= m < r@.len() ==> (#[trigger] r@[m]@).orientation
                == PlaneOrientation::Vertical
            &&& forall|m: int| 0 <= m < r@.len() ==> (#[trigger] r@[m]@).units
                == IntensityUnits::Candela
        }),
{
    let ghost ws = webs_view(input_webs@);
    let n_webs = input_webs.len();
    let n_planes = input_webs[0].n_planes();
    proof {
        assert(input_webs[0]@ == ws[0]);
        assert(web_wf(ws[0]));
        assert(plane_wf(ws[0][0]));
        assert(sample_angles_wf(angles@));
    }
    let mut planes: Vec<Plane> = Vec::new();
    let mut i: usize = 0;
    while i < n_planes
        invariant
            i <= n_planes,
            n_webs == ws.len(),
            n_webs > 0,
            ws == webs_view(input_webs@),
            forall|m: int| 0 <= m < ws.len() ==> web_wf(#[trigger] ws[m]),
            counts_agree(ws),
            angles_agree(ws),
            n_planes == ws[0].len(),
            n_planes >= 1,
            angles@ == ws[0][0].angles,
            sample_angles_wf(angles@),
            planes@.len() == i,
            forall|m: int| 0 <= m < i ==> plane_wf(#[trigger] planes@[m]@),
            forall|m: int| 0 <= m < i ==> (#[trigger] planes@[m]@).angle == ws[0][m].angle,
            forall|m: int| 0 <= m < i ==> (#[trigger] planes@[m]@).angles == ws[0][0].angles,
            forall|m: int| 0 <= m < i ==> (#[trigger] planes@[m]@).intensities.len() == ws[0][
                0].angles.len(),
            forall|m: int, j: int|
                0 <= m < i && 0 <= j < ws[0][0].angles.len() ==> (
                #[trigger] planes@[m]@.intensities[j]) == spec_intensity_total(
                    ws,
                    m,
                    j,
                    ws.len() as int,
                ) / (ws.len() as int),
            forall|m: int| 0 <= m < i ==> (#[trigger] planes@[m]@).orientation
                == PlaneOrientation::Vertical,
            forall|m: int| 0 <= m < i ==> (#[trigger] planes@[m]@).units
                == IntensityUnits::Candela,
        decreases n_planes - i,
    {
        let avg = average_plane_intensities(input_webs, i);
        let first_planes = input_webs[0].planes();
        proof {
            assert(input_webs[0]@ == ws[0]);
            assert(web_wf(ws[0]));
            assert(plane_wf(ws[0][i as int]));
            assert(first_planes@.map_values(|p: Plane| p@)[i as int] == first_planes@[
                i as int]@);
        }
        let mut plane = Plane::new();
        plane.set_angle(first_planes[i].angle());
        plane.set_angles(angles.clone());
        plane.set_intensities(avg);
        planes.push(plane);
        i = i + 1;
    }
    planes
}

/// Averages the provided photometric webs, which are taken to be repeated
/// measurements of the same fixture.  The webs must share one structure: the
/// same number of planes, and the same secondary angles everywhere.  No
/// interpolation is done; the result carries the first web's primary and
/// secondary angles and the sample-by-sample arithmetic mean of the
/// intensities.
pub fn average_photmetric_web_intensities(input_webs: Vec<&PhotometricWeb>) -> (r: Result<
    PhotometricWeb,
    Error,
>)
    requires
        forall|k: int| 0 <= k < input_webs@.len() ==> web_wf(
            #[trigger] webs_view(input_webs@)[k],
        ),
        (input_webs@.len() > 0 && counts_agree(webs_view(input_webs@)))
            ==> webs_view(input_webs@)[0].len() >= 1,
    ensures
        match r {
            Ok(web) => {
                let ws = webs_view(input_webs@);
                &&& input_webs@.len() > 0
                &&& counts_agree(ws)
                &&& angles_agree(ws)
                &&& web@.len() == ws[0].len()
                &&& web_wf(web@)
                &&& forall|i: int| 0 <= i < web@.len() ==> (#[trigger] web@[i]).angle
                    == ws[0][i].angle
                &&& forall|i: int| 0 <= i < web@.len() ==> (#[trigger] web@[i]).angles
                    == ws[0][0].angles
                &&& forall|i: int| 0 <= i < web@.len() ==> (
                #[trigger] web@[i]).intensities.len() == ws[0][0].angles.len()
                &&& forall|i: int, j: int|
                    0 <= i < web@.len() && 0 <= j < web@[i].intensities.len()
                        ==> (#[trigger] web@[i].intensities[j]) == spec_intensity_total(
                        ws,
                        i,
                        j,
                        ws.len() as int,
                    ) / (ws.len() as int)
                &&& forall|i: int| 0 <= i < web@.len() ==> (#[trigger] web@[i]).width
                    == spec_web_delta(web@, i)
                &&& forall|i: int| 0 <= i < web@.len() ==> (#[trigger] web@[i]).orientation
                    == PlaneOrientation::Vertical
                &&& forall|i: int| 0 <= i < web@.len() ==> (#[trigger] web@[i]).units
                    == IntensityUnits::Candela
            },
            Err(Error::NoPlanes) => input_webs@.len() == 0,
            Err(Error::InconsistentNumberOfPlanes(expect, found, at)) => {
                let ws = webs_view(input_webs@);
                &&& input_webs@.len() > 0
                &&& expect == ws[0].len()
                &&& 0 < at < ws.len()
                &&& found == ws[at as int].len()
                &&& found != expect
                &&& forall|k: int| 0 <= k < at ==> (#[trigger] ws[k]).len() == ws[0].len()
            },
            Err(Error::InconsistentPlaneAngles) => {
                let ws = webs_view(input_webs@);
                &&& input_webs@.len() > 0
                &&& counts_agree(ws)
                &&& !angles_agree(ws)
            },
            Err(Error::InconsistentIntensitiesInPlane(_, _)) => false,
        },
{
    let ghost ws = webs_view(input_webs@);
    let n_webs = input_webs.len();
    if n_webs == 0 {
        return Err(Error::NoPlanes);
    }
    match check_counts(&input_webs) {
        Some(e) => {
            return Err(e);
        },
        None => {},
    }
    let angles: Vec<i64> = input_webs[0].planes()[0].angles().clone();
    proof {
        assert(input_webs[0]@ == ws[0]);
        assert(angles@ == ws[0][0].angles);
        assert(web_wf(ws[0]));
        assert(plane_wf(ws[0][0]));
        assert(sample_angles_wf(angles@));
    }
    if !check_angles(&input_webs, &angles) {
        return Err(Error::InconsistentPlaneAngles);
    }
    let web = assemble_web(&input_webs, &angles);
    Ok(web)
}

/// Builds the averaged web itself: the averaged planes, wrapped in a web
/// that assigns each its angular width.
#[verifier::rlimit(50)]
fn assemble_web(input_webs: &Vec<&PhotometricWeb>, angles: &Vec<i64>) -> (web: PhotometricWeb)
    requires
        input_webs@.len() > 0,
        forall|k: int| 0 <= k < input_webs@.len() ==> web_wf(
            #[trigger] webs_view(input_webs@)[k],
        ),
        counts_agree(webs_view(input_webs@)),
        angles_agree(webs_view(input_webs@)),
        webs_view(input_webs@)[0].len() >= 1,
        angles@ == webs_view(input_webs@)[0][0].angles,
    ensures
        ({
            let ws = webs_view(input_webs@);
            &&& web@.len() == ws[0].len()
            &&& web_wf(web@)
            &&& forall|i: int| 0 <= i < web@.len() ==> (#[trigger] web@[i]).angle == ws[0][
                i].angle
            &&& forall|i: int| 0 <= i < web@.len() ==> (#[trigger] web@[i]).angles == ws[0][
                0].angles
            &&& forall|i: int| 0 <= i < web@.len() ==> (#[trigger] web@[i]).intensities.len()
                == ws[0][0].angles.len()
            &&& forall|i: int, j: int|
                0 <= i < web@.len() && 0 <= j < web@[i].intensities.len() ==> (
                #[trigger] web@[i].intensities[j]) == spec_intensity_total(
                    ws,
                    i,
                    j,
                    ws.len() as int,
                ) / (ws.len() as int)
            &&& forall|i: int| 0 <= i < web@.len() ==> (#[trigger] web@[i]).width
                == spec_web_delta(web@, i)
            &&& forall|i: int| 0 <= i < web@.len() ==> (#[trigger] web@[i]).orientation
                == PlaneOrientation::Vertical
            &&& forall|i: int| 0 <= i < web@.len() ==> (#[trigger] web@[i]).units
                == IntensityUnits::Candela
        }),
{
    let ghost ws = webs_view(input_webs@);
    let planes = build_average_planes(input_webs, angles);
    let ghost built = planes@.map_values(|p: Plane| p@);
    let mut photweb = PhotometricWeb::new();
    photweb.set_planes(planes);
    proof {
        assert(photweb@.len() == built.len());
        assert forall|k: int| 0 <= k < built.len() implies (#[trigger] built[k]).angle
            == photweb@[k].angle by {
            assert(photweb@[k] == spec_widened(built, k));
        }
        lemma_web_delta_angles_only_all(built, photweb@);
        assert forall|m: int| 0 <= m < photweb@.len() implies plane_wf(#[trigger] photweb@[m])
            && photweb@[m].width == spec_web_delta(photweb@, m) && photweb@[m].angle == ws[0][
            m].angle && photweb@[m].angles == ws[0][0].angles && photweb@[m].intensities.len()
            == ws[0][0].angles.len() && photweb@[m].orientation == PlaneOrientation::Vertical
            && photweb@[m].units == IntensityUnits::Candela by {
            assert(photweb@[m] == spec_widened(built, m));
            assert(built[m] == planes@[m]@);
            assert(spec_web_delta(built, m) == spec_web_delta(photweb@, m));
        }
        assert forall|m: int, j: int|
            0 <= m < photweb@.len() && 0 <= j < photweb@[m].intensities.len() implies (
        #[trigger] photweb@[m].intensities[j]) == spec_intensity_total(
            ws,
            m,
            j,
            ws.len() as int,
        ) / (ws.len() as int) by {
            assert(photweb@[m] == spec_widened(built, m));
            assert(built[m] == planes@[m]@);
            assert(photweb@[m].intensities == planes@[m]@.intensities);
        }
    }
    photweb
}



/// The web-level width of a plane depends only on primary angles, so two
/// webs whose planes share their angles share their widths.
proof fn lemma_web_delta_angles_only_all(a: Seq<PlaneV>, b: Seq<PlaneV>)
    requires
        a.len() == b.len(),
        forall|k: int| 0 <= k < a.len() ==> (#[trigger] a[k]).angle == b[k].angle,
    ensures
        forall|i: int| 0 <= i < a.len() ==> spec_web_delta(a, i) == spec_web_delta(b, i),
{
    assert forall|i: int| 0 <= i < a.len() implies spec_web_delta(a, i) == spec_web_delta(
        b,
        i,
    ) by {
        lemma_web_delta_angles_only(a, b, i);
    }
}

/// The same, one index at a time.
proof fn lemma_web_delta_angles_only(a: Seq<PlaneV>, b: Seq<PlaneV>, i: int)
    requires
        a.len() == b.len(),
        a.len() >= 1,
        0 <= i < a.len(),
        forall|k: int| 0 <= k < a.len() ==> (#[trigger] a[k]).angle == b[k].angle,
    ensures
        spec_web_delta(a, i) == spec_web_delta(b, i),
{
    reveal(spec_web_delta);
    if a.len() != 1 {
        let n = a.len() as int;
        vstd::arithmetic::div_mod::lemma_mod_bound(i - 1, n);
        vstd::arithmetic::div_mod::lemma_mod_bound(i + 1, n);
    }
}

} // verus!
