//! The IES LM-63 document: the flat record of the declared fields and
//! arrays, its angle validity rules, and its conversion into photometric
//! planes.

use vstd::prelude::*;
use crate::fixed::{
    DEG_FULL_TURN, DEG_HALF_TURN, DEG_QUARTER_TURN, HALF_PI_FP, MAX_FIXED, PI_FP, TWO_PI_FP,
    degrees_to_radians, lemma_deg_to_rad_full_turn, lemma_deg_to_rad_half_turn,
    lemma_deg_to_rad_quarter_turn, spec_deg_to_rad,
};
use crate::io::ies::lum_opening::{IesLuminousOpening, LuminousOpeningUnits, spec_opening_of};
use crate::io::ies::phot_type::IesPhotometryType;
use crate::io::ies::err::Error;
use crate::io::ies::standard::IesStandard;
use crate::io::eulumdat::eulumdat_file::{fixed_text_ok, u32_text_ok};
use crate::io::eulumdat::util::{parse_fixed, parse_u32};
use crate::numtext::{
    fixed_text_val, int_text_val, render_fixed, render_u64, spec_digits, spec_render_fixed,
};
use crate::photweb::funcs::{
    hemisphere_expansion, mirror_first_hemisphere, mirror_first_quadrant, quadrant_expansion,
    reflected,
};
use crate::text::{find_nl, spec_split_lines, spec_trim, trimmed_slice};
use vstd::string::StrSliceExecFns;
use crate::photweb::plane::{
    IntensityUnits, MAX_SAMPLES, Plane, PlaneOrientation, PlaneV, PlaneWidth,
    deg_angles_admissible, intensities_wf, plane_wf, sample_angles_wf,
};

verus! {

/// The flat record of an IES file.  Keywords are kept in file order; angles
/// are fixed-point degrees as parsed; photometric values are fixed-point.
#[derive(Debug, Clone, Default)]
pub struct IesFile {
    /// The standard revision the first line names.
    pub standard: IesStandard,
    /// The `[KEYWORD] value` pairs before the TILT line, in file order.
    pub keywords: Vec<(String, String)>,
    /// Number of lamps.
    pub n_lamps: usize,
    /// Lumens per lamp.
    pub lumens_per_lamp: i64,
    /// Multiplying factor for all candela values.
    pub candela_multiplying_factor: i64,
    /// Declared number of vertical angles.
    pub n_vertical_angles: usize,
    /// Declared number of horizontal angles.
    pub n_horizontal_angles: usize,
    /// The photometry system the measurements use.
    pub photometric_type: IesPhotometryType,
    /// The unit of the luminous-opening dimensions.
    pub luminous_opening_units: LuminousOpeningUnits,
    /// Width of the luminous opening.
    pub luminous_opening_width: i64,
    /// Length of the luminous opening.
    pub luminous_opening_length: i64,
    /// Height of the luminous opening.
    pub luminous_opening_height: i64,
    /// Ballast factor.
    pub ballast_factor: i64,
    /// Input watts.
    pub input_watts: i64,
    /// The TILT sub-table, when the file carries one inline.
    pub tilt: Option<Tilt>,
    /// Vertical angles, in fixed-point degrees.
    pub vertical_angles: Vec<i64>,
    /// Horizontal angles, in fixed-point degrees.
    pub horizontal_angles: Vec<i64>,
    /// Candela values, stored as consecutive per-horizontal-angle blocks of
    /// one value per vertical angle.
    pub candela_values: Vec<i64>,
}

impl IesFile {
    /// Returns a new instance of an IES file with default values.
    pub fn new() -> (r: IesFile)
        ensures
            r.n_vertical_angles == 0,
            r.n_horizontal_angles == 0,
            r.standard == IesStandard::Iesna1986,
            r.photometric_type == IesPhotometryType::TypeC,
            r.vertical_angles@.len() == 0,
            r.horizontal_angles@.len() == 0,
            r.candela_values@.len() == 0,
            r.keywords@.len() == 0,
            r.tilt is None,
    {
        IesFile {
            standard: IesStandard::Iesna1986,
            keywords: Vec::new(),
            n_lamps: 0,
            lumens_per_lamp: 0,
            candela_multiplying_factor: 0,
            n_vertical_angles: 0,
            n_horizontal_angles: 0,
            photometric_type: IesPhotometryType::TypeC,
            luminous_opening_units: LuminousOpeningUnits::Meters,
            luminous_opening_width: 0,
            luminous_opening_length: 0,
            luminous_opening_height: 0,
            ballast_factor: 0,
            input_watts: 0,
            tilt: None,
            vertical_angles: Vec::new(),
            horizontal_angles: Vec::new(),
            candela_values: Vec::new(),
        }
    }

    /// Whether a vertical angle array is valid for the standard: it must
    /// span one of the allowed domains, from 0 to 90 or 180 degrees, or
    /// from 90 to 180 degrees.  Compared on the exact parsed degree values.
    pub fn vertical_angles_valid(angles: &Vec<i64>) -> (r: bool)
        ensures
            r == Self::spec_vertical_angles_valid(angles@),
    {
        let n = angles.len();
        if n == 0 {
            return false;
        }
        let first = angles[0];
        let last = angles[n - 1];
        if first == 0 {
            last == DEG_QUARTER_TURN || last == DEG_HALF_TURN
        } else if first == DEG_QUARTER_TURN {
            last == DEG_HALF_TURN
        } else {
            false
        }
    }

    /// The vertical-angle rule as a spec-level predicate.
    pub open spec fn spec_vertical_angles_valid(angles: Seq<i64>) -> bool {
        &&& angles.len() > 0
        &&& (if angles[0] == 0 {
            angles.last() == DEG_QUARTER_TURN || angles.last() == DEG_HALF_TURN
        } else if angles[0] == DEG_QUARTER_TURN {
            angles.last() == DEG_HALF_TURN
        } else {
            false
        })
    }

    /// Whether a horizontal angle array is valid for the standard: it must
    /// start at 0 degrees, and end at 0 (axial symmetry), 90 (quadrant
    /// symmetry), or between 180 and 360 degrees inclusive.  Compared on the
    /// exact parsed degree values.
    pub fn horizontal_angles_valid(angles: &Vec<i64>) -> (r: bool)
        ensures
            r == Self::spec_horizontal_angles_valid(angles@),
    {
        let n = angles.len();
        if n == 0 {
            return false;
        }
        let first = angles[0];
        let last = angles[n - 1];
        if first == 0 {
            last == 0 || last == DEG_QUARTER_TURN || (DEG_HALF_TURN <= last && last
                <= DEG_FULL_TURN)
        } else {
            false
        }
    }

    /// The horizontal-angle rule as a spec-level predicate.
    pub open spec fn spec_horizontal_angles_valid(angles: Seq<i64>) -> bool {
        &&& angles.len() > 0
        &&& angles[0] == 0
        &&& (angles.last() == 0 || angles.last() == DEG_QUARTER_TURN || (DEG_HALF_TURN
            <= angles.last() <= DEG_FULL_TURN))
    }

    /// Gets the type and properties of the luminous opening.
    pub fn get_luminous_opening(&self) -> (r: IesLuminousOpening)
        requires
            i64::MIN < self.luminous_opening_width,
            i64::MIN < self.luminous_opening_length,
            i64::MIN < self.luminous_opening_height,
        ensures
            r == spec_opening_of(
                self.luminous_opening_width as int,
                self.luminous_opening_length as int,
                self.luminous_opening_height as int,
            ),
    {
        IesLuminousOpening::from_dimensions(
            self.luminous_opening_width,
            self.luminous_opening_length,
            self.luminous_opening_height,
        )
    }

    /// The number of stored planes: one per candela block.
    pub open spec fn spec_n_stored(&self) -> int {
        self.candela_values@.len() as int / self.n_vertical_angles as int
    }

    /// The vertical angles converted to fixed-point radians.
    pub open spec fn spec_rad_v_angles(&self) -> Seq<i64> {
        self.vertical_angles@.map_values(|d: i64| spec_deg_to_rad(d as int) as i64)
    }

    /// The plane stored at index `i`, before any symmetry expansion: its
    /// horizontal angle in radians, the shared vertical angles, and its
    /// candela block.
    pub open spec fn spec_stored_plane(&self, i: int) -> PlaneV {
        let nv = self.n_vertical_angles as int;
        PlaneV {
            angle: spec_deg_to_rad(self.horizontal_angles@[i] as int) as i64,
            width: PlaneWidth::Symmetric(0),
            orientation: PlaneOrientation::Vertical,
            angles: self.spec_rad_v_angles(),
            intensities: self.candela_values@.subrange(i * nv, i * nv + nv),
            units: IntensityUnits::Candela,
        }
    }

    /// The stored planes as a sequence.
    pub open spec fn spec_stored_planes(&self) -> Seq<PlaneV> {
        Seq::new(self.spec_n_stored() as nat, |i: int| self.spec_stored_plane(i))
    }

    /// The full set of planes for Type-C photometry: the stored wedge, then
    /// one mirror step for each exact symmetry boundary the last horizontal
    /// angle sits on — a quadrant mirrored about 90 degrees, a hemisphere
    /// about 180.
    pub open spec fn spec_expanded_planes_type_c(&self) -> Seq<PlaneV> {
        let st = self.spec_stored_planes();
        let quad = if self.spec_last_h() == DEG_QUARTER_TURN {
            quadrant_expansion(st)
        } else {
            st
        };
        if self.spec_last_expanded_h() == DEG_HALF_TURN {
            hemisphere_expansion(quad)
        } else {
            quad
        }
    }

    /// The last stored horizontal angle, in fixed-point degrees.
    pub open spec fn spec_last_h(&self) -> int {
        self.horizontal_angles@[self.spec_n_stored() - 1] as int
    }

    /// The last primary angle after the quadrant step, in degrees: used for
    /// the exact comparison against the 180-degree boundary.
    pub open spec fn spec_last_expanded_h(&self) -> int {
        if self.spec_last_h() == DEG_QUARTER_TURN {
            DEG_HALF_TURN as int
        } else {
            self.spec_last_h()
        }
    }

    /// Whether the document's angle and candela sections are fit to become
    /// planes: the counts agree, the vertical angles are admissible, and the
    /// horizontal angles of the stored wedge fit the symmetry their last
    /// value declares.
    pub open spec fn convertible_type_c(&self) -> bool {
        let nv = self.n_vertical_angles as int;
        let stored = self.spec_n_stored();
        &&& nv >= 1
        &&& self.vertical_angles@.len() == nv
        &&& deg_angles_admissible(self.vertical_angles@)
        &&& Self::spec_vertical_angles_valid(self.vertical_angles@)
        &&& Self::spec_horizontal_angles_valid(self.horizontal_angles@.take(
            self.spec_n_stored(),
        ))
        &&& intensities_wf(self.candela_values@)
        &&& self.candela_values@.len() == stored * nv
        &&& stored >= 1
        &&& stored <= self.horizontal_angles@.len()
        &&& forall|i: int| 0 <= i < stored ==> 0 <= #[trigger] self.horizontal_angles@[i]
            <= DEG_FULL_TURN
        &&& (self.spec_last_h() == DEG_QUARTER_TURN ==> (stored >= 2 && forall|i: int|
            0 <= i < stored ==> #[trigger] self.horizontal_angles@[i] <= DEG_QUARTER_TURN))
        &&& (self.spec_last_h() == DEG_HALF_TURN ==> (stored >= 2 && forall|i: int|
            0 <= i < stored ==> #[trigger] self.horizontal_angles@[i] <= DEG_HALF_TURN))
    }

    /// Gets the planes from a Type-C photometry document, expanding the
    /// stored wedge by the symmetry its last horizontal angle declares: a
    /// wedge ending exactly at 90 degrees is mirrored to fill the half
    /// circle, and one ending exactly at 180 degrees (also after the first
    /// mirror) is mirrored to fill the full circle.
    pub fn get_planes_type_c(&self) -> (r: Vec<Plane>)
        requires
            self.convertible_type_c(),
        ensures
            r@.map_values(|p: Plane| p@) == self.spec_expanded_planes_type_c(),
            forall|i: int| 0 <= i < r@.len() ==> plane_wf(#[trigger] r@[i]@),
    {
        let nv = self.n_vertical_angles;
        let n_stored = self.candela_values.len() / nv;
        proof {
            vstd::arithmetic::div_mod::lemma_fundamental_div_mod(
                self.candela_values@.len() as int,
                nv as int,
            );
        }
        let mut template = Plane::new();
        template.set_angles_degrees(&self.vertical_angles);
        let mut planes: Vec<Plane> = Vec::new();
        let mut i: usize = 0;
        while i < n_stored
            invariant
                i <= n_stored,
                self.convertible_type_c(),
                nv == self.n_vertical_angles,
                n_stored == self.spec_n_stored(),
                n_stored <= self.horizontal_angles@.len(),
                self.candela_values@.len() == n_stored * nv,
                self.candela_values@.len() <= usize::MAX,
                template@.angles == self.spec_rad_v_angles(),
                template@.width == PlaneWidth::Symmetric(0),
                template@.orientation == PlaneOrientation::Vertical,
                template@.units == IntensityUnits::Candela,
                template@.angle == 0,
                sample_angles_wf(template@.angles),
                planes@.len() == i,
                forall|k: int| 0 <= k < i ==> (#[trigger] planes@[k]@)
                    == self.spec_stored_plane(k),
                forall|k: int| 0 <= k < i ==> plane_wf(#[trigger] planes@[k]@),
            decreases n_stored - i,
        {
            let mut pl = template.clone();
            proof {
                lemma_deg_to_rad_full_turn(self.horizontal_angles@[i as int] as int);
            }
            pl.set_angle(degrees_to_radians(self.horizontal_angles[i]));
            let mut chunk: Vec<i64> = Vec::new();
            let mut j: usize = 0;
            proof {
                lemma_block_in_range(
                    i as int,
                    nv as int,
                    n_stored as int,
                    self.candela_values@.len() as int,
                );
            }
            while j < nv
                invariant
                    j <= nv,
                    nv >= 1,
                    nv == self.n_vertical_angles,
                    0 <= i < n_stored,
                    i as int * nv as int + nv <= self.candela_values@.len(),
                    self.candela_values@.len() <= usize::MAX,
                    intensities_wf(self.candela_values@),
                    chunk@.len() == j,
                    chunk@ =~= self.candela_values@.subrange(
                        i as int * nv as int,
                        i as int * nv as int + j as int,
                    ),
                decreases nv - j,
            {
                proof {
                    assert((i as int) * (nv as int) + (j as int)
                        < self.candela_values@.len());
                }
                chunk.push(self.candela_values[i * nv + j]);
                j = j + 1;
            }
            proof {
                assert forall|q: int| 0 <= q < chunk@.len() implies 0 <= #[trigger] chunk@[q]
                    <= MAX_FIXED by {
                    assert(chunk@[q] == self.candela_values@[i as int * nv as int + q]);
                }
            }
            pl.set_intensities(chunk);
            proof {
                assert(pl@ =~= self.spec_stored_plane(i as int));
                assert(plane_wf(pl@));
            }
            planes.push(pl);
            i = i + 1;
        }
        proof {
            assert(planes@.map_values(|p: Plane| p@) =~= self.spec_stored_planes());
            lemma_ies_stored_wf(self, planes@.map_values(|p: Plane| p@));
        }
        let ghost st = planes@.map_values(|p: Plane| p@);
        let last_h = self.horizontal_angles[n_stored - 1];
        let quad: Vec<Plane> = if last_h == DEG_QUARTER_TURN {
            proof {
                assert forall|k: int| 0 <= k < planes@.len() implies 0 <= (
                #[trigger] planes@[k]@).angle <= HALF_PI_FP by {
                    assert(planes@[k]@ == st[k]);
                    lemma_deg_to_rad_quarter_turn(self.horizontal_angles@[k] as int);
                }
            }
            let q = mirror_first_quadrant(&planes);
            proof {
                lemma_ies_quadrant_matches(&planes, &q);
            }
            q
        } else {
            planes
        };
        let expanded_last: i64 = if last_h == DEG_QUARTER_TURN {
            DEG_HALF_TURN
        } else {
            last_h
        };
        if expanded_last == DEG_HALF_TURN {
            proof {
                let qv = quad@.map_values(|p: Plane| p@);
                assert forall|k: int| 0 <= k < quad@.len() implies 0 <= (
                #[trigger] quad@[k]@).angle <= PI_FP by {
                    assert(quad@[k]@ == qv[k]);
                    if self.spec_last_h() == DEG_QUARTER_TURN {
                        if k < st.len() {
                            assert(qv[k] == st[k]);
                            lemma_deg_to_rad_quarter_turn(
                                self.horizontal_angles@[k] as int,
                            );
                        } else {
                            assert(qv[k] == reflected(st[2 * st.len() - 2 - k], PI_FP as int));
                            lemma_deg_to_rad_quarter_turn(
                                self.horizontal_angles@[2 * st.len() - 2 - k] as int,
                            );
                        }
                    } else {
                        assert(qv[k] == st[k]);
                        lemma_deg_to_rad_half_turn(self.horizontal_angles@[k] as int);
                    }
                }
                assert(quad@.len() >= 2);
            }
            let full = mirror_first_hemisphere(&quad);
            proof {
                lemma_ies_hemisphere_matches(&quad, &full);
                lemma_ies_expanded_wf(self, self.spec_expanded_planes_type_c());
                assert forall|i2: int| 0 <= i2 < full@.len() implies plane_wf(
                    #[trigger] full@[i2]@,
                ) by {
                    assert(full@[i2]@ == full@.map_values(|p: Plane| p@)[i2]);
                }
            }
            full
        } else {
            proof {
                lemma_ies_expanded_wf(self, self.spec_expanded_planes_type_c());
                assert forall|i2: int| 0 <= i2 < quad@.len() implies plane_wf(
                    #[trigger] quad@[i2]@,
                ) by {
                    assert(quad@[i2]@ == quad@.map_values(|p: Plane| p@)[i2]);
                }
            }
            quad
        }
    }

    /// Gets the planes from this document.  Only Type-C photometry is
    /// interpreted; the other photometry systems carry no conversion here.
    pub fn get_planes(&self) -> (r: Vec<Plane>)
        requires
            self.convertible_type_c(),
            self.photometric_type == IesPhotometryType::TypeC,
        ensures
            r@.map_values(|p: Plane| p@) == self.spec_expanded_planes_type_c(),
            forall|i: int| 0 <= i < r@.len() ==> plane_wf(#[trigger] r@[i]@),
    {
        self.get_planes_type_c()
    }

    /// Interprets this document as a photometric web: expands the stored
    /// wedge and assigns every plane its angular width.
    pub fn to_photweb(&self) -> (web: crate::photweb::photweb::PhotometricWeb)
        requires
            self.convertible_type_c(),
            self.photometric_type == IesPhotometryType::TypeC,
            self.spec_expanded_planes_type_c().len()
                <= crate::photweb::photweb::MAX_PLANES,
        ensures
            web@.len() == self.spec_expanded_planes_type_c().len(),
            forall|i: int| 0 <= i < web@.len() ==> (#[trigger] web@[i])
                == crate::photweb::photweb::spec_widened(
                self.spec_expanded_planes_type_c(),
                i,
            ),
    {
        let planes = self.get_planes();
        let mut web = crate::photweb::photweb::PhotometricWeb::new();
        web.set_planes(planes);
        web
    }
}

/// A candela block sits inside the candela array.
proof fn lemma_block_in_range(i: int, nv: int, n_stored: int, len: int)
    requires
        0 <= i < n_stored,
        nv >= 1,
        len == n_stored * nv,
    ensures
        i * nv + nv <= len,
{
    assert(i * nv + nv <= n_stored * nv) by (nonlinear_arith)
        requires
            i + 1 <= n_stored,
            nv >= 0,
    ;
}

/// Every stored plane of a convertible Type-C document is well-formed.
proof fn lemma_ies_stored_wf(doc: &IesFile, st: Seq<PlaneV>)
    requires
        doc.convertible_type_c(),
        st == doc.spec_stored_planes(),
    ensures
        st.len() == doc.spec_n_stored(),
        forall|i: int| 0 <= i < st.len() ==> plane_wf(#[trigger] st[i]),
        forall|i: int| 0 <= i < st.len() ==> 0 <= (#[trigger] st[i]).angle <= TWO_PI_FP,
{
    let nv = doc.n_vertical_angles as int;
    lemma_rad_v_angles_wf(doc);
    assert forall|i: int| 0 <= i < st.len() implies plane_wf(#[trigger] st[i]) && 0 <= st[
        i].angle <= TWO_PI_FP by {
        lemma_deg_to_rad_full_turn(doc.horizontal_angles@[i] as int);
        assert(i * nv + nv <= st.len() * nv) by (nonlinear_arith)
            requires
                i + 1 <= st.len(),
                nv >= 0,
        ;
        assert(st.len() * nv == doc.candela_values@.len());
        let sub = doc.candela_values@.subrange(i * nv, i * nv + nv);
        assert forall|q: int| 0 <= q < sub.len() implies 0 <= #[trigger] sub[q]
            <= MAX_FIXED by {
            assert(sub[q] == doc.candela_values@[i * nv + q]);
        }
        assert(st[i].angles.len() == doc.vertical_angles@.len());
    }
}

/// The radian vertical angles of a convertible document are admissible.
proof fn lemma_rad_v_angles_wf(doc: &IesFile)
    requires
        deg_angles_admissible(doc.vertical_angles@),
    ensures
        sample_angles_wf(doc.spec_rad_v_angles()),
{
    let degs = doc.vertical_angles@;
    let rads = doc.spec_rad_v_angles();
    assert forall|p: int, q: int| 0 <= p < q < rads.len() implies rads[p] < rads[q] by {
        crate::photweb::plane::lemma_deg_gap_pairwise(degs, p, q);
        crate::fixed::lemma_deg_to_rad_strict(degs[p] as int, degs[q] as int);
        lemma_deg_to_rad_half_turn(degs[p] as int);
        lemma_deg_to_rad_half_turn(degs[q] as int);
    }
    assert forall|k: int| 0 <= k < rads.len() implies 0 <= #[trigger] rads[k] <= PI_FP by {
        lemma_deg_to_rad_half_turn(degs[k] as int);
    }
}

/// Every plane of the expanded Type-C set is well-formed.
proof fn lemma_ies_expanded_wf(doc: &IesFile, ex: Seq<PlaneV>)
    requires
        doc.convertible_type_c(),
        ex == doc.spec_expanded_planes_type_c(),
    ensures
        forall|i: int| 0 <= i < ex.len() ==> plane_wf(#[trigger] ex[i]),
{
    let st = doc.spec_stored_planes();
    lemma_ies_stored_wf(doc, st);
    let quad = if doc.spec_last_h() == DEG_QUARTER_TURN {
        quadrant_expansion(st)
    } else {
        st
    };
    assert forall|i: int| 0 <= i < quad.len() implies plane_wf(#[trigger] quad[i]) && 0
        <= quad[i].angle <= TWO_PI_FP by {
        if doc.spec_last_h() == DEG_QUARTER_TURN && i >= st.len() {
            crate::photweb::funcs::lemma_reflected_wf(
                st[2 * st.len() - 2 - i],
                PI_FP as int,
            );
        }
    }
    if doc.spec_last_expanded_h() == DEG_HALF_TURN {
        assert forall|i: int| 0 <= i < ex.len() implies plane_wf(#[trigger] ex[i]) by {
            if i >= quad.len() {
                crate::photweb::funcs::lemma_reflected_wf(
                    quad[2 * quad.len() - 2 - i],
                    2 * (PI_FP as int),
                );
            }
        }
    }
}

/// The pointwise guarantees of the quadrant mirror add up to
/// [`quadrant_expansion`].
proof fn lemma_ies_quadrant_matches(input: &Vec<Plane>, output: &Vec<Plane>)
    requires
        input@.len() >= 1,
        output@.len() == 2 * input@.len() - 1,
        forall|i: int| 0 <= i < input@.len() ==> (#[trigger] output@[i]@) == input@[i]@,
        forall|j: int| 0 <= j < input@.len() - 1 ==> (#[trigger] output@[input@.len() + j]@)
            == reflected(input@[input@.len() - 2 - j]@, PI_FP as int),
    ensures
        output@.map_values(|p: Plane| p@) =~= quadrant_expansion(
            input@.map_values(|p: Plane| p@),
        ),
{
    let iv = input@.map_values(|p: Plane| p@);
    let ov = output@.map_values(|p: Plane| p@);
    assert forall|i: int| 0 <= i < ov.len() implies ov[i] == quadrant_expansion(iv)[i] by {
        assert(ov[i] == output@[i]@);
        if i < input@.len() {
            assert(iv[i] == input@[i]@);
        } else {
            assert(output@[input@.len() + (i - input@.len())]@ == reflected(
                input@[input@.len() - 2 - (i - input@.len())]@,
                PI_FP as int,
            ));
            assert(iv[2 * iv.len() - 2 - i] == input@[2 * iv.len() - 2 - i]@);
        }
    }
}

/// The pointwise guarantees of the hemisphere mirror add up to
/// [`hemisphere_expansion`].
proof fn lemma_ies_hemisphere_matches(input: &Vec<Plane>, output: &Vec<Plane>)
    requires
        input@.len() >= 2,
        output@.len() == 2 * input@.len() - 2,
        forall|i: int| 0 <= i < input@.len() ==> (#[trigger] output@[i]@) == input@[i]@,
        forall|j: int| 0 <= j < input@.len() - 2 ==> (#[trigger] output@[input@.len() + j]@)
            == reflected(input@[input@.len() - 2 - j]@, 2 * (PI_FP as int)),
    ensures
        output@.map_values(|p: Plane| p@) =~= hemisphere_expansion(
            input@.map_values(|p: Plane| p@),
        ),
{
    let iv = input@.map_values(|p: Plane| p@);
    let ov = output@.map_values(|p: Plane| p@);
    assert forall|i: int| 0 <= i < ov.len() implies ov[i] == hemisphere_expansion(iv)[i] by {
        assert(ov[i] == output@[i]@);
        if i < input@.len() {
            assert(iv[i] == input@[i]@);
        } else {
            assert(output@[input@.len() + (i - input@.len())]@ == reflected(
                input@[input@.len() - 2 - (i - input@.len())]@,
                2 * (PI_FP as int),
            ));
            assert(iv[2 * iv.len() - 2 - i] == input@[2 * iv.len() - 2 - i]@);
        }
    }
}


/// The index of the first token delimiter (a space or a comma) at or after
/// `i`, or the length if none follows.
pub open spec fn find_delim(l: Seq<char>, i: int) -> int
    decreases l.len() - i,
{
    if i < 0 || i >= l.len() {
        l.len() as int
    } else if l[i] == ' ' || l[i] == ',' {
        i
    } else {
        find_delim(l, i + 1)
    }
}

/// The first index at or after `i` holding something other than a space.
pub open spec fn skip_spaces(l: Seq<char>, i: int) -> int
    decreases l.len() - i,
{
    if i < 0 || i >= l.len() {
        l.len() as int
    } else if l[i] == ' ' {
        skip_spaces(l, i + 1)
    } else {
        i
    }
}

/// The tokens of one line: delimiters are runs of spaces or single commas,
/// so doubled commas leave an empty token between them.
pub open spec fn spec_line_tokens(l: Seq<char>) -> Seq<Seq<char>>
    decreases l.len(),
{
    let j = find_delim(l, 0);
    if j < 0 || j >= l.len() {
        seq![l]
    } else if l[j] == ',' {
        seq![l.take(j)] + spec_line_tokens(l.skip(j + 1))
    } else {
        let k = skip_spaces(l, j);
        if k <= j || k > l.len() {
            seq![l]
        } else {
            seq![l.take(j)] + spec_line_tokens(l.skip(k))
        }
    }
}

/// The token stream of the lines from index `i` on: each line is trimmed and
/// tokenized, and each token is tagged with its 1-based line number.
pub open spec fn spec_tokens_from(lines: Seq<Seq<char>>, i: int) -> Seq<(int, Seq<char>)>
    decreases lines.len() - i,
{
    if i < 0 || i >= lines.len() {
        Seq::empty()
    } else {
        spec_line_tokens(spec_trim(lines[i])).map_values(|t: Seq<char>| (i + 1, t))
            + spec_tokens_from(lines, i + 1)
    }
}

/// Splits the text's lines from the 0-based line index `start` on into
/// whitespace- and comma-separated tokens, each tagged with its 1-based line
/// number.
pub fn tokenize_from(s: &str, start: usize) -> (r: (Vec<usize>, Vec<String>))
    ensures
        ({
            let toks = spec_tokens_from(spec_split_lines(s@), start as int);
            &&& r.0@.len() == toks.len()
            &&& r.1@.len() == toks.len()
            &&& spec_done(r.0@, r.1@) =~= toks
        }),
{
    let ghost all_lines = spec_split_lines(s@);
    let ghost toks = spec_tokens_from(all_lines, start as int);
    proof {
        crate::text::lemma_split_lines_len_le(s@);
    }
    let n = s.unicode_len();
    let mut tok_lines: Vec<usize> = Vec::new();
    let mut tok_texts: Vec<String> = Vec::new();
    let mut pos: usize = 0;
    let mut lineno: usize = 0;
    proof {
        assert(s@.skip(0) =~= s@);
        assert(all_lines =~= all_lines.take(0) + spec_split_lines(s@.skip(0)));
        assert(spec_done(tok_lines@, tok_texts@) =~= Seq::<(int, Seq<char>)>::empty());
        assert(toks =~= spec_done(tok_lines@, tok_texts@) + spec_tokens_from(
            all_lines,
            start as int,
        ));
    }
    while pos < n
        invariant
            pos <= n,
            n == s@.len(),
            all_lines == spec_split_lines(s@),
            all_lines.len() <= n,
            lineno <= all_lines.len(),
            all_lines =~= all_lines.take(lineno as int) + spec_split_lines(
                s@.skip(pos as int),
            ),
            toks == spec_tokens_from(all_lines, start as int),
            tok_lines@.len() == tok_texts@.len(),
            toks =~= spec_done(tok_lines@, tok_texts@) + spec_tokens_from(
                all_lines,
                if lineno >= start {
                    lineno as int
                } else {
                    start as int
                },
            ),
        decreases n - pos,
    {
        let ghost rem = s@.skip(pos as int);
        let mut e: usize = pos;
        while e < n && s.get_char(e) != '\n'
            invariant
                pos <= e <= n,
                n == s@.len(),
                rem == s@.skip(pos as int),
                find_nl(rem, 0) == find_nl(rem, e - pos),
                forall|q: int| 0 <= q < e - pos ==> rem[q] != '\n',
            decreases n - e,
        {
            proof {
                assert(rem[e - pos] == s@[e as int]);
            }
            e = e + 1;
        }
        proof {
            if e < n {
                assert(rem[e - pos] == s@[e as int]);
                assert(find_nl(rem, e - pos) == e - pos);
            }
            if e == n {
                assert(all_lines[lineno as int] == rem);
                assert(rem =~= s@.subrange(pos as int, e as int));
            } else {
                assert(spec_split_lines(rem) == seq![rem.take(e - pos)] + spec_split_lines(
                    rem.skip(e - pos + 1),
                ));
                assert(all_lines[lineno as int] == rem.take(e - pos));
                assert(rem.take(e - pos) =~= s@.subrange(pos as int, e as int));
            }
            assert(lineno < all_lines.len());
        }
        if lineno + 1 > start {
            let line = trimmed_slice(s, pos, e);
            proof {
                assert(line@ == spec_trim(all_lines[lineno as int]));
            }
            tokenize_line(line, lineno + 1, &mut tok_lines, &mut tok_texts);
            proof {
                assert(spec_tokens_from(all_lines, lineno as int) == spec_line_tokens(
                    spec_trim(all_lines[lineno as int]),
                ).map_values(|t: Seq<char>| (lineno + 1 as int, t)) + spec_tokens_from(
                    all_lines,
                    lineno + 1,
                ));
                assert(toks =~= spec_done(tok_lines@, tok_texts@) + spec_tokens_from(
                    all_lines,
                    lineno + 1,
                ));
            }
        }
        proof {
            if e < n {
                assert(rem.skip(e - pos + 1) =~= s@.skip(e + 1));
            } else {
                assert(s@.skip(n as int).len() == 0);
                assert(spec_split_lines(s@.skip(n as int)) =~= Seq::<Seq<char>>::empty());
            }
            assert(all_lines.take(lineno + 1) =~= all_lines.take(lineno as int)
                + seq![all_lines[lineno as int]]);
        }
        lineno = lineno + 1;
        pos = if e < n {
            e + 1
        } else {
            n
        };
    }
    proof {
        assert(s@.skip(n as int).len() == 0);
        assert(spec_split_lines(s@.skip(n as int)) =~= Seq::<Seq<char>>::empty());
        assert(all_lines =~= all_lines.take(lineno as int));
        assert(lineno == all_lines.len());
        assert(spec_tokens_from(
            all_lines,
            if lineno >= start {
                lineno as int
            } else {
                start as int
            },
        ) =~= Seq::<(int, Seq<char>)>::empty());
        assert(toks =~= spec_done(tok_lines@, tok_texts@));
    }
    (tok_lines, tok_texts)
}

/// Appends one trimmed line's tokens, each tagged with the given 1-based
/// line number.
fn tokenize_line(
    line: &str,
    lineno: usize,
    tok_lines: &mut Vec<usize>,
    tok_texts: &mut Vec<String>,
)
    requires
        old(tok_lines)@.len() == old(tok_texts)@.len(),
    ensures
        final(tok_lines)@.len() == final(tok_texts)@.len(),
        spec_done(final(tok_lines)@, final(tok_texts)@) =~= spec_done(
            old(tok_lines)@,
            old(tok_texts)@,
        ) + spec_line_tokens(line@).map_values(|t: Seq<char>| (lineno as int, t)),
{
    let ghost lv = line@;
    let ghost base = spec_done(old(tok_lines)@, old(tok_texts)@);
    let ghost f = |t: Seq<char>| (lineno as int, t);
    let m = line.unicode_len();
    let mut cur: usize = 0;
    proof {
        assert(lv.skip(0) =~= lv);
        assert(spec_done(tok_lines@, tok_texts@) =~= base);
        assert(base + spec_line_tokens(lv).map_values(f) =~= spec_done(
            tok_lines@,
            tok_texts@,
        ) + spec_line_tokens(lv.skip(0)).map_values(f));
    }
    loop
        invariant_except_break
            cur <= m,
            m == lv.len(),
            lv == line@,
            tok_lines@.len() == tok_texts@.len(),
            f == (|t: Seq<char>| (lineno as int, t)),
            base + spec_line_tokens(lv).map_values(f) =~= spec_done(tok_lines@, tok_texts@)
                + spec_line_tokens(lv.skip(cur as int)).map_values(f),
        ensures
            tok_lines@.len() == tok_texts@.len(),
            spec_done(tok_lines@, tok_texts@) =~= base + spec_line_tokens(lv).map_values(f),
        decreases m - cur,
    {
        let ghost lrem = lv.skip(cur as int);
        let mut j: usize = cur;
        while j < m && line.get_char(j) != ' ' && line.get_char(j) != ','
            invariant
                cur <= j <= m,
                m == lv.len(),
                lv == line@,
                lrem == lv.skip(cur as int),
                find_delim(lrem, 0) == find_delim(lrem, j - cur),
                forall|q: int| 0 <= q < j - cur ==> lrem[q] != ' ' && lrem[q] != ',',
            decreases m - j,
        {
            proof {
                assert(lrem[j - cur] == lv[j as int]);
            }
            j = j + 1;
        }
        proof {
            if j < m {
                assert(lrem[j - cur] == lv[j as int]);
                assert(find_delim(lrem, j - cur) == j - cur);
            }
        }
        let tok = line.substring_char(cur, j);
        let ghost old_done = spec_done(tok_lines@, tok_texts@);
        tok_lines.push(lineno);
        tok_texts.push(tok.to_owned());
        proof {
            lemma_done_push(old_done, tok_lines@, tok_texts@, lineno as int, tok@);
        }
        if j == m {
            proof {
                assert(spec_line_tokens(lrem) =~= seq![lrem]);
                assert(tok@ =~= lrem);
                assert(seq![lrem].map_values(f) =~= seq![f(lrem)]);
                assert(spec_done(tok_lines@, tok_texts@) =~= old_done.push(f(lrem)));
                assert(spec_done(tok_lines@, tok_texts@) =~= base + spec_line_tokens(
                    lv,
                ).map_values(f));
            }
            break;
        }
        let c = line.get_char(j);
        let next: usize = if c == ',' {
            proof {
                assert(spec_line_tokens(lrem) == seq![lrem.take(j - cur)]
                    + spec_line_tokens(lrem.skip(j - cur + 1)));
                assert(lrem.skip(j - cur + 1) =~= lv.skip(j + 1));
            }
            j + 1
        } else {
            let mut k2: usize = j;
            while k2 < m && line.get_char(k2) == ' '
                invariant
                    cur <= j <= k2 <= m,
                    m == lv.len(),
                    lv == line@,
                    lrem == lv.skip(cur as int),
                    skip_spaces(lrem, j - cur) == skip_spaces(lrem, k2 - cur),
                decreases m - k2,
            {
                proof {
                    assert(lrem[k2 - cur] == lv[k2 as int]);
                }
                k2 = k2 + 1;
            }
            proof {
                if k2 < m {
                    assert(lrem[k2 - cur] == lv[k2 as int]);
                    assert(skip_spaces(lrem, k2 - cur) == k2 - cur);
                }
                assert(skip_spaces(lrem, j - cur) == k2 - cur);
                assert(k2 > j);
                assert(spec_line_tokens(lrem) == seq![lrem.take(j - cur)]
                    + spec_line_tokens(lrem.skip(k2 - cur)));
                assert(lrem.skip(k2 - cur) =~= lv.skip(k2 as int));
            }
            k2
        };
        proof {
            let tail = spec_line_tokens(lv.skip(next as int));
            assert(tok@ =~= lrem.take(j - cur));
            assert(spec_line_tokens(lrem).map_values(f) =~= seq![f(tok@)]
                + tail.map_values(f));
            assert(spec_done(tok_lines@, tok_texts@) =~= old_done.push(f(tok@)));
            assert(base + spec_line_tokens(lv).map_values(f) =~= spec_done(
                tok_lines@,
                tok_texts@,
            ) + tail.map_values(f));
        }
        cur = next;
    }
}

/// The token stream two parallel vectors stand for.
pub open spec fn spec_done(tls: Seq<usize>, tts: Seq<String>) -> Seq<(int, Seq<char>)> {
    Seq::new(tls.len(), |i: int| (tls[i] as int, tts[i]@))
}

/// Pushing one token extends the stream the vectors stand for by one pair.
proof fn lemma_done_push(
    old_done: Seq<(int, Seq<char>)>,
    tls: Seq<usize>,
    tts: Seq<String>,
    line: int,
    text: Seq<char>,
)
    requires
        tls.len() == tts.len(),
        tls.len() >= 1,
        old_done =~= spec_done(tls.drop_last(), tts.drop_last()),
        tls.last() as int == line,
        tts.last()@ == text,
    ensures
        spec_done(tls, tts) =~= old_done.push((line, text)),
{
    assert forall|i: int| 0 <= i < tls.len() implies spec_done(tls, tts)[i]
        == old_done.push((line, text))[i] by {
        if i < tls.len() - 1 {
            assert(tls.drop_last()[i] == tls[i]);
            assert(tts.drop_last()[i] == tts[i]);
        }
    }
}


/// What one token of the post-TILT stream does to the document: the first
/// thirteen positions are the fixed scalars, then the declared counts bound
/// the vertical-angle, horizontal-angle and candela sections.
pub open spec fn spec_token_effect(
    d0: IesFile,
    d1: IesFile,
    iitem: int,
    iline: int,
    tok: Seq<char>,
    r: Result<(), Error>,
) -> bool {
    if iitem == 0 {
        if u32_text_ok(tok) {
            r == Ok::<(), Error>(()) && d1 == (IesFile {
                n_lamps: int_text_val(tok) as usize,
                ..d0
            })
        } else {
            r == Err::<(), Error>(Error::ParseIntError(iline as usize, Some((iitem + 1) as usize)))
                && d1 == d0
        }
    } else if iitem == 1 {
        spec_ies_fixed_field(d0, d1, tok, r, iitem, iline, (IesFile {
            lumens_per_lamp: fixed_text_val(tok) as i64,
            ..d0
        }))
    } else if iitem == 2 {
        spec_ies_fixed_field(d0, d1, tok, r, iitem, iline, (IesFile {
            candela_multiplying_factor: fixed_text_val(tok) as i64,
            ..d0
        }))
    } else if iitem == 3 {
        if u32_text_ok(tok) {
            r == Ok::<(), Error>(()) && d1 == (IesFile {
                n_vertical_angles: int_text_val(tok) as usize,
                ..d0
            })
        } else {
            r == Err::<(), Error>(Error::ParseIntError(iline as usize, Some((iitem + 1) as usize)))
                && d1 == d0
        }
    } else if iitem == 4 {
        if u32_text_ok(tok) {
            r == Ok::<(), Error>(()) && d1 == (IesFile {
                n_horizontal_angles: int_text_val(tok) as usize,
                ..d0
            })
        } else {
            r == Err::<(), Error>(Error::ParseIntError(iline as usize, Some((iitem + 1) as usize)))
                && d1 == d0
        }
    } else if iitem == 5 {
        if !u32_text_ok(tok) {
            r == Err::<(), Error>(Error::ParseIntError(iline as usize, Some((iitem + 1) as usize)))
                && d1 == d0
        } else {
            match IesPhotometryType::from_primitive_spec(int_text_val(tok)) {
                Some(t) => r == Ok::<(), Error>(()) && d1 == (IesFile {
                    photometric_type: t,
                    ..d0
                }),
                None => r == Err::<(), Error>(Error::FromPrimitiveError(iline as usize))
                    && d1 == d0,
            }
        }
    } else if iitem == 6 {
        if u32_text_ok(tok) {
            r == Ok::<(), Error>(()) && d1 == (IesFile {
                luminous_opening_units: (if int_text_val(tok) == 1 {
                    LuminousOpeningUnits::Feet
                } else {
                    LuminousOpeningUnits::Meters
                }),
                ..d0
            })
        } else {
            r == Err::<(), Error>(Error::ParseIntError(iline as usize, Some((iitem + 1) as usize)))
                && d1 == d0
        }
    } else if iitem == 7 {
        spec_ies_fixed_field(d0, d1, tok, r, iitem, iline, (IesFile {
            luminous_opening_width: fixed_text_val(tok) as i64,
            ..d0
        }))
    } else if iitem == 8 {
        spec_ies_fixed_field(d0, d1, tok, r, iitem, iline, (IesFile {
            luminous_opening_length: fixed_text_val(tok) as i64,
            ..d0
        }))
    } else if iitem == 9 {
        spec_ies_fixed_field(d0, d1, tok, r, iitem, iline, (IesFile {
            luminous_opening_height: fixed_text_val(tok) as i64,
            ..d0
        }))
    } else if iitem == 10 {
        spec_ies_fixed_field(d0, d1, tok, r, iitem, iline, (IesFile {
            ballast_factor: fixed_text_val(tok) as i64,
            ..d0
        }))
    } else if iitem == 11 {
        // A reserved slot: read and ignored.
        r == Ok::<(), Error>(()) && d1 == d0
    } else if iitem == 12 {
        spec_ies_fixed_field(d0, d1, tok, r, iitem, iline, (IesFile {
            input_watts: fixed_text_val(tok) as i64,
            ..d0
        }))
    } else if 13 <= iitem < 13 + d0.n_vertical_angles as int {
        if fixed_text_ok(tok) {
            r == Ok::<(), Error>(()) && d1.vertical_angles@ == d0.vertical_angles@.push(
                fixed_text_val(tok) as i64,
            ) && d1 == (IesFile { vertical_angles: d1.vertical_angles, ..d0 })
        } else {
            r == Err::<(), Error>(
                Error::ParseFloatError(iline as usize, Some((iitem + 1) as usize)),
            ) && d1 == d0
        }
    } else if 13 + d0.n_vertical_angles as int <= iitem < 13 + d0.n_vertical_angles as int
        + d0.n_horizontal_angles as int {
        if fixed_text_ok(tok) {
            r == Ok::<(), Error>(()) && d1.horizontal_angles@ == d0.horizontal_angles@.push(
                fixed_text_val(tok) as i64,
            ) && d1 == (IesFile { horizontal_angles: d1.horizontal_angles, ..d0 })
        } else {
            r == Err::<(), Error>(
                Error::ParseFloatError(iline as usize, Some((iitem + 1) as usize)),
            ) && d1 == d0
        }
    } else {
        if fixed_text_ok(tok) {
            r == Ok::<(), Error>(()) && d1.candela_values@ == d0.candela_values@.push(
                fixed_text_val(tok) as i64,
            ) && d1 == (IesFile { candela_values: d1.candela_values, ..d0 })
        } else {
            r == Err::<(), Error>(
                Error::ParseFloatError(iline as usize, Some((iitem + 1) as usize)),
            ) && d1 == d0
        }
    }
}

/// A token holding one fixed-point value: on success the document becomes
/// `set`, on failure it stands and the error carries the token's position.
pub open spec fn spec_ies_fixed_field(
    d0: IesFile,
    d1: IesFile,
    tok: Seq<char>,
    r: Result<(), Error>,
    iitem: int,
    iline: int,
    set: IesFile,
) -> bool {
    if fixed_text_ok(tok) {
        r == Ok::<(), Error>(()) && d1 == set
    } else {
        r == Err::<(), Error>(Error::ParseFloatError(iline as usize, Some((iitem + 1) as usize)))
            && d1 == d0
    }
}

impl IesFile {
    /// Processes one token of the post-TILT numeric stream, consumed by
    /// position: the token index is 0-based over the whole stream, the line
    /// is the 1-based line the token stood on.
    pub fn process_token(&mut self, iitem: usize, iline: usize, tok: &str) -> (r: Result<
        (),
        Error,
    >)
        requires
            old(self).n_vertical_angles <= 0xffff_ffff,
            old(self).n_horizontal_angles <= 0xffff_ffff,
            iitem < usize::MAX,
        ensures
            spec_token_effect(*old(self), *final(self), iitem as int, iline as int, tok@, r),
            final(self).n_vertical_angles <= 0xffff_ffff,
            final(self).n_horizontal_angles <= 0xffff_ffff,
            final(self).standard == old(self).standard,
            final(self).keywords == old(self).keywords,
            final(self).tilt == old(self).tilt,
    {
        let nv = self.n_vertical_angles as u64;
        let nh = self.n_horizontal_angles as u64;
        let it = iitem as u64;
        if iitem == 0 {
            match parse_u32(&iline, tok) {
                Ok(v) => {
                    self.n_lamps = v as usize;
                    Ok(())
                },
                Err(_) => Err(Error::ParseIntError(iline, Some(iitem + 1))),
            }
        } else if iitem == 1 {
            match parse_fixed(&iline, tok) {
                Ok(v) => {
                    self.lumens_per_lamp = v;
                    Ok(())
                },
                Err(_) => Err(Error::ParseFloatError(iline, Some(iitem + 1))),
            }
        } else if iitem == 2 {
            match parse_fixed(&iline, tok) {
                Ok(v) => {
                    self.candela_multiplying_factor = v;
                    Ok(())
                },
                Err(_) => Err(Error::ParseFloatError(iline, Some(iitem + 1))),
            }
        } else if iitem == 3 {
            match parse_u32(&iline, tok) {
                Ok(v) => {
                    self.n_vertical_angles = v as usize;
                    Ok(())
                },
                Err(_) => Err(Error::ParseIntError(iline, Some(iitem + 1))),
            }
        } else if iitem == 4 {
            match parse_u32(&iline, tok) {
                Ok(v) => {
                    self.n_horizontal_angles = v as usize;
                    Ok(())
                },
                Err(_) => Err(Error::ParseIntError(iline, Some(iitem + 1))),
            }
        } else if iitem == 5 {
            match parse_u32(&iline, tok) {
                Ok(v) => match IesPhotometryType::from_primitive(v as usize) {
                    Some(t) => {
                        self.photometric_type = t;
                        Ok(())
                    },
                    None => Err(Error::FromPrimitiveError(iline)),
                },
                Err(_) => Err(Error::ParseIntError(iline, Some(iitem + 1))),
            }
        } else if iitem == 6 {
            match parse_u32(&iline, tok) {
                Ok(v) => {
                    self.luminous_opening_units = LuminousOpeningUnits::from_primitive(
                        v as usize,
                    );
                    Ok(())
                },
                Err(_) => Err(Error::ParseIntError(iline, Some(iitem + 1))),
            }
        } else if iitem == 7 {
            match parse_fixed(&iline, tok) {
                Ok(v) => {
                    self.luminous_opening_width = v;
                    Ok(())
                },
                Err(_) => Err(Error::ParseFloatError(iline, Some(iitem + 1))),
            }
        } else if iitem == 8 {
            match parse_fixed(&iline, tok) {
                Ok(v) => {
                    self.luminous_opening_length = v;
                    Ok(())
                },
                Err(_) => Err(Error::ParseFloatError(iline, Some(iitem + 1))),
            }
        } else if iitem == 9 {
            match parse_fixed(&iline, tok) {
                Ok(v) => {
                    self.luminous_opening_height = v;
                    Ok(())
                },
                Err(_) => Err(Error::ParseFloatError(iline, Some(iitem + 1))),
            }
        } else if iitem == 10 {
            match parse_fixed(&iline, tok) {
                Ok(v) => {
                    self.ballast_factor = v;
                    Ok(())
                },
                Err(_) => Err(Error::ParseFloatError(iline, Some(iitem + 1))),
            }
        } else if iitem == 11 {
            Ok(())
        } else if iitem == 12 {
            match parse_fixed(&iline, tok) {
                Ok(v) => {
                    self.input_watts = v;
                    Ok(())
                },
                Err(_) => Err(Error::ParseFloatError(iline, Some(iitem + 1))),
            }
        } else if 13 <= it && it < 13 + nv {
            match parse_fixed(&iline, tok) {
                Ok(v) => {
                    self.vertical_angles.push(v);
                    Ok(())
                },
                Err(_) => Err(Error::ParseFloatError(iline, Some(iitem + 1))),
            }
        } else if 13 + nv <= it && it < 13 + nv + nh {
            match parse_fixed(&iline, tok) {
                Ok(v) => {
                    self.horizontal_angles.push(v);
                    Ok(())
                },
                Err(_) => Err(Error::ParseFloatError(iline, Some(iitem + 1))),
            }
        } else {
            match parse_fixed(&iline, tok) {
                Ok(v) => {
                    self.candela_values.push(v);
                    Ok(())
                },
                Err(_) => Err(Error::ParseFloatError(iline, Some(iitem + 1))),
            }
        }
    }
}


/// Whether a raw line opens the TILT section.
pub open spec fn line_has_tilt(l: Seq<char>) -> bool {
    l.len() >= 5 && l.subrange(0, 5) == "TILT="@
}

/// The index of the first line opening the TILT section, or the line count
/// if none does.
pub open spec fn spec_first_tilt(lines: Seq<Seq<char>>, i: int) -> int
    decreases lines.len() - i,
{
    if i < 0 || i >= lines.len() {
        lines.len() as int
    } else if line_has_tilt(lines[i]) {
        i
    } else {
        spec_first_tilt(lines, i + 1)
    }
}

/// Finds the first `TILT=` line: its 0-based index, and the bounds of its
/// raw text.
fn find_tilt(s: &str) -> (r: Option<(usize, usize, usize, usize)>)
    ensures
        ({
            let lines = spec_split_lines(s@);
            match r {
                Some((idx, lo, hi, nxt)) => {
                    &&& idx as int == spec_first_tilt(lines, 0)
                    &&& idx < lines.len()
                    &&& lo <= hi <= s@.len()
                    &&& lo + 5 <= hi
                    &&& nxt <= s@.len()
                    &&& line_has_tilt(lines[idx as int])
                    &&& lines[idx as int] =~= s@.subrange(lo as int, hi as int)
                    &&& lines =~= lines.take(idx + 1) + spec_split_lines(
                        s@.skip(nxt as int),
                    )
                },
                None => spec_first_tilt(lines, 0) == lines.len(),
            }
        }),
{
    let ghost all_lines = spec_split_lines(s@);
    proof {
        crate::text::lemma_split_lines_len_le(s@);
    }
    let n = s.unicode_len();
    let mut pos: usize = 0;
    let mut lineno: usize = 0;
    proof {
        assert(s@.skip(0) =~= s@);
        assert(all_lines =~= all_lines.take(0) + spec_split_lines(s@.skip(0)));
    }
    while pos < n
        invariant
            pos <= n,
            n == s@.len(),
            all_lines == spec_split_lines(s@),
            all_lines.len() <= n,
            lineno <= all_lines.len(),
            all_lines =~= all_lines.take(lineno as int) + spec_split_lines(
                s@.skip(pos as int),
            ),
            spec_first_tilt(all_lines, 0) == spec_first_tilt(all_lines, lineno as int),
            forall|q: int| 0 <= q < lineno ==> !line_has_tilt(#[trigger] all_lines[q]),
        decreases n - pos,
    {
        let ghost rem = s@.skip(pos as int);
        let mut e: usize = pos;
        while e < n && s.get_char(e) != '\n'
            invariant
                pos <= e <= n,
                n == s@.len(),
                rem == s@.skip(pos as int),
                find_nl(rem, 0) == find_nl(rem, e - pos),
                forall|q: int| 0 <= q < e - pos ==> rem[q] != '\n',
            decreases n - e,
        {
            proof {
                assert(rem[e - pos] == s@[e as int]);
            }
            e = e + 1;
        }
        proof {
            if e < n {
                assert(rem[e - pos] == s@[e as int]);
                assert(find_nl(rem, e - pos) == e - pos);
            }
            if e == n {
                assert(all_lines[lineno as int] == rem);
                assert(rem =~= s@.subrange(pos as int, e as int));
            } else {
                assert(spec_split_lines(rem) == seq![rem.take(e - pos)] + spec_split_lines(
                    rem.skip(e - pos + 1),
                ));
                assert(all_lines[lineno as int] == rem.take(e - pos));
                assert(rem.take(e - pos) =~= s@.subrange(pos as int, e as int));
            }
            assert(lineno < all_lines.len());
        }
        let is_tilt = e - pos >= 5 && crate::text::str_eq(
            s.substring_char(pos, pos + 5),
            "TILT=",
        );
        proof {
            let l = all_lines[lineno as int];
            if e - pos >= 5 {
                assert(l.subrange(0, 5) =~= s@.subrange(pos as int, pos + 5));
            }
            if is_tilt {
                assert(line_has_tilt(l));
            } else {
                assert(!line_has_tilt(l));
            }
        }
        if is_tilt {
            let nxt: usize = if e < n {
                e + 1
            } else {
                n
            };
            proof {
                if e < n {
                    assert(rem.skip(e - pos + 1) =~= s@.skip(e + 1));
                } else {
                    assert(s@.skip(n as int).len() == 0);
                    assert(spec_split_lines(s@.skip(n as int))
                        =~= Seq::<Seq<char>>::empty());
                }
                assert(all_lines.take(lineno + 1) =~= all_lines.take(lineno as int)
                    + seq![all_lines[lineno as int]]);
            }
            return Some((lineno, pos, e, nxt));
        }
        proof {
            if e < n {
                assert(rem.skip(e - pos + 1) =~= s@.skip(e + 1));
            } else {
                assert(s@.skip(n as int).len() == 0);
                assert(spec_split_lines(s@.skip(n as int)) =~= Seq::<Seq<char>>::empty());
            }
            assert(all_lines.take(lineno + 1) =~= all_lines.take(lineno as int)
                + seq![all_lines[lineno as int]]);
        }
        lineno = lineno + 1;
        pos = if e < n {
            e + 1
        } else {
            n
        };
    }
    proof {
        assert(s@.skip(n as int).len() == 0);
        assert(spec_split_lines(s@.skip(n as int)) =~= Seq::<Seq<char>>::empty());
        assert(all_lines =~= all_lines.take(lineno as int));
        assert(lineno == all_lines.len());
    }
    None
}

/// How many lines the TILT section occupies: the `TILT=` line itself, plus
/// the four sub-table lines when it reads `TILT=INCLUDE`.
pub open spec fn spec_tilt_skip(lines: Seq<Seq<char>>, t: int) -> int {
    if lines[t].skip(5) == "INCLUDE"@ {
        5
    } else {
        1
    }
}

/// Where the keyword block begins: after the standard tag, unless the 1986
/// revision wrote none.
pub open spec fn kw_begin(std: IesStandard) -> int {
    if std == IesStandard::Iesna1986 {
        0
    } else {
        1
    }
}

/// What follows `TILT=` on the TILT line, carriage return removed.
pub open spec fn spec_tilt_rest(lines: Seq<Seq<char>>, t: int) -> Seq<char> {
    strip_cr(lines[t]).skip(5)
}

/// The post-TILT token stream of a file.
pub open spec fn spec_props_toks(lines: Seq<Seq<char>>, t: int) -> Seq<(int, Seq<char>)> {
    spec_tokens_from(lines, t + spec_tilt_skip(lines, t))
}

/// The numeric stream was consumed whole, token by token, carrying `d0`
/// to `d1`.
pub open spec fn spec_props_ok_from(
    d0: IesFile,
    d1: IesFile,
    toks: Seq<(int, Seq<char>)>,
) -> bool {
    exists|ds: Seq<IesFile>|
        #[trigger] spec_props_steps(ds, toks, toks.len() as int) && ds[0] == d0 && ds[
            toks.len() as int] == d1
}

/// The numeric stream failed at some token, carrying `d0` to `d1` and
/// returning that token's pinned error.
pub open spec fn spec_props_token_err(
    d0: IesFile,
    d1: IesFile,
    toks: Seq<(int, Seq<char>)>,
    e: Error,
) -> bool {
    exists|ds: Seq<IesFile>, k: int|
        #[trigger] spec_props_steps(ds, toks, k) && k < toks.len() && ds[0] == d0 && ds[k]
            == d1 && spec_token_effect(d1, d1, k, toks[k].0, toks[k].1, Err::<(), Error>(e))
}

/// What the TILT stage leaves on success: `NONE` clears the table, and
/// `INCLUDE` fills it from the sub-table lines exactly as
/// [`spec_tilt_outcome`] pins them.
pub open spec fn spec_parse_tilt_ok(lines: Seq<Seq<char>>, t: int, tilt: Option<Tilt>) -> bool {
    &&& (spec_tilt_rest(lines, t) == "NONE"@ ==> tilt is None)
    &&& (spec_tilt_rest(lines, t) == "INCLUDE"@ ==> (tilt matches Some(tab)
        && spec_tilt_outcome(spec_tilt_sub_lines(lines, t), Ok(Some(tab)))))
    &&& (spec_tilt_rest(lines, t) == "NONE"@ || spec_tilt_rest(lines, t) == "INCLUDE"@)
}

/// The first `k` tokens were consumed in order, each successfully.
pub open spec fn spec_props_steps(
    ds: Seq<IesFile>,
    toks: Seq<(int, Seq<char>)>,
    k: int,
) -> bool {
    &&& ds.len() == k + 1
    &&& 0 <= k <= toks.len()
    &&& forall|i: int|
        0 <= i < k ==> spec_token_effect(
            ds[i],
            #[trigger] ds[i + 1],
            i,
            toks[i].0,
            toks[i].1,
            Ok::<(), Error>(()),
        )
}

/// A token that fails leaves the document as it stood.
proof fn lemma_token_err_unchanged(
    d0: IesFile,
    d1: IesFile,
    iitem: int,
    iline: int,
    tok: Seq<char>,
    e: Error,
)
    requires
        spec_token_effect(d0, d1, iitem, iline, tok, Err::<(), Error>(e)),
    ensures
        d1 == d0,
{
}

/// The arrays an IES document must end the numeric section with: one entry
/// per declared vertical and horizontal angle, and one candela value for
/// each pair.
pub open spec fn spec_props_counts(d: IesFile) -> bool {
    &&& d.vertical_angles@.len() == d.n_vertical_angles
    &&& d.horizontal_angles@.len() == d.n_horizontal_angles
    &&& d.candela_values@.len() == d.n_vertical_angles as int * d.n_horizontal_angles as int
}

/// The 1-based line the token stream ended on: the last token's line, or
/// the line count consumed before the stream when it holds no token.
pub open spec fn spec_stream_end_line(toks: Seq<(int, Seq<char>)>, start: int) -> int {
    if toks.len() > 0 {
        toks.last().0
    } else {
        start
    }
}

/// Which structural-length error a document that fails [`spec_props_counts`]
/// earns: the first array, in file order, whose length disagrees with its
/// declared count; the error names the 1-based line the stream ended on, the
/// declared count, and the found count.  Note that the stream is positional:
/// when candela values follow a short horizontal-angle section they are
/// consumed into it, and the shortage then surfaces at the candela count.
pub open spec fn spec_props_count_error(d: IesFile, e: Error, ll: int) -> bool {
    if d.vertical_angles@.len() != d.n_vertical_angles {
        e matches Error::ArrayIncorrectLength(at, exp, got) && at == ll && exp
            == d.n_vertical_angles && got == d.vertical_angles@.len()
    } else if d.horizontal_angles@.len() != d.n_horizontal_angles {
        e matches Error::ArrayIncorrectLength(at, exp, got) && at == ll && exp
            == d.n_horizontal_angles && got == d.horizontal_angles@.len()
    } else {
        e matches Error::ArrayIncorrectLength(at, exp, got) && at == ll && got
            == d.candela_values@.len() && (d.n_vertical_angles as int
            * d.n_horizontal_angles as int <= usize::MAX ==> exp == d.n_vertical_angles as int
            * d.n_horizontal_angles as int)
    }
}

impl IesFile {
    /// Reads the numeric properties from the post-TILT token stream,
    /// consumed by position across line breaks: thirteen scalars, the
    /// vertical angles, the horizontal angles, then the candela values.
    /// After the stream is consumed, each array must have exactly the length
    /// its declared count calls for; the first disagreement, in file order,
    /// is a structural-length error naming the declared and the found count
    /// and the 1-based line the stream ended on.
    #[verifier::rlimit(60)]
    pub fn parse_properties(&mut self, ies_string: &str) -> (r: Result<(), Error>)
        requires
            old(self).n_vertical_angles <= 0xffff_ffff,
            old(self).n_horizontal_angles <= 0xffff_ffff,
            ies_string@.len() < usize::MAX - 8,
        ensures
            ({
                let lines = spec_split_lines(ies_string@);
                let t = spec_first_tilt(lines, 0);
                let toks = spec_props_toks(lines, t);
                match r {
                    Ok(()) => {
                        &&& t < lines.len()
                        &&& spec_props_ok_from(*old(self), *final(self), toks)
                        &&& spec_props_counts(*final(self))
                    },
                    Err(e) => {
                        ||| (e == Error::TiltNotDefined && t == lines.len())
                        ||| (t < lines.len() && spec_props_token_err(
                            *old(self),
                            *final(self),
                            toks,
                            e,
                        ))
                        ||| (t < lines.len() && spec_props_ok_from(
                            *old(self),
                            *final(self),
                            toks,
                        ) && !spec_props_counts(*final(self)) && spec_props_count_error(
                            *final(self),
                            e,
                            spec_stream_end_line(toks, t + spec_tilt_skip(lines, t)),
                        ))
                    },
                }
            }),
            final(self).standard == old(self).standard,
            final(self).keywords == old(self).keywords,
            final(self).tilt == old(self).tilt,
            final(self).n_vertical_angles <= 0xffff_ffff,
            final(self).n_horizontal_angles <= 0xffff_ffff,
    {
        let ghost lines = spec_split_lines(ies_string@);
        let tilt = match find_tilt(ies_string) {
            None => {
                return Err(Error::TiltNotDefined);
            },
            Some(t) => t,
        };
        let (t_idx, t_lo, t_hi, _) = tilt;
        let rest = ies_string.substring_char(t_lo + 5, t_hi);
        let skip: usize = if crate::text::str_eq(rest, "INCLUDE") {
            5
        } else {
            1
        };
        proof {
            assert(lines[t_idx as int].skip(5) =~= ies_string@.subrange(
                t_lo + 5,
                t_hi as int,
            ));
            assert(skip == spec_tilt_skip(lines, t_idx as int));
        }
        proof {
            crate::text::lemma_split_lines_len_le(ies_string@);
        }
        let start = t_idx + skip;
        let (tok_lines, tok_texts) = tokenize_from(ies_string, start);
        let ghost toks = spec_tokens_from(
            lines,
            spec_first_tilt(lines, 0) + spec_tilt_skip(lines, spec_first_tilt(lines, 0)),
        );
        proof {
            assert(spec_first_tilt(lines, 0) == t_idx as int);
            assert(toks == spec_tokens_from(lines, start as int));
        }
        let n_toks = tok_lines.len();
        let mut last_line: usize = start;
        let mut i: usize = 0;
        let ghost mut ds: Seq<IesFile> = seq![*old(self)];
        while i < n_toks
            invariant
                i <= n_toks,
                n_toks == tok_lines@.len(),
                n_toks == tok_texts@.len(),
                toks == spec_tokens_from(
                    lines,
                    spec_first_tilt(lines, 0) + spec_tilt_skip(
                        lines,
                        spec_first_tilt(lines, 0),
                    ),
                ),
                lines == spec_split_lines(ies_string@),
                spec_done(tok_lines@, tok_texts@) =~= toks,
                toks.len() == n_toks,
                spec_props_steps(ds, toks, i as int),
                ds[0] == *old(self),
                ds[i as int] == *self,
                self.n_vertical_angles <= 0xffff_ffff,
                self.n_horizontal_angles <= 0xffff_ffff,
                self.standard == old(self).standard,
                self.keywords == old(self).keywords,
                self.tilt == old(self).tilt,
                i == 0 ==> last_line == start,
                i > 0 ==> last_line as int == toks[i - 1].0,
                start as int == t_idx + skip,
            decreases n_toks - i,
        {
            let il = tok_lines[i];
            let res = self.process_token(i, il, tok_texts[i].as_str());
            proof {
                assert(toks[i as int].0 == il as int);
                assert(toks[i as int].1 == tok_texts@[i as int]@);
            }
            match res {
                Ok(()) => {
                    proof {
                        let ds_old = ds;
                        ds = ds.push(*self);
                        assert forall|q: int|
                            0 <= q < i + 1 implies spec_token_effect(
                            ds[q],
                            #[trigger] ds[q + 1],
                            q,
                            toks[q].0,
                            toks[q].1,
                            Ok::<(), Error>(()),
                        ) by {
                            if q < i {
                                assert(ds[q] == ds_old[q]);
                                assert(ds[q + 1] == ds_old[q + 1]);
                            } else {
                                assert(ds[q] == ds_old[i as int]);
                                assert(ds[q + 1] == *self);
                            }
                        }
                        assert(spec_props_steps(ds, toks, i + 1));
                    }
                },
                Err(e2) => {
                    proof {
                        lemma_token_err_unchanged(
                            ds[i as int],
                            *self,
                            i as int,
                            il as int,
                            toks[i as int].1,
                            e2,
                        );
                        assert(spec_props_steps(ds, toks, i as int) && (i as int)
                            < toks.len() && ds[0] == *old(self) && ds[i as int] == *self
                            && spec_token_effect(
                            *self,
                            *self,
                            i as int,
                            toks[i as int].0,
                            toks[i as int].1,
                            Err::<(), Error>(e2),
                        ));
                    }
                    return Err(e2);
                },
            }
            last_line = il;
            i = i + 1;
        }
        proof {
            assert(spec_props_steps(ds, toks, toks.len() as int) && ds[0] == *old(self)
                && ds[toks.len() as int] == *self);
            assert(last_line as int == spec_stream_end_line(toks, t_idx + skip));
        }
        // The declared counts must be met exactly.
        let nv = self.n_vertical_angles;
        let nh = self.n_horizontal_angles;
        if self.vertical_angles.len() != nv {
            return Err(Error::ArrayIncorrectLength(last_line, nv, self.vertical_angles.len()));
        }
        if self.horizontal_angles.len() != nh {
            return Err(
                Error::ArrayIncorrectLength(last_line, nh, self.horizontal_angles.len()),
            );
        }
        proof {
            assert((nv as int) * (nh as int) < 0x1_0000_0000_0000_0000_0000)
                by (nonlinear_arith)
                requires
                    0 <= nv <= 0xffff_ffff,
                    0 <= nh <= 0xffff_ffff,
            ;
        }
        let expected: u128 = (nv as u128) * (nh as u128);
        if self.candela_values.len() as u128 != expected {
            return Err(
                Error::ArrayIncorrectLength(
                    last_line,
                    crate::io::eulumdat::eulumdat_file::clamp_usize(expected),
                    self.candela_values.len(),
                ),
            );
        }
        Ok(())
    }
}


/// A raw line with a trailing carriage return removed.
pub open spec fn strip_cr(l: Seq<char>) -> Seq<char> {
    if l.len() > 0 && l.last() == '\r' {
        l.drop_last()
    } else {
        l
    }
}

/// The end of the keyword name: the first index at or after `i` that is not
/// an upper-case letter or underscore.
pub open spec fn kw_end(l: Seq<char>, i: int) -> int
    decreases l.len() - i,
{
    if i < 0 || i >= l.len() {
        l.len() as int
    } else if ('A' <= l[i] && l[i] <= 'Z') || l[i] == '_' {
        kw_end(l, i + 1)
    } else {
        i
    }
}

/// The keyword and value of a line shaped `[KEYWORD] value`: the name is one
/// or more upper-case letters or underscores in brackets, a space follows,
/// and the rest of the line is the value.
pub open spec fn spec_kw_line(l: Seq<char>) -> Option<(Seq<char>, Seq<char>)> {
    if l.len() >= 4 && l[0] == '[' {
        let j = kw_end(l, 1);
        if j > 1 && j + 1 < l.len() && l[j] == ']' && l[j + 1] == ' ' {
            Some((l.subrange(1, j), l.skip(j + 2)))
        } else {
            None
        }
    } else {
        None
    }
}

/// The keyword pairs after folding the lines `i..end` into `acc`: a `MORE`
/// line appends its value, after a separating space, to the last pair; any
/// line that does not read as a keyword pair fails with its 1-based number.
#[verifier::opaque]
pub open spec fn spec_keywords_fold(
    lines: Seq<Seq<char>>,
    i: int,
    end: int,
    acc: Seq<(Seq<char>, Seq<char>)>,
) -> Result<Seq<(Seq<char>, Seq<char>)>, int>
    decreases end - i,
{
    if i < 0 || i >= end || i >= lines.len() {
        Ok(acc)
    } else {
        match spec_kw_line(strip_cr(lines[i])) {
            None => Err(i + 1),
            Some((k, v)) => {
                if k == "MORE"@ {
                    if acc.len() == 0 {
                        Err(i + 1)
                    } else {
                        spec_keywords_fold(
                            lines,
                            i + 1,
                            end,
                            acc.update(
                                acc.len() - 1,
                                (acc.last().0, acc.last().1 + " "@ + v),
                            ),
                        )
                    }
                } else {
                    spec_keywords_fold(lines, i + 1, end, acc.push((k, v)))
                }
            },
        }
    }
}

/// The views of a keyword vector.
pub open spec fn spec_kw_view(kws: Seq<(String, String)>) -> Seq<(Seq<char>, Seq<char>)> {
    Seq::new(kws.len(), |i: int| (kws[i].0@, kws[i].1@))
}

impl IesFile {
    /// Parses the keyword section: every line between the standard tag (when
    /// one is present) and the `TILT=` line must read as `[KEYWORD] value`,
    /// and a `[MORE]` line appends to the keyword before it.  The pairs keep
    /// their file order.
    #[verifier::rlimit(100)]
    pub fn parse_keywords(&mut self, ies_string: &str) -> (r: Result<(), Error>)
        ensures
            ({
                let lines = spec_split_lines(ies_string@);
                let t = spec_first_tilt(lines, 0);
                let begin: int = if old(self).standard == IesStandard::Iesna1986 {
                    0
                } else {
                    1
                };
                match r {
                    Ok(()) => {
                        &&& t < lines.len()
                        &&& spec_keywords_fold(lines, begin, t, spec_kw_view(
                            old(self).keywords@,
                        )) == Ok::<_, int>(spec_kw_view(final(self).keywords@))
                        &&& *final(self) == (IesFile {
                            keywords: final(self).keywords,
                            ..*old(self)
                        })
                    },
                    Err(Error::TiltNotDefined) => t == lines.len()
                        && *final(self) == *old(self),
                    Err(Error::InvalidKeyword(at)) => t < lines.len()
                        && spec_keywords_fold(lines, begin, t, spec_kw_view(
                        old(self).keywords@,
                    )) == Err::<Seq<(Seq<char>, Seq<char>)>, _>(at as int) && *final(self)
                        == (IesFile { keywords: final(self).keywords, ..*old(self) }),
                    Err(_) => false,
                }
            }),
    {
        let ghost lines = spec_split_lines(ies_string@);
        let t_idx = match find_tilt(ies_string) {
            None => {
                return Err(Error::TiltNotDefined);
            },
            Some((idx, _, _, _)) => idx,
        };
        let begin: usize = if matches!(self.standard, IesStandard::Iesna1986) {
            0
        } else {
            1
        };
        proof {
            crate::text::lemma_split_lines_len_le(ies_string@);
        }
        let n = ies_string.unicode_len();
        let mut pos: usize = 0;
        let mut lineno: usize = 0;
        proof {
            assert(ies_string@.skip(0) =~= ies_string@);
            assert(lines =~= lines.take(0) + spec_split_lines(ies_string@.skip(0)));
        }
        while pos < n && lineno < t_idx
            invariant
                pos <= n,
                n == ies_string@.len(),
                lines == spec_split_lines(ies_string@),
                lines.len() <= n,
                lineno <= lines.len(),
                t_idx < lines.len(),
                lines =~= lines.take(lineno as int) + spec_split_lines(
                    ies_string@.skip(pos as int),
                ),
                lineno <= t_idx,
                t_idx as int == spec_first_tilt(lines, 0),
                begin as int == (if old(self).standard == IesStandard::Iesna1986 {
                    0int
                } else {
                    1int
                }),
                spec_keywords_fold(
                    lines,
                    begin as int,
                    t_idx as int,
                    spec_kw_view(old(self).keywords@),
                ) == spec_keywords_fold(
                    lines,
                    if lineno as int > begin as int {
                        lineno as int
                    } else {
                        begin as int
                    },
                    t_idx as int,
                    spec_kw_view(self.keywords@),
                ),
                lineno <= begin ==> self.keywords@ == old(self).keywords@,
                *self == (IesFile { keywords: self.keywords, ..*old(self) }),
            decreases n - pos,
        {
            let ghost rem = ies_string@.skip(pos as int);
            let mut e: usize = pos;
            while e < n && ies_string.get_char(e) != '\n'
                invariant
                    pos <= e <= n,
                    n == ies_string@.len(),
                    rem == ies_string@.skip(pos as int),
                    find_nl(rem, 0) == find_nl(rem, e - pos),
                    forall|q: int| 0 <= q < e - pos ==> rem[q] != '\n',
                decreases n - e,
            {
                proof {
                    assert(rem[e - pos] == ies_string@[e as int]);
                }
                e = e + 1;
            }
            proof {
                if e < n {
                    assert(rem[e - pos] == ies_string@[e as int]);
                    assert(find_nl(rem, e - pos) == e - pos);
                }
                if e == n {
                    assert(lines[lineno as int] == rem);
                    assert(rem =~= ies_string@.subrange(pos as int, e as int));
                } else {
                    assert(spec_split_lines(rem) == seq![rem.take(e - pos)]
                        + spec_split_lines(rem.skip(e - pos + 1)));
                    assert(lines[lineno as int] == rem.take(e - pos));
                    assert(rem.take(e - pos) =~= ies_string@.subrange(pos as int, e as int));
                }
                assert(lineno < lines.len());
            }
            let ghost acc0 = spec_kw_view(self.keywords@);
            if lineno >= begin {
                // Drop a trailing carriage return, then read `[KEYWORD] value`.
                let e2: usize = if e > pos && ies_string.get_char(e - 1) == '\r' {
                    e - 1
                } else {
                    e
                };
                let ghost l = strip_cr(lines[lineno as int]);
                proof {
                    assert(l =~= ies_string@.subrange(pos as int, e2 as int));
                }
                if e2 - pos < 4 || ies_string.get_char(pos) != '[' {
                    proof {
                        reveal(spec_keywords_fold);
                        if e2 > pos {
                            assert(l[0] == ies_string@[pos as int]);
                        }
                        assert(spec_kw_line(l) is None);
                        reveal(spec_keywords_fold);
                        assert(spec_keywords_fold(
                            lines,
                            begin as int,
                            t_idx as int,
                            spec_kw_view(old(self).keywords@),
                        ) == Err::<Seq<(Seq<char>, Seq<char>)>, int>(lineno + 1));
                    }
                    return Err(Error::InvalidKeyword(lineno + 1));
                }
                let mut j: usize = pos + 1;
                while j < e2 && (('A' <= ies_string.get_char(j) && ies_string.get_char(j)
                    <= 'Z') || ies_string.get_char(j) == '_')
                    invariant
                        pos + 1 <= j <= e2,
                        e2 <= n == ies_string@.len(),
                        l == strip_cr(lines[lineno as int]),
                        l =~= ies_string@.subrange(pos as int, e2 as int),
                        kw_end(l, 1) == kw_end(l, j - pos),
                    decreases e2 - j,
                {
                    proof {
                        assert(l[j - pos] == ies_string@[j as int]);
                    }
                    j = j + 1;
                }
                proof {
                    if j < e2 {
                        assert(l[j - pos] == ies_string@[j as int]);
                        assert(kw_end(l, j - pos) == j - pos);
                    }
                }
                if j == pos + 1 || j + 1 >= e2 || ies_string.get_char(j) != ']'
                    || ies_string.get_char(j + 1) != ' ' {
                    proof {
                        reveal(spec_keywords_fold);
                        if j < e2 {
                            assert(l[j - pos] == ies_string@[j as int]);
                        }
                        if j + 1 < e2 {
                            assert(l[j - pos + 1] == ies_string@[j + 1]);
                        }
                        assert(spec_kw_line(l) is None);
                        reveal(spec_keywords_fold);
                        assert(spec_keywords_fold(
                            lines,
                            begin as int,
                            t_idx as int,
                            spec_kw_view(old(self).keywords@),
                        ) == Err::<Seq<(Seq<char>, Seq<char>)>, int>(lineno + 1));
                    }
                    return Err(Error::InvalidKeyword(lineno + 1));
                }
                let key = ies_string.substring_char(pos + 1, j);
                let val = ies_string.substring_char(j + 2, e2);
                proof {
                    assert(key@ =~= l.subrange(1, j - pos));
                    assert(val@ =~= l.skip(j - pos + 2));
                    assert(spec_kw_line(l) == Some((key@, val@)));
                }
                if crate::text::str_eq(key, "MORE") {
                    if self.keywords.len() == 0 {
                        proof {
                            reveal(spec_keywords_fold);
                            assert(acc0.len() == 0);
                            reveal(spec_keywords_fold);
                        assert(spec_keywords_fold(
                                lines,
                                begin as int,
                                t_idx as int,
                                spec_kw_view(old(self).keywords@),
                            ) == Err::<Seq<(Seq<char>, Seq<char>)>, int>(lineno + 1));
                        }
                        return Err(Error::InvalidKeyword(lineno + 1));
                    }
                    let (k0, v0) = self.keywords.pop().unwrap();
                    let mut joined = v0;
                    joined.append(" ");
                    joined.append(val);
                    let ghost before = self.keywords@;
                    self.keywords.push((k0, joined));
                    proof {
                        reveal(spec_keywords_fold);
                        assert(spec_kw_view(self.keywords@) =~= acc0.update(
                            acc0.len() - 1,
                            (acc0.last().0, acc0.last().1 + " "@ + val@),
                        ));
                        assert(spec_keywords_fold(lines, lineno as int, t_idx as int, acc0)
                            == spec_keywords_fold(
                            lines,
                            lineno + 1,
                            t_idx as int,
                            spec_kw_view(self.keywords@),
                        ));
                    }
                } else {
                    self.keywords.push((key.to_owned(), val.to_owned()));
                    proof {
                        reveal(spec_keywords_fold);
                        assert(spec_kw_view(self.keywords@) =~= acc0.push((key@, val@)));
                        assert(spec_keywords_fold(lines, lineno as int, t_idx as int, acc0)
                            == spec_keywords_fold(
                            lines,
                            lineno + 1,
                            t_idx as int,
                            spec_kw_view(self.keywords@),
                        ));
                    }
                }
            }
            proof {
                if e < n {
                    assert(rem.skip(e - pos + 1) =~= ies_string@.skip(e + 1));
                } else {
                    assert(ies_string@.skip(n as int).len() == 0);
                    assert(spec_split_lines(ies_string@.skip(n as int))
                        =~= Seq::<Seq<char>>::empty());
                }
                assert(lines.take(lineno + 1) =~= lines.take(lineno as int)
                    + seq![lines[lineno as int]]);
            }
            lineno = lineno + 1;
            pos = if e < n {
                e + 1
            } else {
                n
            };
        }
        proof {
            if pos == n {
                assert(ies_string@.skip(n as int).len() == 0);
                assert(spec_split_lines(ies_string@.skip(n as int))
                    =~= Seq::<Seq<char>>::empty());
                assert(lines =~= lines.take(lineno as int));
                assert(lineno == lines.len());
            }
            reveal(spec_keywords_fold);
            assert(lineno == t_idx || lineno >= begin);
            assert(spec_keywords_fold(
                lines,
                begin as int,
                t_idx as int,
                spec_kw_view(old(self).keywords@),
            ) == Ok::<Seq<(Seq<char>, Seq<char>)>, int>(spec_kw_view(self.keywords@)));
        }
        Ok(())
    }
}


/// A TILT sub-table: lamp-position-dependent intensity multipliers, either
/// inline in the file or loaded from a companion file by the caller.
#[derive(Debug, Clone, Default, PartialEq)]
pub struct Tilt {
    /// The lamp-to-luminaire geometry code.
    pub lamp_to_lumminaire_geometry: usize,
    /// The declared number of tilt angles.
    pub no_tilt_angles: usize,
    /// The tilt angles, in fixed-point degrees.
    pub angles: Vec<i64>,
    /// One multiplying factor per tilt angle.
    pub multiplying_factors: Vec<i64>,
}

/// The values of a line's tokens, read as fixed-point numbers.
pub open spec fn spec_token_values(l: Seq<char>) -> Seq<i64> {
    spec_line_tokens(l).map_values(|t: Seq<char>| fixed_text_val(t) as i64)
}

/// Whether every token of a line reads as a fixed-point number in range.
pub open spec fn spec_tokens_all_fixed(l: Seq<char>) -> bool {
    forall|i: int| 0 <= i < spec_line_tokens(l).len() ==> fixed_text_ok(
        #[trigger] spec_line_tokens(l)[i],
    )
}

/// Whether a line reads as an unsigned integer no larger than 255, the form
/// the two TILT header lines take.
pub open spec fn tilt_u8_ok(l: Seq<char>) -> bool {
    u32_text_ok(l) && int_text_val(l) <= 255
}

/// The angle count the second TILT line declares, or zero while it is absent.
pub open spec fn spec_tilt_declared(lv: Seq<Seq<char>>) -> int {
    if lv.len() > 1 && tilt_u8_ok(lv[1]) {
        int_text_val(lv[1])
    } else {
        0
    }
}

/// What parsing a TILT sub-table of at most four lines returns: on success
/// every present line parses and fills its field (absent lines leave the
/// defaults); otherwise the error of the first failing line, in line order —
/// an integer error on the two header lines, and a number or count error on
/// the two array lines, the count error carrying the declared and the found
/// count.
pub open spec fn spec_tilt_outcome(lv: Seq<Seq<char>>, r: Result<Option<Tilt>, Error>) -> bool {
    match r {
        Ok(Some(t)) => {
            &&& (lv.len() > 0 ==> tilt_u8_ok(lv[0]) && t.lamp_to_lumminaire_geometry
                == int_text_val(lv[0]))
            &&& (lv.len() <= 0 ==> t.lamp_to_lumminaire_geometry == 0)
            &&& (lv.len() > 1 ==> tilt_u8_ok(lv[1]) && t.no_tilt_angles == int_text_val(
                lv[1],
            ))
            &&& (lv.len() <= 1 ==> t.no_tilt_angles == 0)
            &&& (lv.len() > 2 ==> spec_tokens_all_fixed(lv[2]) && t.angles@
                == spec_token_values(lv[2]) && t.angles@.len() == t.no_tilt_angles)
            &&& (lv.len() <= 2 ==> t.angles@.len() == 0)
            &&& (lv.len() > 3 ==> spec_tokens_all_fixed(lv[3]) && t.multiplying_factors@
                == spec_token_values(lv[3]) && t.multiplying_factors@.len()
                == t.no_tilt_angles)
            &&& (lv.len() <= 3 ==> t.multiplying_factors@.len() == 0)
        },
        Ok(None) => false,
        Err(Error::ParseIntError(at, None)) => {
            ||| (at == 1 && lv.len() > 0 && !tilt_u8_ok(lv[0]))
            ||| (at == 2 && lv.len() > 1 && tilt_u8_ok(lv[0]) && !tilt_u8_ok(lv[1]))
        },
        Err(Error::ParseFloatError(at, None)) => {
            ||| (at == 3 && lv.len() > 2 && tilt_u8_ok(lv[0]) && tilt_u8_ok(lv[1])
                && !spec_tokens_all_fixed(lv[2]))
            ||| (at == 4 && lv.len() > 3 && tilt_u8_ok(lv[0]) && tilt_u8_ok(lv[1])
                && spec_tokens_all_fixed(lv[2]) && spec_line_tokens(lv[2]).len()
                == spec_tilt_declared(lv) && !spec_tokens_all_fixed(lv[3]))
        },
        Err(Error::ArrayIncorrectLength(at, expected, found)) => {
            ||| (at == 3 && lv.len() > 2 && tilt_u8_ok(lv[0]) && tilt_u8_ok(lv[1])
                && spec_tokens_all_fixed(lv[2]) && expected == spec_tilt_declared(lv)
                && found == spec_line_tokens(lv[2]).len() && expected != found)
            ||| (at == 4 && lv.len() > 3 && tilt_u8_ok(lv[0]) && tilt_u8_ok(lv[1])
                && spec_tokens_all_fixed(lv[2]) && spec_line_tokens(lv[2]).len()
                == spec_tilt_declared(lv) && spec_tokens_all_fixed(lv[3]) && expected
                == spec_tilt_declared(lv) && found == spec_line_tokens(lv[3]).len()
                && expected != found)
        },
        Err(_) => false,
    }
}

/// The views of a line vector.
pub open spec fn spec_lines_view(ls: Seq<String>) -> Seq<Seq<char>> {
    Seq::new(ls.len(), |i: int| ls[i]@)
}

/// The (at most four) lines of an inline TILT sub-table: what follows the
/// `TILT=` line, carriage returns removed.
pub open spec fn spec_tilt_sub_lines(lines: Seq<Seq<char>>, t: int) -> Seq<Seq<char>> {
    let end = if lines.len() - (t + 1) <= 4 {
        lines.len() as int
    } else {
        t + 5
    };
    lines.subrange(t + 1, end).map_values(|l: Seq<char>| strip_cr(l))
}

impl Tilt {
    /// Returns a new TILT sub-table with default values.
    pub fn new() -> (r: Tilt)
        ensures
            r.lamp_to_lumminaire_geometry == 0,
            r.no_tilt_angles == 0,
            r.angles@.len() == 0,
            r.multiplying_factors@.len() == 0,
    {
        Tilt {
            lamp_to_lumminaire_geometry: 0,
            no_tilt_angles: 0,
            angles: Vec::new(),
            multiplying_factors: Vec::new(),
        }
    }

    /// Parses a TILT sub-table handed over as its (at most four) lines,
    /// carriage returns already removed: the geometry code, the angle count,
    /// the angles, and the multiplying factors; both arrays must have
    /// exactly the declared count.
    pub fn from_lines(ls: &Vec<String>) -> (r: Result<Option<Tilt>, Error>)
        requires
            ls@.len() <= 4,
        ensures
            spec_tilt_outcome(spec_lines_view(ls@), r),
    {
        let ghost lv = spec_lines_view(ls@);
        let mut tilt = Tilt::new();
        let n = ls.len();
        if n > 0 {
            proof {
                assert(lv[0] == ls@[0]@);
            }
            match parse_u32(&1, ls[0].as_str()) {
                Ok(v) => {
                    if v > 255 {
                        return Err(Error::ParseIntError(1, None));
                    }
                    tilt.lamp_to_lumminaire_geometry = v as usize;
                },
                Err(_) => {
                    return Err(Error::ParseIntError(1, None));
                },
            }
        }
        if n > 1 {
            proof {
                assert(lv[1] == ls@[1]@);
            }
            match parse_u32(&2, ls[1].as_str()) {
                Ok(v) => {
                    if v > 255 {
                        return Err(Error::ParseIntError(2, None));
                    }
                    tilt.no_tilt_angles = v as usize;
                },
                Err(_) => {
                    return Err(Error::ParseIntError(2, None));
                },
            }
        }
        if n > 2 {
            proof {
                assert(lv[2] == ls@[2]@);
            }
            let vals = match parse_value_line(&ls[2], 3) {
                Ok(v) => v,
                Err(e) => {
                    return Err(e);
                },
            };
            if vals.len() != tilt.no_tilt_angles {
                return Err(
                    Error::ArrayIncorrectLength(3, tilt.no_tilt_angles, vals.len()),
                );
            }
            tilt.angles = vals;
        }
        if n > 3 {
            proof {
                assert(lv[3] == ls@[3]@);
            }
            let vals = match parse_value_line(&ls[3], 4) {
                Ok(v) => v,
                Err(e) => {
                    return Err(e);
                },
            };
            if vals.len() != tilt.no_tilt_angles {
                return Err(
                    Error::ArrayIncorrectLength(4, tilt.no_tilt_angles, vals.len()),
                );
            }
            tilt.multiplying_factors = vals;
        }
        Ok(Some(tilt))
    }

    /// Parses an inline TILT sub-table from text: at most four lines, or the
    /// too-long error naming the fifth.
    pub fn parse(tilt_str: &str) -> (r: Result<Option<Tilt>, Error>)
        ensures
            ({
                let lines = spec_split_lines(tilt_str@);
                if lines.len() > 4 {
                    r == Err::<Option<Tilt>, Error>(Error::TiltFiltTooLong(5))
                } else {
                    spec_tilt_outcome(lines.map_values(|l: Seq<char>| strip_cr(l)), r)
                }
            }),
    {
        let ghost lines = spec_split_lines(tilt_str@);
        proof {
            assert(tilt_str@.skip(0) =~= tilt_str@);
            assert(lines =~= lines.take(0) + spec_split_lines(tilt_str@.skip(0)));
        }
        let (ls, more) = collect_stripped_lines(tilt_str, 0, Ghost(0), 4);
        if more {
            return Err(Error::TiltFiltTooLong(5));
        }
        proof {
            assert(spec_lines_view(ls@) =~= lines.map_values(|l: Seq<char>| strip_cr(l)));
        }
        Tilt::from_lines(&ls)
    }
}

/// Parses one array line of a TILT sub-table: every token must read as a
/// fixed-point number; the first failure is reported under the given 1-based
/// line number.
fn parse_value_line(line: &String, at: usize) -> (r: Result<Vec<i64>, Error>)
    ensures
        match r {
            Ok(vals) => spec_tokens_all_fixed(line@) && vals@ == spec_token_values(line@),
            Err(e) => e == Error::ParseFloatError(at, None) && !spec_tokens_all_fixed(
                line@,
            ),
        },
{
    let ghost ltoks = spec_line_tokens(line@);
    let mut tls: Vec<usize> = Vec::new();
    let mut tts: Vec<String> = Vec::new();
    tokenize_line(line.as_str(), at, &mut tls, &mut tts);
    let m = tts.len();
    let mut vals: Vec<i64> = Vec::new();
    let mut k: usize = 0;
    while k < m
        invariant
            k <= m,
            m == tts@.len(),
            tls@.len() == m,
            ltoks == spec_line_tokens(line@),
            spec_done(tls@, tts@) =~= ltoks.map_values(|t: Seq<char>| (at as int, t)),
            vals@.len() == k,
            forall|q: int| 0 <= q < k ==> fixed_text_ok(#[trigger] ltoks[q]),
            forall|q: int| 0 <= q < k ==> #[trigger] vals@[q] == fixed_text_val(
                ltoks[q],
            ) as i64,
        decreases m - k,
    {
        proof {
            let f2 = |t: Seq<char>| (at as int, t);
            assert(ltoks.map_values(f2).len() == ltoks.len());
            assert(ltoks.len() == m);
            assert(spec_done(tls@, tts@)[k as int] == ltoks.map_values(f2)[k as int]);
            assert(ltoks.map_values(f2)[k as int] == f2(ltoks[k as int]));
            assert(spec_done(tls@, tts@)[k as int].1 == tts@[k as int]@);
            assert(tts@[k as int]@ == ltoks[k as int]);
        }
        match parse_fixed(&at, tts[k].as_str()) {
            Ok(v) => {
                vals.push(v);
            },
            Err(_) => {
                return Err(Error::ParseFloatError(at, None));
            },
        }
        k = k + 1;
    }
    proof {
        assert(vals@ =~= spec_token_values(line@));
    }
    Ok(vals)
}

/// Collects up to `max` lines starting at a line boundary, each with its
/// carriage return removed; also reports whether any line follows them.
fn collect_stripped_lines(s: &str, from_pos: usize, from_line: Ghost<int>, max: usize) -> (r: (
    Vec<String>,
    bool,
))
    requires
        from_pos <= s@.len(),
        0 <= from_line@ <= spec_split_lines(s@).len(),
        spec_split_lines(s@) =~= spec_split_lines(s@).take(from_line@) + spec_split_lines(
            s@.skip(from_pos as int),
        ),
        max <= 8,
    ensures
        ({
            let lines = spec_split_lines(s@);
            &&& r.0@.len() == (if lines.len() - from_line@ <= max {
                lines.len() - from_line@
            } else {
                max as int
            })
            &&& forall|k: int| 0 <= k < r.0@.len() ==> (#[trigger] r.0@[k])@ == strip_cr(
                lines[from_line@ + k],
            )
            &&& r.1 == (lines.len() - from_line@ > max)
        }),
{
    let ghost all_lines = spec_split_lines(s@);
    proof {
        crate::text::lemma_split_lines_len_le(s@);
    }
    let n = s.unicode_len();
    let mut out: Vec<String> = Vec::new();
    let mut pos: usize = from_pos;
    let ghost mut lineno: int = from_line@;
    while pos < n && out.len() < max
        invariant
            from_pos <= pos <= n,
            n == s@.len(),
            all_lines == spec_split_lines(s@),
            all_lines.len() <= n,
            0 <= from_line@ <= lineno <= all_lines.len(),
            all_lines =~= all_lines.take(lineno) + spec_split_lines(s@.skip(pos as int)),
            out@.len() == lineno - from_line@,
            out@.len() <= max,
            forall|k: int| 0 <= k < out@.len() ==> (#[trigger] out@[k])@ == strip_cr(
                all_lines[from_line@ + k],
            ),
            pos == n ==> lineno == all_lines.len(),
        decreases n - pos,
    {
        let ghost rem = s@.skip(pos as int);
        let mut e: usize = pos;
        while e < n && s.get_char(e) != '\n'
            invariant
                pos <= e <= n,
                n == s@.len(),
                rem == s@.skip(pos as int),
                find_nl(rem, 0) == find_nl(rem, e - pos),
                forall|q: int| 0 <= q < e - pos ==> rem[q] != '\n',
            decreases n - e,
        {
            proof {
                assert(rem[e - pos] == s@[e as int]);
            }
            e = e + 1;
        }
        proof {
            if e < n {
                assert(rem[e - pos] == s@[e as int]);
                assert(find_nl(rem, e - pos) == e - pos);
            }
            assert(rem.len() > 0);
            assert(spec_split_lines(rem).len() > 0);
            assert(lineno < all_lines.len());
            if e == n {
                assert(spec_split_lines(rem) == seq![rem]);
                assert(all_lines[lineno] == rem);
                assert(rem =~= s@.subrange(pos as int, e as int));
            } else {
                assert(spec_split_lines(rem) == seq![rem.take(e - pos)] + spec_split_lines(
                    rem.skip(e - pos + 1),
                ));
                assert(all_lines[lineno] == rem.take(e - pos));
                assert(rem.take(e - pos) =~= s@.subrange(pos as int, e as int));
            }
        }
        let e2: usize = if e > pos && s.get_char(e - 1) == '\r' {
            e - 1
        } else {
            e
        };
        let line = s.substring_char(pos, e2);
        proof {
            assert(line@ =~= strip_cr(all_lines[lineno]));
        }
        out.push(line.to_owned());
        proof {
            if e < n {
                assert(rem.skip(e - pos + 1) =~= s@.skip(e + 1));
                assert(all_lines.take(lineno + 1) =~= all_lines.take(lineno)
                    + seq![all_lines[lineno]]);
                assert(all_lines =~= all_lines.take(lineno + 1) + spec_split_lines(
                    s@.skip(e + 1),
                ));
            } else {
                assert(s@.skip(n as int).len() == 0);
                assert(spec_split_lines(s@.skip(n as int)) =~= Seq::<Seq<char>>::empty());
                assert(all_lines.take(lineno + 1) =~= all_lines.take(lineno)
                    + seq![all_lines[lineno]]);
                assert(all_lines =~= all_lines.take(lineno + 1));
                assert(lineno + 1 == all_lines.len());
            }
            lineno = lineno + 1;
        }
        pos = if e < n {
            e + 1
        } else {
            n
        };
    }
    proof {
        if pos == n {
            assert(s@.skip(n as int).len() == 0);
            assert(spec_split_lines(s@.skip(n as int)) =~= Seq::<Seq<char>>::empty());
            assert(all_lines =~= all_lines.take(lineno));
            assert(lineno == all_lines.len());
        }
    }
    let more = pos < n;
    (out, more)
}

/// A fresh document, as [`IesFile::new`] builds it: zero counts, the
/// default indicators, and empty sections.
pub open spec fn spec_ies_fresh(d: IesFile) -> bool {
    &&& d.n_vertical_angles == 0
    &&& d.n_horizontal_angles == 0
    &&& d.standard == IesStandard::Iesna1986
    &&& d.photometric_type == IesPhotometryType::TypeC
    &&& d.vertical_angles@.len() == 0
    &&& d.horizontal_angles@.len() == 0
    &&& d.candela_values@.len() == 0
    &&& d.keywords@.len() == 0
    &&& d.tilt is None
}

/// Parsing the text carried `d0` to `d1`, every stage succeeding: the
/// standard read from the first line, the keyword fold, the TILT stage, the
/// whole token stream, and the declared counts met exactly.
pub open spec fn spec_ies_parse_ok(d0: IesFile, d1: IesFile, text: Seq<char>) -> bool {
    let lines = spec_split_lines(text);
    let t = spec_first_tilt(lines, 0);
    let toks = spec_props_toks(lines, t);
    let staged = IesFile { standard: d1.standard, keywords: d1.keywords, tilt: d1.tilt, ..d0 };
    &&& lines.len() > 0
    &&& d1.standard == crate::io::ies::standard::spec_standard_of(strip_cr(lines[0]))
    &&& t < lines.len()
    &&& spec_keywords_fold(lines, kw_begin(d1.standard), t, spec_kw_view(d0.keywords@))
        == Ok::<_, int>(spec_kw_view(d1.keywords@))
    &&& spec_parse_tilt_ok(lines, t, d1.tilt)
    &&& spec_props_ok_from(staged, d1, toks)
    &&& spec_props_counts(d1)
}

/// Parsing the text from `d0` failed with `e`, leaving `d1`: the first
/// failing stage's pinned error.
pub open spec fn spec_ies_parse_err(d0: IesFile, d1: IesFile, text: Seq<char>, e: Error) -> bool {
    let lines = spec_split_lines(text);
    let t = spec_first_tilt(lines, 0);
    let toks = spec_props_toks(lines, t);
    let staged = IesFile { standard: d1.standard, keywords: d1.keywords, tilt: d1.tilt, ..d0 };
    ||| (e == Error::EmptyFile && lines.len() == 0 && d1 == d0)
    ||| (e == Error::TiltNotDefined && lines.len() > 0 && t == lines.len())
    ||| (t < lines.len() && (e matches Error::InvalidKeyword(at) && spec_keywords_fold(
        lines,
        kw_begin(d1.standard),
        t,
        spec_kw_view(d0.keywords@),
    ) == Err::<Seq<(Seq<char>, Seq<char>)>, _>(at as int)))
    ||| (t < lines.len() && (e matches Error::TiltFileNotFound(name) && name@
        == spec_tilt_rest(lines, t) && spec_tilt_rest(lines, t) != "NONE"@ && spec_tilt_rest(
        lines,
        t,
    ) != "INCLUDE"@))
    ||| (t < lines.len() && spec_tilt_rest(lines, t) == "INCLUDE"@ && spec_tilt_outcome(
        spec_tilt_sub_lines(lines, t),
        Err(e),
    ))
    ||| (t < lines.len() && spec_props_token_err(staged, d1, toks, e))
    ||| (t < lines.len() && spec_props_ok_from(staged, d1, toks) && !spec_props_counts(d1)
        && spec_props_count_error(d1, e, spec_stream_end_line(
        toks,
        t + spec_tilt_skip(lines, t),
    )))
}

impl IesFile {
    /// Reads the TILT line: `TILT=NONE` clears the sub-table, an inline
    /// `TILT=INCLUDE` parses exactly the (at most) four lines that follow,
    /// and any other value names a companion file, which this crate does not
    /// read itself — the caller loads that file and parses its text with
    /// [`Tilt::parse`].
    pub fn parse_tilt(&mut self, ies_string: &str) -> (r: Result<(), Error>)
        ensures
            ({
                let lines = spec_split_lines(ies_string@);
                let t = spec_first_tilt(lines, 0);
                match r {
                    Ok(()) => {
                        &&& t < lines.len()
                        &&& (strip_cr(lines[t]).skip(5) == "NONE"@ ==> final(self).tilt
                            is None)
                        &&& (strip_cr(lines[t]).skip(5) == "INCLUDE"@
                            ==> (final(self).tilt matches Some(tab)
                            && spec_tilt_outcome(
                                spec_tilt_sub_lines(lines, t),
                                Ok(Some(tab)),
                            )))
                        &&& (strip_cr(lines[t]).skip(5) == "NONE"@ || strip_cr(
                            lines[t],
                        ).skip(5) == "INCLUDE"@)
                        &&& *final(self) == (IesFile { tilt: final(self).tilt, ..*old(self) })
                    },
                    Err(Error::TiltNotDefined) => t == lines.len()
                        && *final(self) == *old(self),
                    Err(Error::TiltFileNotFound(name)) => t < lines.len() && name@
                        == strip_cr(lines[t]).skip(5) && strip_cr(lines[t]).skip(5)
                        != "NONE"@ && strip_cr(lines[t]).skip(5) != "INCLUDE"@
                        && *final(self) == *old(self),
                    Err(Error::EmptyFile) => false,
                    Err(e) => t < lines.len() && strip_cr(lines[t]).skip(5) == "INCLUDE"@
                        && spec_tilt_outcome(spec_tilt_sub_lines(lines, t), Err(e))
                        && *final(self) == *old(self),
                }
            }),
    {
        proof {
            reveal_strlit("NONE");
            reveal_strlit("INCLUDE");
        }
        let ghost lines = spec_split_lines(ies_string@);
        let (t_idx, t_lo, t_hi, t_nxt) = match find_tilt(ies_string) {
            None => {
                return Err(Error::TiltNotDefined);
            },
            Some(t) => t,
        };
        // Drop a trailing carriage return from the TILT line itself.
        let t_hi2: usize = if t_hi > t_lo && ies_string.get_char(t_hi - 1) == '\r' {
            t_hi - 1
        } else {
            t_hi
        };
        let rest = if t_hi2 >= t_lo + 5 {
            ies_string.substring_char(t_lo + 5, t_hi2)
        } else {
            ies_string.substring_char(t_lo + 5, t_hi)
        };
        proof {
            let l = lines[t_idx as int];
            assert(l.len() == t_hi - t_lo);
            if t_hi > t_lo {
                assert(l.last() == ies_string@[t_hi - 1]);
            }
            if t_hi2 < t_hi {
                assert(strip_cr(l) =~= ies_string@.subrange(t_lo as int, t_hi2 as int));
            } else {
                assert(strip_cr(l) =~= ies_string@.subrange(t_lo as int, t_hi as int));
            }
            reveal_strlit("TILT=");
            assert(l.subrange(0, 5)[4] == l[4]);
            assert(l[4] == '=');
            if t_hi2 < t_lo + 5 {
                assert(t_hi == t_lo + 5);
                assert(l[t_hi - 1 - t_lo] == ies_string@[t_hi - 1]);
                assert(false);
            }
            assert(rest@ =~= strip_cr(lines[t_idx as int]).skip(5));
        }
        if crate::text::str_eq(rest, "NONE") {
            self.tilt = None;
            return Ok(());
        }
        if !crate::text::str_eq(rest, "INCLUDE") {
            return Err(Error::TiltFileNotFound(rest.to_owned()));
        }
        // Parse the (at most) four sub-table lines that follow the TILT line.
        let (sub, _more) = collect_stripped_lines(
            ies_string,
            t_nxt,
            Ghost(t_idx as int + 1),
            4,
        );
        proof {
            assert(spec_lines_view(sub@) =~= spec_tilt_sub_lines(lines, t_idx as int));
        }
        match Tilt::from_lines(&sub) {
            Ok(t) => {
                self.tilt = t;
                Ok(())
            },
            Err(e) => Err(e),
        }
    }

    /// Reads the standard revision from the first line of IES text; an
    /// unrecognized tag falls back to the oldest revision, and an empty text
    /// is the empty-file error.
    pub fn parse_standard(&mut self, ies_string: &str) -> (r: Result<(), Error>)
        ensures
            ({
                let lines = spec_split_lines(ies_string@);
                match r {
                    Ok(()) => {
                        &&& lines.len() > 0
                        &&& final(self).standard
                            == crate::io::ies::standard::spec_standard_of(strip_cr(lines[0]))
                        &&& *final(self) == (IesFile {
                            standard: final(self).standard,
                            ..*old(self)
                        })
                    },
                    Err(Error::EmptyFile) => lines.len() == 0 && *final(self) == *old(self),
                    Err(_) => false,
                }
            }),
    {
        let n = ies_string.unicode_len();
        if n == 0 {
            proof {
                assert(spec_split_lines(ies_string@).len() == 0);
            }
            return Err(Error::EmptyFile);
        }
        let ghost lines = spec_split_lines(ies_string@);
        let ghost rem = ies_string@;
        let mut e: usize = 0;
        while e < n && ies_string.get_char(e) != '\n'
            invariant
                e <= n,
                n == ies_string@.len(),
                rem == ies_string@,
                find_nl(rem, 0) == find_nl(rem, e as int),
                forall|q: int| 0 <= q < e ==> rem[q] != '\n',
            decreases n - e,
        {
            proof {
                assert(rem[e as int] == ies_string@[e as int]);
            }
            e = e + 1;
        }
        proof {
            assert(ies_string@.skip(0) =~= ies_string@);
            if e < n {
                assert(rem[e as int] == ies_string@[e as int]);
                assert(find_nl(rem, e as int) == e as int);
                assert(spec_split_lines(rem) == seq![rem.take(e as int)] + spec_split_lines(
                    rem.skip(e + 1),
                ));
                assert(lines[0] == rem.take(e as int));
            } else {
                assert(lines[0] == rem);
            }
        }
        let e2: usize = if e > 0 && ies_string.get_char(e - 1) == '\r' {
            e - 1
        } else {
            e
        };
        let first = ies_string.substring_char(0, e2);
        proof {
            assert(first@ =~= strip_cr(lines[0]));
        }
        self.standard = IesStandard::from_tag(first);
        Ok(())
    }

    /// Attempts to parse IES text: the first line names the standard
    /// revision (anything unrecognized falls back to the oldest), the
    /// keyword block runs to the `TILT=` line, the TILT sub-table follows,
    /// and the remaining text is the positional numeric stream, whose arrays
    /// must end with exactly the declared lengths.  The first failing
    /// stage's error is returned.
    pub fn parse(&mut self, ies_string: &str) -> (r: Result<(), Error>)
        requires
            old(self).n_vertical_angles <= 0xffff_ffff,
            old(self).n_horizontal_angles <= 0xffff_ffff,
            ies_string@.len() < usize::MAX - 8,
        ensures
            match r {
                Ok(()) => spec_ies_parse_ok(*old(self), *final(self), ies_string@),
                Err(e) => spec_ies_parse_err(*old(self), *final(self), ies_string@, e),
            },
            final(self).n_vertical_angles <= 0xffff_ffff,
            final(self).n_horizontal_angles <= 0xffff_ffff,
    {
        match self.parse_standard(ies_string) {
            Ok(()) => {},
            Err(e3) => {
                return Err(e3);
            },
        }
        let ghost lines = spec_split_lines(ies_string@);
        let ghost d1 = *self;
        match self.parse_keywords(ies_string) {
            Ok(()) => {},
            Err(e3) => {
                return Err(e3);
            },
        }
        let ghost d2 = *self;
        match self.parse_tilt(ies_string) {
            Ok(()) => {},
            Err(e3) => {
                return Err(e3);
            },
        }
        let ghost d3 = *self;
        proof {
            assert(*self == (IesFile {
                standard: self.standard,
                keywords: self.keywords,
                tilt: self.tilt,
                ..*old(self)
            }));
        }
        match self.parse_properties(ies_string) {
            Ok(()) => {},
            Err(e3) => {
                proof {
                    assert(d3 == (IesFile {
                        standard: self.standard,
                        keywords: self.keywords,
                        tilt: self.tilt,
                        ..*old(self)
                    }));
                }
                return Err(e3);
            },
        }
        proof {
            assert(d3 == (IesFile {
                standard: self.standard,
                keywords: self.keywords,
                tilt: self.tilt,
                ..*old(self)
            }));
        }
        Ok(())
    }
}



impl IesFile {
    /// Decides whether this document can become planes: the counts agree,
    /// the vertical angles ascend within a half turn, and the horizontal
    /// angles of the stored wedge fit the symmetry their last value
    /// declares.
    #[verifier::rlimit(60)]
    pub fn check_convertible_type_c(&self) -> (b: bool)
        requires
            self.n_vertical_angles <= 0xffff_ffff,
        ensures
            b == self.convertible_type_c(),
    {
        let nv = self.n_vertical_angles;
        if nv == 0 || self.vertical_angles.len() != nv || nv > MAX_SAMPLES {
            proof {
                if nv > MAX_SAMPLES && self.vertical_angles@.len() == nv {
                    assert(!deg_angles_admissible(self.vertical_angles@));
                }
            }
            return false;
        }
        let n_v = self.vertical_angles.len();
        let mut k: usize = 0;
        while k < n_v
            invariant
                k <= n_v,
                n_v == self.vertical_angles@.len(),
                n_v <= MAX_SAMPLES,
                forall|q: int| 0 <= q < k ==> 0 <= #[trigger] self.vertical_angles@[q]
                    <= DEG_HALF_TURN,
                forall|q: int| 0 <= q < k - 1 ==> #[trigger] self.vertical_angles@[q]
                    + crate::fixed::DEG_STEP_MIN <= self.vertical_angles@[q + 1],
            decreases n_v - k,
        {
            let v = self.vertical_angles[k];
            if v < 0 || v > DEG_HALF_TURN {
                proof {
                    assert(!deg_angles_admissible(self.vertical_angles@));
                }
                return false;
            }
            if k > 0 && self.vertical_angles[k - 1] + crate::fixed::DEG_STEP_MIN > v {
                proof {
                    assert(!(self.vertical_angles@[k - 1] + crate::fixed::DEG_STEP_MIN
                        <= self.vertical_angles@[k as int]));
                    assert(!deg_angles_admissible(self.vertical_angles@));
                }
                return false;
            }
            k = k + 1;
        }
        if self.candela_values.len() % nv != 0 {
            proof {
                let len = self.candela_values@.len() as int;
                vstd::arithmetic::div_mod::lemma_fundamental_div_mod(len, nv as int);
                vstd::arithmetic::div_mod::lemma_mod_bound(len, nv as int);
                vstd::arithmetic::mul::lemma_mul_is_commutative(nv as int, len / (nv as int));
                assert(self.candela_values@.len() != self.spec_n_stored() * (nv as int));
            }
            return false;
        }
        let stored = self.candela_values.len() / nv;
        proof {
            let len = self.candela_values@.len() as int;
            vstd::arithmetic::div_mod::lemma_fundamental_div_mod(len, nv as int);
            vstd::arithmetic::mul::lemma_mul_is_commutative(nv as int, len / (nv as int));
            assert(self.candela_values@.len() == self.spec_n_stored() * (nv as int));
        }
        if stored == 0 || stored > self.horizontal_angles.len() {
            return false;
        }
        let n_c = self.candela_values.len();
        let mut k2: usize = 0;
        while k2 < n_c
            invariant
                k2 <= n_c,
                n_c == self.candela_values@.len(),
                forall|q: int| 0 <= q < k2 ==> 0 <= #[trigger] self.candela_values@[q]
                    <= MAX_FIXED,
            decreases n_c - k2,
        {
            let v = self.candela_values[k2];
            if v < 0 || v > MAX_FIXED {
                return false;
            }
            k2 = k2 + 1;
        }
        if !Self::vertical_angles_valid(&self.vertical_angles) {
            return false;
        }
        let last_h = self.horizontal_angles[stored - 1];
        proof {
            let hs = self.horizontal_angles@.take(self.spec_n_stored());
            assert(hs.len() == stored);
            assert(hs[0] == self.horizontal_angles@[0]);
            assert(hs.last() == self.horizontal_angles@[stored - 1]);
        }
        if self.horizontal_angles[0] != 0 {
            return false;
        }
        if !(last_h == 0 || last_h == DEG_QUARTER_TURN || (DEG_HALF_TURN <= last_h && last_h
            <= DEG_FULL_TURN)) {
            return false;
        }
        let cap: i64 = if last_h == DEG_QUARTER_TURN {
            DEG_QUARTER_TURN
        } else if last_h == DEG_HALF_TURN {
            DEG_HALF_TURN
        } else {
            DEG_FULL_TURN
        };
        if (last_h == DEG_QUARTER_TURN || last_h == DEG_HALF_TURN) && stored < 2 {
            return false;
        }
        let mut k3: usize = 0;
        while k3 < stored
            invariant
                k3 <= stored,
                stored <= self.horizontal_angles@.len(),
                stored == self.spec_n_stored(),
                stored >= 1,
                last_h == self.horizontal_angles@[stored - 1],
                cap == (if last_h == DEG_QUARTER_TURN {
                    DEG_QUARTER_TURN
                } else if last_h == DEG_HALF_TURN {
                    DEG_HALF_TURN
                } else {
                    DEG_FULL_TURN
                }),
                forall|q: int| 0 <= q < k3 ==> 0 <= #[trigger] self.horizontal_angles@[q]
                    <= DEG_FULL_TURN,
                forall|q: int| 0 <= q < k3 ==> #[trigger] self.horizontal_angles@[q] <= cap,
            decreases stored - k3,
        {
            let v = self.horizontal_angles[k3];
            if v < 0 || v > DEG_FULL_TURN || v > cap {
                return false;
            }
            k3 = k3 + 1;
        }
        proof {
            assert(deg_angles_admissible(self.vertical_angles@));
            assert(self.convertible_type_c());
        }
        true
    }
}


/// After expansion, the number of Type-C planes follows the last stored
/// horizontal angle alone: a wedge to 90 degrees fills the circle with
/// four planes per stored one less the shared boundaries, one to 180 with
/// two, and any other wedge stands as stored.
pub proof fn lemma_ies_expanded_count(doc: &IesFile)
    requires
        doc.convertible_type_c(),
    ensures
        doc.spec_expanded_planes_type_c().len() == (if doc.spec_last_h()
            == DEG_QUARTER_TURN {
            4 * doc.spec_n_stored() - 4
        } else if doc.spec_last_h() == DEG_HALF_TURN {
            2 * doc.spec_n_stored() - 2
        } else {
            doc.spec_n_stored()
        }),
{
    let st = doc.spec_stored_planes();
    if doc.spec_last_h() == DEG_QUARTER_TURN {
        assert(quadrant_expansion(st).len() == 2 * st.len() - 1);
    }
}


/// Fixed-point values joined by single spaces.
pub open spec fn spec_join_fixed(vs: Seq<i64>) -> Seq<char>
    decreases vs.len(),
{
    if vs.len() == 0 {
        Seq::empty()
    } else if vs.len() == 1 {
        spec_render_fixed(vs[0] as int)
    } else {
        spec_join_fixed(vs.drop_last()) + seq![' '] + spec_render_fixed(vs.last() as int)
    }
}

/// One keyword line, as written: the name in brackets, a space, the value.
pub open spec fn spec_kw_line_text(k: Seq<char>, v: Seq<char>) -> Seq<char> {
    seq!['['] + k + seq![']', ' '] + v
}

/// The keyword block as written: one line per pair, in order.
pub open spec fn spec_kw_lines_text(kws: Seq<(String, String)>, i: int) -> Seq<char>
    decreases kws.len() - i,
{
    if i < 0 || i >= kws.len() {
        Seq::empty()
    } else {
        spec_kw_line_text(kws[i].0@, kws[i].1@) + seq!['\n'] + spec_kw_lines_text(kws, i + 1)
    }
}

/// The TILT section as written: the marker line, and for an inline
/// sub-table its four lines.
pub open spec fn spec_tilt_text(t: Option<Tilt>) -> Seq<char> {
    match t {
        None => "TILT=NONE"@ + seq!['\n'],
        Some(tab) => "TILT=INCLUDE"@ + seq!['\n'] + spec_digits(
            tab.lamp_to_lumminaire_geometry as int,
        ) + seq!['\n'] + spec_digits(tab.no_tilt_angles as int) + seq!['\n']
            + spec_join_fixed(tab.angles@) + seq!['\n'] + spec_join_fixed(
            tab.multiplying_factors@,
        ) + seq!['\n'],
    }
}

/// The candela blocks as written: one space-joined line per horizontal
/// angle, each holding one value per vertical angle.
pub open spec fn spec_candela_lines(d: IesFile, i: int) -> Seq<char>
    decreases d.n_horizontal_angles as int - i,
{
    let nv = d.n_vertical_angles as int;
    if i < 0 || i >= d.n_horizontal_angles {
        Seq::empty()
    } else {
        spec_join_fixed(d.candela_values@.subrange(i * nv, i * nv + nv)) + seq!['\n']
            + spec_candela_lines(d, i + 1)
    }
}

/// Joins a range of fixed-point values with single spaces.
fn join_fixed_range(vals: &Vec<i64>, from: usize, to: usize) -> (r: String)
    requires
        from <= to <= vals@.len(),
    ensures
        r@ == spec_join_fixed(vals@.subrange(from as int, to as int)),
{
    let ghost vs = vals@.subrange(from as int, to as int);
    let mut out = "".to_owned();
    proof {
        reveal_strlit("");
        assert(out@ =~= spec_join_fixed(vs.take(0)));
    }
    let mut i: usize = from;
    while i < to
        invariant
            from <= i <= to <= vals@.len(),
            vs == vals@.subrange(from as int, to as int),
            out@ == spec_join_fixed(vs.take(i - from)),
        decreases to - i,
    {
        if i > from {
            out.append(" ");
            proof {
                reveal_strlit(" ");
            }
        }
        let piece = render_fixed(vals[i]);
        out.append(piece.as_str());
        proof {
            assert(vs.take(i - from + 1).drop_last() =~= vs.take(i - from));
            assert(vs.take(i - from + 1).last() == vals@[i as int]);
            assert(out@ =~= spec_join_fixed(vs.take(i - from + 1)));
        }
        i = i + 1;
    }
    proof {
        assert(vs.take(to - from) =~= vs);
    }
    out
}

impl IesFile {
    /// The whole document as IES text: the revision tag (the oldest writes
    /// none), the keyword lines, the TILT section, the two scalar lines, one
    /// line each for the vertical and horizontal angles, and one candela
    /// line per horizontal angle.  Fixed-point values carry all nine decimal
    /// places.
    pub open spec fn spec_ies_text(&self) -> Seq<char> {
        let tag: Seq<char> = if self.standard == IesStandard::Iesna1986 {
            Seq::empty()
        } else {
            crate::io::ies::standard::spec_tag_of(self.standard) + seq!['\n']
        };
        tag + spec_kw_lines_text(self.keywords@, 0) + spec_tilt_text(self.tilt)
            + self.spec_scalar_lines() + spec_join_fixed(self.vertical_angles@)
            + seq!['\n'] + spec_join_fixed(self.horizontal_angles@) + seq!['\n']
            + spec_candela_lines(*self, 0)
    }

    /// The two scalar lines: the thirteen fixed fields, the reserved slot
    /// written as `1`.
    pub open spec fn spec_scalar_lines(&self) -> Seq<char> {
        spec_digits(self.n_lamps as int) + seq![' '] + spec_render_fixed(
            self.lumens_per_lamp as int,
        ) + seq![' '] + spec_render_fixed(self.candela_multiplying_factor as int) + seq![' ']
            + spec_digits(self.n_vertical_angles as int) + seq![' '] + spec_digits(
            self.n_horizontal_angles as int,
        ) + seq![' '] + spec_digits(
            IesPhotometryType::spec_code_of(self.photometric_type),
        ) + seq![' '] + spec_digits(
            if self.luminous_opening_units == LuminousOpeningUnits::Feet {
                1int
            } else {
                2int
            },
        ) + seq![' '] + spec_render_fixed(self.luminous_opening_width as int) + seq![' ']
            + spec_render_fixed(self.luminous_opening_length as int) + seq![' ']
            + spec_render_fixed(self.luminous_opening_height as int) + seq!['\n']
            + spec_render_fixed(self.ballast_factor as int) + " 1 "@ + spec_render_fixed(
            self.input_watts as int,
        ) + seq!['\n']
    }

    /// Renders the two scalar lines.
    fn scalar_lines_text(&self) -> (r: String)
        ensures
            r@ == self.spec_scalar_lines(),
    {
        let mut out = "".to_owned();
        proof {
            reveal_strlit("");
        }
        let p0 = render_u64(self.n_lamps as u64);
        out.append(p0.as_str());
        out.append(" ");
        let p1 = render_fixed(self.lumens_per_lamp);
        out.append(p1.as_str());
        out.append(" ");
        let p2 = render_fixed(self.candela_multiplying_factor);
        out.append(p2.as_str());
        out.append(" ");
        let p3 = render_u64(self.n_vertical_angles as u64);
        out.append(p3.as_str());
        out.append(" ");
        let p4 = render_u64(self.n_horizontal_angles as u64);
        out.append(p4.as_str());
        out.append(" ");
        let p5 = render_u64(match self.photometric_type {
            IesPhotometryType::TypeC => 1,
            IesPhotometryType::TypeB => 2,
            IesPhotometryType::TypeA => 3,
        });
        out.append(p5.as_str());
        out.append(" ");
        let p6 = render_u64(match self.luminous_opening_units {
            LuminousOpeningUnits::Feet => 1,
            LuminousOpeningUnits::Meters => 2,
        });
        out.append(p6.as_str());
        out.append(" ");
        let p7 = render_fixed(self.luminous_opening_width);
        out.append(p7.as_str());
        out.append(" ");
        let p8 = render_fixed(self.luminous_opening_length);
        out.append(p8.as_str());
        out.append(" ");
        let p9 = render_fixed(self.luminous_opening_height);
        out.append(p9.as_str());
        out.append("\n");
        let p10 = render_fixed(self.ballast_factor);
        out.append(p10.as_str());
        out.append(" 1 ");
        let p11 = render_fixed(self.input_watts);
        out.append(p11.as_str());
        out.append("\n");
        proof {
            reveal_strlit(" ");
            reveal_strlit(" 1 ");
            reveal_strlit("\n");
            assert(out@ =~= self.spec_scalar_lines());
        }
        out
    }

    /// Writes the document to IES text, as [`Self::spec_ies_text`] lays it
    /// out.
    #[verifier::rlimit(100)]
    pub fn to_string(&self) -> (r: String)
        requires
            spec_props_counts(*self),
            self.n_vertical_angles >= 1,
            self.n_vertical_angles <= 0xffff_ffff,
            self.n_horizontal_angles <= 0xffff_ffff,
        ensures
            r@ == self.spec_ies_text(),
    {
        let ghost tag_part: Seq<char> = if self.standard == IesStandard::Iesna1986 {
            Seq::empty()
        } else {
            crate::io::ies::standard::spec_tag_of(self.standard) + seq!['\n']
        };
        let mut out: String = if matches!(self.standard, IesStandard::Iesna1986) {
            let s = "".to_owned();
            proof {
                reveal_strlit("");
                assert(s@ =~= tag_part);
            }
            s
        } else {
            let mut s = self.standard.to_tag().to_owned();
            s.append("\n");
            proof {
                reveal_strlit("\n");
                assert(s@ =~= tag_part);
            }
            s
        };
        // Keyword lines.
        let n_kw = self.keywords.len();
        let mut i: usize = 0;
        let ghost prefix0 = out@;
        while i < n_kw
            invariant
                i <= n_kw,
                n_kw == self.keywords@.len(),
                out@ == prefix0 + spec_kw_lines_upto(self.keywords@, i as int),
            decreases n_kw - i,
        {
            out.append("[");
            out.append(self.keywords[i].0.as_str());
            out.append("] ");
            out.append(self.keywords[i].1.as_str());
            out.append("\n");
            proof {
                reveal_strlit("[");
                reveal_strlit("] ");
                reveal_strlit("\n");
                lemma_kw_lines_snoc(self.keywords@, i as int);
                assert(out@ =~= prefix0 + spec_kw_lines_upto(self.keywords@, i + 1));
            }
            i = i + 1;
        }
        proof {
            lemma_kw_lines_upto_all(self.keywords@, 0);
            assert(out@ == prefix0 + spec_kw_lines_text(self.keywords@, 0));
        }
        // The TILT section.
        match &self.tilt {
            None => {
                out.append("TILT=NONE\n");
                proof {
                    reveal_strlit("TILT=NONE\n");
                    reveal_strlit("TILT=NONE");
                    reveal_strlit("\n");
                    assert("TILT=NONE\n"@ =~= "TILT=NONE"@ + seq!['\n']);
                    assert(out@ =~= tag_part + spec_kw_lines_text(self.keywords@, 0)
                        + spec_tilt_text(self.tilt));
                }
            },
            Some(tab) => {
                out.append("TILT=INCLUDE\n");
                let g = render_u64(tab.lamp_to_lumminaire_geometry as u64);
                out.append(g.as_str());
                out.append("\n");
                let c = render_u64(tab.no_tilt_angles as u64);
                out.append(c.as_str());
                out.append("\n");
                let a = join_fixed_range(&tab.angles, 0, tab.angles.len());
                out.append(a.as_str());
                out.append("\n");
                let f = join_fixed_range(&tab.multiplying_factors, 0, tab.multiplying_factors.len());
                out.append(f.as_str());
                out.append("\n");
                proof {
                    reveal_strlit("TILT=INCLUDE\n");
                    reveal_strlit("TILT=INCLUDE");
                    reveal_strlit("\n");
                    assert("TILT=INCLUDE\n"@ =~= "TILT=INCLUDE"@ + seq!['\n']);
                    assert(tab.angles@.subrange(0, tab.angles@.len() as int) =~= tab.angles@);
                    assert(tab.multiplying_factors@.subrange(
                        0,
                        tab.multiplying_factors@.len() as int,
                    ) =~= tab.multiplying_factors@);
                    assert(out@ =~= tag_part + spec_kw_lines_text(self.keywords@, 0)
                        + spec_tilt_text(self.tilt));
                }
            },
        }
        // The two scalar lines, then the two angle lines.
        let scalars = self.scalar_lines_text();
        out.append(scalars.as_str());
        let vjoin = join_fixed_range(&self.vertical_angles, 0, self.vertical_angles.len());
        out.append(vjoin.as_str());
        out.append("\n");
        let hjoin = join_fixed_range(&self.horizontal_angles, 0, self.horizontal_angles.len());
        out.append(hjoin.as_str());
        out.append("\n");
        proof {
            reveal_strlit("\n");
            assert(self.vertical_angles@.subrange(0, self.vertical_angles@.len() as int)
                =~= self.vertical_angles@);
            assert(self.horizontal_angles@.subrange(
                0,
                self.horizontal_angles@.len() as int,
            ) =~= self.horizontal_angles@);
            assert(out@ =~= tag_part + spec_kw_lines_text(self.keywords@, 0)
                + spec_tilt_text(self.tilt) + self.spec_scalar_lines() + spec_join_fixed(
                self.vertical_angles@,
            ) + seq!['\n'] + spec_join_fixed(self.horizontal_angles@) + seq!['\n']);
        }
        let ghost before_blocks = out@;
        // One candela line per horizontal angle.
        let nv = self.n_vertical_angles;
        let nh = self.n_horizontal_angles;
        let mut b: usize = 0;
        proof {
            vstd::arithmetic::mul::lemma_mul_is_commutative(nv as int, nh as int);
        }
        while b < nh
            invariant
                b <= nh,
                nv == self.n_vertical_angles,
                nh == self.n_horizontal_angles,
                nv >= 1,
                self.candela_values@.len() == nv * nh,
                out@ == before_blocks + spec_candela_upto(*self, b as int),
            decreases nh - b,
        {
            let clen = self.candela_values.len();
            proof {
                lemma_block_bounds(b as int, nv as int, nh as int);
                vstd::arithmetic::mul::lemma_mul_is_commutative(nv as int, nh as int);
                assert((b as int) * (nv as int) + (nv as int) <= clen as int);
            }
            let line = join_fixed_range(&self.candela_values, b * nv, b * nv + nv);
            out.append(line.as_str());
            out.append("\n");
            proof {
                reveal_strlit("\n");
                lemma_candela_snoc(*self, b as int);
                assert(out@ =~= before_blocks + spec_candela_upto(*self, b + 1));
            }
            b = b + 1;
        }
        proof {
            lemma_candela_upto_all(*self, 0);
            assert(out@ =~= self.spec_ies_text());
        }
        out
    }
}

/// The first `i` keyword lines as written.
pub open spec fn spec_kw_lines_upto(kws: Seq<(String, String)>, i: int) -> Seq<char>
    decreases i,
{
    if i <= 0 {
        Seq::empty()
    } else {
        spec_kw_lines_upto(kws, i - 1) + spec_kw_line_text(kws[i - 1].0@, kws[i - 1].1@)
            + seq!['\n']
    }
}

/// Appending one keyword line extends the prefix form by one.
proof fn lemma_kw_lines_snoc(kws: Seq<(String, String)>, i: int)
    requires
        0 <= i < kws.len(),
    ensures
        spec_kw_lines_upto(kws, i + 1) == spec_kw_lines_upto(kws, i) + spec_kw_line_text(
            kws[i].0@,
            kws[i].1@,
        ) + seq!['\n'],
{
}

/// The prefix form of all lines equals the suffix-recursive form.
proof fn lemma_kw_lines_upto_all(kws: Seq<(String, String)>, i: int)
    requires
        0 <= i <= kws.len(),
    ensures
        spec_kw_lines_upto(kws, kws.len() as int) == spec_kw_lines_upto(kws, i)
            + spec_kw_lines_text(kws, i),
    decreases kws.len() - i,
{
    if i == kws.len() {
        assert(spec_kw_lines_upto(kws, i) + spec_kw_lines_text(kws, i) =~= spec_kw_lines_upto(
            kws,
            kws.len() as int,
        ));
    } else {
        lemma_kw_lines_upto_all(kws, i + 1);
        lemma_kw_lines_snoc(kws, i);
        assert(spec_kw_lines_upto(kws, i) + (spec_kw_line_text(kws[i].0@, kws[i].1@)
            + seq!['\n'] + spec_kw_lines_text(kws, i + 1)) =~= (spec_kw_lines_upto(kws, i)
            + spec_kw_line_text(kws[i].0@, kws[i].1@) + seq!['\n']) + spec_kw_lines_text(
            kws,
            i + 1,
        ));
    }
}

/// The first `i` candela lines as written.
pub open spec fn spec_candela_upto(d: IesFile, i: int) -> Seq<char>
    decreases i,
{
    let nv = d.n_vertical_angles as int;
    if i <= 0 {
        Seq::empty()
    } else {
        spec_candela_upto(d, i - 1) + spec_join_fixed(
            d.candela_values@.subrange((i - 1) * nv, (i - 1) * nv + nv),
        ) + seq!['\n']
    }
}

/// Appending one candela line extends the prefix form by one.
proof fn lemma_candela_snoc(d: IesFile, i: int)
    requires
        0 <= i < d.n_horizontal_angles,
    ensures
        spec_candela_upto(d, i + 1) == spec_candela_upto(d, i) + spec_join_fixed(
            d.candela_values@.subrange(
                i * (d.n_vertical_angles as int),
                i * (d.n_vertical_angles as int) + (d.n_vertical_angles as int),
            ),
        ) + seq!['\n'],
{
}

/// The prefix form of all candela lines equals the suffix-recursive form.
proof fn lemma_candela_upto_all(d: IesFile, i: int)
    requires
        0 <= i <= d.n_horizontal_angles,
    ensures
        spec_candela_upto(d, d.n_horizontal_angles as int) == spec_candela_upto(d, i)
            + spec_candela_lines(d, i),
    decreases d.n_horizontal_angles as int - i,
{
    if i == d.n_horizontal_angles {
        assert(spec_candela_upto(d, i) + spec_candela_lines(d, i) =~= spec_candela_upto(
            d,
            d.n_horizontal_angles as int,
        ));
    } else {
        lemma_candela_upto_all(d, i + 1);
        lemma_candela_snoc(d, i);
        let nv = d.n_vertical_angles as int;
        assert(spec_candela_upto(d, i) + (spec_join_fixed(
            d.candela_values@.subrange(i * nv, i * nv + nv),
        ) + seq!['\n'] + spec_candela_lines(d, i + 1)) =~= (spec_candela_upto(d, i)
            + spec_join_fixed(d.candela_values@.subrange(i * nv, i * nv + nv))
            + seq!['\n']) + spec_candela_lines(d, i + 1));
    }
}

/// A candela block lies inside the candela array.
proof fn lemma_block_bounds(b: int, nv: int, nh: int)
    requires
        0 <= b < nh,
        nv >= 1,
    ensures
        b * nv + nv <= nh * nv,
        b * nv >= 0,
{
    assert(b * nv + nv <= nh * nv) by (nonlinear_arith)
        requires
            b + 1 <= nh,
            nv >= 0,
    ;
    assert(b * nv >= 0) by (nonlinear_arith)
        requires
            b >= 0,
            nv >= 0,
    ;
}

} // verus!
