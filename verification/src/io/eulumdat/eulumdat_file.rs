//! The EULUMDAT document: the flat record of every declared field, and its
//! conversion into photometric planes by symmetry expansion.

use vstd::prelude::*;
use crate::fixed::{
    DEG_FULL_TURN, DEG_HALF_TURN, DEG_QUARTER_TURN, DEG_STEP_MIN, HALF_PI_FP, MAX_FIXED,
    PI_FP, TWO_PI_FP, abs_int, degrees_to_radians, lemma_deg_to_rad_full_turn,
    lemma_deg_to_rad_half_turn, lemma_deg_to_rad_quarter_turn, spec_deg_to_rad,
};
use crate::io::eulumdat::err::Error;
use crate::io::eulumdat::util::{parse_fixed, parse_i32, parse_u32};
use crate::numtext::{
    fixed_text_val, int_text_val, is_fixed_text, is_int_text, render_fixed, render_i64,
    render_u64, spec_digits, spec_render_fixed, spec_render_int,
};
use crate::photweb::plane::MAX_SAMPLES;
use crate::text::{find_nl, spec_split_lines, spec_trim, trimmed_slice};
use vstd::string::StrSliceExecFns;
use crate::io::eulumdat::ltyp::EulumdatType;
use crate::io::eulumdat::symmetry::EulumdatSymmetry;
use crate::photweb::funcs::{
    hemisphere_expansion, mirror_first_hemisphere, mirror_first_quadrant,
    mirror_second_and_third_quadrants, opposing_expansion, quadrant_expansion, reflected,
};
use crate::photweb::plane::{
    IntensityUnits, Plane, PlaneOrientation, PlaneV, PlaneWidth, deg_angles_admissible,
    intensities_wf, plane_wf, sample_angles_wf,
};

verus! {

/// The flat, line-by-line record of an EULUMDAT file.  Angles are fixed-point
/// degrees as parsed; dimensions, factors and intensities are fixed-point
/// values.
#[derive(Debug, Clone, Default)]
pub struct EulumdatFile {
    /// Company identification / data bank / version / format identification.
    pub header: String,
    /// The type indicator.
    pub ltype: EulumdatType,
    /// The symmetry indicator.
    pub symmetry: EulumdatSymmetry,
    /// Mc - number of C-planes between 0 and 360 degrees.
    pub n_cplanes: usize,
    /// Dc - distance between C-planes.
    pub cplane_dist: i64,
    /// Ng - number of luminous intensities in each C-plane.
    pub n_luminous_intensities_per_cplane: usize,
    /// Dg - distance between luminous intensities in a C-plane.
    pub distance_between_luminous_intensities_per_cplane: i64,
    /// Measurement report number.
    pub measurement_report_number: String,
    /// The name of the luminaire.
    pub luminaire_name: String,
    /// The luminaire number.
    pub luminaire_number: String,
    /// The file name as given inside the file.
    pub filename: String,
    /// The date / user that created the file.
    pub date_user: String,
    /// Length (or diameter) of the luminaire, in millimetres.
    pub luminaire_length: i64,
    /// Width of the luminaire (zero for a circular luminaire).
    pub luminaire_width: i64,
    /// Height of the luminaire.
    pub luminaire_height: i64,
    /// Length (or diameter) of the luminous area.
    pub luminous_area_length: i64,
    /// Width of the luminous area (zero for a circular area).
    pub luminous_area_width: i64,
    /// Height of the luminous area on the C0-plane.
    pub luminous_area_height_c0: i64,
    /// Height of the luminous area on the C90-plane.
    pub luminous_area_height_c90: i64,
    /// Height of the luminous area on the C180-plane.
    pub luminous_area_height_c180: i64,
    /// Height of the luminous area on the C270-plane.
    pub luminous_area_height_c270: i64,
    /// Downward flux fraction, in percent.
    pub downward_flux_fraction: i64,
    /// Light output ratio of the luminaire, in percent.
    pub light_output_ratio_luminaire: i64,
    /// Luminous intensity conversion factor.
    pub luminous_intensity_conversion_factor: i64,
    /// The tilt of the luminaire during measurement.
    pub tilt: i64,
    /// n - number of sets of standard lamps.
    pub n_lamp_sets: usize,
    /// The number of lamps in each set.
    pub n_lamp: Vec<i32>,
    /// The type of each lamp set.
    pub lamp_type: Vec<String>,
    /// Total luminous flux of each lamp set, in lumens.
    pub tot_luminous_flux: Vec<i64>,
    /// Colour appearance / colour temperature of each lamp set.
    pub color_temperature: Vec<String>,
    /// Colour rendering group of each lamp set.
    pub color_rendering_group: Vec<String>,
    /// Wattage including ballast, in watts.
    pub wattage: Vec<i64>,
    /// Direct ratios for the ten room indices.
    pub direct_ratios: Vec<i64>,
    /// C-angles, in fixed-point degrees.
    pub c_angles: Vec<i64>,
    /// G-angles, in fixed-point degrees.
    pub g_angles: Vec<i64>,
    /// Luminous intensities, stored as consecutive per-C-plane blocks.
    pub intensities: Vec<i64>,
}

impl EulumdatFile {
    /// Returns a new instance with default values.
    pub fn new() -> (r: EulumdatFile)
        ensures
            r.n_cplanes == 0,
            r.n_luminous_intensities_per_cplane == 0,
            r.n_lamp_sets == 0,
            r.symmetry == EulumdatSymmetry::NoSymmetry,
            r.c_angles@.len() == 0,
            r.g_angles@.len() == 0,
            r.intensities@.len() == 0,
    {
        EulumdatFile {
            header: String::new(),
            ltype: EulumdatType::PointSourceWithSymmetryAboutVerticalAxis,
            symmetry: EulumdatSymmetry::NoSymmetry,
            n_cplanes: 0,
            cplane_dist: 0,
            n_luminous_intensities_per_cplane: 0,
            distance_between_luminous_intensities_per_cplane: 0,
            measurement_report_number: String::new(),
            luminaire_name: String::new(),
            luminaire_number: String::new(),
            filename: String::new(),
            date_user: String::new(),
            luminaire_length: 0,
            luminaire_width: 0,
            luminaire_height: 0,
            luminous_area_length: 0,
            luminous_area_width: 0,
            luminous_area_height_c0: 0,
            luminous_area_height_c90: 0,
            luminous_area_height_c180: 0,
            luminous_area_height_c270: 0,
            downward_flux_fraction: 0,
            light_output_ratio_luminaire: 0,
            luminous_intensity_conversion_factor: 0,
            tilt: 0,
            n_lamp_sets: 0,
            n_lamp: Vec::new(),
            lamp_type: Vec::new(),
            tot_luminous_flux: Vec::new(),
            color_temperature: Vec::new(),
            color_rendering_group: Vec::new(),
            wattage: Vec::new(),
            direct_ratios: Vec::new(),
            c_angles: Vec::new(),
            g_angles: Vec::new(),
            intensities: Vec::new(),
        }
    }

    /// The Mc1 parameter: the first stored C-plane index, as the symmetry
    /// class defines it.
    pub fn mc1(&self) -> (r: usize)
        requires
            self.n_cplanes <= 0xffff_ffff,
            2 * (self.n_cplanes as int) <= usize::MAX,
        ensures
            r == self.spec_mc1(),
    {
        let mc = self.n_cplanes as u64;
        let r: u64 = match self.symmetry {
            EulumdatSymmetry::NoSymmetry => 1,
            EulumdatSymmetry::AboutVerticalAxis => 1,
            EulumdatSymmetry::C0C180Plane => 1,
            EulumdatSymmetry::C90C270Plane => 3 * (mc / 4) + 1,
            EulumdatSymmetry::C0C180C90C270Plane => 1,
        };
        r as usize
    }

    /// The Mc2 parameter: the last stored C-plane index, as the symmetry
    /// class defines it.
    pub fn mc2(&self) -> (r: usize)
        requires
            self.n_cplanes <= 0xffff_ffff,
            2 * (self.n_cplanes as int) <= usize::MAX,
        ensures
            r == self.spec_mc2(),
    {
        let mc = self.n_cplanes as u64;
        let r: u64 = match self.symmetry {
            EulumdatSymmetry::NoSymmetry => mc,
            EulumdatSymmetry::AboutVerticalAxis => 1,
            EulumdatSymmetry::C0C180Plane => mc / 2 + 1,
            EulumdatSymmetry::C90C270Plane => 3 * (mc / 4) + 1 + mc / 2,
            EulumdatSymmetry::C0C180C90C270Plane => mc / 4 + 1,
        };
        r as usize
    }

    /// Mc1 as a spec-level value.
    pub open spec fn spec_mc1(&self) -> int {
        match self.symmetry {
            EulumdatSymmetry::C90C270Plane => 3 * (self.n_cplanes as int / 4) + 1,
            _ => 1,
        }
    }

    /// Mc2 as a spec-level value.
    pub open spec fn spec_mc2(&self) -> int {
        match self.symmetry {
            EulumdatSymmetry::NoSymmetry => self.n_cplanes as int,
            EulumdatSymmetry::AboutVerticalAxis => 1,
            EulumdatSymmetry::C0C180Plane => self.n_cplanes as int / 2 + 1,
            EulumdatSymmetry::C90C270Plane => self.spec_mc1() + self.n_cplanes as int / 2,
            EulumdatSymmetry::C0C180C90C270Plane => self.n_cplanes as int / 4 + 1,
        }
    }

    /// The number of stored planes: one per intensity block.
    pub open spec fn spec_n_stored(&self) -> int {
        self.intensities@.len() as int / self.n_luminous_intensities_per_cplane as int
    }

    /// The G-angles converted to fixed-point radians.
    pub open spec fn spec_rad_g_angles(&self) -> Seq<i64> {
        self.g_angles@.map_values(|d: i64| spec_deg_to_rad(d as int) as i64)
    }

    /// The plane stored at index `i`, before any symmetry expansion: its
    /// C-angle in radians, the shared G-angles, and its intensity block.
    pub open spec fn spec_stored_plane(&self, i: int) -> PlaneV {
        let ng = self.n_luminous_intensities_per_cplane as int;
        PlaneV {
            angle: spec_deg_to_rad(self.c_angles@[i] as int) as i64,
            width: PlaneWidth::Symmetric(0),
            orientation: PlaneOrientation::Vertical,
            angles: self.spec_rad_g_angles(),
            intensities: self.intensities@.subrange(i * ng, i * ng + ng),
            units: IntensityUnits::Candela,
        }
    }

    /// The stored planes as a sequence.
    pub open spec fn spec_stored_planes(&self) -> Seq<PlaneV> {
        Seq::new(self.spec_n_stored() as nat, |i: int| self.spec_stored_plane(i))
    }

    /// The full set of planes after symmetry expansion: the stored wedge,
    /// replicated around the circle as the symmetry class directs.
    pub open spec fn spec_expanded_planes(&self) -> Seq<PlaneV> {
        let st = self.spec_stored_planes();
        match self.symmetry {
            EulumdatSymmetry::C0C180Plane => hemisphere_expansion(st),
            EulumdatSymmetry::C0C180C90C270Plane => hemisphere_expansion(
                quadrant_expansion(st),
            ),
            EulumdatSymmetry::C90C270Plane => opposing_expansion(st),
            _ => st,
        }
    }

    /// Whether the document's angle and intensity sections are fit to become
    /// planes: the counts agree, the G-angles are admissible, the C-angles
    /// lie inside the wedge their symmetry class declares, and every stored
    /// value is in range.
    pub open spec fn convertible(&self) -> bool {
        let ng = self.n_luminous_intensities_per_cplane as int;
        let stored = self.spec_n_stored();
        &&& ng >= 1
        &&& self.g_angles@.len() == ng
        &&& deg_angles_admissible(self.g_angles@)
        &&& intensities_wf(self.intensities@)
        &&& self.intensities@.len() == stored * ng
        &&& stored <= self.c_angles@.len()
        &&& forall|i: int| 0 <= i < stored ==> 0 <= #[trigger] self.c_angles@[i]
            <= DEG_FULL_TURN
        &&& match self.symmetry {
            EulumdatSymmetry::C0C180Plane => stored >= 2 && forall|i: int|
                0 <= i < stored ==> #[trigger] self.c_angles@[i] <= DEG_HALF_TURN,
            EulumdatSymmetry::C0C180C90C270Plane => stored >= 2 && forall|i: int|
                0 <= i < stored ==> #[trigger] self.c_angles@[i] <= DEG_QUARTER_TURN,
            EulumdatSymmetry::C90C270Plane => stored >= 2 && forall|i: int|
                1 <= i <= stored / 2 ==> #[trigger] self.c_angles@[i] <= DEG_HALF_TURN,
            _ => true,
        }
    }

    /// Gets the planes from this document, expanding the stored wedge to the
    /// full circle according to the symmetry indicator.
    pub fn get_planes(&self) -> (r: Vec<Plane>)
        requires
            self.convertible(),
        ensures
            r@.map_values(|p: Plane| p@) == self.spec_expanded_planes(),
            forall|i: int| 0 <= i < r@.len() ==> plane_wf(#[trigger] r@[i]@),
    {
        let ng = self.n_luminous_intensities_per_cplane;
        let n_stored = self.intensities.len() / ng;
        proof {
            vstd::arithmetic::div_mod::lemma_fundamental_div_mod(
                self.intensities@.len() as int,
                ng as int,
            );
        }
        let mut template = Plane::new();
        template.set_angles_degrees(&self.g_angles);
        let mut planes: Vec<Plane> = Vec::new();
        let mut i: usize = 0;
        while i < n_stored
            invariant
                i <= n_stored,
                self.convertible(),
                ng == self.n_luminous_intensities_per_cplane,
                n_stored == self.spec_n_stored(),
                n_stored <= self.c_angles@.len(),
                self.intensities@.len() == n_stored * ng,
                self.intensities@.len() <= usize::MAX,
                template@.angles == self.spec_rad_g_angles(),
                template@.width == PlaneWidth::Symmetric(0),
                template@.orientation == PlaneOrientation::Vertical,
                template@.units == IntensityUnits::Candela,
                template@.angle == 0,
                sample_angles_wf(template@.angles),
                planes@.len() == i,
                forall|k: int| 0 <= k < i ==> (#[trigger] planes@[k]@)
                    == self.spec_stored_plane(k),
                forall|k: int| 0 <= k < i ==> plane_wf(#[trigger] planes@[k]@),
            decreases n_stored - i,
        {
            let mut pl = template.clone();
            proof {
                lemma_deg_to_rad_full_turn(self.c_angles@[i as int] as int);
            }
            pl.set_angle(degrees_to_radians(self.c_angles[i]));
            let mut chunk: Vec<i64> = Vec::new();
            let mut j: usize = 0;
            proof {
                lemma_chunk_in_range(
                    i as int,
                    ng as int,
                    n_stored as int,
                    self.intensities@.len() as int,
                );
            }
            while j < ng
                invariant
                    j <= ng,
                    ng >= 1,
                    ng == self.n_luminous_intensities_per_cplane,
                    0 <= i < n_stored,
                    i as int * ng as int + ng <= self.intensities@.len(),
                    self.intensities@.len() <= usize::MAX,
                    intensities_wf(self.intensities@),
                    chunk@.len() == j,
                    chunk@ =~= self.intensities@.subrange(
                        i as int * ng as int,
                        i as int * ng as int + j as int,
                    ),
                decreases ng - j,
            {
                proof {
                    assert((i as int) * (ng as int) + (j as int)
                        < self.intensities@.len());
                }
                chunk.push(self.intensities[i * ng + j]);
                j = j + 1;
            }
            proof {
                assert forall|q: int| 0 <= q < chunk@.len() implies 0 <= #[trigger] chunk@[q]
                    <= crate::fixed::MAX_FIXED by {
                    assert(chunk@[q] == self.intensities@[i as int * ng as int + q]);
                }
            }
            pl.set_intensities(chunk);
            proof {
                assert(pl@ =~= self.spec_stored_plane(i as int));
                assert(plane_wf(pl@));
            }
            planes.push(pl);
            i = i + 1;
        }
        proof {
            assert(planes@.map_values(|p: Plane| p@) =~= self.spec_stored_planes());
            lemma_stored_wf(self, planes@.map_values(|p: Plane| p@));
        }
        let ghost st = planes@.map_values(|p: Plane| p@);
        let out: Vec<Plane> = match self.symmetry {
            EulumdatSymmetry::C0C180C90C270Plane => {
                proof {
                    assert forall|k: int| 0 <= k < planes@.len() implies 0 <= (
                    #[trigger] planes@[k]@).angle <= HALF_PI_FP by {
                        assert(planes@[k]@ == st[k]);
                        lemma_deg_to_rad_quarter_turn(self.c_angles@[k] as int);
                    }
                }
                let quad = mirror_first_quadrant(&planes);
                proof {
                    lemma_quadrant_matches(&planes, &quad);
                    assert forall|k: int| 0 <= k < quad@.len() implies 0 <= (
                    #[trigger] quad@[k]@).angle <= PI_FP by {
                        if k < planes@.len() {
                            assert(quad@[k]@ == planes@[k]@);
                        } else {
                            assert(quad@[planes@.len() + (k - planes@.len())]@
                                == reflected(
                                planes@[planes@.len() - 2 - (k - planes@.len())]@,
                                PI_FP as int,
                            ));
                        }
                    }
                }
                let full = mirror_first_hemisphere(&quad);
                proof {
                    lemma_hemisphere_matches(&quad, &full);
                }
                full
            },
            EulumdatSymmetry::C0C180Plane => {
                proof {
                    assert forall|k: int| 0 <= k < planes@.len() implies 0 <= (
                    #[trigger] planes@[k]@).angle <= PI_FP by {
                        assert(planes@[k]@ == st[k]);
                        lemma_deg_to_rad_half_turn(self.c_angles@[k] as int);
                    }
                }
                let full = mirror_first_hemisphere(&planes);
                proof {
                    lemma_hemisphere_matches(&planes, &full);
                }
                full
            },
            EulumdatSymmetry::C90C270Plane => {
                proof {
                    assert forall|k: int| 0 <= k < planes@.len() implies 0 <= (
                    #[trigger] planes@[k]@).angle <= TWO_PI_FP by {
                        assert(planes@[k]@ == st[k]);
                    }
                    assert forall|k: int| 1 <= k <= planes@.len() / 2 implies (
                    #[trigger] planes@[k]@).angle <= PI_FP by {
                        assert(planes@[k]@ == st[k]);
                        lemma_deg_to_rad_half_turn(self.c_angles@[k] as int);
                    }
                }
                let full = mirror_second_and_third_quadrants(&planes);
                proof {
                    lemma_opposing_matches(&planes, &full);
                }
                full
            },
            _ => planes,
        };
        proof {
            lemma_expanded_wf(self, self.spec_expanded_planes());
            assert forall|i: int| 0 <= i < out@.len() implies plane_wf(
                #[trigger] out@[i]@,
            ) by {
                assert(out@[i]@ == out@.map_values(|p: Plane| p@)[i]);
                assert(out@.map_values(|p: Plane| p@)[i] == self.spec_expanded_planes()[i]);
            }
        }
        out
    }
}

/// Every plane of the expanded set is well-formed: reflection moves only
/// the primary angle, and keeps it inside the range a plane may carry.
proof fn lemma_expanded_wf(doc: &EulumdatFile, ex: Seq<PlaneV>)
    requires
        doc.convertible(),
        ex == doc.spec_expanded_planes(),
    ensures
        forall|i: int| 0 <= i < ex.len() ==> plane_wf(#[trigger] ex[i]),
{
    let st = doc.spec_stored_planes();
    lemma_stored_wf(doc, st);
    match doc.symmetry {
        EulumdatSymmetry::C0C180Plane => {
            assert forall|i: int| 0 <= i < ex.len() implies plane_wf(#[trigger] ex[i]) by {
                if i >= st.len() {
                    crate::photweb::funcs::lemma_reflected_wf(st[2 * st.len() - 2 - i], 2 * (PI_FP as int));
                }
            }
        },
        EulumdatSymmetry::C0C180C90C270Plane => {
            let q = quadrant_expansion(st);
            assert forall|i: int| 0 <= i < q.len() implies plane_wf(#[trigger] q[i]) && 0
                <= q[i].angle <= TWO_PI_FP by {
                if i >= st.len() {
                    crate::photweb::funcs::lemma_reflected_wf(st[2 * st.len() - 2 - i], PI_FP as int);
                }
            }
            assert forall|i: int| 0 <= i < ex.len() implies plane_wf(#[trigger] ex[i]) by {
                if i >= q.len() {
                    crate::photweb::funcs::lemma_reflected_wf(q[2 * q.len() - 2 - i], 2 * (PI_FP as int));
                }
            }
        },
        EulumdatSymmetry::C90C270Plane => {
            let h = st.len() as int / 2;
            assert forall|i: int| 0 <= i < ex.len() implies plane_wf(#[trigger] ex[i]) by {
                if i < h {
                    crate::photweb::funcs::lemma_reflected_wf(st[h - i], PI_FP as int);
                } else if i >= h + st.len() {
                    crate::photweb::funcs::lemma_reflected_wf(st[2 * h - 1 - (i - h - st.len())], 3 * (PI_FP as int));
                }
            }
        },
        _ => {},
    }
}

impl EulumdatFile {
    /// Interprets this document as a photometric web: expands the stored
    /// wedge to the full circle and assigns every plane its angular width.
    pub fn to_photweb(&self) -> (web: crate::photweb::photweb::PhotometricWeb)
        requires
            self.convertible(),
            self.spec_expanded_planes().len()
                <= crate::photweb::photweb::MAX_PLANES,
        ensures
            web@.len() == self.spec_expanded_planes().len(),
            forall|i: int| 0 <= i < web@.len() ==> (#[trigger] web@[i])
                == crate::photweb::photweb::spec_widened(self.spec_expanded_planes(), i),
    {
        let planes = self.get_planes();
        let mut web = crate::photweb::photweb::PhotometricWeb::new();
        web.set_planes(planes);
        web
    }
}

/// After expansion, the number of planes follows the symmetry class alone:
/// a web built from a convertible document has one plane per stored C-angle
/// block for the symmetric classes, and the mirrored classes fill the full
/// circle without duplicating their boundary planes.
pub proof fn lemma_expanded_plane_count(doc: &EulumdatFile)
    requires
        doc.convertible(),
    ensures
        doc.spec_expanded_planes().len() == match doc.symmetry {
            EulumdatSymmetry::C0C180Plane => 2 * doc.spec_n_stored() - 2,
            EulumdatSymmetry::C0C180C90C270Plane => 4 * doc.spec_n_stored() - 4,
            EulumdatSymmetry::C90C270Plane => doc.spec_n_stored() + 2 * (doc.spec_n_stored()
                / 2) - 1,
            _ => doc.spec_n_stored(),
        },
{
    let st = doc.spec_stored_planes();
    if doc.symmetry == EulumdatSymmetry::C0C180C90C270Plane {
        assert(quadrant_expansion(st).len() == 2 * st.len() - 1);
    }
}

/// An intensity block sits inside the intensity array.
proof fn lemma_chunk_in_range(i: int, ng: int, n_stored: int, len: int)
    requires
        0 <= i < n_stored,
        ng >= 1,
        len == n_stored * ng,
    ensures
        i * ng + ng <= len,
{
    assert(i * ng + ng <= n_stored * ng) by (nonlinear_arith)
        requires
            i + 1 <= n_stored,
            ng >= 0,
    ;
}

/// Every stored plane of a convertible document is well-formed, and its
/// angle sits inside the wedge its symmetry class declares.
proof fn lemma_stored_wf(doc: &EulumdatFile, st: Seq<PlaneV>)
    requires
        doc.convertible(),
        st == doc.spec_stored_planes(),
    ensures
        st.len() == doc.spec_n_stored(),
        forall|i: int| 0 <= i < st.len() ==> plane_wf(#[trigger] st[i]),
        forall|i: int| 0 <= i < st.len() ==> 0 <= (#[trigger] st[i]).angle <= TWO_PI_FP,
{
    let ng = doc.n_luminous_intensities_per_cplane as int;
    lemma_rad_g_angles_wf(doc);
    assert forall|i: int| 0 <= i < st.len() implies plane_wf(#[trigger] st[i]) && 0 <= st[
        i].angle <= TWO_PI_FP by {
        lemma_deg_to_rad_full_turn(doc.c_angles@[i] as int);
        assert(i * ng + ng <= st.len() * ng) by (nonlinear_arith)
            requires
                i + 1 <= st.len(),
                ng >= 0,
        ;
        assert(st.len() * ng == doc.intensities@.len());
        let sub = doc.intensities@.subrange(i * ng, i * ng + ng);
        assert forall|q: int| 0 <= q < sub.len() implies 0 <= #[trigger] sub[q]
            <= crate::fixed::MAX_FIXED by {
            assert(sub[q] == doc.intensities@[i * ng + q]);
        }
        assert(st[i].angles.len() == doc.g_angles@.len());
    }
}

/// The radian G-angles of a convertible document are admissible samples:
/// in range and strictly increasing.
proof fn lemma_rad_g_angles_wf(doc: &EulumdatFile)
    requires
        deg_angles_admissible(doc.g_angles@),
    ensures
        sample_angles_wf(doc.spec_rad_g_angles()),
{
    let degs = doc.g_angles@;
    let rads = doc.spec_rad_g_angles();
    assert forall|p: int, q: int| 0 <= p < q < rads.len() implies rads[p] < rads[q] by {
        crate::photweb::plane::lemma_deg_gap_pairwise(degs, p, q);
        crate::fixed::lemma_deg_to_rad_strict(degs[p] as int, degs[q] as int);
        lemma_deg_to_rad_half_turn(degs[p] as int);
        lemma_deg_to_rad_half_turn(degs[q] as int);
    }
    assert forall|k: int| 0 <= k < rads.len() implies 0 <= #[trigger] rads[k] <= PI_FP by {
        lemma_deg_to_rad_half_turn(degs[k] as int);
    }
}

/// The pointwise guarantees of the quadrant mirror add up to
/// [`quadrant_expansion`].
proof fn lemma_quadrant_matches(input: &Vec<Plane>, output: &Vec<Plane>)
    requires
        input@.len() >= 1,
        output@.len() == 2 * input@.len() - 1,
        forall|i: int| 0 <= i < input@.len() ==> (#[trigger] output@[i]@) == input@[i]@,
        forall|j: int| 0 <= j < input@.len() - 1 ==> (#[trigger] output@[input@.len() + j]@)
            == reflected(input@[input@.len() - 2 - j]@, PI_FP as int),
    ensures
        output@.map_values(|p: Plane| p@) =~= quadrant_expansion(
            input@.map_values(|p: Plane| p@),
        ),
{
    let iv = input@.map_values(|p: Plane| p@);
    let ov = output@.map_values(|p: Plane| p@);
    assert forall|i: int| 0 <= i < ov.len() implies ov[i] == quadrant_expansion(iv)[i] by {
        assert(ov[i] == output@[i]@);
        if i < input@.len() {
            assert(iv[i] == input@[i]@);
        } else {
            assert(output@[input@.len() + (i - input@.len())]@ == reflected(
                input@[input@.len() - 2 - (i - input@.len())]@,
                PI_FP as int,
            ));
            assert(iv[2 * iv.len() - 2 - i] == input@[2 * iv.len() - 2 - i]@);
        }
    }
}

/// The pointwise guarantees of the hemisphere mirror add up to
/// [`hemisphere_expansion`].
proof fn lemma_hemisphere_matches(input: &Vec<Plane>, output: &Vec<Plane>)
    requires
        input@.len() >= 2,
        output@.len() == 2 * input@.len() - 2,
        forall|i: int| 0 <= i < input@.len() ==> (#[trigger] output@[i]@) == input@[i]@,
        forall|j: int| 0 <= j < input@.len() - 2 ==> (#[trigger] output@[input@.len() + j]@)
            == reflected(input@[input@.len() - 2 - j]@, 2 * (PI_FP as int)),
    ensures
        output@.map_values(|p: Plane| p@) =~= hemisphere_expansion(
            input@.map_values(|p: Plane| p@),
        ),
{
    let iv = input@.map_values(|p: Plane| p@);
    let ov = output@.map_values(|p: Plane| p@);
    assert forall|i: int| 0 <= i < ov.len() implies ov[i] == hemisphere_expansion(iv)[i] by {
        assert(ov[i] == output@[i]@);
        if i < input@.len() {
            assert(iv[i] == input@[i]@);
        } else {
            assert(output@[input@.len() + (i - input@.len())]@ == reflected(
                input@[input@.len() - 2 - (i - input@.len())]@,
                2 * (PI_FP as int),
            ));
            assert(iv[2 * iv.len() - 2 - i] == input@[2 * iv.len() - 2 - i]@);
        }
    }
}

/// The pointwise guarantees of the opposing-hemisphere mirror add up to
/// [`opposing_expansion`].
proof fn lemma_opposing_matches(input: &Vec<Plane>, output: &Vec<Plane>)
    requires
        input@.len() >= 2,
        output@.len() == input@.len() + 2 * (input@.len() as int / 2) - 1,
        forall|j: int| 0 <= j < input@.len() as int / 2 ==> (#[trigger] output@[j]@)
            == reflected(input@[input@.len() as int / 2 - j]@, PI_FP as int),
        forall|i: int| 0 <= i < input@.len() ==> (#[trigger] output@[input@.len() as int / 2
            + i]@) == input@[i]@,
        forall|j: int| 0 <= j < input@.len() as int / 2 - 1 ==> (#[trigger] output@[
            input@.len() as int / 2 + input@.len() + j]@) == reflected(
            input@[2 * (input@.len() as int / 2) - 1 - j]@,
            3 * (PI_FP as int),
        ),
    ensures
        output@.map_values(|p: Plane| p@) =~= opposing_expansion(
            input@.map_values(|p: Plane| p@),
        ),
{
    let iv = input@.map_values(|p: Plane| p@);
    let ov = output@.map_values(|p: Plane| p@);
    let h = iv.len() as int / 2;
    assert forall|i: int| 0 <= i < ov.len() implies ov[i] == opposing_expansion(iv)[i] by {
        assert(ov[i] == output@[i]@);
        if i < h {
            assert(output@[i]@ == reflected(input@[h - i]@, PI_FP as int));
            assert(iv[h - i] == input@[h - i]@);
        } else if i < h + iv.len() {
            assert(output@[h + (i - h)]@ == input@[i - h]@);
            assert(iv[i - h] == input@[i - h]@);
        } else {
            assert(output@[h + input@.len() + (i - h - input@.len())]@ == reflected(
                input@[2 * h - 1 - (i - h - input@.len())]@,
                3 * (PI_FP as int),
            ));
            assert(iv[2 * h - 1 - (i - h - iv.len())] == input@[2 * h - 1 - (i - h
                - iv.len())]@);
        }
    }
}


/// Whether a line reads as an unsigned integer that fits the count fields.
pub open spec fn u32_text_ok(line: Seq<char>) -> bool {
    &&& is_int_text(line)
    &&& (line.len() == 0 || line[0] != '-')
    &&& 0 <= int_text_val(line) <= u32::MAX
}

/// Whether a line reads as a signed 32-bit integer.
pub open spec fn i32_text_ok(line: Seq<char>) -> bool {
    &&& is_int_text(line)
    &&& i32::MIN <= int_text_val(line) <= i32::MAX
}

/// Whether a line reads as a fixed-point number in this crate's range.
pub open spec fn fixed_text_ok(line: Seq<char>) -> bool {
    &&& is_fixed_text(line)
    &&& abs_int(fixed_text_val(line)) <= MAX_FIXED
}

impl EulumdatFile {
    /// The first line of the lamp parameter number `isect`, whose position
    /// follows from the number of lamp sets read earlier.
    pub open spec fn spec_lamp_lo(&self, isect: int) -> int {
        27 + isect * (self.n_lamp_sets as int)
    }

    /// The first line of the ten direct ratios for room indices.
    pub open spec fn spec_ratios_lo(&self) -> int {
        27 + 6 * (self.n_lamp_sets as int)
    }

    /// The first line of the C-angles.
    pub open spec fn spec_c_lo(&self) -> int {
        self.spec_ratios_lo() + 10
    }

    /// The first line of the G-angles.
    pub open spec fn spec_g_lo(&self) -> int {
        self.spec_c_lo() + self.n_cplanes as int
    }

    /// The first line of the luminous intensities.
    pub open spec fn spec_i_lo(&self) -> int {
        self.spec_g_lo() + self.n_luminous_intensities_per_cplane as int
    }
}

/// What one header line (lines one to twenty-six) does to the document: the
/// named field takes the parsed value and nothing else moves, or the line
/// fails to parse, the document stands, and the error carries the line.
pub open spec fn spec_header_effect(
    d0: EulumdatFile,
    d1: EulumdatFile,
    iline: int,
    line: Seq<char>,
    r: Result<(), Error>,
) -> bool {
    if iline == 1 {
        r == Ok::<(), Error>(()) && d1.header@ == line && d1 == (EulumdatFile {
            header: d1.header,
            ..d0
        })
    } else if iline == 2 {
        if !u32_text_ok(line) {
            r == Err::<(), Error>(Error::ParseIntError(iline as usize)) && d1 == d0
        } else {
            match EulumdatType::from_primitive_spec(int_text_val(line)) {
                Some(t) => r == Ok::<(), Error>(()) && d1 == (EulumdatFile {
                    ltype: t,
                    ..d0
                }),
                None => r == Err::<(), Error>(Error::FromPrimitiveError(iline as usize)) && d1
                    == d0,
            }
        }
    } else if iline == 3 {
        if !u32_text_ok(line) {
            r == Err::<(), Error>(Error::ParseIntError(iline as usize)) && d1 == d0
        } else {
            match EulumdatSymmetry::from_primitive_spec(int_text_val(line)) {
                Some(t) => r == Ok::<(), Error>(()) && d1 == (EulumdatFile {
                    symmetry: t,
                    ..d0
                }),
                None => r == Err::<(), Error>(Error::FromPrimitiveError(iline as usize)) && d1
                    == d0,
            }
        }
    } else if iline == 4 {
        if u32_text_ok(line) {
            r == Ok::<(), Error>(()) && d1 == (EulumdatFile {
                n_cplanes: int_text_val(line) as usize,
                ..d0
            })
        } else {
            r == Err::<(), Error>(Error::ParseIntError(iline as usize)) && d1 == d0
        }
    } else if iline == 5 {
        spec_fixed_field(d0, d1, line, r, iline, (EulumdatFile {
            cplane_dist: fixed_text_val(line) as i64,
            ..d0
        }))
    } else if iline == 6 {
        if u32_text_ok(line) {
            r == Ok::<(), Error>(()) && d1 == (EulumdatFile {
                n_luminous_intensities_per_cplane: int_text_val(line) as usize,
                ..d0
            })
        } else {
            r == Err::<(), Error>(Error::ParseIntError(iline as usize)) && d1 == d0
        }
    } else if iline == 7 {
        spec_fixed_field(d0, d1, line, r, iline, (EulumdatFile {
            distance_between_luminous_intensities_per_cplane: fixed_text_val(line) as i64,
            ..d0
        }))
    } else if iline == 8 {
        r == Ok::<(), Error>(()) && d1.measurement_report_number@ == line && d1
            == (EulumdatFile { measurement_report_number: d1.measurement_report_number, ..d0 })
    } else if iline == 9 {
        r == Ok::<(), Error>(()) && d1.luminaire_name@ == line && d1 == (EulumdatFile {
            luminaire_name: d1.luminaire_name,
            ..d0
        })
    } else if iline == 10 {
        r == Ok::<(), Error>(()) && d1.luminaire_number@ == line && d1 == (EulumdatFile {
            luminaire_number: d1.luminaire_number,
            ..d0
        })
    } else if iline == 11 {
        r == Ok::<(), Error>(()) && d1.filename@ == line && d1 == (EulumdatFile {
            filename: d1.filename,
            ..d0
        })
    } else if iline == 12 {
        r == Ok::<(), Error>(()) && d1.date_user@ == line && d1 == (EulumdatFile {
            date_user: d1.date_user,
            ..d0
        })
    } else if iline == 13 {
        spec_fixed_field(d0, d1, line, r, iline, (EulumdatFile {
            luminaire_length: fixed_text_val(line) as i64,
            ..d0
        }))
    } else if iline == 14 {
        spec_fixed_field(d0, d1, line, r, iline, (EulumdatFile {
            luminaire_width: fixed_text_val(line) as i64,
            ..d0
        }))
    } else if iline == 15 {
        spec_fixed_field(d0, d1, line, r, iline, (EulumdatFile {
            luminaire_height: fixed_text_val(line) as i64,
            ..d0
        }))
    } else if iline == 16 {
        spec_fixed_field(d0, d1, line, r, iline, (EulumdatFile {
            luminous_area_length: fixed_text_val(line) as i64,
            ..d0
        }))
    } else if iline == 17 {
        spec_fixed_field(d0, d1, line, r, iline, (EulumdatFile {
            luminous_area_width: fixed_text_val(line) as i64,
            ..d0
        }))
    } else if iline == 18 {
        spec_fixed_field(d0, d1, line, r, iline, (EulumdatFile {
            luminous_area_height_c0: fixed_text_val(line) as i64,
            ..d0
        }))
    } else if iline == 19 {
        spec_fixed_field(d0, d1, line, r, iline, (EulumdatFile {
            luminous_area_height_c90: fixed_text_val(line) as i64,
            ..d0
        }))
    } else if iline == 20 {
        spec_fixed_field(d0, d1, line, r, iline, (EulumdatFile {
            luminous_area_height_c180: fixed_text_val(line) as i64,
            ..d0
        }))
    } else if iline == 21 {
        spec_fixed_field(d0, d1, line, r, iline, (EulumdatFile {
            luminous_area_height_c270: fixed_text_val(line) as i64,
            ..d0
        }))
    } else if iline == 22 {
        spec_fixed_field(d0, d1, line, r, iline, (EulumdatFile {
            downward_flux_fraction: fixed_text_val(line) as i64,
            ..d0
        }))
    } else if iline == 23 {
        spec_fixed_field(d0, d1, line, r, iline, (EulumdatFile {
            light_output_ratio_luminaire: fixed_text_val(line) as i64,
            ..d0
        }))
    } else if iline == 24 {
        spec_fixed_field(d0, d1, line, r, iline, (EulumdatFile {
            luminous_intensity_conversion_factor: fixed_text_val(line) as i64,
            ..d0
        }))
    } else if iline == 25 {
        spec_fixed_field(d0, d1, line, r, iline, (EulumdatFile {
            tilt: fixed_text_val(line) as i64,
            ..d0
        }))
    } else if iline == 26 {
        if u32_text_ok(line) {
            r == Ok::<(), Error>(()) && d1 == (EulumdatFile {
                n_lamp_sets: int_text_val(line) as usize,
                ..d0
            })
        } else {
            r == Err::<(), Error>(Error::ParseIntError(iline as usize)) && d1 == d0
        }
    } else {
        false
    }
}

/// A line holding one fixed-point value: on success the document becomes
/// `set`, on failure it stands and the error carries the line.
pub open spec fn spec_fixed_field(
    d0: EulumdatFile,
    d1: EulumdatFile,
    line: Seq<char>,
    r: Result<(), Error>,
    iline: int,
    set: EulumdatFile,
) -> bool {
    if fixed_text_ok(line) {
        r == Ok::<(), Error>(()) && d1 == set
    } else {
        r == Err::<(), Error>(Error::ParseFloatError(iline as usize)) && d1 == d0
    }
}

/// A section line that appends one fixed-point value to the vector named by
/// the comparison of `d1` against `with_push`.
pub open spec fn spec_fixed_push(
    d0: EulumdatFile,
    d1: EulumdatFile,
    line: Seq<char>,
    r: Result<(), Error>,
    iline: int,
    ok_shape: bool,
) -> bool {
    if fixed_text_ok(line) {
        r == Ok::<(), Error>(()) && ok_shape
    } else {
        r == Err::<(), Error>(Error::ParseFloatError(iline as usize)) && d1 == d0
    }
}

/// What one section line (line twenty-seven onward) does to the document:
/// the section a line belongs to follows from the counts read earlier, and
/// the line's value is appended to that section's array.
pub open spec fn spec_section_effect(
    d0: EulumdatFile,
    d1: EulumdatFile,
    iline: int,
    line: Seq<char>,
    r: Result<(), Error>,
) -> bool {
    if d0.spec_lamp_lo(0) <= iline < d0.spec_lamp_lo(1) {
        // Number of lamps in a set (may be negative: a total over the set).
        if i32_text_ok(line) {
            r == Ok::<(), Error>(()) && d1.n_lamp@ == d0.n_lamp@.push(
                int_text_val(line) as i32,
            ) && d1 == (EulumdatFile { n_lamp: d1.n_lamp, ..d0 })
        } else {
            r == Err::<(), Error>(Error::ParseIntError(iline as usize)) && d1 == d0
        }
    } else if d0.spec_lamp_lo(1) <= iline < d0.spec_lamp_lo(2) {
        r == Ok::<(), Error>(()) && d1.lamp_type@.len() == d0.lamp_type@.len() + 1
            && d1.lamp_type@.last()@ == line && d1.lamp_type@.drop_last() == d0.lamp_type@ && d1
            == (EulumdatFile { lamp_type: d1.lamp_type, ..d0 })
    } else if d0.spec_lamp_lo(2) <= iline < d0.spec_lamp_lo(3) {
        spec_fixed_push(
            d0,
            d1,
            line,
            r,
            iline,
            d1.tot_luminous_flux@ == d0.tot_luminous_flux@.push(fixed_text_val(line) as i64)
                && d1 == (EulumdatFile { tot_luminous_flux: d1.tot_luminous_flux, ..d0 }),
        )
    } else if d0.spec_lamp_lo(3) <= iline < d0.spec_lamp_lo(4) {
        r == Ok::<(), Error>(()) && d1.color_temperature@.len() == d0.color_temperature@.len()
            + 1 && d1.color_temperature@.last()@ == line && d1.color_temperature@.drop_last()
            == d0.color_temperature@ && d1 == (EulumdatFile {
            color_temperature: d1.color_temperature,
            ..d0
        })
    } else if d0.spec_lamp_lo(4) <= iline < d0.spec_lamp_lo(5) {
        r == Ok::<(), Error>(()) && d1.color_rendering_group@.len()
            == d0.color_rendering_group@.len() + 1 && d1.color_rendering_group@.last()@ == line
            && d1.color_rendering_group@.drop_last() == d0.color_rendering_group@ && d1
            == (EulumdatFile { color_rendering_group: d1.color_rendering_group, ..d0 })
    } else if d0.spec_lamp_lo(5) <= iline < d0.spec_lamp_lo(6) {
        spec_fixed_push(
            d0,
            d1,
            line,
            r,
            iline,
            d1.wattage@ == d0.wattage@.push(fixed_text_val(line) as i64) && d1
                == (EulumdatFile { wattage: d1.wattage, ..d0 }),
        )
    } else if d0.spec_ratios_lo() <= iline < d0.spec_ratios_lo() + 10 {
        spec_fixed_push(
            d0,
            d1,
            line,
            r,
            iline,
            d1.direct_ratios@ == d0.direct_ratios@.push(fixed_text_val(line) as i64) && d1
                == (EulumdatFile { direct_ratios: d1.direct_ratios, ..d0 }),
        )
    } else if d0.spec_c_lo() <= iline < d0.spec_g_lo() {
        spec_fixed_push(
            d0,
            d1,
            line,
            r,
            iline,
            d1.c_angles@ == d0.c_angles@.push(fixed_text_val(line) as i64) && d1
                == (EulumdatFile { c_angles: d1.c_angles, ..d0 }),
        )
    } else if d0.spec_g_lo() <= iline < d0.spec_i_lo() {
        spec_fixed_push(
            d0,
            d1,
            line,
            r,
            iline,
            d1.g_angles@ == d0.g_angles@.push(fixed_text_val(line) as i64) && d1
                == (EulumdatFile { g_angles: d1.g_angles, ..d0 }),
        )
    } else if iline >= d0.spec_i_lo() {
        spec_fixed_push(
            d0,
            d1,
            line,
            r,
            iline,
            d1.intensities@ == d0.intensities@.push(fixed_text_val(line) as i64) && d1
                == (EulumdatFile { intensities: d1.intensities, ..d0 }),
        )
    } else {
        r == Err::<(), Error>(Error::TooManyLines(iline as usize)) && d1 == d0
    }
}

/// What one line of the file does to the document: the header
/// lines by their fixed numbers, everything after by the section boundaries
/// the header's counts define.
pub open spec fn spec_line_effect(
    d0: EulumdatFile,
    d1: EulumdatFile,
    iline: int,
    line: Seq<char>,
    r: Result<(), Error>,
) -> bool {
    if 1 <= iline <= 26 {
        spec_header_effect(d0, d1, iline, line, r)
    } else {
        spec_section_effect(d0, d1, iline, line, r)
    }
}


impl EulumdatFile {
    /// Processes one header line (lines one to twenty-six).
    fn process_header_line(&mut self, iline: usize, line: &str) -> (r: Result<(), Error>)
        requires
            1 <= iline <= 26,
        ensures
            spec_header_effect(*old(self), *final(self), iline as int, line@, r),
    {
        if iline == 1 {
            self.header = line.to_owned();
            Ok(())
        } else if iline == 2 {
            match parse_u32(&iline, line) {
                Ok(v) => match EulumdatType::from_primitive(v as usize) {
                    Some(t) => {
                        self.ltype = t;
                        Ok(())
                    },
                    None => Err(Error::FromPrimitiveError(iline)),
                },
                Err(e) => Err(e),
            }
        } else if iline == 3 {
            match parse_u32(&iline, line) {
                Ok(v) => match EulumdatSymmetry::from_primitive(v as usize) {
                    Some(t) => {
                        self.symmetry = t;
                        Ok(())
                    },
                    None => Err(Error::FromPrimitiveError(iline)),
                },
                Err(e) => Err(e),
            }
        } else if iline == 4 {
            match parse_u32(&iline, line) {
                Ok(v) => {
                    self.n_cplanes = v as usize;
                    Ok(())
                },
                Err(e) => Err(e),
            }
        } else if iline == 5 {
            match parse_fixed(&iline, line) {
                Ok(v) => {
                    self.cplane_dist = v;
                    Ok(())
                },
                Err(e) => Err(e),
            }
        } else if iline == 6 {
            match parse_u32(&iline, line) {
                Ok(v) => {
                    self.n_luminous_intensities_per_cplane = v as usize;
                    Ok(())
                },
                Err(e) => Err(e),
            }
        } else if iline == 7 {
            match parse_fixed(&iline, line) {
                Ok(v) => {
                    self.distance_between_luminous_intensities_per_cplane = v;
                    Ok(())
                },
                Err(e) => Err(e),
            }
        } else if iline == 8 {
            self.measurement_report_number = line.to_owned();
            Ok(())
        } else if iline == 9 {
            self.luminaire_name = line.to_owned();
            Ok(())
        } else if iline == 10 {
            self.luminaire_number = line.to_owned();
            Ok(())
        } else if iline == 11 {
            self.filename = line.to_owned();
            Ok(())
        } else if iline == 12 {
            self.date_user = line.to_owned();
            Ok(())
        } else if iline == 13 {
            match parse_fixed(&iline, line) {
                Ok(v) => {
                    self.luminaire_length = v;
                    Ok(())
                },
                Err(e) => Err(e),
            }
        } else if iline == 14 {
            match parse_fixed(&iline, line) {
                Ok(v) => {
                    self.luminaire_width = v;
                    Ok(())
                },
                Err(e) => Err(e),
            }
        } else if iline == 15 {
            match parse_fixed(&iline, line) {
                Ok(v) => {
                    self.luminaire_height = v;
                    Ok(())
                },
                Err(e) => Err(e),
            }
        } else if iline == 16 {
            match parse_fixed(&iline, line) {
                Ok(v) => {
                    self.luminous_area_length = v;
                    Ok(())
                },
                Err(e) => Err(e),
            }
        } else if iline == 17 {
            match parse_fixed(&iline, line) {
                Ok(v) => {
                    self.luminous_area_width = v;
                    Ok(())
                },
                Err(e) => Err(e),
            }
        } else if iline == 18 {
            match parse_fixed(&iline, line) {
                Ok(v) => {
                    self.luminous_area_height_c0 = v;
                    Ok(())
                },
                Err(e) => Err(e),
            }
        } else if iline == 19 {
            match parse_fixed(&iline, line) {
                Ok(v) => {
                    self.luminous_area_height_c90 = v;
                    Ok(())
                },
                Err(e) => Err(e),
            }
        } else if iline == 20 {
            match parse_fixed(&iline, line) {
                Ok(v) => {
                    self.luminous_area_height_c180 = v;
                    Ok(())
                },
                Err(e) => Err(e),
            }
        } else if iline == 21 {
            match parse_fixed(&iline, line) {
                Ok(v) => {
                    self.luminous_area_height_c270 = v;
                    Ok(())
                },
                Err(e) => Err(e),
            }
        } else if iline == 22 {
            match parse_fixed(&iline, line) {
                Ok(v) => {
                    self.downward_flux_fraction = v;
                    Ok(())
                },
                Err(e) => Err(e),
            }
        } else if iline == 23 {
            match parse_fixed(&iline, line) {
                Ok(v) => {
                    self.light_output_ratio_luminaire = v;
                    Ok(())
                },
                Err(e) => Err(e),
            }
        } else if iline == 24 {
            match parse_fixed(&iline, line) {
                Ok(v) => {
                    self.luminous_intensity_conversion_factor = v;
                    Ok(())
                },
                Err(e) => Err(e),
            }
        } else if iline == 25 {
            match parse_fixed(&iline, line) {
                Ok(v) => {
                    self.tilt = v;
                    Ok(())
                },
                Err(e) => Err(e),
            }
        } else {
            match parse_u32(&iline, line) {
                Ok(v) => {
                    self.n_lamp_sets = v as usize;
                    Ok(())
                },
                Err(e) => Err(e),
            }
        }
    }

    /// Processes one section line (line twenty-seven onward): which section
    /// it belongs to follows from the counts already read.
    fn process_section_line(&mut self, iline: usize, line: &str) -> (r: Result<(), Error>)
        requires
            iline > 26 || iline == 0,
            old(self).n_lamp_sets <= 0xffff_ffff,
            old(self).n_cplanes <= 0xffff_ffff,
            old(self).n_luminous_intensities_per_cplane <= 0xffff_ffff,
        ensures
            spec_section_effect(*old(self), *final(self), iline as int, line@, r),
    {
        let il = iline as u64;
        let n = self.n_lamp_sets as u64;
        let mc = self.n_cplanes as u64;
        let ng = self.n_luminous_intensities_per_cplane as u64;
        if 27 <= il && il < 27 + n {
            match parse_i32(&iline, line) {
                Ok(v) => {
                    self.n_lamp.push(v);
                    Ok(())
                },
                Err(e) => Err(e),
            }
        } else if 27 + n <= il && il < 27 + 2 * n {
            self.lamp_type.push(line.to_owned());
            proof {
                assert(self.lamp_type@.drop_last() =~= old(self).lamp_type@);
            }
            Ok(())
        } else if 27 + 2 * n <= il && il < 27 + 3 * n {
            match parse_fixed(&iline, line) {
                Ok(v) => {
                    self.tot_luminous_flux.push(v);
                    Ok(())
                },
                Err(e) => Err(e),
            }
        } else if 27 + 3 * n <= il && il < 27 + 4 * n {
            self.color_temperature.push(line.to_owned());
            proof {
                assert(self.color_temperature@.drop_last() =~= old(self).color_temperature@);
            }
            Ok(())
        } else if 27 + 4 * n <= il && il < 27 + 5 * n {
            self.color_rendering_group.push(line.to_owned());
            proof {
                assert(self.color_rendering_group@.drop_last()
                    =~= old(self).color_rendering_group@);
            }
            Ok(())
        } else if 27 + 5 * n <= il && il < 27 + 6 * n {
            match parse_fixed(&iline, line) {
                Ok(v) => {
                    self.wattage.push(v);
                    Ok(())
                },
                Err(e) => Err(e),
            }
        } else if 27 + 6 * n <= il && il < 27 + 6 * n + 10 {
            match parse_fixed(&iline, line) {
                Ok(v) => {
                    self.direct_ratios.push(v);
                    Ok(())
                },
                Err(e) => Err(e),
            }
        } else if 27 + 6 * n + 10 <= il && il < 27 + 6 * n + 10 + mc {
            match parse_fixed(&iline, line) {
                Ok(v) => {
                    self.c_angles.push(v);
                    Ok(())
                },
                Err(e) => Err(e),
            }
        } else if 27 + 6 * n + 10 + mc <= il && il < 27 + 6 * n + 10 + mc + ng {
            match parse_fixed(&iline, line) {
                Ok(v) => {
                    self.g_angles.push(v);
                    Ok(())
                },
                Err(e) => Err(e),
            }
        } else if il >= 27 + 6 * n + 10 + mc + ng {
            match parse_fixed(&iline, line) {
                Ok(v) => {
                    self.intensities.push(v);
                    Ok(())
                },
                Err(e) => Err(e),
            }
        } else {
            Err(Error::TooManyLines(iline))
        }
    }

    /// Processes one line of an EULUMDAT file: lines one to twenty-six are
    /// the fixed header, everything after belongs to the section the counts
    /// read so far place it in.  The line number is 1-based; the line comes
    /// in already trimmed.
    pub fn process_line(&mut self, iline: usize, line: &str) -> (r: Result<(), Error>)
        requires
            old(self).n_lamp_sets <= 0xffff_ffff,
            old(self).n_cplanes <= 0xffff_ffff,
            old(self).n_luminous_intensities_per_cplane <= 0xffff_ffff,
        ensures
            spec_line_effect(*old(self), *final(self), iline as int, line@, r),
            final(self).n_lamp_sets <= 0xffff_ffff,
            final(self).n_cplanes <= 0xffff_ffff,
            final(self).n_luminous_intensities_per_cplane <= 0xffff_ffff,
    {
        if 1 <= iline && iline <= 26 {
            self.process_header_line(iline, line)
        } else {
            self.process_section_line(iline, line)
        }
    }
}


/// A line or count value saturated at the platform limit, as the error
/// payloads carry it.
pub open spec fn spec_pos_clamped(v: int) -> int {
    if v > usize::MAX {
        usize::MAX as int
    } else {
        v
    }
}

/// Whether G-angle `q` is admissible in place: inside a half turn, and at
/// least the fixed-point step above its predecessor.
pub open spec fn spec_g_value_ok(d: EulumdatFile, q: int) -> bool {
    &&& 0 <= d.g_angles@[q] <= DEG_HALF_TURN
    &&& (q > 0 ==> d.g_angles@[q - 1] + DEG_STEP_MIN <= d.g_angles@[q])
}

/// Whether C-angle `q` of the stored wedge is admissible: inside a full
/// turn, and inside the wedge its symmetry class declares.
pub open spec fn spec_c_value_ok(d: EulumdatFile, q: int, stored: int) -> bool {
    &&& 0 <= d.c_angles@[q] <= DEG_FULL_TURN
    &&& match d.symmetry {
        EulumdatSymmetry::C0C180Plane => d.c_angles@[q] <= DEG_HALF_TURN,
        EulumdatSymmetry::C0C180C90C270Plane => d.c_angles@[q] <= DEG_QUARTER_TURN,
        EulumdatSymmetry::C90C270Plane => (1 <= q <= stored / 2 ==> d.c_angles@[q]
            <= DEG_HALF_TURN),
        _ => true,
    }
}

/// Whether intensity `q` is admissible: non-negative and in range.
pub open spec fn spec_i_value_ok(d: EulumdatFile, q: int) -> bool {
    0 <= d.intensities@[q] <= MAX_FIXED
}

/// Which error the validation of a fully parsed document returns: the first
/// failing check, in file order, each carrying the 1-based line it points
/// at (saturated at the platform limit for lines no real file reaches).
pub open spec fn spec_validation_error(d: EulumdatFile, e: Error) -> bool {
    let ng = d.n_luminous_intensities_per_cplane as int;
    let mc = d.n_cplanes as int;
    let stored = d.spec_mc2() - d.spec_mc1() + 1;
    if ng == 0 {
        e == Error::ArrayTooShort(6, 1, 0)
    } else if ng > MAX_SAMPLES {
        e == Error::ParseIntError(6)
    } else if d.c_angles@.len() != mc {
        e matches Error::ArrayTooShort(at, exp, got) && at == spec_pos_clamped(
            d.spec_c_lo() + d.c_angles@.len(),
        ) && exp == d.n_cplanes && got == d.c_angles@.len()
    } else if d.g_angles@.len() != ng {
        e matches Error::ArrayTooShort(at, exp, got) && at == spec_pos_clamped(
            d.spec_g_lo() + d.g_angles@.len(),
        ) && exp == d.n_luminous_intensities_per_cplane && got == d.g_angles@.len()
    } else if d.intensities@.len() < stored * ng {
        e matches Error::ArrayTooShort(at, exp, got) && at == spec_pos_clamped(
            d.spec_i_lo() + d.intensities@.len(),
        ) && exp == spec_pos_clamped(stored * ng) && got == d.intensities@.len()
    } else if d.intensities@.len() > stored * ng {
        e matches Error::TooManyLines(at) && at == spec_pos_clamped(
            d.spec_i_lo() + stored * ng,
        )
    } else if stored > mc {
        e matches Error::ArrayTooShort(at, exp, got) && at == 4 && exp == spec_pos_clamped(
            stored,
        ) && got == d.n_cplanes
    } else if (d.symmetry == EulumdatSymmetry::C0C180Plane || d.symmetry
        == EulumdatSymmetry::C90C270Plane || d.symmetry
        == EulumdatSymmetry::C0C180C90C270Plane) && stored < 2 {
        e matches Error::ArrayTooShort(at, exp, got) && at == 4 && exp == 2 && got
            == spec_pos_clamped(stored)
    } else if exists|k: int| 0 <= k < ng && !spec_g_value_ok(d, k) {
        e matches Error::ParseFloatError(at) && exists|k: int|
            0 <= k < ng && !(#[trigger] spec_g_value_ok(d, k)) && at == spec_pos_clamped(
                d.spec_g_lo() + k,
            ) && forall|q: int| 0 <= q < k ==> spec_g_value_ok(d, q)
    } else if exists|k: int| 0 <= k < stored && !spec_c_value_ok(d, k, stored) {
        e matches Error::ParseFloatError(at) && exists|k: int|
            0 <= k < stored && !(#[trigger] spec_c_value_ok(d, k, stored)) && at
                == spec_pos_clamped(d.spec_c_lo() + k) && forall|q: int|
                0 <= q < k ==> spec_c_value_ok(d, q, stored)
    } else {
        e matches Error::ParseFloatError(at) && exists|k: int|
            0 <= k < d.intensities@.len() && !(#[trigger] spec_i_value_ok(d, k)) && at
                == spec_pos_clamped(d.spec_i_lo() + k) && forall|q: int|
                0 <= q < k ==> spec_i_value_ok(d, q)
    }
}

impl EulumdatFile {
    /// Whether the three variable sections have exactly the lengths the
    /// header declares: Mc C-angles, Ng G-angles, and one intensity per
    /// G-angle for each stored C-plane between Mc1 and Mc2.
    pub open spec fn counts_consistent(&self) -> bool {
        &&& self.c_angles@.len() == self.n_cplanes
        &&& self.g_angles@.len() == self.n_luminous_intensities_per_cplane
        &&& self.intensities@.len() == (self.spec_mc2() - self.spec_mc1() + 1) * (
        self.n_luminous_intensities_per_cplane as int)
    }

    /// Checks the variable sections' lengths against the declared counts,
    /// and returns the number of stored C-planes.  The first failing check,
    /// in file order, is returned.
    fn validate_counts(&self) -> (r: Result<usize, Error>)
        requires
            self.n_lamp_sets <= 0xffff_ffff,
            self.n_cplanes <= 0xffff_ffff,
            self.n_luminous_intensities_per_cplane <= 0xffff_ffff,
        ensures
            match r {
                Ok(stored) => {
                    &&& self.counts_consistent()
                    &&& 1 <= self.n_luminous_intensities_per_cplane <= MAX_SAMPLES
                    &&& stored == self.spec_n_stored()
                    &&& stored == self.spec_mc2() - self.spec_mc1() + 1
                    &&& stored <= self.c_angles@.len()
                    &&& self.intensities@.len() == stored * (
                    self.n_luminous_intensities_per_cplane as int)
                    &&& match self.symmetry {
                        EulumdatSymmetry::C0C180Plane => stored >= 2,
                        EulumdatSymmetry::C90C270Plane => stored >= 2,
                        EulumdatSymmetry::C0C180C90C270Plane => stored >= 2,
                        _ => true,
                    }
                },
                Err(e) => !(self.convertible() && self.counts_consistent())
                    && spec_validation_error(*self, e),
            },
    {
        let n = self.n_lamp_sets as u64;
        let mc = self.n_cplanes as u64;
        let ng = self.n_luminous_intensities_per_cplane as u64;
        let c_lo: u64 = 27 + 6 * n + 10;
        let g_lo: u64 = c_lo + mc;
        let i_lo: u64 = g_lo + ng;

        // The G-angle count drives every plane; it must be present and small
        // enough for a plane to carry.
        if ng == 0 {
            return Err(Error::ArrayTooShort(6, 1, 0));
        }
        if ng > (MAX_SAMPLES as u64) {
            proof {
                if self.counts_consistent() {
                    assert(self.g_angles@.len() > MAX_SAMPLES);
                    assert(!deg_angles_admissible(self.g_angles@));
                }
            }
            return Err(Error::ParseIntError(6));
        }

        // Section lengths against the declared counts.
        if self.c_angles.len() as u64 != mc {
            let at = line_no(c_lo as u128 + self.c_angles.len() as u128);
            proof {
                assert(c_lo as int == self.spec_c_lo());
            }
            return Err(Error::ArrayTooShort(at, self.n_cplanes, self.c_angles.len()));
        }
        if self.g_angles.len() as u64 != ng {
            let at = line_no(g_lo as u128 + self.g_angles.len() as u128);
            proof {
                assert(g_lo as int == self.spec_g_lo());
            }
            return Err(
                Error::ArrayTooShort(
                    at,
                    self.n_luminous_intensities_per_cplane,
                    self.g_angles.len(),
                ),
            );
        }
        let mc1_u: u64 = match self.symmetry {
            EulumdatSymmetry::C90C270Plane => 3 * (mc / 4) + 1,
            _ => 1,
        };
        let mc2_u: u64 = match self.symmetry {
            EulumdatSymmetry::NoSymmetry => mc,
            EulumdatSymmetry::AboutVerticalAxis => 1,
            EulumdatSymmetry::C0C180Plane => mc / 2 + 1,
            EulumdatSymmetry::C90C270Plane => mc1_u + mc / 2,
            EulumdatSymmetry::C0C180C90C270Plane => mc / 4 + 1,
        };
        proof {
            assert(mc1_u == self.spec_mc1());
            assert(mc2_u == self.spec_mc2());
            assert(mc1_u <= mc2_u + 1);
        }
        let stored: u64 = mc2_u + 1 - mc1_u;
        proof {
            assert((stored as int) * (ng as int) < 0x1_0000_0000_0000_0000_0000)
                by (nonlinear_arith)
                requires
                    0 <= stored < 0x1_0000_0000_0000,
                    0 <= ng <= 0xffff_ffff,
            ;
        }
        let expected_i: u128 = (stored as u128) * (ng as u128);
        let found_i: u128 = self.intensities.len() as u128;
        if found_i < expected_i {
            let at = line_no(i_lo as u128 + self.intensities.len() as u128);
            proof {
                assert(i_lo as int == self.spec_i_lo());
                assert(expected_i as int == (self.spec_mc2() - self.spec_mc1() + 1) * (
                self.n_luminous_intensities_per_cplane as int));
            }
            return Err(Error::ArrayTooShort(at, clamp_usize(expected_i), self.intensities.len()));
        }
        if found_i > expected_i {
            let at = line_no(i_lo as u128 + expected_i);
            proof {
                assert(i_lo as int == self.spec_i_lo());
                assert(expected_i as int == (self.spec_mc2() - self.spec_mc1() + 1) * (
                self.n_luminous_intensities_per_cplane as int));
            }
            return Err(Error::TooManyLines(at));
        }
        proof {
            lemma_stored_count(self.intensities@.len() as int, stored as int, ng as int);
        }
        if stored > mc {
            return Err(Error::ArrayTooShort(4, clamp_usize(stored as u128), self.n_cplanes));
        }
        let mirror_class = match self.symmetry {
            EulumdatSymmetry::C0C180Plane => true,
            EulumdatSymmetry::C90C270Plane => true,
            EulumdatSymmetry::C0C180C90C270Plane => true,
            _ => false,
        };
        if mirror_class && stored < 2 {
            return Err(Error::ArrayTooShort(4, 2, clamp_usize(stored as u128)));
        }
        Ok(stored as usize)
    }

    /// Checks every stored value against the range its slot allows: the
    /// G-angles ascend within a half turn, the C-angles of the stored wedge
    /// stay inside the wedge their symmetry class declares, and the
    /// intensities are non-negative.  The first failing value, in file
    /// order, is returned under its 1-based line.
    fn validate_values(&self, stored: usize) -> (r: Result<(), Error>)
        requires
            self.n_lamp_sets <= 0xffff_ffff,
            self.n_cplanes <= 0xffff_ffff,
            self.n_luminous_intensities_per_cplane <= 0xffff_ffff,
            self.counts_consistent(),
            1 <= self.n_luminous_intensities_per_cplane <= MAX_SAMPLES,
            stored == self.spec_n_stored(),
            stored == self.spec_mc2() - self.spec_mc1() + 1,
            stored <= self.c_angles@.len(),
            self.intensities@.len() == stored * (
            self.n_luminous_intensities_per_cplane as int),
            match self.symmetry {
                EulumdatSymmetry::C0C180Plane => stored >= 2,
                EulumdatSymmetry::C90C270Plane => stored >= 2,
                EulumdatSymmetry::C0C180C90C270Plane => stored >= 2,
                _ => true,
            },
        ensures
            match r {
                Ok(()) => self.convertible(),
                Err(e) => !self.convertible() && spec_validation_error(*self, e),
            },
    {
        let n = self.n_lamp_sets as u64;
        let mc = self.n_cplanes as u64;
        let ng = self.n_luminous_intensities_per_cplane as u64;
        let c_lo: u64 = 27 + 6 * n + 10;
        let g_lo: u64 = c_lo + mc;
        let i_lo: u64 = g_lo + ng;

        // G-angles: within a half turn and strictly ascending with at least
        // the fixed-point step between neighbours.
        let n_g = self.g_angles.len();
        let mut k: usize = 0;
        while k < n_g
            invariant
                k <= n_g,
                n_g == self.g_angles@.len(),
                self.counts_consistent(),
                1 <= self.n_luminous_intensities_per_cplane <= MAX_SAMPLES,
                stored == self.spec_n_stored(),
                stored == self.spec_mc2() - self.spec_mc1() + 1,
                stored <= self.c_angles@.len(),
                self.intensities@.len() == stored * (
                self.n_luminous_intensities_per_cplane as int),
                match self.symmetry {
                    EulumdatSymmetry::C0C180Plane => stored >= 2,
                    EulumdatSymmetry::C90C270Plane => stored >= 2,
                    EulumdatSymmetry::C0C180C90C270Plane => stored >= 2,
                    _ => true,
                },
                forall|q: int| 0 <= q < k ==> spec_g_value_ok(*self, q),
                g_lo as int == self.spec_g_lo(),
                g_lo <= 40_000_000_000,
            decreases n_g - k,
        {
            let v = self.g_angles[k];
            proof {
                if k > 0 {
                    assert(spec_g_value_ok(*self, k - 1));
                }
            }
            let gap_bad = k > 0 && self.g_angles[k - 1] + DEG_STEP_MIN > v;
            if v < 0 || v > DEG_HALF_TURN || gap_bad {
                proof {
                    assert(!spec_g_value_ok(*self, k as int));
                    assert(exists|kk: int|
                        0 <= kk < self.g_angles@.len() && !(#[trigger] spec_g_value_ok(
                            *self,
                            kk,
                        )));
                }
                return Err(Error::ParseFloatError(line_no(g_lo as u128 + k as u128)));
            }
            proof {
                assert(spec_g_value_ok(*self, k as int));
            }
            k = k + 1;
        }
        proof {
            assert(deg_angles_admissible(self.g_angles@)) by {
                assert forall|i: int| 0 <= i < self.g_angles@.len() implies 0
                    <= #[trigger] self.g_angles@[i] <= DEG_HALF_TURN by {
                    assert(spec_g_value_ok(*self, i));
                }
                assert forall|i: int|
                    0 <= i < self.g_angles@.len() - 1 implies #[trigger] self.g_angles@[i]
                    + DEG_STEP_MIN <= self.g_angles@[i + 1] by {
                    assert(spec_g_value_ok(*self, i + 1));
                }
            }
        }

        // C-angles of the stored wedge: within a full turn, and inside the
        // wedge the symmetry class declares.
        let mut k2: usize = 0;
        while k2 < stored
            invariant
                k2 <= stored,
                self.counts_consistent(),
                1 <= self.n_luminous_intensities_per_cplane <= MAX_SAMPLES,
                stored == self.spec_n_stored(),
                stored == self.spec_mc2() - self.spec_mc1() + 1,
                stored <= self.c_angles@.len(),
                self.intensities@.len() == stored * (
                self.n_luminous_intensities_per_cplane as int),
                match self.symmetry {
                    EulumdatSymmetry::C0C180Plane => stored >= 2,
                    EulumdatSymmetry::C90C270Plane => stored >= 2,
                    EulumdatSymmetry::C0C180C90C270Plane => stored >= 2,
                    _ => true,
                },
                forall|q: int| 0 <= q < self.g_angles@.len() ==> spec_g_value_ok(*self, q),
                forall|q: int| 0 <= q < k2 ==> spec_c_value_ok(*self, q, stored as int),
                c_lo as int == self.spec_c_lo(),
                c_lo <= 40_000_000_000,
            decreases stored - k2,
        {
            let v = self.c_angles[k2];
            let cap: i64 = match self.symmetry {
                EulumdatSymmetry::C0C180Plane => DEG_HALF_TURN,
                EulumdatSymmetry::C0C180C90C270Plane => DEG_QUARTER_TURN,
                EulumdatSymmetry::C90C270Plane => {
                    if 1 <= k2 && k2 <= stored / 2 {
                        DEG_HALF_TURN
                    } else {
                        DEG_FULL_TURN
                    }
                },
                _ => DEG_FULL_TURN,
            };
            if v < 0 || v > DEG_FULL_TURN || v > cap {
                proof {
                    assert(!spec_c_value_ok(*self, k2 as int, stored as int));
                    assert(exists|kk: int|
                        0 <= kk < stored && !(#[trigger] spec_c_value_ok(
                            *self,
                            kk,
                            stored as int,
                        )));
                }
                return Err(Error::ParseFloatError(line_no(c_lo as u128 + k2 as u128)));
            }
            proof {
                assert(spec_c_value_ok(*self, k2 as int, stored as int));
            }
            k2 = k2 + 1;
        }

        // Intensities: non-negative and inside the fixed-point range.
        let n_i = self.intensities.len();
        let mut k3: usize = 0;
        while k3 < n_i
            invariant
                k3 <= n_i,
                n_i == self.intensities@.len(),
                self.counts_consistent(),
                1 <= self.n_luminous_intensities_per_cplane <= MAX_SAMPLES,
                stored == self.spec_n_stored(),
                stored == self.spec_mc2() - self.spec_mc1() + 1,
                stored <= self.c_angles@.len(),
                self.intensities@.len() == stored * (
                self.n_luminous_intensities_per_cplane as int),
                match self.symmetry {
                    EulumdatSymmetry::C0C180Plane => stored >= 2,
                    EulumdatSymmetry::C90C270Plane => stored >= 2,
                    EulumdatSymmetry::C0C180C90C270Plane => stored >= 2,
                    _ => true,
                },
                forall|q: int| 0 <= q < self.g_angles@.len() ==> spec_g_value_ok(*self, q),
                forall|q: int| 0 <= q < stored ==> spec_c_value_ok(*self, q, stored as int),
                forall|q: int| 0 <= q < k3 ==> spec_i_value_ok(*self, q),
                i_lo as int == self.spec_i_lo(),
                i_lo <= 40_000_000_000,
            decreases n_i - k3,
        {
            let v = self.intensities[k3];
            if v < 0 || v > MAX_FIXED {
                proof {
                    assert(!spec_i_value_ok(*self, k3 as int));
                    assert(exists|kk: int|
                        0 <= kk < self.intensities@.len() && !(#[trigger] spec_i_value_ok(
                            *self,
                            kk,
                        )));
                }
                return Err(Error::ParseFloatError(line_no(i_lo as u128 + k3 as u128)));
            }
            proof {
                assert(spec_i_value_ok(*self, k3 as int));
            }
            k3 = k3 + 1;
        }
        proof {
            assert(deg_angles_admissible(self.g_angles@)) by {
                assert forall|i: int| 0 <= i < self.g_angles@.len() implies 0
                    <= #[trigger] self.g_angles@[i] <= DEG_HALF_TURN by {
                    assert(spec_g_value_ok(*self, i));
                }
                assert forall|i: int|
                    0 <= i < self.g_angles@.len() - 1 implies #[trigger] self.g_angles@[i]
                    + DEG_STEP_MIN <= self.g_angles@[i + 1] by {
                    assert(spec_g_value_ok(*self, i + 1));
                }
            }
            assert forall|i: int| 0 <= i < stored implies 0 <= #[trigger] self.c_angles@[i]
                <= DEG_FULL_TURN by {
                assert(spec_c_value_ok(*self, i, stored as int));
            }
            assert forall|i: int|
                0 <= i < self.intensities@.len() implies 0 <= #[trigger] self.intensities@[i]
                <= MAX_FIXED by {
                assert(spec_i_value_ok(*self, i));
            }
            if self.symmetry == EulumdatSymmetry::C0C180Plane {
                assert forall|i: int| 0 <= i < stored implies #[trigger] self.c_angles@[i]
                    <= DEG_HALF_TURN by {
                    assert(spec_c_value_ok(*self, i, stored as int));
                }
            }
            if self.symmetry == EulumdatSymmetry::C0C180C90C270Plane {
                assert forall|i: int| 0 <= i < stored implies #[trigger] self.c_angles@[i]
                    <= DEG_QUARTER_TURN by {
                    assert(spec_c_value_ok(*self, i, stored as int));
                }
            }
            if self.symmetry == EulumdatSymmetry::C90C270Plane {
                assert forall|i: int| 1 <= i <= stored / 2 implies #[trigger] self.c_angles@[
                    i] <= DEG_HALF_TURN by {
                    assert(spec_c_value_ok(*self, i, stored as int));
                }
            }
            assert(self.convertible());
        }
        Ok(())
    }

    /// Checks the parsed document against the structure its header declares
    /// and the ranges its slots allow, so that a document that passes is
    /// [`EulumdatFile::convertible`].  The checks run in file order and the
    /// first failure is returned.
    fn validate(&self) -> (r: Result<(), Error>)
        requires
            self.n_lamp_sets <= 0xffff_ffff,
            self.n_cplanes <= 0xffff_ffff,
            self.n_luminous_intensities_per_cplane <= 0xffff_ffff,
        ensures
            match r {
                Ok(()) => self.convertible() && self.counts_consistent(),
                Err(e) => !(self.convertible() && self.counts_consistent())
                    && spec_validation_error(*self, e),
            },
    {
        match self.validate_counts() {
            Ok(stored) => self.validate_values(stored),
            Err(e) => Err(e),
        }
    }
}

/// A line position as a `usize` payload; positions past the platform limit
/// saturate, which only a file that cannot exist on that platform reaches.
pub(crate) fn line_no(v: u128) -> (r: usize)
    ensures
        r as int == spec_pos_clamped(v as int),
{
    if v > (usize::MAX as u128) {
        usize::MAX
    } else {
        v as usize
    }
}

/// A 128-bit count as a `usize` payload, saturating likewise.
pub(crate) fn clamp_usize(v: u128) -> (r: usize)
    ensures
        r as int == spec_pos_clamped(v as int),
{
    if v > (usize::MAX as u128) {
        usize::MAX
    } else {
        v as usize
    }
}

/// When the intensities hold exactly `stored` blocks of `ng` values, the
/// stored-plane count derived from their length is `stored`.
proof fn lemma_stored_count(len: int, stored: int, ng: int)
    requires
        ng >= 1,
        stored >= 0,
        len == stored * ng,
    ensures
        len / ng == stored,
        len == (len / ng) * ng,
{
    vstd::arithmetic::div_mod::lemma_div_multiples_vanish(stored, ng);
    assert(ng * stored == stored * ng) by (nonlinear_arith);
}


/// The first `k` lines were processed in order, each successfully: `ds`
/// holds the document before any line and after each of them.
pub open spec fn spec_parse_steps(
    ds: Seq<EulumdatFile>,
    lines: Seq<Seq<char>>,
    k: int,
) -> bool {
    &&& ds.len() == k + 1
    &&& 0 <= k <= lines.len()
    &&& forall|i: int|
        0 <= i < k ==> spec_line_effect(
            ds[i],
            #[trigger] ds[i + 1],
            i + 1,
            spec_trim(lines[i]),
            Ok::<(), Error>(()),
        )
}

/// A fresh document, as [`EulumdatFile::new`] builds it: zero counts, the
/// default indicators, and empty sections.
pub open spec fn spec_eulumdat_fresh(d: EulumdatFile) -> bool {
    &&& d.n_cplanes == 0
    &&& d.n_luminous_intensities_per_cplane == 0
    &&& d.n_lamp_sets == 0
    &&& d.symmetry == EulumdatSymmetry::NoSymmetry
    &&& d.c_angles@.len() == 0
    &&& d.g_angles@.len() == 0
    &&& d.intensities@.len() == 0
}

/// Parsing the text carried `d0` to `d1`, every line processed successfully
/// and the result consistent with its own header and convertible.
pub open spec fn spec_eulumdat_parse_ok(d0: EulumdatFile, d1: EulumdatFile, text: Seq<char>) -> bool {
    let lines = spec_split_lines(text);
    &&& (exists|ds: Seq<EulumdatFile>|
        #[trigger] spec_parse_steps(ds, lines, lines.len() as int) && ds[0] == d0 && ds[
            lines.len() as int] == d1)
    &&& d1.convertible()
    &&& d1.counts_consistent()
}

/// Parsing the text from `d0` failed with `e`, leaving `d1`: either some
/// line failed (the smallest, with its pinned error), or every line parsed
/// and the document failed the validation against its own header.
pub open spec fn spec_eulumdat_parse_err(
    d0: EulumdatFile,
    d1: EulumdatFile,
    text: Seq<char>,
    e: Error,
) -> bool {
    let lines = spec_split_lines(text);
    ||| (exists|ds: Seq<EulumdatFile>, k: int|
        #[trigger] spec_parse_steps(ds, lines, k) && k < lines.len() && ds[0] == d0 && ds[k]
            == d1 && spec_line_effect(d1, d1, k + 1, spec_trim(lines[k]), Err::<(), Error>(e)))
    ||| ((exists|ds: Seq<EulumdatFile>|
        #[trigger] spec_parse_steps(ds, lines, lines.len() as int) && ds[0] == d0 && ds[
            lines.len() as int] == d1) && !(d1.convertible() && d1.counts_consistent())
        && spec_validation_error(d1, e))
}

/// A line that fails leaves the document as it stood.
proof fn lemma_effect_err_unchanged(
    d0: EulumdatFile,
    d1: EulumdatFile,
    iline: int,
    line: Seq<char>,
    e: Error,
)
    requires
        spec_line_effect(d0, d1, iline, line, Err::<(), Error>(e)),
    ensures
        d1 == d0,
{
}

impl EulumdatFile {
    /// Attempts to parse EULUMDAT text: the trimmed lines are handed to
    /// [`EulumdatFile::process_line`] in order, and the first failing line
    /// aborts the parse with its error.  A document that parses clean is
    /// then checked against its own header: each section must have exactly
    /// the length the header declares, and every value must fit its slot, so
    /// that the document is [`EulumdatFile::convertible`].
    pub fn parse(&mut self, ldt_string: &str) -> (r: Result<(), Error>)
        requires
            old(self).n_lamp_sets <= 0xffff_ffff,
            old(self).n_cplanes <= 0xffff_ffff,
            old(self).n_luminous_intensities_per_cplane <= 0xffff_ffff,
        ensures
            match r {
                Ok(()) => spec_eulumdat_parse_ok(*old(self), *final(self), ldt_string@),
                Err(e) => spec_eulumdat_parse_err(*old(self), *final(self), ldt_string@, e),
            },
            final(self).n_lamp_sets <= 0xffff_ffff,
            final(self).n_cplanes <= 0xffff_ffff,
            final(self).n_luminous_intensities_per_cplane <= 0xffff_ffff,
    {
        let n = ldt_string.unicode_len();
        let ghost lines = spec_split_lines(ldt_string@);
        proof {
            crate::text::lemma_split_lines_len_le(ldt_string@);
        }
        let mut pos: usize = 0;
        let mut lineno: usize = 0;
        let ghost mut ds: Seq<EulumdatFile> = seq![*old(self)];
        proof {
            assert(ldt_string@.skip(0) =~= ldt_string@);
            assert(lines =~= lines.take(0) + spec_split_lines(ldt_string@.skip(0)));
        }
        while pos < n
            invariant
                pos <= n,
                n == ldt_string@.len(),
                lines == spec_split_lines(ldt_string@),
                lines.len() <= n,
                lineno <= lines.len(),
                lines =~= lines.take(lineno as int) + spec_split_lines(
                    ldt_string@.skip(pos as int),
                ),
                spec_parse_steps(ds, lines, lineno as int),
                ds[0] == *old(self),
                ds[lineno as int] == *self,
                self.n_lamp_sets <= 0xffff_ffff,
                self.n_cplanes <= 0xffff_ffff,
                self.n_luminous_intensities_per_cplane <= 0xffff_ffff,
            decreases n - pos,
        {
            let ghost rem = ldt_string@.skip(pos as int);
            let mut e: usize = pos;
            while e < n && ldt_string.get_char(e) != '\n'
                invariant
                    pos <= e <= n,
                    n == ldt_string@.len(),
                    rem == ldt_string@.skip(pos as int),
                    find_nl(rem, 0) == find_nl(rem, e - pos),
                    forall|q: int| 0 <= q < e - pos ==> rem[q] != '\n',
                decreases n - e,
            {
                proof {
                    assert(rem[e - pos] == ldt_string@[e as int]);
                }
                e = e + 1;
            }
            proof {
                if e < n {
                    assert(rem[e - pos] == ldt_string@[e as int]);
                    assert(find_nl(rem, e - pos) == e - pos);
                }
                if e == n {
                    assert(lines[lineno as int] == rem);
                    assert(rem =~= ldt_string@.subrange(pos as int, e as int));
                } else {
                    assert(spec_split_lines(rem) == seq![rem.take(e - pos)]
                        + spec_split_lines(rem.skip(e - pos + 1)));
                    assert(lines[lineno as int] == rem.take(e - pos));
                    assert(rem.take(e - pos) =~= ldt_string@.subrange(pos as int, e as int));
                }
                assert(lineno < lines.len());
            }
            let line = trimmed_slice(ldt_string, pos, e);
            proof {
                assert(line@ == spec_trim(lines[lineno as int]));
            }
            let res = self.process_line(lineno + 1, line);
            match res {
                Ok(()) => {
                    proof {
                        let ds_old = ds;
                        ds = ds.push(*self);
                        assert forall|i: int|
                            0 <= i < lineno + 1 implies spec_line_effect(
                            ds[i],
                            #[trigger] ds[i + 1],
                            i + 1,
                            spec_trim(lines[i]),
                            Ok::<(), Error>(()),
                        ) by {
                            if i < lineno {
                                assert(ds[i] == ds_old[i]);
                                assert(ds[i + 1] == ds_old[i + 1]);
                            } else {
                                assert(ds[i] == ds_old[lineno as int]);
                                assert(ds[i + 1] == *self);
                            }
                        }
                        assert(spec_parse_steps(ds, lines, lineno + 1));
                    }
                    proof {
                        // One more line has moved from the suffix into the prefix.
                        if e < n {
                            assert(rem.skip(e - pos + 1) =~= ldt_string@.skip(e + 1));
                            assert(lines.take(lineno + 1) =~= lines.take(lineno as int)
                                + seq![lines[lineno as int]]);
                            assert(lines =~= lines.take(lineno + 1) + spec_split_lines(
                                ldt_string@.skip(e + 1),
                            ));
                        } else {
                            assert(ldt_string@.skip(n as int).len() == 0);
                            assert(spec_split_lines(ldt_string@.skip(n as int))
                                =~= Seq::<Seq<char>>::empty());
                            assert(lines.take(lineno + 1) =~= lines.take(lineno as int)
                                + seq![lines[lineno as int]]);
                            assert(lines =~= lines.take(lineno + 1) + spec_split_lines(
                                ldt_string@.skip(n as int),
                            ));
                        }
                    }
                    lineno = lineno + 1;
                    pos = if e < n {
                        e + 1
                    } else {
                        n
                    };
                },
                Err(e2) => {
                    proof {
                        lemma_effect_err_unchanged(
                            ds[lineno as int],
                            *self,
                            lineno + 1,
                            spec_trim(lines[lineno as int]),
                            e2,
                        );
                        assert(spec_parse_steps(ds, lines, lineno as int) && (
                        lineno as int) < lines.len() && ds[0] == *old(self) && ds[
                            lineno as int] == *self && spec_line_effect(
                            *self,
                            *self,
                            lineno + 1,
                            spec_trim(lines[lineno as int]),
                            Err::<(), Error>(e2),
                        ));
                    }
                    return Err(e2);
                },
            }
        }
        proof {
            assert(ldt_string@.skip(n as int).len() == 0);
            assert(spec_split_lines(ldt_string@.skip(n as int))
                =~= Seq::<Seq<char>>::empty());
            assert(lines =~= lines.take(lineno as int));
            assert(lineno == lines.len());
            assert(spec_parse_steps(ds, lines, lines.len() as int) && ds[0] == *old(self)
                && ds[lines.len() as int] == *self);
        }
        match self.validate() {
            Ok(()) => Ok(()),
            Err(e2) => Err(e2),
        }
    }
}


/// The raw integer code a type indicator is written as.
pub open spec fn spec_ltype_code(t: EulumdatType) -> int {
    match t {
        EulumdatType::PointSourceWithSymmetryAboutVerticalAxis => 1,
        EulumdatType::LinearLumminaire => 2,
        EulumdatType::PointSourceWithOtherSymmetry => 3,
    }
}

/// The raw integer code a symmetry indicator is written as.
pub open spec fn spec_symmetry_code(sym: EulumdatSymmetry) -> int {
    match sym {
        EulumdatSymmetry::NoSymmetry => 0,
        EulumdatSymmetry::AboutVerticalAxis => 1,
        EulumdatSymmetry::C0C180Plane => 2,
        EulumdatSymmetry::C90C270Plane => 3,
        EulumdatSymmetry::C0C180C90C270Plane => 4,
    }
}

impl EulumdatFile {
    /// Whether the lamp sections and direct ratios hold exactly what the
    /// header declares: what the writer reads beyond [`Self::counts_consistent`].
    pub open spec fn lamp_sections_consistent(&self) -> bool {
        &&& self.n_lamp@.len() == self.n_lamp_sets
        &&& self.lamp_type@.len() == self.n_lamp_sets
        &&& self.tot_luminous_flux@.len() == self.n_lamp_sets
        &&& self.color_temperature@.len() == self.n_lamp_sets
        &&& self.color_rendering_group@.len() == self.n_lamp_sets
        &&& self.wattage@.len() == self.n_lamp_sets
        &&& self.direct_ratios@.len() == 10
    }

    /// The number of lines the document writes: the fixed header, the lamp
    /// sections, the ten ratios, and the three angle and intensity sections.
    pub open spec fn spec_n_file_lines(&self) -> int {
        self.spec_i_lo() - 1 + (self.spec_mc2() - self.spec_mc1() + 1) * (
        self.n_luminous_intensities_per_cplane as int)
    }

    /// The text of the document's 1-based line `i`, as the writer emits it.
    pub open spec fn spec_line_text(&self, i: int) -> Seq<char> {
        if i == 1 {
            self.header@
        } else if i == 2 {
            spec_digits(spec_ltype_code(self.ltype))
        } else if i == 3 {
            spec_digits(spec_symmetry_code(self.symmetry))
        } else if i == 4 {
            spec_digits(self.n_cplanes as int)
        } else if i == 5 {
            spec_render_fixed(self.cplane_dist as int)
        } else if i == 6 {
            spec_digits(self.n_luminous_intensities_per_cplane as int)
        } else if i == 7 {
            spec_render_fixed(self.distance_between_luminous_intensities_per_cplane as int)
        } else if i == 8 {
            self.measurement_report_number@
        } else if i == 9 {
            self.luminaire_name@
        } else if i == 10 {
            self.luminaire_number@
        } else if i == 11 {
            self.filename@
        } else if i == 12 {
            self.date_user@
        } else if i == 13 {
            spec_render_fixed(self.luminaire_length as int)
        } else if i == 14 {
            spec_render_fixed(self.luminaire_width as int)
        } else if i == 15 {
            spec_render_fixed(self.luminaire_height as int)
        } else if i == 16 {
            spec_render_fixed(self.luminous_area_length as int)
        } else if i == 17 {
            spec_render_fixed(self.luminous_area_width as int)
        } else if i == 18 {
            spec_render_fixed(self.luminous_area_height_c0 as int)
        } else if i == 19 {
            spec_render_fixed(self.luminous_area_height_c90 as int)
        } else if i == 20 {
            spec_render_fixed(self.luminous_area_height_c180 as int)
        } else if i == 21 {
            spec_render_fixed(self.luminous_area_height_c270 as int)
        } else if i == 22 {
            spec_render_fixed(self.downward_flux_fraction as int)
        } else if i == 23 {
            spec_render_fixed(self.light_output_ratio_luminaire as int)
        } else if i == 24 {
            spec_render_fixed(self.luminous_intensity_conversion_factor as int)
        } else if i == 25 {
            spec_render_fixed(self.tilt as int)
        } else if i == 26 {
            spec_digits(self.n_lamp_sets as int)
        } else if self.spec_lamp_lo(0) <= i < self.spec_lamp_lo(1) {
            spec_render_int(self.n_lamp@[i - self.spec_lamp_lo(0)] as int)
        } else if self.spec_lamp_lo(1) <= i < self.spec_lamp_lo(2) {
            self.lamp_type@[i - self.spec_lamp_lo(1)]@
        } else if self.spec_lamp_lo(2) <= i < self.spec_lamp_lo(3) {
            spec_render_fixed(self.tot_luminous_flux@[i - self.spec_lamp_lo(2)] as int)
        } else if self.spec_lamp_lo(3) <= i < self.spec_lamp_lo(4) {
            self.color_temperature@[i - self.spec_lamp_lo(3)]@
        } else if self.spec_lamp_lo(4) <= i < self.spec_lamp_lo(5) {
            self.color_rendering_group@[i - self.spec_lamp_lo(4)]@
        } else if self.spec_lamp_lo(5) <= i < self.spec_lamp_lo(6) {
            spec_render_fixed(self.wattage@[i - self.spec_lamp_lo(5)] as int)
        } else if self.spec_ratios_lo() <= i < self.spec_ratios_lo() + 10 {
            spec_render_fixed(self.direct_ratios@[i - self.spec_ratios_lo()] as int)
        } else if self.spec_c_lo() <= i < self.spec_g_lo() {
            spec_render_fixed(self.c_angles@[i - self.spec_c_lo()] as int)
        } else if self.spec_g_lo() <= i < self.spec_i_lo() {
            spec_render_fixed(self.g_angles@[i - self.spec_g_lo()] as int)
        } else {
            spec_render_fixed(self.intensities@[i - self.spec_i_lo()] as int)
        }
    }

    /// The document's first `upto` lines as text, each closed by a newline.
    pub open spec fn spec_text_upto(&self, upto: int) -> Seq<char>
        decreases upto,
    {
        if upto <= 0 {
            Seq::empty()
        } else {
            self.spec_text_upto(upto - 1) + self.spec_line_text(upto) + seq!['\n']
        }
    }

    /// Writes the document to EULUMDAT text: every one of its
    /// [`Self::spec_n_file_lines`] lines in order, fixed-point values with
    /// all nine decimal places, each line closed by a newline.
    pub fn to_string(&self) -> (r: String)
        requires
            self.n_lamp_sets <= 0xffff_ffff,
            self.n_cplanes <= 0xffff_ffff,
            self.n_luminous_intensities_per_cplane <= 0xffff_ffff,
            self.counts_consistent(),
            self.lamp_sections_consistent(),
        ensures
            r@ == self.spec_text_upto(self.spec_n_file_lines()),
    {
        let ng = self.n_luminous_intensities_per_cplane as u128;
        let n = self.n_lamp_sets as u128;
        let mc = self.n_cplanes as u128;
        let i_lo: u128 = 27 + 6 * n + 10 + mc + ng;
        let total: u128 = i_lo - 1 + self.intensities.len() as u128;
        proof {
            assert(total as int == self.spec_n_file_lines());
        }
        let mut out = "".to_owned();
        proof {
            reveal_strlit("");
            assert(out@ =~= self.spec_text_upto(0));
        }
        let mut iline: u128 = 1;
        while iline <= total
            invariant
                1 <= iline <= total + 1,
                total as int == self.spec_n_file_lines(),
                self.n_lamp_sets <= 0xffff_ffff,
                self.n_cplanes <= 0xffff_ffff,
                self.n_luminous_intensities_per_cplane <= 0xffff_ffff,
                self.counts_consistent(),
                self.lamp_sections_consistent(),
                total <= 20_000_000_000_000_000_000,
                out@ == self.spec_text_upto(iline - 1),
            decreases total + 1 - iline,
        {
            let line = self.line_text(iline);
            out.append(line.as_str());
            out.append("\n");
            proof {
                reveal_strlit("\n");
                assert(out@ =~= self.spec_text_upto(iline as int));
            }
            iline = iline + 1;
        }
        out
    }

    /// The text of one 1-based line of the document.
    fn line_text(&self, iline: u128) -> (r: String)
        requires
            1 <= iline,
            iline as int <= self.spec_n_file_lines(),
            self.n_lamp_sets <= 0xffff_ffff,
            self.n_cplanes <= 0xffff_ffff,
            self.n_luminous_intensities_per_cplane <= 0xffff_ffff,
            self.counts_consistent(),
            self.lamp_sections_consistent(),
        ensures
            r@ == self.spec_line_text(iline as int),
    {
        let n = self.n_lamp_sets as u128;
        let mc = self.n_cplanes as u128;
        let ng = self.n_luminous_intensities_per_cplane as u128;
        if iline == 1 {
            self.header.clone()
        } else if iline == 2 {
            render_u64(match self.ltype {
                EulumdatType::PointSourceWithSymmetryAboutVerticalAxis => 1,
                EulumdatType::LinearLumminaire => 2,
                EulumdatType::PointSourceWithOtherSymmetry => 3,
            })
        } else if iline == 3 {
            render_u64(match self.symmetry {
                EulumdatSymmetry::NoSymmetry => 0,
                EulumdatSymmetry::AboutVerticalAxis => 1,
                EulumdatSymmetry::C0C180Plane => 2,
                EulumdatSymmetry::C90C270Plane => 3,
                EulumdatSymmetry::C0C180C90C270Plane => 4,
            })
        } else if iline == 4 {
            render_u64(mc as u64)
        } else if iline == 5 {
            render_fixed(self.cplane_dist)
        } else if iline == 6 {
            render_u64(ng as u64)
        } else if iline == 7 {
            render_fixed(self.distance_between_luminous_intensities_per_cplane)
        } else if iline == 8 {
            self.measurement_report_number.clone()
        } else if iline == 9 {
            self.luminaire_name.clone()
        } else if iline == 10 {
            self.luminaire_number.clone()
        } else if iline == 11 {
            self.filename.clone()
        } else if iline == 12 {
            self.date_user.clone()
        } else if iline == 13 {
            render_fixed(self.luminaire_length)
        } else if iline == 14 {
            render_fixed(self.luminaire_width)
        } else if iline == 15 {
            render_fixed(self.luminaire_height)
        } else if iline == 16 {
            render_fixed(self.luminous_area_length)
        } else if iline == 17 {
            render_fixed(self.luminous_area_width)
        } else if iline == 18 {
            render_fixed(self.luminous_area_height_c0)
        } else if iline == 19 {
            render_fixed(self.luminous_area_height_c90)
        } else if iline == 20 {
            render_fixed(self.luminous_area_height_c180)
        } else if iline == 21 {
            render_fixed(self.luminous_area_height_c270)
        } else if iline == 22 {
            render_fixed(self.downward_flux_fraction)
        } else if iline == 23 {
            render_fixed(self.light_output_ratio_luminaire)
        } else if iline == 24 {
            render_fixed(self.luminous_intensity_conversion_factor)
        } else if iline == 25 {
            render_fixed(self.tilt)
        } else if iline == 26 {
            render_u64(n as u64)
        } else if 27 <= iline && iline < 27 + n {
            let r = render_i64(self.n_lamp[(iline - 27) as usize] as i64);
            proof {
                assert(r@ == self.spec_line_text(iline as int));
            }
            r
        } else if 27 + n <= iline && iline < 27 + 2 * n {
            let r = self.lamp_type[(iline - (27 + n)) as usize].clone();
            proof {
                assert(r@ == self.spec_line_text(iline as int));
            }
            r
        } else if 27 + 2 * n <= iline && iline < 27 + 3 * n {
            let r = render_fixed(self.tot_luminous_flux[(iline - (27 + 2 * n)) as usize]);
            proof {
                assert(r@ == self.spec_line_text(iline as int));
            }
            r
        } else if 27 + 3 * n <= iline && iline < 27 + 4 * n {
            let r = self.color_temperature[(iline - (27 + 3 * n)) as usize].clone();
            proof {
                assert(r@ == self.spec_line_text(iline as int));
            }
            r
        } else if 27 + 4 * n <= iline && iline < 27 + 5 * n {
            let r = self.color_rendering_group[(iline - (27 + 4 * n)) as usize].clone();
            proof {
                assert(r@ == self.spec_line_text(iline as int));
            }
            r
        } else if 27 + 5 * n <= iline && iline < 27 + 6 * n {
            let r = render_fixed(self.wattage[(iline - (27 + 5 * n)) as usize]);
            proof {
                assert(r@ == self.spec_line_text(iline as int));
            }
            r
        } else if 27 + 6 * n <= iline && iline < 27 + 6 * n + 10 {
            let r = render_fixed(self.direct_ratios[(iline - (27 + 6 * n)) as usize]);
            proof {
                assert(r@ == self.spec_line_text(iline as int));
            }
            r
        } else if 27 + 6 * n + 10 <= iline && iline < 27 + 6 * n + 10 + mc {
            let r = render_fixed(self.c_angles[(iline - (27 + 6 * n + 10)) as usize]);
            proof {
                assert(r@ == self.spec_line_text(iline as int));
            }
            r
        } else if 27 + 6 * n + 10 + mc <= iline && iline < 27 + 6 * n + 10 + mc + ng {
            let r = render_fixed(self.g_angles[(iline - (27 + 6 * n + 10 + mc)) as usize]);
            proof {
                assert(r@ == self.spec_line_text(iline as int));
            }
            r
        } else {
            let ilen = self.intensities.len();
            proof {
                assert(iline - (27 + 6 * n + 10 + mc + ng) < ilen as u128);
            }
            let r = render_fixed(
                self.intensities[(iline - (27 + 6 * n + 10 + mc + ng)) as usize],
            );
            proof {
                assert(r@ == self.spec_line_text(iline as int));
            }
            r
        }
    }
}

} // verus!
