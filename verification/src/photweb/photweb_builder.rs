//! The builder that selects a file-format parser by file extension.

use vstd::prelude::*;
use crate::err::Error;
use crate::io::eulumdat::eulumdat_file::{
    EulumdatFile, spec_eulumdat_fresh, spec_eulumdat_parse_err, spec_eulumdat_parse_ok,
};
use crate::io::ies::ies_file::{
    IesFile, spec_ies_fresh, spec_ies_parse_err, spec_ies_parse_ok,
};
use crate::io::ies::phot_type::IesPhotometryType;
use crate::photweb::photweb::{MAX_PLANES, PhotometricWeb, spec_widened};
use crate::text::{extension_of, spec_extension, str_eq};

verus! {

/// The photometric file formats this crate understands.
#[derive(Debug, Clone, Copy, PartialEq, Eq, Structural)]
pub enum PhotometricFormat {
    Eulumdat,
    Ies,
}

/// The object that builds photometric webs: it remembers the path it was
/// pointed at, and picks the parser that path's extension calls for.
#[derive(Debug, Clone, Default)]
pub struct PhotometricWebBuilder {
    pub input_file: Option<String>,
}

impl PhotometricWebBuilder {
    /// Generates a builder instance from a file path.
    pub fn from_file(filepath: &str) -> (r: PhotometricWebBuilder)
        ensures
            r.input_file matches Some(p) && p@ == filepath@,
    {
        PhotometricWebBuilder { input_file: Some(filepath.to_owned()) }
    }

    /// Picks the file parser the given path's extension calls for: `ldt` and
    /// `eul` name the EULUMDAT format, `ies` the IES format; any other
    /// extension (or none) is an error naming the offending extension.
    pub fn get_file_parser(path: &str) -> (r: Result<PhotometricFormat, Error>)
        ensures
            ({
                let ext = spec_extension(path@);
                match r {
                    Ok(PhotometricFormat::Eulumdat) => ext == "ldt"@ || ext == "eul"@,
                    Ok(PhotometricFormat::Ies) => ext == "ies"@,
                    Err(Error::InvalidFileType(e)) => e@ == ext && ext != "ldt"@ && ext
                        != "eul"@ && ext != "ies"@,
                    Err(_) => false,
                }
            }),
    {
        let ext = extension_of(path);
        if str_eq(ext, "ldt") || str_eq(ext, "eul") {
            Ok(PhotometricFormat::Eulumdat)
        } else if str_eq(ext, "ies") {
            Ok(PhotometricFormat::Ies)
        } else {
            Err(Error::InvalidFileType(ext.to_owned()))
        }
    }

    /// Attempts to build the photometric web from the given file text: the
    /// stored path's extension picks the parser, the text is parsed and
    /// validated, and the document becomes a web.  With no input file, an
    /// empty web is built.  Two refusals beyond parsing: a document whose
    /// expansion would carry more than [`MAX_PLANES`] planes, and an IES
    /// document whose photometry system or angle layout this crate does not
    /// interpret.
    pub fn build(&self, contents: &str) -> (r: Result<PhotometricWeb, Error>)
        requires
            contents@.len() < usize::MAX - 8,
        ensures
            ({
                match self.input_file {
                    None => r matches Ok(web) && web@.len() == 0,
                    Some(p) => {
                        let ext = spec_extension(p@);
                        let is_ldt = ext == "ldt"@ || ext == "eul"@;
                        let is_ies = ext == "ies"@;
                        match r {
                            Ok(web) => {
                                ||| (is_ldt && exists|d0: EulumdatFile, d: EulumdatFile|
                                    #[trigger] spec_eulumdat_parse_ok(d0, d, contents@)
                                        && spec_eulumdat_fresh(d0)
                                        && d.spec_expanded_planes().len() <= MAX_PLANES
                                        && web@.len() == d.spec_expanded_planes().len()
                                        && forall|i: int|
                                        0 <= i < web@.len() ==> web@[i] == spec_widened(
                                            d.spec_expanded_planes(),
                                            i,
                                        ))
                                ||| (is_ies && exists|d0: IesFile, d: IesFile|
                                    #[trigger] spec_ies_parse_ok(d0, d, contents@)
                                        && spec_ies_fresh(d0) && d.convertible_type_c()
                                        && d.photometric_type == IesPhotometryType::TypeC
                                        && d.spec_expanded_planes_type_c().len()
                                        <= MAX_PLANES && web@.len()
                                        == d.spec_expanded_planes_type_c().len()
                                        && forall|i: int|
                                        0 <= i < web@.len() ==> web@[i] == spec_widened(
                                            d.spec_expanded_planes_type_c(),
                                            i,
                                        ))
                            },
                            Err(e) => {
                                ||| (!is_ldt && !is_ies && (e matches Error::InvalidFileType(
                                    x,
                                ) && x@ == ext))
                                ||| (is_ldt && (e matches Error::LDTError(le)
                                    && exists|d0: EulumdatFile, d: EulumdatFile|
                                    #[trigger] spec_eulumdat_parse_err(d0, d, contents@, le)
                                        && spec_eulumdat_fresh(d0)))
                                ||| (is_ldt && (e matches Error::WebTooLarge(_)
                                    && exists|d0: EulumdatFile, d: EulumdatFile|
                                    #[trigger] spec_eulumdat_parse_ok(d0, d, contents@)
                                        && spec_eulumdat_fresh(d0)
                                        && d.spec_expanded_planes().len() > MAX_PLANES))
                                ||| (is_ies && (e matches Error::IESError(ie)
                                    && exists|d0: IesFile, d: IesFile|
                                    #[trigger] spec_ies_parse_err(d0, d, contents@, ie)
                                        && spec_ies_fresh(d0)))
                                ||| (is_ies && e == Error::UnsupportedPhotometry
                                    && exists|d0: IesFile, d: IesFile|
                                    #[trigger] spec_ies_parse_ok(d0, d, contents@)
                                        && spec_ies_fresh(d0) && !(d.convertible_type_c()
                                        && d.photometric_type
                                        == IesPhotometryType::TypeC))
                                ||| (is_ies && (e matches Error::WebTooLarge(_)
                                    && exists|d0: IesFile, d: IesFile|
                                    #[trigger] spec_ies_parse_ok(d0, d, contents@)
                                        && spec_ies_fresh(d0) && d.convertible_type_c()
                                        && d.photometric_type == IesPhotometryType::TypeC
                                        && d.spec_expanded_planes_type_c().len()
                                        > MAX_PLANES))
                            },
                        }
                    },
                }
            }),
    {
        let path = match &self.input_file {
            None => {
                return Ok(PhotometricWeb::new());
            },
            Some(p) => p,
        };
        match Self::get_file_parser(path.as_str()) {
            Err(e) => Err(e),
            Ok(PhotometricFormat::Eulumdat) => {
                let mut doc = EulumdatFile::new();
                let ghost fresh = doc;
                match doc.parse(contents) {
                    Err(e) => Err(Error::LDTError(e)),
                    Ok(()) => {
                        let ng = doc.n_luminous_intensities_per_cplane;
                        let stored = (doc.intensities.len() / ng) as u128;
                        let expanded: u128 = match doc.symmetry {
                            crate::io::eulumdat::symmetry::EulumdatSymmetry::C0C180Plane => 2
                                * stored - 2,
                            crate::io::eulumdat::symmetry::EulumdatSymmetry::C0C180C90C270Plane
                                => 4 * stored - 4,
                            crate::io::eulumdat::symmetry::EulumdatSymmetry::C90C270Plane =>
                                stored + 2 * (stored / 2) - 1,
                            _ => stored,
                        };
                        proof {
                            crate::io::eulumdat::eulumdat_file::lemma_expanded_plane_count(
                                &doc,
                            );
                            assert(spec_eulumdat_fresh(fresh));
                        }
                        if expanded > (MAX_PLANES as u128) {
                            return Err(
                                Error::WebTooLarge(
                                    crate::io::eulumdat::eulumdat_file::clamp_usize(expanded),
                                ),
                            );
                        }
                        Ok(doc.to_photweb())
                    },
                }
            },
            Ok(PhotometricFormat::Ies) => {
                let mut doc = IesFile::new();
                let ghost fresh = doc;
                match doc.parse(contents) {
                    Err(e) => Err(Error::IESError(e)),
                    Ok(()) => {
                        proof {
                            assert(spec_ies_fresh(fresh));
                        }
                        if !matches!(doc.photometric_type, IesPhotometryType::TypeC)
                            || !doc.check_convertible_type_c() {
                            return Err(Error::UnsupportedPhotometry);
                        }
                        let nv = doc.n_vertical_angles;
                        let stored = (doc.candela_values.len() / nv) as u128;
                        let last_h = doc.horizontal_angles[doc.candela_values.len() / nv
                            - 1];
                        let expanded: u128 = if last_h == crate::fixed::DEG_QUARTER_TURN {
                            4 * stored - 4
                        } else if last_h == crate::fixed::DEG_HALF_TURN {
                            2 * stored - 2
                        } else {
                            stored
                        };
                        proof {
                            crate::io::ies::ies_file::lemma_ies_expanded_count(&doc);
                        }
                        if expanded > (MAX_PLANES as u128) {
                            return Err(
                                Error::WebTooLarge(
                                    crate::io::eulumdat::eulumdat_file::clamp_usize(expanded),
                                ),
                            );
                        }
                        Ok(doc.to_photweb())
                    },
                }
            },
        }
    }
}

} // verus!
