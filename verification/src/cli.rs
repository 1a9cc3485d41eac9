//! The command-line arguments and what they decide.

use crate::encoder::{build, built, EncoderConfig, Toggles, ValidationError};
use std::path::PathBuf;
use vstd::prelude::*;

verus! {

/// A file-system path of the standard library. The library carries paths
/// through and never looks inside one.
#[verifier::external_type_specification]
#[verifier::external_body]
pub struct ExPathBuf(PathBuf);

/// The arguments of one run.
#[derive(Debug)]
pub struct Args {
    /// Input file or directory.
    pub input: PathBuf,
    /// Output file or directory.
    pub output: Option<PathBuf>,
    /// Traverse the input directory recursively.
    pub recursive: bool,
    /// Tile size, as `WxH`.
    pub tile: String,
    /// Code-block size, as `WxH`.
    pub block: String,
    /// Number of resolution levels, or `auto`.
    pub levels: String,
    /// Overwrite existing output files.
    pub force: bool,
    /// Worker threads of the compression engine; zero for all cores.
    pub threads: usize,
    /// Colour profile that replaces the one of the image.
    pub icc: Option<PathBuf>,
    pub dpi_box_on: bool,
    pub dpi_box_off: bool,
    pub xmp_dpi_on: bool,
    pub xmp_dpi_off: bool,
    pub avx2_on: bool,
    pub avx2_off: bool,
    /// Tile parts split by resolution.
    pub tp_r: bool,
    /// Per-resolution precinct sizes.
    pub precincts: bool,
    /// Start-of-packet markers.
    pub sop: bool,
    /// End-of-packet-header markers.
    pub eph: bool,
    /// Reversible multi-component transform for three-channel images.
    pub mct: bool,
    /// Verbosity.
    pub verbose: u8,
}

/// The three switches that have an `on` and an `off` argument, settled.
#[derive(Debug, Clone, Copy, PartialEq, Eq)]
pub struct Effective {
    /// Lane-wise kernels; off unless asked for.
    pub avx2: bool,
    /// Resolution box; on unless turned off.
    pub dpi_box: bool,
    /// Metadata packet; on unless turned off.
    pub xmp_dpi: bool,
}

/// A switch with an `on` and an `off` argument: `on` wins, then `off`, then
/// the default.
pub open spec fn settled(on: bool, off: bool, default: bool) -> bool {
    if on {
        true
    } else if off {
        false
    } else {
        default
    }
}

impl Args {
    /// Settles the switches that have an `on` and an `off` argument.
    pub fn effective(&self) -> (eff: Effective)
        ensures
            eff.dpi_box == settled(self.dpi_box_on, self.dpi_box_off, true),
            eff.xmp_dpi == settled(self.xmp_dpi_on, self.xmp_dpi_off, true),
            eff.avx2 == settled(self.avx2_on, self.avx2_off, false),
    {
        let dpi_box = if self.dpi_box_on {
            true
        } else if self.dpi_box_off {
            false
        } else {
            true
        };
        let xmp_dpi = if self.xmp_dpi_on {
            true
        } else if self.xmp_dpi_off {
            false
        } else {
            true
        };
        let avx2 = if self.avx2_on {
            true
        } else if self.avx2_off {
            false
        } else {
            false
        };
        Effective { avx2, dpi_box, xmp_dpi }
    }

    /// The switches of the encoder configuration.
    pub fn toggles(&self) -> (t: Toggles)
        ensures
            t == (Toggles {
                sop: self.sop,
                eph: self.eph,
                tp_r: self.tp_r,
                precincts: self.precincts,
                mct: self.mct,
            }),
    {
        Toggles {
            sop: self.sop,
            eph: self.eph,
            tp_r: self.tp_r,
            precincts: self.precincts,
            mct: self.mct,
        }
    }

    /// Builds the encoder configuration for an image of the given size.
    pub fn encoder_config(&self, image_wh: (u32, u32), rgb: bool) -> (res: Result<
        EncoderConfig,
        ValidationError,
    >)
        ensures
            built(
                res,
                self.tile@,
                self.block@,
                self.levels@,
                image_wh,
                rgb,
                self.toggles_spec(),
            ),
            res is Ok ==> (res->Ok_0).wf(),
    {
        build(
            self.tile.as_str(),
            self.block.as_str(),
            self.levels.as_str(),
            image_wh,
            rgb,
            self.toggles(),
        )
    }

    /// The switches of the encoder configuration.
    pub open spec fn toggles_spec(&self) -> Toggles {
        Toggles {
            sop: self.sop,
            eph: self.eph,
            tp_r: self.tp_r,
            precincts: self.precincts,
            mct: self.mct,
        }
    }
}

} // verus!
