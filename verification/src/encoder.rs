//! The parameter set handed to the compression engine.
//!
//! Every configuration built here is lossless: reversible transform, one
//! quality layer at rate zero, resolution-position-component-layer
//! progression.

use crate::parse::{parse_levels, parse_wh, parsed_levels, parsed_wh};
use vstd::prelude::*;

verus! {

/// Coding-style flag: precinct partition in use.
pub const J2K_CCP_CSTY_PRT: u32 = 0x01;

/// Coding-style flag: start-of-packet markers.
pub const J2K_CCP_CSTY_SOP: u32 = 0x02;

/// Coding-style flag: end-of-packet-header markers.
pub const J2K_CCP_CSTY_EPH: u32 = 0x04;

/// Largest number of resolution levels that get a precinct size of their
/// own.
pub const MAX_PRECINCT_LEVELS: u32 = 32;

/// Largest precinct dimension.
pub const MAX_PRECINCT: i32 = 32768;

/// Smallest and largest code-block dimension.
pub const MIN_CODE_BLOCK: u32 = 4;

pub const MAX_CODE_BLOCK: u32 = 1024;

/// Nominal precinct dimension of every resolution level but the coarsest.
pub const PRECINCT_NOMINAL: i32 = 256;

/// Nominal precinct dimension of the coarsest resolution level.
pub const PRECINCT_COARSEST: i32 = 128;

/// The tile-part split flag for a split by resolution: the letter `R`.
pub const TILE_PART_BY_RESOLUTION: u8 = 0x52;

/// `n` is a power of two.
pub open spec fn is_pow2(n: int) -> bool
    decreases n,
{
    if n <= 1 {
        n == 1
    } else {
        n % 2 == 0 && is_pow2(n / 2)
    }
}

/// `v` can be a code-block dimension: a power of two in `4..=1024`.
pub open spec fn valid_code_block(v: int) -> bool {
    is_pow2(v) && MIN_CODE_BLOCK <= v <= MAX_CODE_BLOCK
}

/// The powers of two that can be code-block dimensions.
pub proof fn lemma_code_block_values(v: int)
    ensures
        valid_code_block(v) <==> (v == 4 || v == 8 || v == 16 || v == 32 || v == 64 || v == 128 || v
            == 256 || v == 512 || v == 1024),
{
    reveal_with_fuel(is_pow2, 12);
}

/// Tells whether `v` can be a code-block dimension.
pub fn is_valid_code_block(v: u32) -> (ok: bool)
    ensures
        ok == valid_code_block(v as int),
{
    proof {
        lemma_code_block_values(v as int);
    }
    let pow2: bool = v != 0 && (v & (v - 1)) == 0;
    assert(4 <= v <= 1024 ==> ((v & ((v - 1) as u32)) == 0 <==> (v == 4 || v == 8 || v == 16 || v
        == 32 || v == 64 || v == 128 || v == 256 || v == 512 || v == 1024))) by (bit_vector);
    pow2 && MIN_CODE_BLOCK <= v && v <= MAX_CODE_BLOCK
}

/// The larger of `x`, `min` and 1.
pub open spec fn floor_of(x: int, min: int) -> int {
    if x >= min && x >= 1 {
        x
    } else if min >= 1 {
        min
    } else {
        1
    }
}

/// `p` is `max(x, min, 1)` rounded up to a power of two, and 32768 where
/// that would be more.
pub open spec fn rounded_up_pow2(p: int, x: int, min: int) -> bool {
    &&& is_pow2(p)
    &&& 1 <= p <= MAX_PRECINCT
    &&& p >= floor_of(x, min) || p == MAX_PRECINCT
    &&& p == 1 || p / 2 < floor_of(x, min)
}

/// Doubling a power of two gives a power of two.
proof fn lemma_pow2_double(p: int)
    requires
        is_pow2(p),
    ensures
        is_pow2(2 * p),
{
    reveal_with_fuel(is_pow2, 2);
}

/// A power of two below another leaves room for its double.
proof fn lemma_pow2_below(p: int, bound: int)
    requires
        is_pow2(p),
        is_pow2(bound),
        p < bound,
    ensures
        2 * p <= bound,
    decreases p,
{
    reveal_with_fuel(is_pow2, 2);
    if p > 1 {
        lemma_pow2_below(p / 2, bound / 2);
    }
}

/// Rounds `max(x, min, 1)` up to the next power of two, at most 32768.
pub fn next_pow2_at_least(x: i32, min: i32) -> (p: i32)
    ensures
        rounded_up_pow2(p as int, x as int, min as int),
{
    let mut v: i32 = if x >= min {
        x
    } else {
        min
    };
    if v < 1 {
        v = 1;
    }
    let mut p: i32 = 1;
    while p < v && p < MAX_PRECINCT
        invariant
            v == floor_of(x as int, min as int),
            is_pow2(p as int),
            1 <= p <= MAX_PRECINCT,
            p == 1 || p / 2 < v,
        decreases MAX_PRECINCT - p,
    {
        proof {
            lemma_pow2_double(p as int);
            assert(is_pow2(MAX_PRECINCT as int)) by {
                reveal_with_fuel(is_pow2, 17);
            }
            lemma_pow2_below(p as int, MAX_PRECINCT as int);
        }
        p = p * 2;
    }
    p
}

/// The nominal precinct dimension of resolution level `r` out of `levels`:
/// 128 for the coarsest level, which comes last, and 256 for the others.
pub open spec fn nominal_precinct(r: int, levels: int) -> int {
    if r == levels - 1 {
        PRECINCT_COARSEST as int
    } else {
        PRECINCT_NOMINAL as int
    }
}

/// The precinct dimension of resolution level `r` for a code-block
/// dimension `cblk` that is a power of two in `4..=1024`: the larger of
/// the nominal dimension and the code-block dimension.
pub open spec fn precinct_dim(r: int, levels: int, cblk: int) -> int {
    if cblk > nominal_precinct(r, levels) {
        cblk
    } else {
        nominal_precinct(r, levels)
    }
}

/// Where `x` and `min` are powers of two, rounding up leaves the larger of
/// the two.
proof fn lemma_round_keeps_pow2(p: int, x: int, min: int)
    requires
        rounded_up_pow2(p, x, min),
        x == 128 || x == 256,
        valid_code_block(min),
    ensures
        p == if min > x {
            min
        } else {
            x
        },
{
    lemma_code_block_values(min);
    let v = floor_of(x, min);
    assert(is_pow2(v)) by {
        reveal_with_fuel(is_pow2, 12);
    }
    lemma_pow2_between(p, v);
}

/// A power of two `p` with `p / 2 < v <= p` for a power of two `v` is `v`.
proof fn lemma_pow2_between(p: int, v: int)
    requires
        is_pow2(p),
        is_pow2(v),
        p >= v,
        p == 1 || p / 2 < v,
    ensures
        p == v,
    decreases p,
{
    reveal_with_fuel(is_pow2, 2);
    if p > 1 && v > 1 {
        lemma_pow2_between(p / 2, v / 2);
    }
}

/// Rounding up has one result.
pub proof fn lemma_rounded_up_unique(a: int, b: int, x: int, min: int)
    requires
        rounded_up_pow2(a, x, min),
        rounded_up_pow2(b, x, min),
    ensures
        a == b,
{
    if a < b {
        lemma_pow2_below(a, b);
    } else if b < a {
        lemma_pow2_below(b, a);
    }
}

/// `max(x, min, 1)` rounded up to a power of two, at most 32768.
pub open spec fn next_pow2_of(x: int, min: int) -> int {
    choose|p: int| rounded_up_pow2(p, x, min)
}

/// The order in which the compressed stream interleaves layers,
/// resolutions, components and positions.
#[derive(Debug, Clone, Copy, PartialEq, Eq)]
pub enum ProgressionOrder {
    Lrcp,
    Rlcp,
    Rpcl,
    Pcrl,
    Cprl,
}

/// How the number of resolution levels is given.
#[derive(Debug, Clone, Copy, PartialEq, Eq)]
pub enum LevelsSpec {
    /// Derive the number from the image size.
    Auto,
    /// Use this number.
    Explicit(u32),
}

/// The switches of a configuration.
#[derive(Debug, Clone, Copy, PartialEq, Eq)]
pub struct Toggles {
    /// Start-of-packet markers.
    pub sop: bool,
    /// End-of-packet-header markers.
    pub eph: bool,
    /// Tile parts split by resolution.
    pub tp_r: bool,
    /// Per-resolution precinct sizes.
    pub precincts: bool,
    /// Reversible multi-component transform, for three-channel images.
    pub mct: bool,
}

/// Why a configuration could not be built.
#[derive(Debug, Clone, Copy, PartialEq, Eq)]
pub enum ValidationError {
    /// The tile size is not of the form `WxH`.
    MalformedTileSize,
    /// The code-block size is not of the form `WxH`.
    MalformedBlockSize,
    /// A code-block dimension is not a power of two in `4..=1024`.
    InvalidCodeBlock { width: u32, height: u32 },
    /// The number of resolution levels is neither `auto` nor a positive
    /// integer.
    InvalidLevels,
}

/// The parameter set of one lossless compression.
#[derive(Debug, Clone, PartialEq, Eq)]
pub struct EncoderConfig {
    /// Irreversible transform; never set.
    pub irreversible: bool,
    /// Tiling in use; always set.
    pub tile_size_on: bool,
    pub tile_origin_x: u32,
    pub tile_origin_y: u32,
    pub tile_width: u32,
    pub tile_height: u32,
    pub cblock_width: u32,
    pub cblock_height: u32,
    pub num_resolutions: u32,
    /// Coding-style flags.
    pub csty: u32,
    /// Precinct width per resolution level, finest level first.
    pub precinct_widths: Vec<i32>,
    /// Precinct height per resolution level, finest level first.
    pub precinct_heights: Vec<i32>,
    pub prog_order: ProgressionOrder,
    pub tile_parts_on: bool,
    pub tile_part_flag: u8,
    /// Reversible multi-component transform.
    pub mct: bool,
    pub num_layers: u32,
    /// Rate of the single layer; zero stands for lossless.
    pub rate: u32,
    /// Rate/distortion allocation; always set.
    pub disto_alloc: bool,
    /// Fixed-quality allocation; never set.
    pub fixed_quality: bool,
}

impl EncoderConfig {
    /// The configuration is lossless and its sizes are consistent:
    /// code-block dimensions are powers of two in `4..=1024`, every
    /// precinct dimension is a power of two no smaller than the code-block
    /// dimension, and there is at least one resolution level.
    pub open spec fn wf(&self) -> bool {
        &&& !self.irreversible
        &&& self.num_layers == 1
        &&& self.rate == 0
        &&& self.disto_alloc
        &&& !self.fixed_quality
        &&& self.prog_order == ProgressionOrder::Rpcl
        &&& valid_code_block(self.cblock_width as int)
        &&& valid_code_block(self.cblock_height as int)
        &&& self.num_resolutions >= 1
        &&& self.precinct_heights@.len() == self.precinct_widths@.len()
        &&& forall|r: int|
            0 <= r < self.precinct_widths@.len() ==> is_pow2(#[trigger] self.precinct_widths@[r] as int)
                && self.precinct_widths@[r] >= self.cblock_width
        &&& forall|r: int|
            0 <= r < self.precinct_heights@.len() ==> is_pow2(
                #[trigger] self.precinct_heights@[r] as int,
            ) && self.precinct_heights@[r] >= self.cblock_height
    }
}

/// The integer part of the binary logarithm of `n`; zero for `n <= 1`.
pub open spec fn floor_log2(n: nat) -> nat
    decreases n,
{
    if n <= 1 {
        0
    } else {
        1 + floor_log2(n / 2)
    }
}

/// The number of resolution levels for an image of `w` by `h` pixels:
/// `floor(log2(min(w, h))) - 1`, kept within `3..=8`.
pub open spec fn auto_levels_of(w: u32, h: u32) -> int {
    let m = if w <= h {
        w
    } else {
        h
    };
    let k = floor_log2(m as nat) - 1;
    if k < 3 {
        3
    } else if k > 8 {
        8
    } else {
        k
    }
}

/// The binary logarithm of a number is no larger than the number.
proof fn lemma_log2_small(n: nat)
    ensures
        floor_log2(n) <= n,
    decreases n,
{
    if n > 1 {
        lemma_log2_small(n / 2);
    }
}

/// Derives the number of resolution levels from the image size.
pub fn auto_levels(w: u32, h: u32) -> (levels: u32)
    ensures
        levels == auto_levels_of(w, h),
        3 <= levels <= 8,
{
    let m: u32 = if w <= h {
        w
    } else {
        h
    };
    let mut rest: u32 = m;
    let mut log: u32 = 0;
    proof {
        lemma_log2_small(m as nat);
    }
    while rest > 1
        invariant
            floor_log2(m as nat) == log + floor_log2(rest as nat),
            floor_log2(m as nat) <= u32::MAX,
        decreases rest,
    {
        rest = rest / 2;
        log = log + 1;
    }
    if log < 4 {
        3
    } else if log > 9 {
        8
    } else {
        log - 1
    }
}

/// The number of resolution levels that get a precinct size of their own.
pub open spec fn precinct_levels(levels: u32) -> int {
    if levels < MAX_PRECINCT_LEVELS {
        levels as int
    } else {
        MAX_PRECINCT_LEVELS as int
    }
}

/// The precinct dimensions for `levels` resolution levels and the
/// code-block dimension `cblk`, finest level first: the nominal dimension
/// of each level, rounded up to a power of two no smaller than `cblk`.
pub open spec fn precinct_sizes(levels: u32, cblk: i32) -> Seq<i32> {
    Seq::new(
        precinct_levels(levels) as nat,
        |r: int| next_pow2_of(nominal_precinct(r, precinct_levels(levels)), cblk as int) as i32,
    )
}

/// The coding-style flags for the three switches that have one.
pub open spec fn coding_style(precincts: bool, sop: bool, eph: bool) -> u32 {
    (if precincts {
        J2K_CCP_CSTY_PRT
    } else {
        0u32
    }) | (if sop {
        J2K_CCP_CSTY_SOP
    } else {
        0u32
    }) | (if eph {
        J2K_CCP_CSTY_EPH
    } else {
        0u32
    })
}

/// Each switch sets its own flag bit and no other.
pub proof fn lemma_coding_style_bits(precincts: bool, sop: bool, eph: bool)
    ensures
        (coding_style(precincts, sop, eph) & J2K_CCP_CSTY_PRT != 0) == precincts,
        (coding_style(precincts, sop, eph) & J2K_CCP_CSTY_SOP != 0) == sop,
        (coding_style(precincts, sop, eph) & J2K_CCP_CSTY_EPH != 0) == eph,
        coding_style(precincts, sop, eph) <= 7,
{
    let a: u32 = if precincts {
        1
    } else {
        0
    };
    let b: u32 = if sop {
        2
    } else {
        0
    };
    let c: u32 = if eph {
        4
    } else {
        0
    };
    assert((a == 0 || a == 1) && (b == 0 || b == 2) && (c == 0 || c == 4) ==> (((a | b | c) & 1
        != 0) == (a == 1)) && (((a | b | c) & 2 != 0) == (b == 2)) && (((a | b | c) & 4 != 0) == (c
        == 4)) && (a | b | c) <= 7) by (bit_vector);
}

/// Turns precinct partitioning on and gives every resolution level its
/// precinct size: 256 by 256, and 128 by 128 for the last level, each
/// dimension rounded up to a power of two no smaller than the code-block
/// dimension.
pub fn fill_precincts(enc: &mut EncoderConfig, levels: u32, cblk_w: i32, cblk_h: i32)
    ensures
        final(enc).csty == old(enc).csty | J2K_CCP_CSTY_PRT,
        final(enc).precinct_widths@ == precinct_sizes(levels, cblk_w),
        final(enc).precinct_heights@ == precinct_sizes(levels, cblk_h),
        *final(enc) == (EncoderConfig {
            csty: final(enc).csty,
            precinct_widths: final(enc).precinct_widths,
            precinct_heights: final(enc).precinct_heights,
            ..*old(enc)
        }),
{
    let lvls: u32 = if levels < MAX_PRECINCT_LEVELS {
        levels
    } else {
        MAX_PRECINCT_LEVELS
    };
    let mut widths: Vec<i32> = Vec::new();
    let mut heights: Vec<i32> = Vec::new();
    let mut r: u32 = 0;
    while r < lvls
        invariant
            r <= lvls,
            lvls == precinct_levels(levels),
            widths@.len() == r,
            heights@.len() == r,
            forall|i: int| 0 <= i < r ==> #[trigger] widths@[i] == precinct_sizes(levels, cblk_w)[i],
            forall|i: int|
                0 <= i < r ==> #[trigger] heights@[i] == precinct_sizes(levels, cblk_h)[i],
        decreases lvls - r,
    {
        let is_last: bool = r == lvls - 1;
        let nominal: i32 = if is_last {
            PRECINCT_COARSEST
        } else {
            PRECINCT_NOMINAL
        };
        let pw: i32 = next_pow2_at_least(nominal, cblk_w);
        let ph: i32 = next_pow2_at_least(nominal, cblk_h);
        proof {
            lemma_rounded_up_unique(
                pw as int,
                next_pow2_of(nominal as int, cblk_w as int),
                nominal as int,
                cblk_w as int,
            );
            lemma_rounded_up_unique(
                ph as int,
                next_pow2_of(nominal as int, cblk_h as int),
                nominal as int,
                cblk_h as int,
            );
        }
        widths.push(pw);
        heights.push(ph);
        r += 1;
    }
    assert(widths@ =~= precinct_sizes(levels, cblk_w));
    assert(heights@ =~= precinct_sizes(levels, cblk_h));
    enc.csty = enc.csty | J2K_CCP_CSTY_PRT;
    enc.precinct_widths = widths;
    enc.precinct_heights = heights;
}

/// The number of resolution levels that `spec` asks for, for an image of
/// `w` by `h` pixels; none where it asks for zero levels.
pub open spec fn resolved_levels(spec: LevelsSpec, w: u32, h: u32) -> Option<u32> {
    match spec {
        LevelsSpec::Auto => Some(auto_levels_of(w, h) as u32),
        LevelsSpec::Explicit(n) => if n >= 1 {
            Some(n)
        } else {
            None
        },
    }
}

/// The precinct dimensions of a configuration with `levels` resolution
/// levels and the code-block dimension `cblk`; none where precincts are
/// off.
pub open spec fn config_precincts(precincts: bool, levels: u32, cblk: u32) -> Seq<i32> {
    if precincts {
        Seq::new(
            precinct_levels(levels) as nat,
            |r: int| precinct_dim(r, precinct_levels(levels), cblk as int) as i32,
        )
    } else {
        Seq::empty()
    }
}

/// `cfg` is the configuration for these sizes, this number of resolution
/// levels and these switches.
pub open spec fn is_config_for(
    cfg: EncoderConfig,
    tile: (u32, u32),
    block: (u32, u32),
    levels: u32,
    rgb: bool,
    toggles: Toggles,
) -> bool {
    &&& !cfg.irreversible
    &&& cfg.tile_size_on
    &&& cfg.tile_origin_x == 0
    &&& cfg.tile_origin_y == 0
    &&& cfg.tile_width == tile.0
    &&& cfg.tile_height == tile.1
    &&& cfg.cblock_width == block.0
    &&& cfg.cblock_height == block.1
    &&& cfg.num_resolutions == levels
    &&& cfg.csty == coding_style(toggles.precincts, toggles.sop, toggles.eph)
    &&& cfg.precinct_widths@ == config_precincts(toggles.precincts, levels, block.0)
    &&& cfg.precinct_heights@ == config_precincts(toggles.precincts, levels, block.1)
    &&& cfg.prog_order == ProgressionOrder::Rpcl
    &&& cfg.tile_parts_on == toggles.tp_r
    &&& cfg.tile_part_flag == (if toggles.tp_r {
        TILE_PART_BY_RESOLUTION
    } else {
        0u8
    })
    &&& cfg.mct == (rgb && toggles.mct)
    &&& cfg.num_layers == 1
    &&& cfg.rate == 0
    &&& cfg.disto_alloc
    &&& !cfg.fixed_quality
}

/// What `build_config` owes.
pub open spec fn config_built(
    res: Result<EncoderConfig, ValidationError>,
    tile: (u32, u32),
    block: (u32, u32),
    levels: LevelsSpec,
    image: (u32, u32),
    rgb: bool,
    toggles: Toggles,
) -> bool {
    if !valid_code_block(block.0 as int) || !valid_code_block(block.1 as int) {
        res == Err::<EncoderConfig, ValidationError>(
            ValidationError::InvalidCodeBlock { width: block.0, height: block.1 },
        )
    } else {
        match resolved_levels(levels, image.0, image.1) {
            None => res == Err::<EncoderConfig, ValidationError>(ValidationError::InvalidLevels),
            Some(l) => res is Ok && is_config_for(res->Ok_0, tile, block, l, rgb, toggles)
                && (res->Ok_0).wf(),
        }
    }
}

/// Turning the precinct partition on sets its flag and leaves the two
/// marker flags as they are.
proof fn lemma_precinct_flag(sop: bool, eph: bool)
    ensures
        coding_style(false, sop, eph) | J2K_CCP_CSTY_PRT == coding_style(true, sop, eph),
{
    assert(((0u32 | 2u32) | 4u32) | 1u32 == (1u32 | 2u32) | 4u32 && ((0u32 | 2u32) | 0u32) | 1u32
        == (1u32 | 2u32) | 0u32 && ((0u32 | 0u32) | 4u32) | 1u32 == (1u32 | 0u32) | 4u32 && ((0u32
        | 0u32) | 0u32) | 1u32 == (1u32 | 0u32) | 0u32) by (bit_vector);
}

/// The coding-style flags for the three switches that have one.
fn coding_style_of(precincts: bool, sop: bool, eph: bool) -> (csty: u32)
    ensures
        csty == coding_style(precincts, sop, eph),
{
    (if precincts {
        J2K_CCP_CSTY_PRT
    } else {
        0u32
    }) | (if sop {
        J2K_CCP_CSTY_SOP
    } else {
        0u32
    }) | (if eph {
        J2K_CCP_CSTY_EPH
    } else {
        0u32
    })
}

/// The defaults of the switches: everything on.
pub fn default_toggles() -> (t: Toggles)
    ensures
        t == (Toggles { sop: true, eph: true, tp_r: true, precincts: true, mct: true }),
{
    Toggles { sop: true, eph: true, tp_r: true, precincts: true, mct: true }
}

/// Builds the configuration of one lossless compression.
///
/// The tile size is taken as it is. Each code-block dimension has to be a
/// power of two in `4..=1024`. The number of resolution levels is the one
/// given, which has to be positive, or the one derived from the image
/// size. `rgb` tells whether the image has three colour channels; the
/// colour transform is only turned on for such an image.
pub fn build_config(
    tile: (u32, u32),
    block: (u32, u32),
    levels: LevelsSpec,
    image: (u32, u32),
    rgb: bool,
    toggles: Toggles,
) -> (res: Result<EncoderConfig, ValidationError>)
    ensures
        config_built(res, tile, block, levels, image, rgb, toggles),
{
    if !is_valid_code_block(block.0) || !is_valid_code_block(block.1) {
        return Err(ValidationError::InvalidCodeBlock { width: block.0, height: block.1 });
    }
    let num_resolutions: u32 = match levels {
        LevelsSpec::Auto => auto_levels(image.0, image.1),
        LevelsSpec::Explicit(n) => {
            if n == 0 {
                return Err(ValidationError::InvalidLevels);
            }
            n
        },
    };
    let csty: u32 = coding_style_of(false, toggles.sop, toggles.eph);
    let mut cfg = EncoderConfig {
        irreversible: false,
        tile_size_on: true,
        tile_origin_x: 0,
        tile_origin_y: 0,
        tile_width: tile.0,
        tile_height: tile.1,
        cblock_width: block.0,
        cblock_height: block.1,
        num_resolutions,
        csty,
        precinct_widths: Vec::new(),
        precinct_heights: Vec::new(),
        prog_order: ProgressionOrder::Rpcl,
        tile_parts_on: toggles.tp_r,
        tile_part_flag: if toggles.tp_r {
            TILE_PART_BY_RESOLUTION
        } else {
            0
        },
        mct: rgb && toggles.mct,
        num_layers: 1,
        rate: 0,
        disto_alloc: true,
        fixed_quality: false,
    };
    proof {
        lemma_code_block_values(block.0 as int);
        lemma_code_block_values(block.1 as int);
    }
    if toggles.precincts {
        fill_precincts(&mut cfg, num_resolutions, block.0 as i32, block.1 as i32);
        proof {
            lemma_precincts_of_valid_block(num_resolutions, block.0 as i32);
            lemma_precincts_of_valid_block(num_resolutions, block.1 as i32);
        }
    }
    proof {
        lemma_precinct_flag(toggles.sop, toggles.eph);
        lemma_config_precincts_fit(toggles.precincts, num_resolutions, block.0);
        lemma_config_precincts_fit(toggles.precincts, num_resolutions, block.1);
    }
    Ok(cfg)
}

/// For a code-block dimension that is a power of two in `4..=1024`, the
/// rounded-up nominal dimensions are the larger of the nominal and the
/// code-block dimension.
proof fn lemma_precincts_of_valid_block(levels: u32, cblk: i32)
    requires
        valid_code_block(cblk as int),
    ensures
        precinct_sizes(levels, cblk) == config_precincts(true, levels, cblk as u32),
{
    let n = precinct_levels(levels);
    assert forall|r: int| 0 <= r < n implies precinct_sizes(levels, cblk)[r] == config_precincts(
        true,
        levels,
        cblk as u32,
    )[r] by {
        let x = nominal_precinct(r, n);
        lemma_next_pow2_exists(x, cblk as int);
        lemma_round_keeps_pow2(next_pow2_of(x, cblk as int), x, cblk as int);
    }
    assert(precinct_sizes(levels, cblk) =~= config_precincts(true, levels, cblk as u32));
}

/// Rounding up always has a result.
proof fn lemma_next_pow2_exists(x: int, min: int)
    ensures
        rounded_up_pow2(next_pow2_of(x, min), x, min),
{
    lemma_round_from(1, x, min);
}

/// From a power of two `p` with `p / 2` below `max(x, min, 1)`, doubling
/// arrives at the rounded-up value.
proof fn lemma_round_from(p: int, x: int, min: int)
    requires
        is_pow2(p),
        1 <= p <= MAX_PRECINCT,
        p == 1 || p / 2 < floor_of(x, min),
    ensures
        exists|r: int| rounded_up_pow2(r, x, min),
    decreases MAX_PRECINCT - p,
{
    if p < floor_of(x, min) && p < MAX_PRECINCT {
        lemma_pow2_double(p);
        assert(is_pow2(MAX_PRECINCT as int)) by {
            reveal_with_fuel(is_pow2, 17);
        }
        lemma_pow2_below(p, MAX_PRECINCT as int);
        lemma_round_from(2 * p, x, min);
    } else {
        assert(rounded_up_pow2(p, x, min));
    }
}

/// Every precinct dimension of a configuration is a power of two and no
/// smaller than the code-block dimension.
pub proof fn lemma_config_precincts_fit(precincts: bool, levels: u32, cblk: u32)
    requires
        valid_code_block(cblk as int),
    ensures
        forall|r: int|
            0 <= r < config_precincts(precincts, levels, cblk).len() ==> is_pow2(
                #[trigger] config_precincts(precincts, levels, cblk)[r] as int,
            ) && config_precincts(precincts, levels, cblk)[r] >= cblk,
{
    lemma_code_block_values(cblk as int);
    assert(is_pow2(128) && is_pow2(256)) by {
        reveal_with_fuel(is_pow2, 12);
    }
}

/// What `build` owes: the first argument that is at fault decides the
/// error, in the order tile size, code-block size, level count.
pub open spec fn built(
    res: Result<EncoderConfig, ValidationError>,
    tile_wh: Seq<char>,
    block_wh: Seq<char>,
    levels_spec: Seq<char>,
    image_wh: (u32, u32),
    rgb: bool,
    toggles: Toggles,
) -> bool {
    match parsed_wh(tile_wh) {
        None => res == Err::<EncoderConfig, ValidationError>(ValidationError::MalformedTileSize),
        Some(tile) => match parsed_wh(block_wh) {
            None => res == Err::<EncoderConfig, ValidationError>(
                ValidationError::MalformedBlockSize,
            ),
            Some(block) => if !valid_code_block(block.0 as int) || !valid_code_block(
                block.1 as int,
            ) {
                res == Err::<EncoderConfig, ValidationError>(
                    ValidationError::InvalidCodeBlock { width: block.0, height: block.1 },
                )
            } else {
                match parsed_levels(levels_spec) {
                    None => res == Err::<EncoderConfig, ValidationError>(
                        ValidationError::InvalidLevels,
                    ),
                    Some(levels) => config_built(res, tile, block, levels, image_wh, rgb, toggles),
                }
            },
        },
    }
}

/// Builds the configuration of one lossless compression from the textual
/// arguments: a tile size and a code-block size of the form `WxH`, and a
/// level count that is the word `auto` or a positive number.
pub fn build(
    tile_wh: &str,
    block_wh: &str,
    levels_spec: &str,
    image_wh: (u32, u32),
    rgb: bool,
    toggles: Toggles,
) -> (res: Result<EncoderConfig, ValidationError>)
    ensures
        built(res, tile_wh@, block_wh@, levels_spec@, image_wh, rgb, toggles),
        res is Ok ==> (res->Ok_0).wf(),
{
    let tile = match parse_wh(tile_wh) {
        Some(t) => t,
        None => {
            return Err(ValidationError::MalformedTileSize);
        },
    };
    let block = match parse_wh(block_wh) {
        Some(b) => b,
        None => {
            return Err(ValidationError::MalformedBlockSize);
        },
    };
    if !is_valid_code_block(block.0) || !is_valid_code_block(block.1) {
        return Err(ValidationError::InvalidCodeBlock { width: block.0, height: block.1 });
    }
    let levels = match parse_levels(levels_spec) {
        Some(l) => l,
        None => {
            return Err(ValidationError::InvalidLevels);
        },
    };
    build_config(tile, block, levels, image_wh, rgb, toggles)
}

/// A code-block size with a dimension that is not a power of two, or lies
/// outside `4..=1024`, never yields a configuration: the result is the
/// error that names the two dimensions.
pub proof fn lemma_bad_code_block_rejected(
    res: Result<EncoderConfig, ValidationError>,
    tile: (u32, u32),
    block: (u32, u32),
    levels: LevelsSpec,
    image: (u32, u32),
    rgb: bool,
    toggles: Toggles,
)
    requires
        config_built(res, tile, block, levels, image, rgb, toggles),
        !is_pow2(block.0 as int) || !is_pow2(block.1 as int) || block.0 < 4 || block.0 > 1024
            || block.1 < 4 || block.1 > 1024,
    ensures
        res is Err,
        res->Err_0 == (ValidationError::InvalidCodeBlock { width: block.0, height: block.1 }),
{
}

/// In every configuration that `build_config` yields, each precinct
/// dimension is a power of two and no smaller than the code-block
/// dimension of its axis.
pub proof fn lemma_precincts_fit_code_block(
    res: Result<EncoderConfig, ValidationError>,
    tile: (u32, u32),
    block: (u32, u32),
    levels: LevelsSpec,
    image: (u32, u32),
    rgb: bool,
    toggles: Toggles,
    r: int,
)
    requires
        config_built(res, tile, block, levels, image, rgb, toggles),
        res is Ok,
        0 <= r < (res->Ok_0).precinct_widths@.len(),
    ensures
        (res->Ok_0).precinct_heights@.len() == (res->Ok_0).precinct_widths@.len(),
        is_pow2((res->Ok_0).precinct_widths@[r] as int),
        is_pow2((res->Ok_0).precinct_heights@[r] as int),
        (res->Ok_0).precinct_widths@[r] >= block.0,
        (res->Ok_0).precinct_heights@[r] >= block.1,
        (res->Ok_0).cblock_width == block.0,
        (res->Ok_0).cblock_height == block.1,
{
    let cfg = res->Ok_0;
    assert(cfg.wf());
    assert(is_pow2(cfg.precinct_widths@[r] as int));
    assert(is_pow2(cfg.precinct_heights@[r] as int));
}

} // verus!
