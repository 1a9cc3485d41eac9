//! What the source image says about itself: size, colour layout, physical
//! density and colour profile.
//!
//! The caller decodes the image file and hands over what the decoder read:
//! tag values, size, colour kind and samples. The functions here decide
//! what those values mean for the conversion.

use crate::planar::PixelBuf;
use crate::resolution::{Density, ResUnit};
use vstd::prelude::*;

verus! {

/// Tag of the horizontal density.
pub const TAG_X_RESOLUTION: u16 = 282;

/// Tag of the vertical density.
pub const TAG_Y_RESOLUTION: u16 = 283;

/// Tag of the density unit.
pub const TAG_RESOLUTION_UNIT: u16 = 296;

/// Tag of the embedded colour profile.
pub const TAG_ICC_PROFILE: u16 = 34675;

/// The value of a tag, as far as the conversion reads it.
#[derive(Debug, Clone, PartialEq, Eq)]
pub enum TagValue {
    Byte(u8),
    Short(u16),
    Unsigned(u32),
    Rational(u32, u32),
    Ascii(Vec<u8>),
    /// A value of any other type.
    Other,
}

/// The value of a tag, with text as a sequence of bytes.
pub ghost enum TagModel {
    Byte(u8),
    Short(u16),
    Unsigned(u32),
    Rational(u32, u32),
    Ascii(Seq<u8>),
    Other,
}

impl View for TagValue {
    type V = TagModel;

    open spec fn view(&self) -> TagModel {
        match self {
            TagValue::Byte(b) => TagModel::Byte(*b),
            TagValue::Short(v) => TagModel::Short(*v),
            TagValue::Unsigned(v) => TagModel::Unsigned(*v),
            TagValue::Rational(a, b) => TagModel::Rational(*a, *b),
            TagValue::Ascii(s) => TagModel::Ascii(s@),
            TagValue::Other => TagModel::Other,
        }
    }
}

/// The colour layout of an image, each with its bit depth.
#[derive(Debug, Clone, Copy, PartialEq, Eq)]
pub enum ColorKind {
    Gray(u8),
    Rgb(u8),
    Palette(u8),
    GrayA(u8),
    Rgba(u8),
    Cmyk(u8),
    YCbCr(u8),
}

/// The decoded samples of an image.
#[derive(Debug, Clone, PartialEq, Eq)]
pub enum Decoded {
    U8(Vec<u8>),
    U16(Vec<u16>),
    /// Samples of any other type.
    Other,
}

/// The decoded samples of an image, as sequences.
pub ghost enum DecodedModel {
    U8(Seq<u8>),
    U16(Seq<u16>),
    Other,
}

impl View for Decoded {
    type V = DecodedModel;

    open spec fn view(&self) -> DecodedModel {
        match self {
            Decoded::U8(v) => DecodedModel::U8(v@),
            Decoded::U16(v) => DecodedModel::U16(v@),
            Decoded::Other => DecodedModel::Other,
        }
    }
}

/// What the image says about its physical size and colours.
#[derive(Debug, Clone, PartialEq, Eq)]
pub struct TiffMeta {
    /// Horizontal density.
    pub xdpi: Option<Density>,
    /// Vertical density.
    pub ydpi: Option<Density>,
    /// Unit of both densities.
    pub unit: ResUnit,
    /// Embedded colour profile.
    pub icc: Option<Vec<u8>>,
}

/// The density that a tag value gives: a fraction with a denominator that
/// is not zero.
pub open spec fn density_of(value: Option<TagModel>) -> Option<Density> {
    match value {
        Some(TagModel::Rational(a, b)) => if b != 0 {
            Some(Density { num: a, den: b })
        } else {
            None
        },
        _ => None,
    }
}

/// The unit that the number `code` stands for: 2 for the inch, 3 for the
/// centimetre.
pub open spec fn unit_of_code(code: int) -> ResUnit {
    if code == 2 {
        ResUnit::Inch
    } else if code == 3 {
        ResUnit::Centimeter
    } else {
        ResUnit::Unspecified
    }
}

/// The unit that a tag value gives. The decoder hands the number over as
/// a 16-bit or as a 32-bit value.
pub open spec fn unit_of(value: Option<TagModel>) -> ResUnit {
    match value {
        Some(TagModel::Short(u)) => unit_of_code(u as int),
        Some(TagModel::Unsigned(u)) => unit_of_code(u as int),
        _ => ResUnit::Unspecified,
    }
}

/// The colour profile that a tag value gives: a single byte, or the bytes
/// of a text.
pub open spec fn icc_of(value: Option<TagModel>) -> Option<Seq<u8>> {
    match value {
        Some(TagModel::Byte(b)) => Some(seq![b]),
        Some(TagModel::Ascii(s)) => Some(s),
        _ => None,
    }
}

/// The view of an optional tag value.
pub open spec fn tag_view(value: Option<TagValue>) -> Option<TagModel> {
    match value {
        Some(v) => Some(v@),
        None => None,
    }
}

/// The view of an optional byte buffer.
pub open spec fn bytes_view(value: Option<Vec<u8>>) -> Option<Seq<u8>> {
    match value {
        Some(v) => Some(v@),
        None => None,
    }
}

/// Reads a density from the value of a density tag.
pub fn density_from_tag(value: &Option<TagValue>) -> (d: Option<Density>)
    ensures
        d == density_of(tag_view(*value)),
        d matches Some(density) ==> density.wf(),
{
    match value {
        Some(TagValue::Rational(a, b)) => {
            if *b != 0 {
                Some(Density { num: *a, den: *b })
            } else {
                None
            }
        },
        _ => None,
    }
}

/// Reads the unit from the value of the unit tag.
pub fn unit_from_tag(value: &Option<TagValue>) -> (u: ResUnit)
    ensures
        u == unit_of(tag_view(*value)),
{
    let code: u32 = match value {
        Some(TagValue::Short(u)) => *u as u32,
        Some(TagValue::Unsigned(u)) => *u,
        _ => {
            return ResUnit::Unspecified;
        },
    };
    if code == 2 {
        ResUnit::Inch
    } else if code == 3 {
        ResUnit::Centimeter
    } else {
        ResUnit::Unspecified
    }
}

/// Reads the colour profile from the value of the profile tag.
pub fn icc_from_tag(value: Option<TagValue>) -> (icc: Option<Vec<u8>>)
    ensures
        bytes_view(icc) == icc_of(tag_view(value)),
{
    match value {
        Some(TagValue::Byte(b)) => {
            let mut v: Vec<u8> = Vec::new();
            v.push(b);
            assert(v@ =~= seq![b]);
            Some(v)
        },
        Some(TagValue::Ascii(s)) => Some(s),
        _ => None,
    }
}

/// Reads density, unit and colour profile from the values of the four
/// tags that carry them. A tag that the image lacks, or that could not be
/// read, has no value.
pub fn read_tiff_meta(
    x: Option<TagValue>,
    y: Option<TagValue>,
    unit: Option<TagValue>,
    icc: Option<TagValue>,
) -> (meta: TiffMeta)
    ensures
        meta.xdpi == density_of(tag_view(x)),
        meta.ydpi == density_of(tag_view(y)),
        meta.unit == unit_of(tag_view(unit)),
        bytes_view(meta.icc) == icc_of(tag_view(icc)),
        meta.xdpi matches Some(d) ==> d.wf(),
        meta.ydpi matches Some(d) ==> d.wf(),
{
    TiffMeta {
        xdpi: density_from_tag(&x),
        ydpi: density_from_tag(&y),
        unit: unit_from_tag(&unit),
        icc: icc_from_tag(icc),
    }
}

/// The layout of an image that can be converted.
#[derive(Debug, Clone, Copy, PartialEq, Eq)]
pub struct ImageLayout {
    pub bit_depth: u32,
    pub channels: u32,
    pub rgb: bool,
}

/// Why a decoded image cannot be converted.
#[derive(Debug, Clone, Copy, PartialEq, Eq)]
pub enum DecodeError {
    /// The image has an alpha channel, of this bit depth.
    HasAlpha(u8),
    /// The image is CMYK, of this bit depth.
    Cmyk(u8),
    /// The image has another colour layout that is not supported.
    UnsupportedColor(ColorKind),
    /// The samples are neither 8-bit nor 16-bit unsigned integers.
    UnsupportedBuffer,
}

/// Why a colour layout is turned down.
#[derive(Debug, Clone, Copy, PartialEq, Eq)]
pub enum LayoutRejected {
    HasAlpha(u8),
    Cmyk(u8),
    Unsupported(ColorKind),
}

/// The layout of a colour kind: one channel for gray, three for RGB; RGB
/// with alpha, CMYK and every other kind are turned down.
pub open spec fn layout_of(kind: ColorKind) -> Result<ImageLayout, LayoutRejected> {
    match kind {
        ColorKind::Gray(n) => Ok(ImageLayout { bit_depth: n as u32, channels: 1, rgb: false }),
        ColorKind::Rgb(n) => Ok(ImageLayout { bit_depth: n as u32, channels: 3, rgb: true }),
        ColorKind::Rgba(n) => Err(LayoutRejected::HasAlpha(n)),
        ColorKind::Cmyk(n) => Err(LayoutRejected::Cmyk(n)),
        other => Err(LayoutRejected::Unsupported(other)),
    }
}

/// Decides the layout of an image from its colour kind.
pub fn classify_color(kind: ColorKind) -> (r: Result<ImageLayout, LayoutRejected>)
    ensures
        r == layout_of(kind),
{
    match kind {
        ColorKind::Gray(n) => Ok(ImageLayout { bit_depth: n as u32, channels: 1, rgb: false }),
        ColorKind::Rgb(n) => Ok(ImageLayout { bit_depth: n as u32, channels: 3, rgb: true }),
        ColorKind::Rgba(n) => Err(LayoutRejected::HasAlpha(n)),
        ColorKind::Cmyk(n) => Err(LayoutRejected::Cmyk(n)),
        other => Err(LayoutRejected::Unsupported(other)),
    }
}

/// The pixel buffer of decoded samples; none for samples that are neither
/// 8-bit nor 16-bit unsigned integers.
pub fn pixels_from(decoded: Decoded) -> (r: Option<PixelBuf>)
    ensures
        match r {
            Some(PixelBuf::U8(v)) => decoded@ == DecodedModel::U8(v@),
            Some(PixelBuf::U16(v)) => decoded@ == DecodedModel::U16(v@),
            None => decoded@ == DecodedModel::Other,
        },
{
    match decoded {
        Decoded::U8(buf) => Some(PixelBuf::U8(buf)),
        Decoded::U16(buf) => Some(PixelBuf::U16(buf)),
        Decoded::Other => None,
    }
}

/// A decoded image.
#[derive(Debug, Clone, PartialEq, Eq)]
pub struct DecodedImage {
    pub width: u32,
    pub height: u32,
    pub layout: ImageLayout,
    pub pixels: PixelBuf,
}

/// The samples of a pixel buffer.
pub open spec fn pixel_model(pixels: PixelBuf) -> DecodedModel {
    match pixels {
        PixelBuf::U8(v) => DecodedModel::U8(v@),
        PixelBuf::U16(v) => DecodedModel::U16(v@),
    }
}

/// Makes the image that is converted out of what the decoder read: size,
/// colour kind and samples. Images with an alpha channel and CMYK images
/// are turned down, each with an error of its own; so are samples that are
/// neither 8-bit nor 16-bit unsigned integers.
pub fn decode_tiff(width: u32, height: u32, kind: ColorKind, samples: Decoded) -> (res: Result<
    DecodedImage,
    DecodeError,
>)
    ensures
        match layout_of(kind) {
            Err(LayoutRejected::HasAlpha(n)) => res is Err && res->Err_0 == DecodeError::HasAlpha(
                n,
            ),
            Err(LayoutRejected::Cmyk(n)) => res is Err && res->Err_0 == DecodeError::Cmyk(n),
            Err(LayoutRejected::Unsupported(k)) => res is Err && res->Err_0
                == DecodeError::UnsupportedColor(k),
            Ok(layout) => if samples@ == DecodedModel::Other {
                res is Err && res->Err_0 == DecodeError::UnsupportedBuffer
            } else {
                res is Ok && (res->Ok_0).width == width && (res->Ok_0).height == height && (
                res->Ok_0).layout == layout && pixel_model((res->Ok_0).pixels) == samples@
            },
        },
{
    let layout = match classify_color(kind) {
        Ok(l) => l,
        Err(LayoutRejected::HasAlpha(n)) => {
            return Err(DecodeError::HasAlpha(n));
        },
        Err(LayoutRejected::Cmyk(n)) => {
            return Err(DecodeError::Cmyk(n));
        },
        Err(LayoutRejected::Unsupported(k)) => {
            return Err(DecodeError::UnsupportedColor(k));
        },
    };
    match pixels_from(samples) {
        Some(pixels) => Ok(DecodedImage { width, height, layout, pixels }),
        None => Err(DecodeError::UnsupportedBuffer),
    }
}

} // verus!
