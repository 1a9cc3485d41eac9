//! The resolution superbox: physical density recorded in the container
//! header.

use crate::boundaries::{
    boxes_after_insert, boxes_tile, boxes_within, lemma_insert_appends_children,
    lemma_insert_keeps_boundaries, payload_at, scan_reaches,
};
use crate::container::{
    be_bytes, be_u32_at, box_span_at, box_tag_at, boxes_from, find_box, insert_sibling_box,
    lemma_be_round_trip, patchable, patched, put_be_u32, BoxSpan,
};
use crate::rational::{approximation, ppm_to_jp2_triplet, Ppm, RationalTriplet};
use vstd::prelude::*;

verus! {

/// Tag of the container's header superbox.
pub const TAG_JP2H: [u8; 4] = [0x6a, 0x70, 0x32, 0x68];

/// Tag of the resolution superbox.
pub const TAG_RES: [u8; 4] = [0x72, 0x65, 0x73, 0x20];

/// Tag of the capture-resolution box.
pub const TAG_RESC: [u8; 4] = [0x72, 0x65, 0x73, 0x63];

/// Tag of the display-resolution box.
pub const TAG_RESD: [u8; 4] = [0x72, 0x65, 0x73, 0x64];

/// Size of the payload of a capture- or display-resolution box.
pub const RES_PAYLOAD_LEN: usize = 11;

/// Size of a capture- or display-resolution box.
pub const RES_CHILD_LEN: u32 = 19;

/// Size of the resolution superbox.
pub const RES_SUPERBOX_LEN: u32 = 46;

/// The unit of a density read from the source image.
#[derive(Debug, Clone, Copy, PartialEq, Eq)]
pub enum ResUnit {
    Inch,
    Centimeter,
    Unspecified,
}

/// The unit of a density that is to be turned into pixels per metre.
#[derive(Debug, Clone, Copy, PartialEq, Eq)]
pub enum PpmUnit {
    Inch,
    Centimeter,
}

/// A density as the fraction `num / den` of pixels per unit length.
#[derive(Debug, Clone, Copy, PartialEq, Eq)]
pub struct Density {
    pub num: u32,
    pub den: u32,
}

impl Density {
    /// The fraction has a denominator.
    pub open spec fn wf(&self) -> bool {
        self.den != 0
    }
}

/// The unit by which a density of unit `unit` is converted: a density
/// without a unit counts as pixels per inch.
pub open spec fn conversion_unit(unit: ResUnit) -> PpmUnit {
    match unit {
        ResUnit::Inch => PpmUnit::Inch,
        ResUnit::Centimeter => PpmUnit::Centimeter,
        ResUnit::Unspecified => PpmUnit::Inch,
    }
}

/// The density `dpi` in pixels per metre: divided by 0.0254 for a density
/// per inch, by 0.01 for a density per centimetre.
pub open spec fn ppm_of(dpi: Density, unit: PpmUnit) -> Ppm {
    match unit {
        PpmUnit::Inch => Ppm { num: (dpi.num * 10000) as u64, den: (dpi.den * 254) as u64 },
        PpmUnit::Centimeter => Ppm { num: (dpi.num * 100) as u64, den: dpi.den as u64 },
    }
}

/// Picks the unit by which a density of unit `unit` is converted.
pub fn ppm_unit_for(unit: ResUnit) -> (u: PpmUnit)
    ensures
        u == conversion_unit(unit),
{
    match unit {
        ResUnit::Inch => PpmUnit::Inch,
        ResUnit::Centimeter => PpmUnit::Centimeter,
        ResUnit::Unspecified => PpmUnit::Inch,
    }
}

/// Converts a density to pixels per metre, exactly.
pub fn dpi_to_ppm(dpi: Density, unit: PpmUnit) -> (ppm: Ppm)
    ensures
        ppm == ppm_of(dpi, unit),
        ppm.num == dpi.num * (if unit == PpmUnit::Inch { 10000int } else { 100int }),
        ppm.den == dpi.den * (if unit == PpmUnit::Inch { 254int } else { 1int }),
{
    match unit {
        PpmUnit::Inch => Ppm { num: (dpi.num as u64) * 10000, den: (dpi.den as u64) * 254 },
        PpmUnit::Centimeter => Ppm { num: (dpi.num as u64) * 100, den: dpi.den as u64 },
    }
}

/// The two bytes that encode `x` in big-endian order.
pub open spec fn be16_bytes(x: u16) -> Seq<u8> {
    seq![(x / 0x100) as u8, (x % 0x100) as u8]
}

/// The five bytes of a triplet: numerator, denominator, exponent.
pub open spec fn triplet_bytes(t: RationalTriplet) -> Seq<u8> {
    be16_bytes(t.num) + be16_bytes(t.den) + seq![t.exp]
}

/// The payload of a resolution box: the vertical triplet, the horizontal
/// triplet, and a reserved zero byte.
pub open spec fn resolution_payload(v: RationalTriplet, h: RationalTriplet) -> Seq<u8> {
    triplet_bytes(v) + triplet_bytes(h) + seq![0u8]
}

/// A box: its length field, its tag and its payload.
pub open spec fn boxed(tag: Seq<u8>, payload: Seq<u8>) -> Seq<u8> {
    be_bytes(8 + payload.len() as int) + tag + payload
}

/// The resolution superbox for a vertical and a horizontal density: a
/// capture-resolution and a display-resolution box of the same payload.
pub open spec fn res_superbox(v: RationalTriplet, h: RationalTriplet) -> Seq<u8> {
    boxed(
        TAG_RES@,
        boxed(TAG_RESC@, resolution_payload(v, h)) + boxed(TAG_RESD@, resolution_payload(v, h)),
    )
}

/// The sizes of the resolution boxes.
pub proof fn lemma_resolution_sizes(v: RationalTriplet, h: RationalTriplet)
    ensures
        triplet_bytes(v).len() == 5,
        resolution_payload(v, h).len() == RES_PAYLOAD_LEN,
        boxed(TAG_RESC@, resolution_payload(v, h)).len() == RES_CHILD_LEN,
        boxed(TAG_RESD@, resolution_payload(v, h)).len() == RES_CHILD_LEN,
        res_superbox(v, h).len() == RES_SUPERBOX_LEN,
{
    assert(be16_bytes(v.num).len() == 2);
    assert(triplet_bytes(v).len() == 5);
    assert(triplet_bytes(h).len() == 5);
    let payload = resolution_payload(v, h);
    assert(seq![0u8].len() == 1);
    assert((triplet_bytes(v) + triplet_bytes(h)).len() == 10);
    assert(payload.len() == 11);
    assert(be_bytes(19).len() == 4);
    assert(TAG_RESC@.len() == 4 && TAG_RESD@.len() == 4 && TAG_RES@.len() == 4);
    let c = boxed(TAG_RESC@, payload);
    let d = boxed(TAG_RESD@, payload);
    assert(c.len() == 19);
    assert(d.len() == 19);
    assert((c + d).len() == 38);
    assert(be_bytes(46).len() == 4);
}

/// Appends the five bytes of a triplet to `out`.
fn put_triplet(t: RationalTriplet, out: &mut Vec<u8>)
    ensures
        final(out)@ == old(out)@ + triplet_bytes(t),
{
    out.push((t.num / 0x100) as u8);
    out.push((t.num % 0x100) as u8);
    out.push((t.den / 0x100) as u8);
    out.push((t.den % 0x100) as u8);
    out.push(t.exp);
    assert(out@ =~= old(out)@ + triplet_bytes(t));
}

/// Appends a four-byte tag to `out`.
fn put_tag(tag: &[u8; 4], out: &mut Vec<u8>)
    ensures
        final(out)@ == old(out)@ + tag@,
{
    out.push(tag[0]);
    out.push(tag[1]);
    out.push(tag[2]);
    out.push(tag[3]);
    assert(out@ =~= old(out)@ + tag@);
}

/// Appends the payload of a resolution box to `out`.
fn put_resolution_payload(v: RationalTriplet, h: RationalTriplet, out: &mut Vec<u8>)
    ensures
        final(out)@ == old(out)@ + resolution_payload(v, h),
{
    put_triplet(v, out);
    put_triplet(h, out);
    out.push(0);
    assert(out@ =~= old(out)@ + resolution_payload(v, h));
}

/// Builds the 11-byte payload of a capture- or display-resolution box for
/// the vertical density `v_ppm` and the horizontal density `h_ppm`.
pub fn build_resc_resd_payload(v_ppm: Ppm, h_ppm: Ppm) -> (out: Vec<u8>)
    ensures
        out@ == resolution_payload(approximation(v_ppm), approximation(h_ppm)),
        out@.len() == RES_PAYLOAD_LEN,
{
    let v = ppm_to_jp2_triplet(v_ppm);
    let h = ppm_to_jp2_triplet(h_ppm);
    let mut out: Vec<u8> = Vec::with_capacity(RES_PAYLOAD_LEN);
    put_resolution_payload(v, h, &mut out);
    proof {
        lemma_resolution_sizes(v, h);
        assert(out@ =~= resolution_payload(v, h));
    }
    out
}

/// Builds the resolution superbox for the vertical density `v_ppm` and the
/// horizontal density `h_ppm`.
pub fn build_res_superbox(v_ppm: Ppm, h_ppm: Ppm) -> (out: Vec<u8>)
    ensures
        out@ == res_superbox(approximation(v_ppm), approximation(h_ppm)),
        out@.len() == RES_SUPERBOX_LEN,
{
    let v = ppm_to_jp2_triplet(v_ppm);
    let h = ppm_to_jp2_triplet(h_ppm);
    let mut out: Vec<u8> = Vec::with_capacity(RES_SUPERBOX_LEN as usize);
    put_be_u32(RES_SUPERBOX_LEN, &mut out);
    put_tag(&TAG_RES, &mut out);
    put_be_u32(RES_CHILD_LEN, &mut out);
    put_tag(&TAG_RESC, &mut out);
    put_resolution_payload(v, h, &mut out);
    put_be_u32(RES_CHILD_LEN, &mut out);
    put_tag(&TAG_RESD, &mut out);
    put_resolution_payload(v, h, &mut out);
    proof {
        lemma_resolution_sizes(v, h);
        assert(out@ =~= res_superbox(v, h));
    }
    out
}

/// The container `data` with the resolution superbox for the densities
/// `xdpi` and `ydpi` placed at the end of its header superbox.
pub open spec fn with_resolution_box(data: Seq<u8>, xdpi: Density, ydpi: Density, unit: ResUnit) -> Seq<
    u8,
> {
    patched(
        data,
        TAG_JP2H@,
        res_superbox(
            approximation(ppm_of(ydpi, conversion_unit(unit))),
            approximation(ppm_of(xdpi, conversion_unit(unit))),
        ),
    )
}

/// Places a resolution superbox for the densities `xdpi` and `ydpi` at the
/// end of the container's header superbox. A container without such a
/// header, or with one that cannot be patched, comes back unchanged.
pub fn insert_resolution_box_jp2(data: &[u8], xdpi: Density, ydpi: Density, unit: ResUnit) -> (out:
    Vec<u8>)
    ensures
        out@ == with_resolution_box(data@, xdpi, ydpi, unit),
{
    let unit_ppm = ppm_unit_for(unit);
    let v_ppm = dpi_to_ppm(ydpi, unit_ppm);
    let h_ppm = dpi_to_ppm(xdpi, unit_ppm);
    let res_super = build_res_superbox(v_ppm, h_ppm);
    insert_sibling_box(data, &TAG_JP2H, res_super.as_slice())
}

/// A box of `len` bytes that starts with the header of `boxed(tag,
/// payload)` is scanned as one box of that tag and length.
proof fn lemma_scan_of_boxed(tag: Seq<u8>, payload: Seq<u8>)
    requires
        tag.len() == 4,
        8 + payload.len() <= u32::MAX,
    ensures
        boxed(tag, payload).len() == 8 + payload.len(),
        boxes_from(boxed(tag, payload), 0) == seq![
            BoxSpan { offset: 0, length: 8 + payload.len() as int, tag: tag },
        ],
        boxes_tile(boxed(tag, payload), 0),
{
    let b = boxed(tag, payload);
    let len = 8 + payload.len() as int;
    lemma_be_round_trip(len);
    let field = be_bytes(len);
    assert(b[0] == field[0] && b[1] == field[1] && b[2] == field[2] && b[3] == field[3]);
    assert(be_u32_at(b, 0) == len);
    assert(box_tag_at(b, 0) =~= tag);
    assert(box_span_at(b, 0) == len);
    assert(boxes_from(b, len) =~= Seq::empty());
    assert(boxes_from(b, 0) =~= seq![BoxSpan { offset: 0, length: len, tag: tag }]);
    assert(scan_reaches(b, len, b.len() as int));
    assert(scan_reaches(b, 0, b.len() as int));
}

/// A scan of the resolution superbox finds one box, tagged `res `, that
/// covers all 46 bytes.
pub proof fn lemma_scan_of_res_superbox(v: RationalTriplet, h: RationalTriplet)
    ensures
        boxes_from(res_superbox(v, h), 0) == seq![
            BoxSpan { offset: 0, length: RES_SUPERBOX_LEN as int, tag: TAG_RES@ },
        ],
        boxes_tile(res_superbox(v, h), 0),
{
    lemma_resolution_sizes(v, h);
    let payload = resolution_payload(v, h);
    let children = boxed(TAG_RESC@, payload) + boxed(TAG_RESD@, payload);
    lemma_scan_of_boxed(TAG_RES@, children);
}

/// Re-parsing a container after the resolution superbox went in finds the
/// boxes that were there before plus the inserted one. Where the header superbox
/// can be patched and the scan arrives at it over boxes that declare a
/// length of at least their header: every top-level box is found again,
/// the header longer by 46 bytes and the boxes behind it moved by 46 bytes;
/// no box runs past the end of the container if none did before; and where
/// the children of the header filled its payload, they are found again,
/// followed by one box tagged `res ` of 46 bytes.
pub proof fn lemma_resolution_round_trip(
    data: Seq<u8>,
    xdpi: Density,
    ydpi: Density,
    unit: ResUnit,
)
    requires
        patchable(data, TAG_JP2H@, RES_SUPERBOX_LEN as int),
        scan_reaches(data, 0, find_box(data, TAG_JP2H@)->Some_0),
    ensures
        ({
            let out = with_resolution_box(data, xdpi, ydpi, unit);
            let off = find_box(data, TAG_JP2H@)->Some_0;
            &&& out.len() == data.len() + RES_SUPERBOX_LEN
            &&& boxes_from(out, 0) == boxes_after_insert(
                boxes_from(data, 0),
                off,
                RES_SUPERBOX_LEN as int,
            )
            &&& boxes_within(data, 0) ==> boxes_within(out, 0)
            &&& boxes_tile(payload_at(data, off), 0) ==> boxes_from(payload_at(out, off), 0)
                == boxes_from(payload_at(data, off), 0) + seq![
                BoxSpan {
                    offset: payload_at(data, off).len() as int,
                    length: RES_SUPERBOX_LEN as int,
                    tag: TAG_RES@,
                },
            ]
        }),
{
    let v = approximation(ppm_of(ydpi, conversion_unit(unit)));
    let h = approximation(ppm_of(xdpi, conversion_unit(unit)));
    let new_boxes = res_superbox(v, h);
    let off = find_box(data, TAG_JP2H@)->Some_0;
    lemma_resolution_sizes(v, h);
    lemma_scan_of_res_superbox(v, h);
    lemma_insert_keeps_boundaries(data, TAG_JP2H@, new_boxes);
    if boxes_tile(payload_at(data, off), 0) {
        lemma_insert_appends_children(data, TAG_JP2H@, new_boxes);
        let before = payload_at(data, off);
        assert(crate::boundaries::boxes_moved(boxes_from(new_boxes, 0), before.len() as int)
            =~= seq![
            BoxSpan { offset: before.len() as int, length: RES_SUPERBOX_LEN as int, tag: TAG_RES@ },
        ]);
    }
}

} // verus!
