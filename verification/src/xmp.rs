//! The metadata packet that carries the density as text, and the box that
//! holds it behind the last box of the container.

use crate::boundaries::{boxes_moved, boxes_tile, lemma_scan_of_appended};
use crate::container::{
    be_bytes, be_u32_at, box_span_at, box_tag_at, boxes_from, lemma_be_round_trip, put_be_u32,
    BoxSpan,
};
use crate::resolution::{Density, ResUnit};
use vstd::prelude::*;
use vstd::string::StringExecFns;

verus! {

/// Appends a character to a string, as `String::push` documents it.
pub assume_specification[ String::push ](s: &mut String, c: char)
    ensures
        final(s)@ == old(s)@.push(c),
;

/// Tag of a box that is identified by a 16-byte type.
pub const TAG_UUID: [u8; 4] = [0x75, 0x75, 0x69, 0x64];

/// The type that identifies a metadata-packet box.
pub const XMP_UUID: [u8; 16] = [
    0xBE,
    0x7A,
    0xCF,
    0xCB,
    0x97,
    0xA9,
    0x42,
    0xE8,
    0x9C,
    0x71,
    0x99,
    0x94,
    0x91,
    0xE3,
    0xAF,
    0xAC,
];

/// The packet up to the horizontal density.
pub const XMP_OPEN: &'static str =
    "<x:xmpmeta xmlns:x=\"adobe:ns:meta/\">\n <rdf:RDF xmlns:rdf=\"http://www.w3.org/1999/02/22-rdf-syntax-ns#\">\n  <rdf:Description xmlns:tiff=\"http://ns.adobe.com/tiff/1.0/\"\n    tiff:XResolution=\"";

/// The packet between the horizontal and the vertical density.
pub const XMP_Y: &'static str = "/1000\"\n    tiff:YResolution=\"";

/// The packet between the vertical density and the unit.
pub const XMP_UNIT: &'static str = "/1000\"\n    tiff:ResolutionUnit=\"";

/// The packet behind the unit.
pub const XMP_CLOSE: &'static str = "\"/>\n </rdf:RDF>\n</x:xmpmeta>";

/// The character of the decimal digit `d`.
pub open spec fn digit_char(d: int) -> char {
    if d == 0 {
        '0'
    } else if d == 1 {
        '1'
    } else if d == 2 {
        '2'
    } else if d == 3 {
        '3'
    } else if d == 4 {
        '4'
    } else if d == 5 {
        '5'
    } else if d == 6 {
        '6'
    } else if d == 7 {
        '7'
    } else if d == 8 {
        '8'
    } else {
        '9'
    }
}

/// The decimal digits of `n`, without leading zeros.
pub open spec fn decimal(n: nat) -> Seq<char>
    decreases n,
{
    if n < 10 {
        seq![digit_char(n as int)]
    } else {
        decimal(n / 10).push(digit_char((n % 10) as int))
    }
}

/// The density in thousandths, rounded to the nearest integer, halves
/// upward.
pub open spec fn thousandths(d: Density) -> nat {
    ((2 * (d.num * 1000) + d.den) / (2 * d.den)) as nat
}

/// The number that stands for a unit in the packet.
pub open spec fn unit_code(unit: ResUnit) -> nat {
    match unit {
        ResUnit::Inch => 2,
        ResUnit::Centimeter => 3,
        ResUnit::Unspecified => 1,
    }
}

/// The metadata packet for the densities `xdpi` and `ydpi`.
pub open spec fn xmp_packet(xdpi: Density, ydpi: Density, unit: ResUnit) -> Seq<char> {
    XMP_OPEN@ + decimal(thousandths(xdpi)) + XMP_Y@ + decimal(thousandths(ydpi)) + XMP_UNIT@
        + decimal(unit_code(unit)) + XMP_CLOSE@
}

/// The character of the decimal digit `d`.
fn digit(d: u64) -> (c: char)
    requires
        d < 10,
    ensures
        c == digit_char(d as int),
{
    if d == 0 {
        '0'
    } else if d == 1 {
        '1'
    } else if d == 2 {
        '2'
    } else if d == 3 {
        '3'
    } else if d == 4 {
        '4'
    } else if d == 5 {
        '5'
    } else if d == 6 {
        '6'
    } else if d == 7 {
        '7'
    } else if d == 8 {
        '8'
    } else {
        '9'
    }
}

/// Appends the decimal digits of `n` to `out`.
pub fn push_decimal(n: u64, out: &mut String)
    ensures
        final(out)@ == old(out)@ + decimal(n as nat),
{
    let mut low: Vec<char> = Vec::new();
    let mut rest: u64 = n;
    while rest >= 10
        invariant
            decimal(n as nat) == decimal(rest as nat) + low@.reverse(),
        decreases rest,
    {
        let c = digit(rest % 10);
        proof {
            let next = low@.push(c);
            assert(next.reverse() =~= seq![c] + low@.reverse());
            assert(decimal(rest as nat) == decimal((rest / 10) as nat).push(c));
            assert(decimal((rest / 10) as nat).push(c) + low@.reverse() =~= decimal(
                (rest / 10) as nat,
            ) + next.reverse());
        }
        low.push(c);
        rest = rest / 10;
    }
    out.push(digit(rest));
    let mut i: usize = low.len();
    while i > 0
        invariant
            i <= low@.len(),
            out@ == old(out)@ + decimal(rest as nat) + low@.reverse().subrange(
                0,
                low@.len() - i,
            ),
            rest < 10,
        decreases i,
    {
        i -= 1;
        let c = low[i];
        proof {
            let rev = low@.reverse();
            let done = low@.len() - i - 1;
            assert(rev[done] == c);
            assert(rev.subrange(0, done).push(c) =~= rev.subrange(0, done + 1));
            assert((old(out)@ + decimal(rest as nat) + rev.subrange(0, done)).push(c) =~= old(
                out,
            )@ + decimal(rest as nat) + rev.subrange(0, done + 1));
        }
        out.push(c);
    }
    proof {
        let rev = low@.reverse();
        assert(rev.subrange(0, low@.len() as int) =~= rev);
        assert(old(out)@ + decimal(rest as nat) + rev =~= old(out)@ + (decimal(rest as nat)
            + rev));
    }
}

/// Rounds a density to whole thousandths.
pub fn density_thousandths(d: Density) -> (n: u64)
    requires
        d.wf(),
    ensures
        n == thousandths(d),
{
    let num: u64 = (d.num as u64) * 1000;
    let den: u64 = d.den as u64;
    (2 * num + den) / (2 * den)
}

/// Builds the metadata packet that records the densities `xdpi` and `ydpi`
/// as fractions over 1000, and their unit.
pub fn build_xmp_with_dpi(xdpi: Density, ydpi: Density, unit: ResUnit) -> (xmp: String)
    requires
        xdpi.wf(),
        ydpi.wf(),
    ensures
        xmp@ == xmp_packet(xdpi, ydpi, unit),
{
    let unit_val: u64 = match unit {
        ResUnit::Inch => 2,
        ResUnit::Centimeter => 3,
        ResUnit::Unspecified => 1,
    };
    let mut xmp = String::from_str(XMP_OPEN);
    push_decimal(density_thousandths(xdpi), &mut xmp);
    xmp.append(XMP_Y);
    push_decimal(density_thousandths(ydpi), &mut xmp);
    xmp.append(XMP_UNIT);
    push_decimal(unit_val, &mut xmp);
    xmp.append(XMP_CLOSE);
    xmp
}

/// Size of the header of a box that is identified by a 16-byte type.
pub const TYPED_HEADER_LEN: usize = 24;

/// A box that carries a 16-byte type before its payload.
pub open spec fn typed_box(tag: Seq<u8>, type_id: Seq<u8>, payload: Seq<u8>) -> Seq<u8> {
    be_bytes(TYPED_HEADER_LEN + payload.len()) + tag + type_id + payload
}

/// Builds the box that `append_trailing_box` writes behind the last box of
/// a container: length, tag, 16-byte type, payload. There is no such box
/// where its length does not fit the 32-bit length field.
pub fn trailing_box(tag: &[u8; 4], type_id: &[u8; 16], payload: &[u8]) -> (r: Option<Vec<u8>>)
    ensures
        match r {
            Some(bytes) => TYPED_HEADER_LEN + payload@.len() <= u32::MAX && bytes@ == typed_box(
                tag@,
                type_id@,
                payload@,
            ),
            None => TYPED_HEADER_LEN + payload@.len() > u32::MAX,
        },
{
    let len: usize = payload.len();
    if len > (u32::MAX as usize) - TYPED_HEADER_LEN {
        return None;
    }
    let total: u32 = (TYPED_HEADER_LEN + len) as u32;
    let mut out: Vec<u8> = Vec::with_capacity(TYPED_HEADER_LEN + len);
    put_be_u32(total, &mut out);
    out.extend_from_slice(tag.as_slice());
    out.extend_from_slice(type_id.as_slice());
    out.extend_from_slice(payload);
    assert(out@ =~= typed_box(tag@, type_id@, payload@));
    Some(out)
}

/// Appends one typed box to a container held in memory. Nothing is
/// appended where the box has no 32-bit length or the grown container
/// could not be addressed.
pub fn append_trailing_box(
    container: &mut Vec<u8>,
    tag: &[u8; 4],
    type_id: &[u8; 16],
    payload: &[u8],
) -> (ok: bool)
    ensures
        ok == (TYPED_HEADER_LEN + payload@.len() <= u32::MAX && old(container)@.len()
            + TYPED_HEADER_LEN + payload@.len() <= usize::MAX),
        ok ==> final(container)@ == old(container)@ + typed_box(tag@, type_id@, payload@),
        !ok ==> final(container)@ == old(container)@,
{
    match trailing_box(tag, type_id, payload) {
        Some(bytes) => {
            if bytes.len() > usize::MAX - container.len() {
                return false;
            }
            container.extend_from_slice(bytes.as_slice());
            assert(container@ =~= old(container)@ + typed_box(tag@, type_id@, payload@));
            true
        },
        None => false,
    }
}

/// Builds the box that carries the metadata packet `xmp_xml`.
pub fn append_jp2_xmp_box(xmp_xml: &[u8]) -> (r: Option<Vec<u8>>)
    ensures
        match r {
            Some(bytes) => TYPED_HEADER_LEN + xmp_xml@.len() <= u32::MAX && bytes@ == typed_box(
                TAG_UUID@,
                XMP_UUID@,
                xmp_xml@,
            ),
            None => TYPED_HEADER_LEN + xmp_xml@.len() > u32::MAX,
        },
{
    trailing_box(&TAG_UUID, &XMP_UUID, xmp_xml)
}

/// A typed box appended to a container whose boxes fill it to its last
/// byte is scanned as the last box: the scan of the whole finds the boxes
/// of the container, then one box with the new tag that starts where the
/// container ended.
pub proof fn lemma_trailing_box_is_last(
    container: Seq<u8>,
    tag: Seq<u8>,
    type_id: Seq<u8>,
    payload: Seq<u8>,
)
    requires
        boxes_tile(container, 0),
        tag.len() == 4,
        type_id.len() == 16,
        TYPED_HEADER_LEN + payload.len() <= u32::MAX,
    ensures
        boxes_from(container + typed_box(tag, type_id, payload), 0) == boxes_from(container, 0)
            + seq![
            BoxSpan {
                offset: container.len() as int,
                length: TYPED_HEADER_LEN + payload.len(),
                tag: tag,
            },
        ],
{
    let b = typed_box(tag, type_id, payload);
    let len = TYPED_HEADER_LEN + payload.len();
    lemma_be_round_trip(len);
    let field = be_bytes(len);
    assert(b.len() == len);
    assert(b[0] == field[0] && b[1] == field[1] && b[2] == field[2] && b[3] == field[3]);
    assert(be_u32_at(b, 0) == len);
    assert(box_tag_at(b, 0) =~= tag);
    assert(box_span_at(b, 0) == len);
    assert(boxes_from(b, len) =~= Seq::empty());
    assert(boxes_from(b, 0) =~= seq![BoxSpan { offset: 0, length: len, tag: tag }]);
    lemma_scan_of_appended(container, b);
    assert(boxes_moved(boxes_from(b, 0), container.len() as int) =~= seq![
        BoxSpan { offset: container.len() as int, length: len, tag: tag },
    ]);
}

} // verus!
