//! Box-structured container editing.
//!
//! A container is a byte string made of consecutive boxes. Each box starts
//! with a big-endian `u32` length and a four-byte tag; a length of zero means
//! that the box runs to the end of the container.

use vstd::prelude::*;

verus! {

/// Size of a box header: the length field and the tag.
pub const BOX_HEADER_LEN: usize = 8;

/// The number that four bytes starting at `off` encode in big-endian order.
pub open spec fn be_u32_at(data: Seq<u8>, off: int) -> int {
    data[off] as int * 0x100_0000 + data[off + 1] as int * 0x1_0000 + data[off + 2] as int * 0x100
        + data[off + 3] as int
}

/// The four bytes that encode `x` in big-endian order.
pub open spec fn be_bytes(x: int) -> Seq<u8> {
    seq![
        (x / 0x100_0000) as u8,
        ((x / 0x1_0000) % 0x100) as u8,
        ((x / 0x100) % 0x100) as u8,
        (x % 0x100) as u8,
    ]
}

/// Decoding undoes encoding for every 32-bit value.
pub proof fn lemma_be_round_trip(x: int)
    requires
        0 <= x <= u32::MAX,
    ensures
        be_bytes(x).len() == 4,
        be_u32_at(be_bytes(x), 0) == x,
{
}

/// Reads a big-endian `u32` from the first four bytes of `b`.
pub fn be_u32(b: &[u8]) -> (r: u32)
    requires
        b@.len() >= 4,
    ensures
        r == be_u32_at(b@, 0),
{
    (b[0] as u32) * 0x100_0000 + (b[1] as u32) * 0x1_0000 + (b[2] as u32) * 0x100 + (b[3] as u32)
}

/// Appends the big-endian encoding of `x` to `out`.
pub fn put_be_u32(x: u32, out: &mut Vec<u8>)
    ensures
        final(out)@ == old(out)@ + be_bytes(x as int),
{
    out.push((x / 0x100_0000) as u8);
    out.push(((x / 0x1_0000) % 0x100) as u8);
    out.push(((x / 0x100) % 0x100) as u8);
    out.push((x % 0x100) as u8);
    assert(out@ =~= old(out)@ + be_bytes(x as int));
}

/// The number of bytes that the scan steps over for the box at `off`: the
/// declared length, or the rest of the container where the length is zero.
pub open spec fn box_span_at(data: Seq<u8>, off: int) -> int {
    if be_u32_at(data, off) == 0 {
        data.len() - off
    } else {
        be_u32_at(data, off)
    }
}

/// The number of bytes from `off` to the end of the container.
pub open spec fn bytes_left(data: Seq<u8>, off: int) -> nat {
    if off < data.len() {
        (data.len() - off) as nat
    } else {
        0
    }
}

/// Every box that the scan visits moves it forward.
pub proof fn lemma_span_positive(data: Seq<u8>, off: int)
    requires
        0 <= off,
        off + 8 <= data.len(),
    ensures
        box_span_at(data, off) >= 1,
        be_u32_at(data, off) >= 0,
        be_u32_at(data, off) <= u32::MAX,
{
}

/// The tag of the box at `off`.
pub open spec fn box_tag_at(data: Seq<u8>, off: int) -> Seq<u8> {
    data.subrange(off + 4, off + 8)
}

/// A top-level box as the scan sees it.
pub ghost struct BoxSpan {
    pub offset: int,
    pub length: int,
    pub tag: Seq<u8>,
}

/// The boxes that a scan from `off` visits, in order. The scan stops where
/// fewer than eight bytes are left.
pub open spec fn boxes_from(data: Seq<u8>, off: int) -> Seq<BoxSpan>
    decreases bytes_left(data, off),
{
    if off < 0 || off + 8 > data.len() {
        Seq::empty()
    } else {
        seq![
            BoxSpan { offset: off, length: box_span_at(data, off), tag: box_tag_at(data, off) },
        ] + boxes_from(data, off + box_span_at(data, off))
    }
}

/// The offset of the first box with tag `tag` that a scan from `off` visits.
pub open spec fn find_box_from(data: Seq<u8>, tag: Seq<u8>, off: int) -> Option<int>
    decreases bytes_left(data, off),
{
    if off < 0 || off + 8 > data.len() {
        None
    } else if box_tag_at(data, off) == tag {
        Some(off)
    } else {
        find_box_from(data, tag, off + box_span_at(data, off))
    }
}

/// The offset of the first top-level box with tag `tag`.
pub open spec fn find_box(data: Seq<u8>, tag: Seq<u8>) -> Option<int> {
    find_box_from(data, tag, 0)
}

/// A top-level box found by a scan.
#[derive(Debug, Clone, Copy, PartialEq, Eq)]
pub struct BoxEntry {
    /// Where the box header starts.
    pub offset: usize,
    /// The number of bytes the box covers.
    pub length: usize,
    /// The four tag bytes.
    pub tag: [u8; 4],
}

impl View for BoxEntry {
    type V = BoxSpan;

    open spec fn view(&self) -> BoxSpan {
        BoxSpan { offset: self.offset as int, length: self.length as int, tag: self.tag@ }
    }
}

/// Tells whether the four bytes at `off + 4` are `tag`.
fn tag_matches(data: &[u8], off: usize, tag: &[u8; 4]) -> (r: bool)
    requires
        off + 8 <= data@.len(),
    ensures
        r == (box_tag_at(data@, off as int) == tag@),
{
    let len: usize = data.len();
    let r = data[off + 4] == tag[0] && data[off + 5] == tag[1] && data[off + 6] == tag[2] && data[off
        + 7] == tag[3];
    proof {
        let s = box_tag_at(data@, off as int);
        if r {
            assert(s =~= tag@);
        } else {
            assert(s[0] == data@[off + 4]);
            assert(s[1] == data@[off + 5]);
            assert(s[2] == data@[off + 6]);
            assert(s[3] == data@[off + 7]);
        }
    }
    r
}

/// Reads the length field of the box at `off`.
fn length_field(data: &[u8], off: usize) -> (r: u32)
    requires
        off + 8 <= data@.len(),
    ensures
        r == be_u32_at(data@, off as int),
{
    let len: usize = data.len();
    (data[off] as u32) * 0x100_0000 + (data[off + 1] as u32) * 0x1_0000 + (data[off + 2] as u32)
        * 0x100 + (data[off + 3] as u32)
}

/// Finds the first top-level box with tag `tag`.
pub fn find_top_level_box(data: &[u8], tag: &[u8; 4]) -> (r: Option<usize>)
    ensures
        match r {
            Some(off) => find_box(data@, tag@) == Some(off as int) && off + 8 <= data@.len(),
            None => find_box(data@, tag@) is None,
        },
{
    let len: usize = data.len();
    let mut off: usize = 0;
    while len - off >= BOX_HEADER_LEN
        invariant
            len == data@.len(),
            off <= len,
            find_box(data@, tag@) == find_box_from(data@, tag@, off as int),
        decreases len - off,
    {
        if tag_matches(data, off, tag) {
            return Some(off);
        }
        let lbox: u32 = length_field(data, off);
        if lbox == 0 || lbox as usize >= len - off {
            proof {
                let next = off + box_span_at(data@, off as int);
                assert(next + 8 > len);
                assert(find_box_from(data@, tag@, next) is None);
            }
            return None;
        }
        off = off + lbox as usize;
    }
    None
}

/// Lists the top-level boxes of a container in scan order.
pub fn top_level_boxes(data: &[u8]) -> (boxes: Vec<BoxEntry>)
    ensures
        boxes@.len() == boxes_from(data@, 0).len(),
        forall|i: int| 0 <= i < boxes@.len() ==> (#[trigger] boxes@[i])@ == boxes_from(data@, 0)[i],
{
    let len: usize = data.len();
    let mut boxes: Vec<BoxEntry> = Vec::new();
    let mut off: usize = 0;
    let mut done: bool = false;
    while !done && len - off >= BOX_HEADER_LEN
        invariant
            len == data@.len(),
            off <= len,
            done ==> boxes@.map_values(|e: BoxEntry| e@) == boxes_from(data@, 0),
            !done ==> boxes@.map_values(|e: BoxEntry| e@) + boxes_from(data@, off as int)
                == boxes_from(data@, 0),
        decreases (if done { 0int } else { 1int }), len - off,
    {
        let lbox: u32 = length_field(data, off);
        let tag: [u8; 4] = [data[off + 4], data[off + 5], data[off + 6], data[off + 7]];
        assert(tag@ =~= box_tag_at(data@, off as int));
        let ghost before = boxes@.map_values(|e: BoxEntry| e@);
        let ghost here = BoxSpan {
            offset: off as int,
            length: box_span_at(data@, off as int),
            tag: box_tag_at(data@, off as int),
        };
        if lbox == 0 || lbox as usize >= len - off {
            let length: usize = if lbox == 0 {
                len - off
            } else {
                lbox as usize
            };
            boxes.push(BoxEntry { offset: off, length, tag });
            proof {
                let next = off + box_span_at(data@, off as int);
                assert(boxes_from(data@, next) =~= Seq::empty());
                assert(boxes_from(data@, off as int) =~= seq![here]);
                assert(boxes@.map_values(|e: BoxEntry| e@) =~= before + seq![here]);
            }
            done = true;
        } else {
            let length: usize = lbox as usize;
            boxes.push(BoxEntry { offset: off, length, tag });
            proof {
                assert(boxes@.map_values(|e: BoxEntry| e@) =~= before + seq![here]);
                assert(before + (seq![here] + boxes_from(data@, off + length)) =~= (before
                    + seq![here]) + boxes_from(data@, off + length));
            }
            off = off + length;
        }
    }
    proof {
        if !done {
            assert(boxes_from(data@, off as int) =~= Seq::empty());
            assert(boxes@.map_values(|e: BoxEntry| e@) + Seq::<BoxSpan>::empty()
                =~= boxes@.map_values(|e: BoxEntry| e@));
        }
        let mapped = boxes@.map_values(|e: BoxEntry| e@);
        assert(mapped == boxes_from(data@, 0));
        assert forall|i: int| 0 <= i < boxes@.len() implies (#[trigger] boxes@[i])@
            == boxes_from(data@, 0)[i] by {
            assert(mapped[i] == boxes@[i]@);
        }
    }
    boxes
}

/// Appends `bytes` to `out`.
fn append_bytes(out: &mut Vec<u8>, bytes: &[u8])
    ensures
        final(out)@ == old(out)@ + bytes@,
{
    out.extend_from_slice(bytes);
    assert(out@ =~= old(out)@ + bytes@);
}

/// Whether new sibling bytes can be placed at the end of the first
/// top-level box tagged `tag`: the box exists, declares its own length (no
/// run-to-end marker), covers at least its header, ends inside the
/// container, and can record the grown length in 32 bits; and the grown
/// container can still be addressed.
pub open spec fn patchable(data: Seq<u8>, tag: Seq<u8>, extra: int) -> bool {
    match find_box(data, tag) {
        Some(off) => {
            &&& BOX_HEADER_LEN <= be_u32_at(data, off)
            &&& off + be_u32_at(data, off) <= data.len()
            &&& be_u32_at(data, off) + extra <= u32::MAX
            &&& data.len() + extra <= usize::MAX
        },
        None => false,
    }
}

/// The container after `new_boxes` were placed at the end of the first
/// top-level box tagged `tag`; the container itself where that cannot be
/// done.
pub open spec fn patched(data: Seq<u8>, tag: Seq<u8>, new_boxes: Seq<u8>) -> Seq<u8> {
    if patchable(data, tag, new_boxes.len() as int) {
        let off = find_box(data, tag)->Some_0;
        let end = off + be_u32_at(data, off);
        data.subrange(0, off) + be_bytes(be_u32_at(data, off) + new_boxes.len()) + data.subrange(
            off + 4,
            end,
        ) + new_boxes + data.subrange(end, data.len() as int)
    } else {
        data
    }
}

/// Places `new_boxes` at the end of the first top-level box tagged
/// `target_tag` and grows that box's length field by their size. A container
/// that cannot be patched comes back unchanged.
pub fn insert_sibling_box(container: &[u8], target_tag: &[u8; 4], new_boxes: &[u8]) -> (out: Vec<
    u8,
>)
    ensures
        out@ == patched(container@, target_tag@, new_boxes@),
        !patchable(container@, target_tag@, new_boxes@.len() as int) ==> out@ == container@,
        find_box(container@, target_tag@) is None ==> out@ == container@,
        find_box(container@, target_tag@) matches Some(off) && be_u32_at(container@, off) == 0
            ==> out@ == container@,
{
    let len: usize = container.len();
    let extra: usize = new_boxes.len();
    let off: usize = match find_top_level_box(container, target_tag) {
        Some(o) => o,
        None => {
            return vstd::slice::slice_to_vec(container);
        },
    };
    let lbox: u32 = length_field(container, off);
    if lbox < 8 || lbox as usize > len - off {
        return vstd::slice::slice_to_vec(container);
    }
    if extra > (u32::MAX - lbox) as usize || extra > usize::MAX - len {
        return vstd::slice::slice_to_vec(container);
    }
    let end: usize = off + lbox as usize;
    let mut out: Vec<u8> = Vec::with_capacity(len + extra);
    append_bytes(&mut out, vstd::slice::slice_subrange(container, 0, off));
    put_be_u32(lbox + extra as u32, &mut out);
    append_bytes(&mut out, vstd::slice::slice_subrange(container, off + 4, end));
    append_bytes(&mut out, new_boxes);
    append_bytes(&mut out, vstd::slice::slice_subrange(container, end, len));
    out
}

} // verus!
