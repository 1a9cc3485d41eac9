//! What the container edits do to box boundaries.
//!
//! The statements here relate a scan of the edited container to a scan of
//! the container before the edit.

use crate::container::{
    be_bytes, be_u32_at, box_span_at, box_tag_at, boxes_from, bytes_left, find_box, find_box_from,
    lemma_be_round_trip, lemma_span_positive, patchable, patched, BoxSpan,
};
use vstd::prelude::*;

verus! {

/// The boxes `s`, as a scan sees them after `extra` bytes were placed at the
/// end of the box at `target`: boxes before it stay, the box itself grows by
/// `extra`, boxes behind it move by `extra`.
pub open spec fn boxes_after_insert(s: Seq<BoxSpan>, target: int, extra: int) -> Seq<BoxSpan> {
    s.map_values(
        |b: BoxSpan|
            if b.offset < target {
                b
            } else if b.offset == target {
                BoxSpan { length: b.length + extra, ..b }
            } else {
                BoxSpan { offset: b.offset + extra, ..b }
            },
    )
}

/// The boxes `s`, each moved by `by` bytes.
pub open spec fn boxes_moved(s: Seq<BoxSpan>, by: int) -> Seq<BoxSpan> {
    s.map_values(|b: BoxSpan| BoxSpan { offset: b.offset + by, ..b })
}

/// No box of the scan from `off` runs past the end of the container.
pub open spec fn boxes_within(data: Seq<u8>, off: int) -> bool {
    forall|i: int|
        0 <= i < boxes_from(data, off).len() ==> (#[trigger] boxes_from(data, off)[i]).offset
            + boxes_from(data, off)[i].length <= data.len()
}

/// The scan from `from` arrives at `to`, over boxes that declare a length of
/// at least their header.
pub open spec fn scan_reaches(data: Seq<u8>, from: int, to: int) -> bool
    decreases bytes_left(data, from),
{
    if from == to {
        true
    } else if from < 0 || from + 8 > data.len() || from > to {
        false
    } else {
        &&& be_u32_at(data, from) >= 8
        &&& scan_reaches(data, from + box_span_at(data, from), to)
    }
}

/// The boxes from `off` on fill the container to its last byte, each
/// declaring a length of at least its header.
pub open spec fn boxes_tile(data: Seq<u8>, off: int) -> bool {
    scan_reaches(data, off, data.len() as int)
}

/// A scan only arrives at places at or behind its start.
pub proof fn lemma_reaches_forward(data: Seq<u8>, from: int, to: int)
    requires
        scan_reaches(data, from, to),
    ensures
        from <= to,
{
}

/// Two containers hold the same eight header bytes, at `p` in `a` and at `q`
/// in `b`.
proof fn lemma_same_header(a: Seq<u8>, p: int, b: Seq<u8>, q: int)
    requires
        0 <= p,
        p + 8 <= a.len(),
        0 <= q,
        q + 8 <= b.len(),
        a.subrange(p, p + 8) == b.subrange(q, q + 8),
    ensures
        be_u32_at(a, p) == be_u32_at(b, q),
        box_tag_at(a, p) == box_tag_at(b, q),
{
    let ha = a.subrange(p, p + 8);
    let hb = b.subrange(q, q + 8);
    assert(a[p] == ha[0] && b[q] == hb[0]);
    assert(a[p + 1] == ha[1] && b[q + 1] == hb[1]);
    assert(a[p + 2] == ha[2] && b[q + 2] == hb[2]);
    assert(a[p + 3] == ha[3] && b[q + 3] == hb[3]);
    assert(box_tag_at(a, p) =~= ha.subrange(4, 8));
    assert(box_tag_at(b, q) =~= hb.subrange(4, 8));
}

/// Where the tail of `b` from `q + by` on is the tail of `a` from `q` on,
/// the scan of `b` from `q + by` finds the boxes of the scan of `a` from `q`,
/// moved by `by`.
pub proof fn lemma_scan_of_moved_tail(a: Seq<u8>, b: Seq<u8>, q: int, by: int)
    requires
        0 <= q,
        0 <= q + by,
        b.len() == a.len() + by,
        q <= a.len() ==> a.subrange(q, a.len() as int) == b.subrange(q + by, b.len() as int),
    ensures
        boxes_from(b, q + by) == boxes_moved(boxes_from(a, q), by),
    decreases bytes_left(a, q),
{
    if q + 8 > a.len() {
        assert(boxes_from(b, q + by) =~= boxes_moved(boxes_from(a, q), by));
    } else {
        let ta = a.subrange(q, a.len() as int);
        let tb = b.subrange(q + by, b.len() as int);
        assert(a.subrange(q, q + 8) =~= ta.subrange(0, 8));
        assert(b.subrange(q + by, q + by + 8) =~= tb.subrange(0, 8));
        lemma_same_header(a, q, b, q + by);
        lemma_span_positive(a, q);
        let span = box_span_at(a, q);
        assert(box_span_at(b, q + by) == span);
        if q + span <= a.len() {
            assert(a.subrange(q + span, a.len() as int) =~= ta.subrange(span, ta.len() as int));
            assert(b.subrange(q + span + by, b.len() as int) =~= tb.subrange(
                span,
                tb.len() as int,
            ));
        }
        lemma_scan_of_moved_tail(a, b, q + span, by);
        assert(boxes_from(b, q + by) =~= boxes_moved(boxes_from(a, q), by));
    }
}

/// The parts of a patched container: the bytes before the target box, its
/// grown length field, its tag and payload, the new bytes, and the bytes
/// behind the box.
pub proof fn lemma_patched_layout(data: Seq<u8>, tag: Seq<u8>, new_boxes: Seq<u8>)
    requires
        patchable(data, tag, new_boxes.len() as int),
    ensures
        ({
            let off = find_box(data, tag)->Some_0;
            let end = off + be_u32_at(data, off);
            let out = patched(data, tag, new_boxes);
            &&& 0 <= off
            &&& off + 8 <= end
            &&& end <= data.len()
            &&& out.len() == data.len() + new_boxes.len()
            &&& out.subrange(0, off) == data.subrange(0, off)
            &&& be_u32_at(out, off) == be_u32_at(data, off) + new_boxes.len()
            &&& out.subrange(off + 4, end) == data.subrange(off + 4, end)
            &&& out.subrange(end, end + new_boxes.len()) == new_boxes
            &&& out.subrange(end + new_boxes.len(), out.len() as int) == data.subrange(
                end,
                data.len() as int,
            )
        }),
{
    lemma_find_in_range(data, tag, 0);
    let off = find_box(data, tag)->Some_0;
    let len = be_u32_at(data, off);
    let end = off + len;
    let out = patched(data, tag, new_boxes);
    let grown = be_bytes(len + new_boxes.len());
    lemma_span_positive(data, off);
    lemma_be_round_trip(len + new_boxes.len());
    assert(out.subrange(0, off) =~= data.subrange(0, off));
    assert(out.subrange(off, off + 4) =~= grown);
    assert(out[off] == grown[0]);
    assert(out[off + 1] == grown[1]);
    assert(out[off + 2] == grown[2]);
    assert(out[off + 3] == grown[3]);
    assert(out.subrange(off + 4, end) =~= data.subrange(off + 4, end));
    assert(out.subrange(end, end + new_boxes.len()) =~= new_boxes);
    assert(out.subrange(end + new_boxes.len(), out.len() as int) =~= data.subrange(
        end,
        data.len() as int,
    ));
}

/// A box that a scan finds has its header inside the container, at or
/// behind the place where the scan began.
pub proof fn lemma_find_in_range(data: Seq<u8>, tag: Seq<u8>, from: int)
    ensures
        match find_box_from(data, tag, from) {
            Some(off) => from <= off && 0 <= off && off + 8 <= data.len() && box_tag_at(data, off)
                == tag,
            None => true,
        },
    decreases bytes_left(data, from),
{
    if from < 0 || from + 8 > data.len() {
    } else if box_tag_at(data, from) == tag {
    } else {
        lemma_span_positive(data, from);
        lemma_find_in_range(data, tag, from + box_span_at(data, from));
    }
}

/// The scan of a patched container from `from`, a place from which the scan
/// of the container arrives at the target box.
proof fn lemma_scan_of_patched(data: Seq<u8>, tag: Seq<u8>, new_boxes: Seq<u8>, from: int)
    requires
        patchable(data, tag, new_boxes.len() as int),
        0 <= from <= find_box(data, tag)->Some_0,
        scan_reaches(data, from, find_box(data, tag)->Some_0),
    ensures
        boxes_from(patched(data, tag, new_boxes), from) == boxes_after_insert(
            boxes_from(data, from),
            find_box(data, tag)->Some_0,
            new_boxes.len() as int,
        ),
    decreases bytes_left(data, from),
{
    let off = find_box(data, tag)->Some_0;
    let len = be_u32_at(data, off);
    let end = off + len;
    let extra = new_boxes.len() as int;
    let out = patched(data, tag, new_boxes);
    lemma_patched_layout(data, tag, new_boxes);
    if from == off {
        assert(box_tag_at(out, off) =~= out.subrange(off + 4, end).subrange(0, 4));
        assert(box_tag_at(data, off) =~= data.subrange(off + 4, end).subrange(0, 4));
        assert(box_span_at(out, off) == len + extra);
        assert(box_span_at(data, off) == len);
        lemma_scan_of_moved_tail(data, out, end, extra);
        let behind = boxes_from(data, end);
        lemma_offsets_from(data, end);
        assert(boxes_moved(behind, extra) =~= boxes_after_insert(behind, off, extra));
        assert(boxes_from(out, off) =~= boxes_after_insert(boxes_from(data, off), off, extra));
    } else {
        lemma_span_positive(data, from);
        let span = box_span_at(data, from);
        lemma_reaches_forward(data, from + span, off);
        assert(out.subrange(from, from + 8) =~= out.subrange(0, off).subrange(from, from + 8));
        assert(data.subrange(from, from + 8) =~= data.subrange(0, off).subrange(from, from + 8));
        lemma_same_header(data, from, out, from);
        assert(box_span_at(out, from) == span);
        lemma_scan_of_patched(data, tag, new_boxes, from + span);
        assert(boxes_from(out, from) =~= boxes_after_insert(boxes_from(data, from), off, extra));
    }
}

/// Every box of a scan starts at or behind the place where the scan began.
pub proof fn lemma_offsets_from(data: Seq<u8>, from: int)
    ensures
        forall|i: int|
            0 <= i < boxes_from(data, from).len() ==> (#[trigger] boxes_from(data, from)[i]).offset
                >= from,
    decreases bytes_left(data, from),
{
    if from < 0 || from + 8 > data.len() {
    } else {
        lemma_span_positive(data, from);
        let next = from + box_span_at(data, from);
        lemma_offsets_from(data, next);
        assert forall|i: int| 0 <= i < boxes_from(data, from).len() implies (
        #[trigger] boxes_from(data, from)[i]).offset >= from by {
            if i > 0 {
                assert(boxes_from(data, from)[i] == boxes_from(data, next)[i - 1]);
            }
        }
    }
}

/// Patching keeps the box boundaries of a container. Where the scan arrives
/// at the target box over boxes that declare a length of at least their
/// header, a scan of the patched container finds the boxes of the unpatched one
/// in the same order and with the same tags: those before the target
/// unchanged, the target longer by the inserted size, those behind it moved
/// by the inserted size. If no box ran past the end before, none of
/// the patched container does.
pub proof fn lemma_insert_keeps_boundaries(data: Seq<u8>, tag: Seq<u8>, new_boxes: Seq<u8>)
    requires
        patchable(data, tag, new_boxes.len() as int),
        scan_reaches(data, 0, find_box(data, tag)->Some_0),
    ensures
        patched(data, tag, new_boxes).len() == data.len() + new_boxes.len(),
        boxes_from(patched(data, tag, new_boxes), 0) == boxes_after_insert(
            boxes_from(data, 0),
            find_box(data, tag)->Some_0,
            new_boxes.len() as int,
        ),
        boxes_within(data, 0) ==> boxes_within(patched(data, tag, new_boxes), 0),
{
    lemma_find_in_range(data, tag, 0);
    lemma_patched_layout(data, tag, new_boxes);
    lemma_scan_of_patched(data, tag, new_boxes, 0);
    let off = find_box(data, tag)->Some_0;
    let out = patched(data, tag, new_boxes);
    if boxes_within(data, 0) {
        assert forall|i: int| 0 <= i < boxes_from(out, 0).len() implies (#[trigger] boxes_from(
            out,
            0,
        )[i]).offset + boxes_from(out, 0)[i].length <= out.len() by {
            let b = boxes_from(data, 0)[i];
            assert(b.offset + b.length <= data.len());
        }
    }
}

/// The scan of `a + b` from `from`, a place from which the boxes of `a`
/// fill `a` to its last byte.
proof fn lemma_scan_of_appended_from(a: Seq<u8>, b: Seq<u8>, from: int)
    requires
        0 <= from,
        scan_reaches(a, from, a.len() as int),
    ensures
        boxes_from(a + b, from) == boxes_from(a, from) + boxes_moved(
            boxes_from(b, 0),
            a.len() as int,
        ),
    decreases bytes_left(a, from),
{
    let ab = a + b;
    if from == a.len() {
        assert(boxes_from(a, from) =~= Seq::empty());
        assert(b.subrange(0, b.len() as int) =~= ab.subrange(a.len() as int, ab.len() as int));
        lemma_scan_of_moved_tail(b, ab, 0, a.len() as int);
        assert(boxes_from(ab, from) =~= boxes_from(a, from) + boxes_moved(
            boxes_from(b, 0),
            a.len() as int,
        ));
    } else {
        lemma_span_positive(a, from);
        let span = box_span_at(a, from);
        assert(span == be_u32_at(a, from));
        lemma_reaches_forward(a, from + span, a.len() as int);
        assert(a.subrange(from, from + 8) =~= ab.subrange(from, from + 8));
        lemma_same_header(a, from, ab, from);
        assert(box_span_at(ab, from) == span);
        lemma_scan_of_appended_from(a, b, from + span);
        assert(boxes_from(ab, from) =~= boxes_from(a, from) + boxes_moved(
            boxes_from(b, 0),
            a.len() as int,
        ));
    }
}

/// Bytes appended to a container whose boxes fill it to its last byte are
/// scanned as further boxes: the scan of the whole finds the boxes of the
/// container, then the boxes of the appended bytes at their new place.
pub proof fn lemma_scan_of_appended(a: Seq<u8>, b: Seq<u8>)
    requires
        boxes_tile(a, 0),
    ensures
        boxes_from(a + b, 0) == boxes_from(a, 0) + boxes_moved(boxes_from(b, 0), a.len() as int),
{
    lemma_scan_of_appended_from(a, b, 0);
}

/// The payload of the box at `off`: the bytes between its header and its
/// declared end.
pub open spec fn payload_at(data: Seq<u8>, off: int) -> Seq<u8> {
    data.subrange(off + 8, off + be_u32_at(data, off))
}

/// Patching appends children. Where the child boxes of the target fill its
/// payload to the last byte, the payload of the patched target holds those
/// children, then the boxes of the inserted bytes.
pub proof fn lemma_insert_appends_children(data: Seq<u8>, tag: Seq<u8>, new_boxes: Seq<u8>)
    requires
        patchable(data, tag, new_boxes.len() as int),
        boxes_tile(payload_at(data, find_box(data, tag)->Some_0), 0),
    ensures
        ({
            let off = find_box(data, tag)->Some_0;
            let before = payload_at(data, off);
            let after = payload_at(patched(data, tag, new_boxes), off);
            &&& after == before + new_boxes
            &&& boxes_from(after, 0) == boxes_from(before, 0) + boxes_moved(
                boxes_from(new_boxes, 0),
                before.len() as int,
            )
        }),
{
    let off = find_box(data, tag)->Some_0;
    let end = off + be_u32_at(data, off);
    let out = patched(data, tag, new_boxes);
    lemma_patched_layout(data, tag, new_boxes);
    let before = payload_at(data, off);
    let after = payload_at(out, off);
    assert(after =~= before + new_boxes) by {
        assert forall|i: int| 0 <= i < after.len() implies after[i] == (before + new_boxes)[i] by {
            if i < before.len() {
                assert(out.subrange(off + 4, end)[i + 4] == data.subrange(off + 4, end)[i + 4]);
            } else {
                assert(out.subrange(end, end + new_boxes.len())[i - before.len()]
                    == new_boxes[i - before.len()]);
            }
        }
    }
    lemma_scan_of_appended(before, new_boxes);
}

/// A container without the target box, or whose target box runs to the
/// end of the container, is left as it is, byte for byte.
pub proof fn lemma_unpatchable_unchanged(data: Seq<u8>, tag: Seq<u8>, new_boxes: Seq<u8>)
    requires
        find_box(data, tag) is None || be_u32_at(data, find_box(data, tag)->Some_0) == 0,
    ensures
        patched(data, tag, new_boxes) == data,
{
}

} // verus!
