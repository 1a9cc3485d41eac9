//! Sample types and the kernels that widen and de-interleave them.
//!
//! Every kernel has a sample-by-sample form. The lane-wise forms work on
//! fixed-size groups and agree with the sample-by-sample form on every
//! input.

use rayon::iter::{IndexedParallelIterator, ParallelIterator};
use rayon::slice::{ParallelSlice, ParallelSliceMut};
use vstd::prelude::*;

verus! {

/// Number of pixels that one step of the gathering row kernel handles.
pub const GATHER_LANES: usize = 8;

/// Number of samples that one step of the widening kernel handles.
pub const WIDEN_LANES: usize = 16;

/// Zero bytes that follow a row copy, so that the last gather of the row
/// stays inside the copy.
pub const GATHER_PAD: usize = 3;

/// A pixel sample that can be widened to the codec's signed 32-bit domain.
pub trait Sample: Copy {
    /// The number that the sample stands for.
    spec fn value(self) -> int;

    /// Widens one sample.
    fn widen(self) -> (v: i32)
        ensures
            v == self.value(),
    ;
}

/// The bulk kernels of a sample type. With `use_vector` set, a sample type
/// may take its lane-wise path; the result is the same either way.
pub trait SampleKernels: Sample {
    /// Widens a whole single-channel buffer.
    fn widen_plane(src: &[Self], dst: &mut [i32], use_vector: bool)
        requires
            src@.len() == old(dst)@.len(),
        ensures
            plane_widened(samples(src@), final(dst)@),
    ;

    /// Splits one row of three-channel pixels into its three destination
    /// rows.
    fn split_row(src_row: &[Self], r: &mut [i32], g: &mut [i32], b: &mut [i32], use_vector: bool)
        requires
            src_row@.len() == 3 * old(r)@.len(),
            old(g)@.len() == old(r)@.len(),
            old(b)@.len() == old(r)@.len(),
        ensures
            row_split(samples(src_row@), final(r)@, final(g)@, final(b)@),
            final(r)@.len() == old(r)@.len(),
    ;
}

/// The samples of a buffer as integers.
pub open spec fn samples<T: Sample>(inter: Seq<T>) -> Seq<int> {
    Seq::new(inter.len(), |i: int| inter[i].value())
}

/// `dst` holds every sample of `src`, in order.
pub open spec fn plane_widened(src: Seq<int>, dst: Seq<i32>) -> bool {
    &&& dst.len() == src.len()
    &&& forall|i: int| 0 <= i < dst.len() ==> #[trigger] dst[i] == src[i]
}

/// One row of three-channel pixels has been split: position `x` of each
/// destination holds the matching sample of pixel `x`.
pub open spec fn row_split(src: Seq<int>, r: Seq<i32>, g: Seq<i32>, b: Seq<i32>) -> bool {
    &&& src.len() == 3 * r.len()
    &&& g.len() == r.len()
    &&& b.len() == r.len()
    &&& forall|x: int|
        0 <= x < r.len() ==> {
            &&& #[trigger] r[x] == src[3 * x]
            &&& g[x] == src[3 * x + 1]
            &&& b[x] == src[3 * x + 2]
        }
}

/// Masking a gathered word with `0xFF` leaves its first byte.
pub proof fn lemma_gather_low_byte(b0: u8, b1: u8, b2: u8, b3: u8)
    ensures
        (((b0 as u32) | ((b1 as u32) << 8) | ((b2 as u32) << 16) | ((b3 as u32) << 24)) & 0xFF)
            == b0 as u32,
{
    assert((((b0 as u32) | ((b1 as u32) << 8) | ((b2 as u32) << 16) | ((b3 as u32) << 24)) & 0xFF)
        == b0 as u32) by (bit_vector);
}

/// Gathers the little-endian word at byte `off` of a padded row and keeps
/// its low byte, widened to `i32`.
fn gather_lane(row_pad: &[u8], off: usize) -> (v: i32)
    requires
        off + 4 <= row_pad@.len(),
    ensures
        v == row_pad@[off as int],
{
    let word: u32 = (row_pad[off] as u32) | ((row_pad[off + 1] as u32) << 8) | ((row_pad[off
        + 2] as u32) << 16) | ((row_pad[off + 3] as u32) << 24);
    let low: u32 = word & 0xFF;
    proof {
        lemma_gather_low_byte(
            row_pad@[off as int],
            row_pad@[off + 1],
            row_pad@[off + 2],
            row_pad@[off + 3],
        );
    }
    low as i32
}

/// The first `src.len()` samples of `after` are the samples of `src`, in
/// order; the rest of `after` is as it was in `before`.
pub open spec fn prefix_widened(src: Seq<int>, before: Seq<i32>, after: Seq<i32>) -> bool {
    &&& after.len() == before.len()
    &&& src.len() <= after.len()
    &&& forall|k: int| 0 <= k < src.len() ==> #[trigger] after[k] == src[k]
    &&& forall|k: int| src.len() <= k < after.len() ==> #[trigger] after[k] == before[k]
}

/// A destination as long as the source holds nothing but the widened
/// samples.
pub proof fn lemma_prefix_is_plane(src: Seq<int>, before: Seq<i32>, after: Seq<i32>)
    requires
        prefix_widened(src, before, after),
        src.len() == before.len(),
    ensures
        plane_widened(src, after),
{
}

/// Widens a single-channel buffer sample by sample into the front of
/// `dst`. Samples of `dst` behind the length of `src` stay as they are.
pub fn widen_scalar<T: Sample>(src: &[T], dst: &mut [i32])
    requires
        src@.len() <= old(dst)@.len(),
    ensures
        prefix_widened(samples(src@), old(dst)@, final(dst)@),
{
    let n: usize = src.len();
    let mut i: usize = 0;
    while i < n
        invariant
            n == src@.len(),
            n <= dst@.len(),
            dst@.len() == old(dst)@.len(),
            i <= n,
            forall|k: int| 0 <= k < i ==> #[trigger] dst@[k] == src@[k].value(),
            forall|k: int| i <= k < dst@.len() ==> #[trigger] dst@[k] == old(dst)@[k],
        decreases n - i,
    {
        dst[i] = src[i].widen();
        i += 1;
    }
}

/// Widens a single-channel 16-bit buffer into the front of `dst`, sixteen
/// samples per step, and the samples that do not fill a whole step one by
/// one. Samples of `dst` behind the length of `src` stay as they are.
pub fn widen_u16_to_i32_lanes(src: &[u16], dst: &mut [i32])
    requires
        src@.len() <= old(dst)@.len(),
    ensures
        prefix_widened(samples(src@), old(dst)@, final(dst)@),
{
    let n: usize = src.len();
    let mut i: usize = 0;
    while n - i >= WIDEN_LANES
        invariant
            n == src@.len(),
            n <= dst@.len(),
            dst@.len() == old(dst)@.len(),
            i <= n,
            forall|k: int| 0 <= k < i ==> #[trigger] dst@[k] == src@[k],
            forall|k: int| i <= k < dst@.len() ==> #[trigger] dst@[k] == old(dst)@[k],
        decreases n - i,
    {
        let mut lane: usize = 0;
        while lane < WIDEN_LANES
            invariant
                n == src@.len(),
                n <= dst@.len(),
                dst@.len() == old(dst)@.len(),
                i + WIDEN_LANES <= n,
                lane <= WIDEN_LANES,
                forall|k: int| 0 <= k < i + lane ==> #[trigger] dst@[k] == src@[k],
                forall|k: int| i + lane <= k < dst@.len() ==> #[trigger] dst@[k] == old(dst)@[k],
            decreases WIDEN_LANES - lane,
        {
            dst[i + lane] = src[i + lane] as i32;
            lane += 1;
        }
        assert(lane == WIDEN_LANES);
        i += WIDEN_LANES;
    }
    while i < n
        invariant
            n == src@.len(),
            n <= dst@.len(),
            dst@.len() == old(dst)@.len(),
            i <= n,
            forall|k: int| 0 <= k < i ==> #[trigger] dst@[k] == src@[k],
            forall|k: int| i <= k < dst@.len() ==> #[trigger] dst@[k] == old(dst)@[k],
        decreases n - i,
    {
        dst[i] = src[i] as i32;
        i += 1;
    }
}

/// Splits one row of three-channel pixels sample by sample.
pub fn deinterleave_row_scalar<T: Sample>(
    src_row: &[T],
    r: &mut [i32],
    g: &mut [i32],
    b: &mut [i32],
)
    requires
        src_row@.len() == 3 * old(r)@.len(),
        old(g)@.len() == old(r)@.len(),
        old(b)@.len() == old(r)@.len(),
    ensures
        row_split(samples(src_row@), final(r)@, final(g)@, final(b)@),
        final(r)@.len() == old(r)@.len(),
{
    let n: usize = r.len();
    let total: usize = src_row.len();
    let mut x: usize = 0;
    while x < n
        invariant
            n == r@.len(),
            g@.len() == n,
            b@.len() == n,
            total == 3 * n,
            total == src_row@.len(),
            x <= n,
            forall|k: int|
                0 <= k < x ==> {
                    &&& #[trigger] r@[k] == src_row@[3 * k].value()
                    &&& g@[k] == src_row@[3 * k + 1].value()
                    &&& b@[k] == src_row@[3 * k + 2].value()
                },
        decreases n - x,
    {
        let p: usize = 3 * x;
        let rv: i32 = src_row[p].widen();
        let gv: i32 = src_row[p + 1].widen();
        let bv: i32 = src_row[p + 2].widen();
        r[x] = rv;
        g[x] = gv;
        b[x] = bv;
        x += 1;
        assert forall|k: int| 0 <= k < x implies {
            &&& #[trigger] r@[k] == src_row@[3 * k].value()
            &&& g@[k] == src_row@[3 * k + 1].value()
            &&& b@[k] == src_row@[3 * k + 2].value()
        } by {
            if k == x - 1 {
                assert(3 * k == p);
            }
            assert(r@[k] == src_row@[3 * k].value());
        }
    }
}

/// Splits one row of 8-bit RGB pixels eight pixels per step.
///
/// `row_pad` is the row followed by `GATHER_PAD` zero bytes. Each step
/// gathers, for every lane, the 32-bit word at the byte offset of the wanted
/// sample and masks it down to its low byte; the pixels that do not fill a
/// whole step are split sample by sample.
pub fn deinterleave_rgb8_row_gather(row_pad: &[u8], r: &mut [i32], g: &mut [i32], b: &mut [i32])
    requires
        row_pad@.len() == 3 * old(r)@.len() + GATHER_PAD,
        old(g)@.len() == old(r)@.len(),
        old(b)@.len() == old(r)@.len(),
    ensures
        row_split(
            samples(row_pad@.subrange(0, 3 * (old(r)@.len() as int))),
            final(r)@,
            final(g)@,
            final(b)@,
        ),
        final(r)@.len() == old(r)@.len(),
{
    let n: usize = r.len();
    let total: usize = row_pad.len();
    let mut x: usize = 0;
    while n - x >= GATHER_LANES
        invariant
            n == r@.len(),
            g@.len() == n,
            b@.len() == n,
            total == 3 * n + GATHER_PAD,
            total == row_pad@.len(),
            x <= n,
            forall|k: int|
                0 <= k < x ==> {
                    &&& #[trigger] r@[k] == row_pad@[3 * k]
                    &&& g@[k] == row_pad@[3 * k + 1]
                    &&& b@[k] == row_pad@[3 * k + 2]
                },
        decreases n - x,
    {
        let mut lane: usize = 0;
        while lane < GATHER_LANES
            invariant
                n == r@.len(),
                g@.len() == n,
                b@.len() == n,
                total == 3 * n + GATHER_PAD,
                total == row_pad@.len(),
                x + GATHER_LANES <= n,
                lane <= GATHER_LANES,
                forall|k: int|
                    0 <= k < x + lane ==> {
                        &&& #[trigger] r@[k] == row_pad@[3 * k]
                        &&& g@[k] == row_pad@[3 * k + 1]
                        &&& b@[k] == row_pad@[3 * k + 2]
                    },
            decreases GATHER_LANES - lane,
        {
            let at: usize = x + lane;
            let off: usize = 3 * at;
            let rv: i32 = gather_lane(row_pad, off);
            let gv: i32 = gather_lane(row_pad, off + 1);
            let bv: i32 = gather_lane(row_pad, off + 2);
            r[at] = rv;
            g[at] = gv;
            b[at] = bv;
            lane += 1;
            assert forall|k: int| 0 <= k < x + lane implies {
                &&& #[trigger] r@[k] == row_pad@[3 * k]
                &&& g@[k] == row_pad@[3 * k + 1]
                &&& b@[k] == row_pad@[3 * k + 2]
            } by {
                if k == at {
                    assert(3 * k == off);
                }
                assert(r@[k] == row_pad@[3 * k]);
            }
        }
        x += GATHER_LANES;
        assert forall|k: int| 0 <= k < x implies {
            &&& #[trigger] r@[k] == row_pad@[3 * k]
            &&& g@[k] == row_pad@[3 * k + 1]
            &&& b@[k] == row_pad@[3 * k + 2]
        } by {
            assert(r@[k] == row_pad@[3 * k]);
        }
    }
    while x < n
        invariant
            n == r@.len(),
            g@.len() == n,
            b@.len() == n,
            total == 3 * n + GATHER_PAD,
            total == row_pad@.len(),
            x <= n,
            forall|k: int|
                0 <= k < x ==> {
                    &&& #[trigger] r@[k] == row_pad@[3 * k]
                    &&& g@[k] == row_pad@[3 * k + 1]
                    &&& b@[k] == row_pad@[3 * k + 2]
                },
        decreases n - x,
    {
        let p: usize = 3 * x;
        r[x] = row_pad[p] as i32;
        g[x] = row_pad[p + 1] as i32;
        b[x] = row_pad[p + 2] as i32;
        x += 1;
        assert forall|k: int| 0 <= k < x implies {
            &&& #[trigger] r@[k] == row_pad@[3 * k]
            &&& g@[k] == row_pad@[3 * k + 1]
            &&& b@[k] == row_pad@[3 * k + 2]
        } by {
            if k == x - 1 {
                assert(3 * k == p);
            }
            assert(r@[k] == row_pad@[3 * k]);
        }
    }
    proof {
        let src = samples(row_pad@.subrange(0, 3 * (n as int)));
        assert forall|k: int| 0 <= k < n implies {
            &&& #[trigger] r@[k] == src[3 * k]
            &&& g@[k] == src[3 * k + 1]
            &&& b@[k] == src[3 * k + 2]
        } by {
            assert(r@[k] == row_pad@[3 * k]);
        }
    }
}

impl Sample for u8 {
    open spec fn value(self) -> int {
        self as int
    }

    fn widen(self) -> (v: i32) {
        self as i32
    }
}

impl SampleKernels for u8 {
    fn widen_plane(src: &[u8], dst: &mut [i32], use_vector: bool) {
        widen_scalar(src, dst);
        proof {
            lemma_prefix_is_plane(samples(src@), old(dst)@, dst@);
        }
    }

    fn split_row(src_row: &[u8], r: &mut [i32], g: &mut [i32], b: &mut [i32], use_vector: bool) {
        if use_vector && r.len() >= GATHER_LANES {
            let mut row_pad: Vec<u8> = Vec::new();
            row_pad.extend_from_slice(src_row);
            row_pad.extend_from_slice(&[0u8, 0u8, 0u8]);
            assert(row_pad@.subrange(0, 3 * (r@.len() as int)) =~= src_row@);
            deinterleave_rgb8_row_gather(row_pad.as_slice(), r, g, b);
        } else {
            deinterleave_row_scalar(src_row, r, g, b);
        }
    }
}

impl Sample for u16 {
    open spec fn value(self) -> int {
        self as int
    }

    fn widen(self) -> (v: i32) {
        self as i32
    }
}

impl SampleKernels for u16 {
    fn widen_plane(src: &[u16], dst: &mut [i32], use_vector: bool) {
        if use_vector {
            widen_u16_to_i32_lanes(src, dst);
        } else {
            widen_scalar(src, dst);
        }
        proof {
            lemma_prefix_is_plane(samples(src@), old(dst)@, dst@);
        }
    }

    fn split_row(src_row: &[u16], r: &mut [i32], g: &mut [i32], b: &mut [i32], use_vector: bool) {
        deinterleave_row_scalar(src_row, r, g, b);
    }
}

/// Row `y` of a buffer whose rows hold `len` items each.
pub open spec fn row_of<A>(s: Seq<A>, y: int, len: int) -> Seq<A> {
    s.subrange(y * len, (y + 1) * len)
}

/// Splits every row of a three-channel image, the rows spread over rayon's
/// worker pool.
///
/// Calls rayon's `par_chunks_mut` on the three destinations and `par_chunks`
/// on the source, zips the four and runs `SampleKernels::split_row` on every
/// tuple with `for_each`. The contract claims what rayon documents of these:
/// the chunks are the consecutive rows, each tuple holds the rows of one
/// index, and every tuple is visited once before the call returns.
#[verifier::external_body]
pub(crate) fn par_split_rows<T: SampleKernels + Sync>(
    inter: &[T],
    width: usize,
    stride: usize,
    use_vector: bool,
    r: &mut [i32],
    g: &mut [i32],
    b: &mut [i32],
)
    requires
        width > 0,
        stride == 3 * width,
        (old(r)@.len() as int) % (width as int) == 0,
        old(g)@.len() == old(r)@.len(),
        old(b)@.len() == old(r)@.len(),
        inter@.len() == 3 * old(r)@.len(),
    ensures
        final(r)@.len() == old(r)@.len(),
        final(g)@.len() == old(r)@.len(),
        final(b)@.len() == old(r)@.len(),
        forall|y: int|
            0 <= y && (y + 1) * width <= old(r)@.len() ==> row_split(
                samples(row_of(inter@, y, stride as int)),
                #[trigger] row_of(final(r)@, y, width as int),
                row_of(final(g)@, y, width as int),
                row_of(final(b)@, y, width as int),
            ),
{
    r.par_chunks_mut(width)
        .zip(g.par_chunks_mut(width))
        .zip(b.par_chunks_mut(width))
        .zip(inter.par_chunks(stride))
        .for_each(|(((rr, gg), bb), src)| T::split_row(src, rr, gg, bb, use_vector));
}

} // verus!
