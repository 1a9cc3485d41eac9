//! Conversion of interleaved pixel buffers into per-channel planes.
//!
//! An interleaved buffer stores the samples of one pixel next to each other,
//! row after row. A planar image stores one buffer per channel, each sample
//! widened to `i32`.

use crate::kernels::{par_split_rows, row_of, row_split, samples, Sample, SampleKernels};
use vstd::prelude::*;

verus! {

/// A decoded pixel buffer, interleaved and row-major.
#[derive(Debug, Clone, PartialEq, Eq)]
pub enum PixelBuf {
    U8(Vec<u8>),
    U16(Vec<u16>),
}

impl PixelBuf {
    /// The samples of the buffer as integers.
    pub open spec fn samples(&self) -> Seq<int> {
        match self {
            PixelBuf::U8(v) => samples(v@),
            PixelBuf::U16(v) => samples(v@),
        }
    }
}

/// Per-channel planes of one image.
#[derive(Debug, Clone, PartialEq, Eq)]
pub struct PlanarImage {
    pub width: u32,
    pub height: u32,
    pub planes: Vec<Vec<i32>>,
}

impl PlanarImage {
    /// The planes as sequences.
    pub open spec fn planes_view(&self) -> Seq<Seq<i32>> {
        Seq::new(self.planes@.len(), |c: int| self.planes@[c]@)
    }

    /// Every plane covers the whole image.
    pub open spec fn wf(&self) -> bool {
        forall|c: int|
            0 <= c < self.planes@.len() ==> (#[trigger] self.planes@[c])@.len() == self.width
                * self.height
    }
}

/// Why a buffer could not be planarized.
#[derive(Debug, Clone, Copy, PartialEq, Eq)]
pub enum PlanarizeError {
    /// The buffer does not hold `width * height * channels` samples, or a
    /// plane of that size cannot be addressed.
    ShapeMismatch,
    /// Memory for a destination plane could not be had.
    AllocationFailed,
}

/// A buffer of `len` samples holds exactly the pixels of the image.
pub open spec fn shape_fits(len: int, width: int, height: int, channels: int) -> bool {
    &&& width * height <= usize::MAX
    &&& width * height * channels == len
}

/// `planes` is the planar form of the interleaved samples `src`: one plane
/// per channel, and sample `i` of plane `c` is sample `c` of pixel `i`.
pub open spec fn is_planar_of(planes: Seq<Seq<i32>>, src: Seq<int>, pixels: int, channels: int) -> bool {
    &&& planes.len() == channels
    &&& forall|c: int| 0 <= c < channels ==> (#[trigger] planes[c]).len() == pixels
    &&& forall|c: int, i: int|
        0 <= c < channels && 0 <= i < pixels ==> #[trigger] planes[c][i] == src[i * channels + c]
}

/// What `fill_components` owes for the samples `src`.
pub open spec fn planarized(
    res: Result<PlanarImage, PlanarizeError>,
    src: Seq<int>,
    width: u32,
    height: u32,
    channels: u32,
) -> bool {
    match res {
        Ok(img) => {
            &&& shape_fits(src.len() as int, width as int, height as int, channels as int)
            &&& img.width == width
            &&& img.height == height
            &&& img.wf()
            &&& is_planar_of(img.planes_view(), src, width * height, channels as int)
        },
        Err(PlanarizeError::ShapeMismatch) => !shape_fits(
            src.len() as int,
            width as int,
            height as int,
            channels as int,
        ),
        Err(PlanarizeError::AllocationFailed) => shape_fits(
            src.len() as int,
            width as int,
            height as int,
            channels as int,
        ),
    }
}

/// Allocates a zeroed plane of `n` samples, or reports that the memory could
/// not be had. Whether it can be had is for the allocator to say.
fn alloc_plane(n: usize) -> (r: Option<Vec<i32>>)
    ensures
        r matches Some(v) ==> v@ == Seq::new(n as nat, |i: int| 0i32),
{
    let mut v: Vec<i32> = Vec::new();
    if v.try_reserve(n).is_err() {
        return None;
    }
    v.resize(n, 0);
    assert(v@ =~= Seq::new(n as nat, |i: int| 0i32));
    Some(v)
}

/// Sample `c` of pixel `i` lies inside a buffer of `pixels` pixels.
pub proof fn lemma_sample_index(i: int, pixels: int, channels: int, c: int)
    requires
        0 <= i < pixels,
        0 <= c < channels,
    ensures
        0 <= i * channels + c < pixels * channels,
{
    assert(0 <= i * channels + c < pixels * channels) by (nonlinear_arith)
        requires
            0 <= i < pixels,
            0 <= c < channels,
    ;
}

/// Copies channel `c` of every pixel into `dst`.
fn gather_channel<T: Sample>(inter: &[T], channels: usize, c: usize, dst: &mut [i32])
    requires
        c < channels,
        inter@.len() == old(dst)@.len() * channels,
    ensures
        final(dst)@.len() == old(dst)@.len(),
        forall|i: int|
            0 <= i < old(dst)@.len() ==> #[trigger] final(dst)@[i] == samples(inter@)[i * channels
                + c],
{
    let n: usize = dst.len();
    let total: usize = inter.len();
    let mut i: usize = 0;
    while i < n
        invariant
            n == dst@.len(),
            total == inter@.len(),
            total == n * channels,
            c < channels,
            i <= n,
            forall|k: int| 0 <= k < i ==> #[trigger] dst@[k] == inter@[k * channels + c].value(),
        decreases n - i,
    {
        proof {
            lemma_sample_index(i as int, n as int, channels as int, c as int);
        }
        let idx: usize = i * channels + c;
        let v: i32 = inter[idx].widen();
        dst[i] = v;
        i += 1;
    }
    proof {
        assert forall|k: int| 0 <= k < n implies #[trigger] dst@[k] == samples(inter@)[k
            * channels + c] by {
            lemma_sample_index(k, n as int, channels as int, c as int);
        }
    }
}

/// Rows tile a plane: pixel `i` is position `i % width` of row `i / width`,
/// and that row lies inside the plane.
pub proof fn lemma_row_of_pixel(i: int, width: int, height: int)
    requires
        0 < width,
        0 <= i < width * height,
    ensures
        0 <= i / width < height,
        0 <= i % width < width,
        i == (i / width) * width + i % width,
        (i / width + 1) * width <= width * height,
{
    let y = i / width;
    let x = i % width;
    assert(i == y * width + x && 0 <= x < width) by (nonlinear_arith)
        requires
            0 < width,
            y == i / width,
            x == i % width,
    ;
    assert(0 <= y) by (nonlinear_arith)
        requires
            0 < width,
            0 <= i,
            y == i / width,
    ;
    assert(y < height) by (nonlinear_arith)
        requires
            0 < width,
            i == y * width + x,
            0 <= x,
            i < width * height,
    ;
    assert((y + 1) * width <= width * height) by (nonlinear_arith)
        requires
            0 < width,
            0 <= y < height,
    ;
}

/// Planarizes an interleaved buffer.
///
/// One channel is widened in place order; three channels are split row by
/// row on rayon's worker pool; any other channel count is gathered channel
/// by channel. `use_vector` selects the lane-wise kernels where the sample
/// type has them, and never changes the result.
pub fn fill_components<T: SampleKernels + Sync>(
    inter: &[T],
    width: u32,
    height: u32,
    channels: u32,
    use_vector: bool,
) -> (res: Result<PlanarImage, PlanarizeError>)
    ensures
        planarized(res, samples(inter@), width, height, channels),
{
    let ghost src = samples(inter@);
    let len: usize = inter.len();
    let w: usize = width as usize;
    let ch: usize = channels as usize;
    let plane: usize = match w.checked_mul(height as usize) {
        Some(p) => p,
        None => {
            return Err(PlanarizeError::ShapeMismatch);
        },
    };
    let total: usize = match plane.checked_mul(ch) {
        Some(t) => t,
        None => {
            return Err(PlanarizeError::ShapeMismatch);
        },
    };
    if total != len {
        return Err(PlanarizeError::ShapeMismatch);
    }
    assert(shape_fits(len as int, width as int, height as int, channels as int));
    let mut planes: Vec<Vec<i32>> = Vec::new();
    if ch == 1 {
        let mut gray = match alloc_plane(plane) {
            Some(v) => v,
            None => {
                return Err(PlanarizeError::AllocationFailed);
            },
        };
        assert(total == plane) by (nonlinear_arith)
            requires
                total == plane * ch,
                ch == 1,
        ;
        T::widen_plane(inter, gray.as_mut_slice(), use_vector);
        planes.push(gray);
        assert forall|k: int, i: int| 0 <= k < ch && 0 <= i < plane implies #[trigger] planes@[k]@[i]
            == src[i * ch + k] by {
            assert(i * ch + k == i) by (nonlinear_arith)
                requires
                    ch == 1,
                    k == 0,
            ;
        }
    } else if ch == 3 {
        let mut r = match alloc_plane(plane) {
            Some(v) => v,
            None => {
                return Err(PlanarizeError::AllocationFailed);
            },
        };
        let mut g = match alloc_plane(plane) {
            Some(v) => v,
            None => {
                return Err(PlanarizeError::AllocationFailed);
            },
        };
        let mut b = match alloc_plane(plane) {
            Some(v) => v,
            None => {
                return Err(PlanarizeError::AllocationFailed);
            },
        };
        if plane > 0 {
            assert(w > 0 && 3 * w <= total) by (nonlinear_arith)
                requires
                    total == w * height * 3,
                    w * height > 0,
                    w >= 0,
                    height >= 0,
            ;
            assert((plane as int) % (w as int) == 0) by {
                vstd::arithmetic::div_mod::lemma_mod_multiples_basic(height as int, w as int);
                vstd::arithmetic::mul::lemma_mul_is_commutative(height as int, w as int);
            }
            let stride: usize = 3 * w;
            par_split_rows(
                inter,
                w,
                stride,
                use_vector,
                r.as_mut_slice(),
                g.as_mut_slice(),
                b.as_mut_slice(),
            );
            proof {
                assert forall|i: int| 0 <= i < plane implies {
                    &&& #[trigger] r@[i] == src[3 * i]
                    &&& g@[i] == src[3 * i + 1]
                    &&& b@[i] == src[3 * i + 2]
                } by {
                    lemma_row_of_pixel(i, w as int, height as int);
                    let y = i / (w as int);
                    let x = i % (w as int);
                    let rr = row_of(r@, y, w as int);
                    let gg = row_of(g@, y, w as int);
                    let bb = row_of(b@, y, w as int);
                    let ss = samples(row_of(inter@, y, stride as int));
                    assert(row_split(ss, rr, gg, bb));
                    assert(y * stride == 3 * (y * w)) by (nonlinear_arith)
                        requires
                            stride == 3 * w,
                    ;
                    assert((y + 1) * stride == 3 * ((y + 1) * w)) by (nonlinear_arith)
                        requires
                            stride == 3 * w,
                    ;
                    assert((y + 1) * w == y * w + w) by (nonlinear_arith);
                    assert(rr[x] == r@[i]);
                    assert(gg[x] == g@[i]);
                    assert(bb[x] == b@[i]);
                    assert(rr[x] == ss[3 * x]);
                    assert(ss[3 * x] == src[3 * i]);
                    assert(ss[3 * x + 1] == src[3 * i + 1]);
                    assert(ss[3 * x + 2] == src[3 * i + 2]);
                }
            }
        }
        planes.push(r);
        planes.push(g);
        planes.push(b);
        assert forall|k: int, i: int| 0 <= k < ch && 0 <= i < plane implies #[trigger] planes@[k]@[i]
            == src[i * ch + k] by {
            assert(i * ch == 3 * i) by (nonlinear_arith)
                requires
                    ch == 3,
            ;
            assert(r@[i] == src[3 * i]);
        }
    } else {
        let mut c: usize = 0;
        while c < ch
            invariant
                c <= ch,
                ch == channels,
                src == samples(inter@),
                shape_fits(len as int, width as int, height as int, channels as int),
                len == inter@.len(),
                total == inter@.len(),
                total == plane * ch,
                planes@.len() == c,
                forall|k: int| 0 <= k < c ==> (#[trigger] planes@[k])@.len() == plane,
                forall|k: int, i: int|
                    0 <= k < c && 0 <= i < plane ==> #[trigger] planes@[k]@[i] == src[i * ch + k],
            decreases ch - c,
        {
            let mut dst = match alloc_plane(plane) {
                Some(v) => v,
                None => {
                    return Err(PlanarizeError::AllocationFailed);
                },
            };
            gather_channel(inter, ch, c, dst.as_mut_slice());
            planes.push(dst);
            c += 1;
        }
    }
    assert(planes@.len() == ch);
    assert(forall|k: int| 0 <= k < ch ==> (#[trigger] planes@[k])@.len() == plane);
    assert(forall|k: int, i: int|
        0 <= k < ch && 0 <= i < plane ==> #[trigger] planes@[k]@[i] == src[i * ch + k]);
    let img = PlanarImage { width, height, planes };
    proof {
        let view = img.planes_view();
        assert forall|c: int, i: int| 0 <= c < ch && 0 <= i < plane implies #[trigger] view[c][i]
            == src[i * ch + c] by {
            assert(view[c] == img.planes@[c]@);
        }
    }
    Ok(img)
}

/// Planarizes an interleaved 8-bit buffer.
pub fn fill_components_u8(
    inter: &[u8],
    width: u32,
    height: u32,
    channels: u32,
    use_vector: bool,
) -> (res: Result<PlanarImage, PlanarizeError>)
    ensures
        planarized(res, samples(inter@), width, height, channels),
{
    fill_components(inter, width, height, channels, use_vector)
}

/// Planarizes an interleaved 16-bit buffer.
pub fn fill_components_u16(
    inter: &[u16],
    width: u32,
    height: u32,
    channels: u32,
    use_vector: bool,
) -> (res: Result<PlanarImage, PlanarizeError>)
    ensures
        planarized(res, samples(inter@), width, height, channels),
{
    fill_components(inter, width, height, channels, use_vector)
}

/// Planarizes a decoded pixel buffer of either sample width.
pub fn planarize(
    pixels: &PixelBuf,
    width: u32,
    height: u32,
    channels: u32,
    use_vector: bool,
) -> (res: Result<PlanarImage, PlanarizeError>)
    ensures
        planarized(res, pixels.samples(), width, height, channels),
{
    match pixels {
        PixelBuf::U8(buf) => fill_components_u8(buf.as_slice(), width, height, channels, use_vector),
        PixelBuf::U16(buf) => fill_components_u16(
            buf.as_slice(),
            width,
            height,
            channels,
            use_vector,
        ),
    }
}

/// The planar form of a buffer is unique: two images planarized from the
/// same samples hold the same planes, whichever kernels produced them.
pub proof fn lemma_planarize_path_independent(
    scalar: Result<PlanarImage, PlanarizeError>,
    vector: Result<PlanarImage, PlanarizeError>,
    src: Seq<int>,
    width: u32,
    height: u32,
    channels: u32,
)
    requires
        planarized(scalar, src, width, height, channels),
        planarized(vector, src, width, height, channels),
        scalar is Ok,
        vector is Ok,
    ensures
        scalar->Ok_0.planes_view() == vector->Ok_0.planes_view(),
        scalar->Ok_0.width == vector->Ok_0.width,
        scalar->Ok_0.height == vector->Ok_0.height,
{
    let a = scalar->Ok_0.planes_view();
    let b = vector->Ok_0.planes_view();
    assert forall|c: int| 0 <= c < a.len() implies a[c] == b[c] by {
        assert(a[c].len() == b[c].len());
        assert forall|i: int| 0 <= i < a[c].len() implies a[c][i] == b[c][i] by {
            assert(a[c][i] == src[i * (channels as int) + c]);
            assert(b[c][i] == src[i * (channels as int) + c]);
        }
        assert(a[c] =~= b[c]);
    }
    assert(a =~= b);
}

/// In a planarized image, plane `c` at column `x` of row `y` holds sample
/// `c` of the pixel at `(x, y)` of the interleaved buffer.
pub proof fn lemma_plane_at_xy(
    img: PlanarImage,
    src: Seq<int>,
    width: u32,
    height: u32,
    channels: u32,
    x: int,
    y: int,
    c: int,
)
    requires
        planarized(Ok(img), src, width, height, channels),
        0 <= x < width,
        0 <= y < height,
        0 <= c < channels,
    ensures
        0 <= y * width + x < width * height,
        0 <= (y * width + x) * channels + c < src.len(),
        img.planes_view()[c][y * width + x] == src[(y * width + x) * channels + c],
{
    assert(0 <= y * width + x < width * height) by (nonlinear_arith)
        requires
            0 <= x < width,
            0 <= y < height,
    ;
    lemma_sample_index(y * width + x, width * height, channels as int, c);
}

} // verus!
