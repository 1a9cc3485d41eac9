use tiff2jp2::kernels::{
    deinterleave_rgb8_row_gather, deinterleave_row_scalar, widen_scalar, widen_u16_to_i32_lanes,
};
use tiff2jp2::planar::{
    fill_components_u16, fill_components_u8, planarize, PixelBuf, PlanarImage, PlanarizeError,
};

fn ramp_u8(n: usize) -> Vec<u8> {
    (0..n).map(|i| ((i * 7 + 3) % 256) as u8).collect()
}

fn ramp_u16(n: usize) -> Vec<u16> {
    (0..n).map(|i| ((i * 257 + 11) % 65536) as u16).collect()
}

fn expected_planes_u8(inter: &[u8], pixels: usize, ch: usize) -> Vec<Vec<i32>> {
    (0..ch).map(|c| (0..pixels).map(|i| inter[i * ch + c] as i32).collect()).collect()
}

fn expected_planes_u16(inter: &[u16], pixels: usize, ch: usize) -> Vec<Vec<i32>> {
    (0..ch).map(|c| (0..pixels).map(|i| inter[i * ch + c] as i32).collect()).collect()
}

#[test]
fn gray8_is_widened_in_order() {
    let inter = vec![0u8, 1, 127, 128, 254, 255];
    let img = fill_components_u8(&inter, 3, 2, 1, false).unwrap();
    assert_eq!(
        img,
        PlanarImage { width: 3, height: 2, planes: vec![vec![0, 1, 127, 128, 254, 255]] }
    );
}

#[test]
fn gray8_vector_flag_changes_nothing() {
    let inter = ramp_u8(37 * 5);
    let off = fill_components_u8(&inter, 37, 5, 1, false).unwrap();
    let on = fill_components_u8(&inter, 37, 5, 1, true).unwrap();
    assert_eq!(off, on);
    assert_eq!(off.planes, expected_planes_u8(&inter, 37 * 5, 1));
}

#[test]
fn gray16_scalar_and_lanes_agree() {
    // 16 samples per step: lengths below, at and above a whole step.
    for (w, h) in [(1u32, 1u32), (15, 1), (16, 1), (17, 1), (33, 3), (64, 2)] {
        let n = (w * h) as usize;
        let inter = ramp_u16(n);
        let off = fill_components_u16(&inter, w, h, 1, false).unwrap();
        let on = fill_components_u16(&inter, w, h, 1, true).unwrap();
        assert_eq!(off, on);
        assert_eq!(off.planes, expected_planes_u16(&inter, n, 1));
    }
}

#[test]
fn gray16_keeps_full_range() {
    let inter = vec![0u16, 1, 255, 256, 32767, 32768, 65535];
    let img = fill_components_u16(&inter, 7, 1, 1, true).unwrap();
    assert_eq!(img.planes, vec![vec![0, 1, 255, 256, 32767, 32768, 65535]]);
}

#[test]
fn rgb8_is_split_per_channel() {
    // Two rows of two pixels.
    let inter = vec![1u8, 2, 3, 4, 5, 6, 7, 8, 9, 10, 11, 12];
    let img = fill_components_u8(&inter, 2, 2, 3, false).unwrap();
    assert_eq!(img.width, 2);
    assert_eq!(img.height, 2);
    assert_eq!(
        img.planes,
        vec![vec![1, 4, 7, 10], vec![2, 5, 8, 11], vec![3, 6, 9, 12]]
    );
}

#[test]
fn rgb8_scalar_and_gather_agree() {
    // 8 pixels per step: widths below, at and above a whole step.
    for (w, h) in [(1u32, 4u32), (7, 3), (8, 2), (9, 5), (16, 1), (23, 7), (64, 3)] {
        let n = (w * h) as usize;
        let inter = ramp_u8(n * 3);
        let off = fill_components_u8(&inter, w, h, 3, false).unwrap();
        let on = fill_components_u8(&inter, w, h, 3, true).unwrap();
        assert_eq!(off, on);
        assert_eq!(off.planes, expected_planes_u8(&inter, n, 3));
    }
}

#[test]
fn rgb8_gather_keeps_high_bytes_apart() {
    // Every gathered word holds neighbours with all bits set.
    let inter = vec![255u8; 3 * 16];
    let img = fill_components_u8(&inter, 16, 1, 3, true).unwrap();
    assert_eq!(img.planes, vec![vec![255; 16], vec![255; 16], vec![255; 16]]);
}

#[test]
fn rgb16_flag_changes_nothing() {
    let inter = ramp_u16(3 * 19 * 4);
    let off = fill_components_u16(&inter, 19, 4, 3, false).unwrap();
    let on = fill_components_u16(&inter, 19, 4, 3, true).unwrap();
    assert_eq!(off, on);
    assert_eq!(off.planes, expected_planes_u16(&inter, 19 * 4, 3));
}

#[test]
fn other_channel_counts_are_gathered() {
    let inter = vec![1u8, 2, 3, 4, 5, 6, 7, 8];
    let two = fill_components_u8(&inter, 2, 2, 2, true).unwrap();
    assert_eq!(two.planes, vec![vec![1, 3, 5, 7], vec![2, 4, 6, 8]]);
    let four = fill_components_u8(&inter, 2, 1, 4, false).unwrap();
    assert_eq!(four.planes, vec![vec![1, 5], vec![2, 6], vec![3, 7], vec![4, 8]]);
}

#[test]
fn plane_at_xy_is_the_interleaved_sample() {
    let (w, h, ch) = (5usize, 4usize, 3usize);
    let inter = ramp_u8(w * h * ch);
    let img = fill_components_u8(&inter, w as u32, h as u32, ch as u32, true).unwrap();
    for y in 0..h {
        for x in 0..w {
            for c in 0..ch {
                assert_eq!(img.planes[c][y * w + x], inter[(y * w + x) * ch + c] as i32);
            }
        }
    }
}

#[test]
fn wrong_buffer_length_is_a_shape_mismatch() {
    let inter = vec![0u8; 11];
    assert_eq!(fill_components_u8(&inter, 2, 2, 3, false), Err(PlanarizeError::ShapeMismatch));
    assert_eq!(fill_components_u8(&inter, 4, 3, 1, true), Err(PlanarizeError::ShapeMismatch));
    let wide = vec![0u16; 13];
    assert_eq!(fill_components_u16(&wide, 2, 2, 3, false), Err(PlanarizeError::ShapeMismatch));
}

#[test]
fn empty_images_have_empty_planes() {
    let none: Vec<u8> = Vec::new();
    let img = fill_components_u8(&none, 0, 5, 3, true).unwrap();
    assert_eq!(img.planes, vec![Vec::<i32>::new(), Vec::new(), Vec::new()]);
    let img = fill_components_u8(&none, 4, 4, 0, false).unwrap();
    assert_eq!(img.planes, Vec::<Vec<i32>>::new());
}

#[test]
fn planarize_takes_either_sample_width() {
    let narrow = PixelBuf::U8(vec![9, 8, 7, 6, 5, 4]);
    let img = planarize(&narrow, 2, 1, 3, false).unwrap();
    assert_eq!(img.planes, vec![vec![9, 6], vec![8, 5], vec![7, 4]]);
    let wide = PixelBuf::U16(vec![1000, 2000, 3000]);
    let img = planarize(&wide, 3, 1, 1, true).unwrap();
    assert_eq!(img.planes, vec![vec![1000, 2000, 3000]]);
    assert_eq!(planarize(&wide, 2, 1, 1, true), Err(PlanarizeError::ShapeMismatch));
}

#[test]
fn row_kernels_agree() {
    let n = 21usize;
    let row = ramp_u8(3 * n);
    let mut padded = row.clone();
    padded.extend_from_slice(&[0, 0, 0]);
    let (mut r1, mut g1, mut b1) = (vec![-1i32; n], vec![-1i32; n], vec![-1i32; n]);
    let (mut r2, mut g2, mut b2) = (vec![-2i32; n], vec![-2i32; n], vec![-2i32; n]);
    deinterleave_row_scalar(&row, &mut r1, &mut g1, &mut b1);
    deinterleave_rgb8_row_gather(&padded, &mut r2, &mut g2, &mut b2);
    assert_eq!((&r1, &g1, &b1), (&r2, &g2, &b2));
    assert_eq!(r1[20], row[60] as i32);
    assert_eq!(b1[0], row[2] as i32);
}

#[test]
fn widen_kernels_agree() {
    let src = ramp_u16(50);
    let mut a = vec![-1i32; 50];
    let mut b = vec![-2i32; 50];
    widen_scalar(&src, &mut a);
    widen_u16_to_i32_lanes(&src, &mut b);
    assert_eq!(a, b);
    assert_eq!(a[49], src[49] as i32);
}

#[test]
fn widening_leaves_the_rest_of_a_longer_destination() {
    // Lengths below, at and above a whole step of sixteen.
    for n in [0usize, 1, 15, 16, 17, 40] {
        let src = ramp_u16(n);
        let mut a = vec![-7i32; n + 5];
        let mut b = vec![-7i32; n + 5];
        widen_scalar(&src, &mut a);
        widen_u16_to_i32_lanes(&src, &mut b);
        assert_eq!(a, b);
        for k in 0..n {
            assert_eq!(a[k], src[k] as i32);
        }
        assert_eq!(&a[n..], &[-7i32; 5]);
    }
    let bytes = ramp_u8(9);
    let mut dst = vec![100i32; 12];
    widen_scalar(&bytes, &mut dst);
    assert_eq!(&dst[..9], &bytes.iter().map(|v| *v as i32).collect::<Vec<i32>>()[..]);
    assert_eq!(&dst[9..], &[100, 100, 100]);
}
