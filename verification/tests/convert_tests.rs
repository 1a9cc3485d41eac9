use std::io::Cursor;
use std::path::PathBuf;
use tiff::decoder::ifd::Value;
use tiff::decoder::{Decoder, DecodingResult};
use tiff::encoder::{colortype, Rational, TiffEncoder};
use tiff::tags::{ResolutionUnit, Tag};
use tiff::ColorType;
use tiff2jp2::cli::{Args, Effective};
use tiff2jp2::container::{top_level_boxes, BoxEntry};
use tiff2jp2::convert::{
    choose_icc, codec_threads, plan_metadata, prepare, Action, CodecFailure, ConvertError,
    MetadataPlan, Session,
};
use tiff2jp2::encoder::ValidationError;
use tiff2jp2::metadata::{
    decode_tiff, read_tiff_meta, ColorKind, DecodeError, Decoded, DecodedImage, ImageLayout,
    TagValue, TiffMeta,
};
use tiff2jp2::planar::PixelBuf;
use tiff2jp2::planar::PlanarizeError;
use tiff2jp2::resolution::{insert_resolution_box_jp2, Density, ResUnit};
use tiff2jp2::xmp::{append_jp2_xmp_box, build_xmp_with_dpi};

fn default_args() -> Args {
    Args {
        input: PathBuf::from("in.tif"),
        output: None,
        recursive: false,
        tile: String::from("4096x4096"),
        block: String::from("64x64"),
        levels: String::from("auto"),
        force: false,
        threads: 0,
        icc: None,
        dpi_box_on: false,
        dpi_box_off: false,
        xmp_dpi_on: false,
        xmp_dpi_off: false,
        avx2_on: false,
        avx2_off: false,
        tp_r: true,
        precincts: true,
        sop: true,
        eph: true,
        mct: true,
        verbose: 0,
    }
}

fn tag_of(file: &[u8], tag: u16) -> Option<TagValue> {
    let mut dec = Decoder::new(Cursor::new(file)).ok()?;
    match dec.get_tag(Tag::from_u16_exhaustive(tag)).ok()? {
        Value::Byte(b) => Some(TagValue::Byte(b)),
        Value::Short(v) => Some(TagValue::Short(v)),
        Value::Unsigned(v) => Some(TagValue::Unsigned(v)),
        Value::Rational(a, b) => Some(TagValue::Rational(a, b)),
        Value::Ascii(s) => Some(TagValue::Ascii(s.into_bytes())),
        _ => Some(TagValue::Other),
    }
}

/// Decodes an image file as the program does, and hands the values to the
/// library.
fn read(file: &[u8]) -> (TiffMeta, Result<DecodedImage, DecodeError>) {
    let meta =
        read_tiff_meta(tag_of(file, 282), tag_of(file, 283), tag_of(file, 296), tag_of(file, 34675));
    let mut dec = Decoder::new(Cursor::new(file)).unwrap();
    let (width, height) = dec.dimensions().unwrap();
    let kind = match dec.colortype().unwrap() {
        ColorType::Gray(n) => ColorKind::Gray(n),
        ColorType::RGB(n) => ColorKind::Rgb(n),
        ColorType::Palette(n) => ColorKind::Palette(n),
        ColorType::GrayA(n) => ColorKind::GrayA(n),
        ColorType::RGBA(n) => ColorKind::Rgba(n),
        ColorType::CMYK(n) => ColorKind::Cmyk(n),
        ColorType::YCbCr(n) => ColorKind::YCbCr(n),
    };
    let samples = match dec.read_image().unwrap() {
        DecodingResult::U8(buf) => Decoded::U8(buf),
        DecodingResult::U16(buf) => Decoded::U16(buf),
        _ => Decoded::Other,
    };
    (meta, decode_tiff(width, height, kind, samples))
}

fn boxed(tag: &[u8; 4], payload: &[u8]) -> Vec<u8> {
    let mut out = Vec::new();
    out.extend_from_slice(&((8 + payload.len()) as u32).to_be_bytes());
    out.extend_from_slice(tag);
    out.extend_from_slice(payload);
    out
}

/// A little-endian, uncompressed, single-strip gray image with the nine
/// tags that a baseline file needs and no others.
fn bare_gray8_tiff(w: u32, h: u32, data: &[u8]) -> Vec<u8> {
    let mut file = vec![b'I', b'I', 42, 0];
    file.extend_from_slice(&((8 + data.len()) as u32).to_le_bytes());
    file.extend_from_slice(data);
    let entries: [(u16, u16, u32); 9] = [
        (256, 4, w),
        (257, 4, h),
        (258, 3, 8),
        (259, 3, 1),
        (262, 3, 1),
        (273, 4, 8),
        (277, 3, 1),
        (278, 4, h),
        (279, 4, data.len() as u32),
    ];
    file.extend_from_slice(&(entries.len() as u16).to_le_bytes());
    for (tag, kind, value) in entries {
        file.extend_from_slice(&tag.to_le_bytes());
        file.extend_from_slice(&kind.to_le_bytes());
        file.extend_from_slice(&1u32.to_le_bytes());
        file.extend_from_slice(&value.to_le_bytes());
    }
    file.extend_from_slice(&0u32.to_le_bytes());
    file
}

fn run(plan: MetadataPlan, outcomes: &[bool]) -> (Session, Vec<Action>) {
    let mut s = Session::start(plan);
    let mut actions = vec![s.pending];
    for ok in outcomes {
        if s.pending == Action::Finish {
            break;
        }
        actions.push(s.advance(*ok));
    }
    (s, actions)
}

const BOTH: MetadataPlan = MetadataPlan { res_box: true, xmp_box: true };
const NEITHER: MetadataPlan = MetadataPlan { res_box: false, xmp_box: false };

#[test]
fn successful_conversion_runs_every_step() {
    let (s, actions) = run(BOTH, &[true; 12]);
    assert_eq!(
        actions,
        vec![
            Action::CreateImage,
            Action::CreateCodec,
            Action::SetupEncoder,
            Action::OpenStream,
            Action::StartCompress,
            Action::Encode,
            Action::EndCompress,
            Action::ReleaseStream,
            Action::ReleaseCodec,
            Action::ReleaseImage,
            Action::InsertResolutionBox,
            Action::AppendXmpBox,
            Action::Finish,
        ]
    );
    assert_eq!(s.outcome(), Ok(()));
    assert!(!s.image && !s.codec && !s.stream);
}

#[test]
fn metadata_steps_follow_the_plan() {
    let (_, actions) = run(NEITHER, &[true; 12]);
    assert_eq!(&actions[9..], &[Action::ReleaseImage, Action::Finish]);
    let (_, actions) = run(MetadataPlan { res_box: true, xmp_box: false }, &[true; 12]);
    assert_eq!(
        &actions[9..],
        &[Action::ReleaseImage, Action::InsertResolutionBox, Action::Finish]
    );
    let (_, actions) = run(MetadataPlan { res_box: false, xmp_box: true }, &[true; 12]);
    assert_eq!(&actions[9..], &[Action::ReleaseImage, Action::AppendXmpBox, Action::Finish]);
}

#[test]
fn failed_metadata_steps_leave_the_conversion_successful() {
    let mut outcomes = [true; 12];
    outcomes[7] = false;
    outcomes[8] = false;
    outcomes[9] = false;
    outcomes[10] = false;
    outcomes[11] = false;
    let (s, actions) = run(BOTH, &outcomes);
    assert_eq!(actions.len(), 13);
    assert_eq!(s.outcome(), Ok(()));
}

#[test]
fn each_failure_releases_what_is_held() {
    let cases: [(usize, CodecFailure, Vec<Action>); 7] = [
        (0, CodecFailure::ImageCreate, vec![Action::Finish]),
        (1, CodecFailure::CodecCreate, vec![Action::ReleaseImage, Action::Finish]),
        (
            2,
            CodecFailure::SetupEncoder,
            vec![Action::ReleaseCodec, Action::ReleaseImage, Action::Finish],
        ),
        (
            3,
            CodecFailure::StreamCreate,
            vec![Action::ReleaseCodec, Action::ReleaseImage, Action::Finish],
        ),
        (
            4,
            CodecFailure::StartCompress,
            vec![
                Action::ReleaseStream,
                Action::ReleaseCodec,
                Action::ReleaseImage,
                Action::Finish,
            ],
        ),
        (
            5,
            CodecFailure::Compression,
            vec![
                Action::EndCompress,
                Action::ReleaseStream,
                Action::ReleaseCodec,
                Action::ReleaseImage,
                Action::Finish,
            ],
        ),
        (
            6,
            CodecFailure::Compression,
            vec![
                Action::ReleaseStream,
                Action::ReleaseCodec,
                Action::ReleaseImage,
                Action::Finish,
            ],
        ),
    ];
    for (at, failure, tail) in cases {
        let mut outcomes = [true; 12];
        outcomes[at] = false;
        let (s, actions) = run(BOTH, &outcomes);
        assert_eq!(&actions[at + 1..], &tail[..]);
        assert_eq!(s.outcome(), Err(failure));
        assert!(!s.image && !s.codec && !s.stream);
        assert_eq!(s.pending, Action::Finish);
        assert!(!actions.contains(&Action::InsertResolutionBox));
        assert!(!actions.contains(&Action::AppendXmpBox));
    }
}

#[test]
fn every_run_ends_with_nothing_held() {
    for bits in 0u32..(1 << 12) {
        let outcomes: Vec<bool> = (0..12).map(|i| bits & (1 << i) != 0).collect();
        let (s, _) = run(BOTH, &outcomes);
        assert_eq!(s.pending, Action::Finish);
        assert!(!s.image && !s.codec && !s.stream);
        assert_eq!(s.outcome().is_ok(), outcomes[..7].iter().all(|ok| *ok));
    }
}

#[test]
fn finish_stays_finish() {
    let (mut s, _) = run(NEITHER, &[true; 12]);
    let before = s;
    assert_eq!(s.advance(false), Action::Finish);
    assert_eq!(s.advance(true), Action::Finish);
    assert_eq!(s, before);
}

#[test]
fn boxes_need_switch_and_both_densities() {
    let on = Effective { avx2: false, dpi_box: true, xmp_dpi: true };
    let d = Some(Density { num: 300, den: 1 });
    let full = TiffMeta { xdpi: d, ydpi: d, unit: ResUnit::Inch, icc: None };
    assert_eq!(plan_metadata(on, &full), BOTH);
    let half = TiffMeta { xdpi: d, ydpi: None, unit: ResUnit::Inch, icc: None };
    assert_eq!(plan_metadata(on, &half), NEITHER);
    let other = TiffMeta { xdpi: None, ydpi: d, unit: ResUnit::Inch, icc: None };
    assert_eq!(plan_metadata(on, &other), NEITHER);
    let no_box = Effective { avx2: true, dpi_box: false, xmp_dpi: true };
    assert_eq!(plan_metadata(no_box, &full), MetadataPlan { res_box: false, xmp_box: true });
    let no_xmp = Effective { avx2: true, dpi_box: true, xmp_dpi: false };
    assert_eq!(plan_metadata(no_xmp, &full), MetadataPlan { res_box: true, xmp_box: false });
}

#[test]
fn thread_counts() {
    assert_eq!(codec_threads(4, Some(16)), 4);
    assert_eq!(codec_threads(4, None), 4);
    assert_eq!(codec_threads(0, Some(16)), 16);
    assert_eq!(codec_threads(0, None), 1);
    assert_eq!(codec_threads(0, Some(0)), 0);
    assert_eq!(codec_threads(usize::MAX, Some(2)), i32::MAX);
    assert_eq!(codec_threads(i32::MAX as usize, None), i32::MAX);
}

#[test]
fn given_profile_replaces_the_embedded_one() {
    assert_eq!(choose_icc(Some(vec![1, 2]), Some(vec![3])), Some(vec![1, 2]));
    assert_eq!(choose_icc(None, Some(vec![3])), Some(vec![3]));
    assert_eq!(choose_icc(Some(vec![1]), None), Some(vec![1]));
    assert_eq!(choose_icc(None, None), None);
    assert_eq!(choose_icc(None, Some(Vec::new())), None);
    // An empty given profile still replaces the embedded one.
    assert_eq!(choose_icc(Some(Vec::new()), Some(vec![3])), None);
}

#[test]
fn gray_image_without_density() {
    let (w, h) = (1024u32, 768u32);
    let data: Vec<u8> = (0..w * h).map(|i| (i % 251) as u8).collect();
    let file = bare_gray8_tiff(w, h, &data);
    let (meta, image) = read(&file);
    let p = prepare(meta, image.unwrap(), &default_args(), true).unwrap();
    assert_eq!((p.width, p.height), (1024, 768));
    assert_eq!(p.layout, ImageLayout { bit_depth: 8, channels: 1, rgb: false });
    assert_eq!(p.planes.planes.len(), 1);
    assert_eq!(p.planes.planes[0].len(), 1024 * 768);
    assert_eq!(p.planes.planes[0][1000], 1000 % 251);
    assert_eq!(p.planes.planes[0][786_431], 786_431 % 251);
    assert_eq!(p.config.num_resolutions, 8);
    assert!(!p.config.mct);
    assert_eq!(p.meta, TiffMeta { xdpi: None, ydpi: None, unit: ResUnit::Unspecified, icc: None });
    // No resolution box and no metadata packet are added.
    assert_eq!(p.plan, NEITHER);
    let (_, actions) = run(p.plan, &[true; 12]);
    assert!(!actions.contains(&Action::InsertResolutionBox));
    assert!(!actions.contains(&Action::AppendXmpBox));
}

#[test]
fn rgb_image_with_300_dpi() {
    let (w, h) = (4000u32, 3000u32);
    let data: Vec<u8> = (0..(w * h * 3) as usize).map(|i| (i % 253) as u8).collect();
    let mut buf = Cursor::new(Vec::new());
    {
        let mut enc = TiffEncoder::new(&mut buf).unwrap();
        let mut image = enc.new_image::<colortype::RGB8>(w, h).unwrap();
        image.resolution(ResolutionUnit::Inch, Rational { n: 300, d: 1 });
        image.write_data(&data).unwrap();
    }
    let file = buf.into_inner();
    let mut args = default_args();
    args.levels = String::from("6");
    args.avx2_on = true;
    let (meta, image) = read(&file);
    let p = prepare(meta, image.unwrap(), &args, true).unwrap();
    assert_eq!((p.width, p.height), (4000, 3000));
    assert_eq!(p.layout, ImageLayout { bit_depth: 8, channels: 3, rgb: true });
    assert_eq!(p.planes.planes.len(), 3);
    for c in 0..3 {
        assert_eq!(p.planes.planes[c].len(), 12_000_000);
        for i in [0usize, 1, 3999, 4000, 7_777_777, 11_999_999] {
            assert_eq!(p.planes.planes[c][i], ((i * 3 + c) % 253) as i32);
        }
    }
    assert!(p.config.mct);
    assert_eq!(p.config.num_resolutions, 6);
    assert_eq!(p.plan, BOTH);
    let x = p.meta.xdpi.unwrap();
    let y = p.meta.ydpi.unwrap();
    assert_eq!((x, y, p.meta.unit), (Density { num: 300, den: 1 }, Density { num: 300, den: 1 }, ResUnit::Inch));

    // The boxes that the plan asks for, on a written container.
    let mut container = boxed(b"jP  ", &[0x0d, 0x0a, 0x87, 0x0a]);
    container.extend_from_slice(&boxed(b"jp2h", &boxed(b"ihdr", &[0; 14])));
    container.extend_from_slice(&boxed(b"jp2c", &[1, 2, 3]));
    let mut out = insert_resolution_box_jp2(&container, x, y, p.meta.unit);
    let xmp = build_xmp_with_dpi(x, y, p.meta.unit);
    out.extend_from_slice(&append_jp2_xmp_box(xmp.as_bytes()).unwrap());
    let boxes = top_level_boxes(&out);
    assert_eq!(boxes.len(), 4);
    assert_eq!(boxes[1], BoxEntry { offset: 12, length: 30 + 46, tag: *b"jp2h" });
    assert_eq!(boxes[3].tag, *b"uuid");
    let res = &out[12 + 8 + 22..12 + 8 + 22 + 46];
    assert_eq!(&res[4..8], b"res ");
    for child in [&res[8..27], &res[27..46]] {
        for t in [&child[8..13], &child[13..18]] {
            let num = u16::from_be_bytes([t[0], t[1]]) as f64;
            let den = u16::from_be_bytes([t[2], t[3]]) as f64;
            let value = num / den * 10f64.powi(t[4] as i32);
            assert!((value - 300.0 / 0.0254).abs() < 1.0);
        }
    }
}

#[test]
fn vector_flag_does_not_change_the_planes() {
    let (w, h) = (37u32, 11u32);
    let data: Vec<u8> = (0..(w * h * 3) as usize).map(|i| (i * 31 % 256) as u8).collect();
    let mut buf = Cursor::new(Vec::new());
    {
        let mut enc = TiffEncoder::new(&mut buf).unwrap();
        enc.write_image::<colortype::RGB8>(w, h, &data).unwrap();
    }
    let file = buf.into_inner();
    let mut args = default_args();
    let (meta, image) = read(&file);
    let image = image.unwrap();
    let off = prepare(meta.clone(), image.clone(), &args, true).unwrap();
    args.avx2_on = true;
    let on = prepare(meta.clone(), image.clone(), &args, true).unwrap();
    let unavailable = prepare(meta, image, &args, false).unwrap();
    assert_eq!(off.planes, on.planes);
    assert_eq!(off.planes, unavailable.planes);
}

#[test]
fn prepare_reports_the_first_fault() {
    let none = TiffMeta { xdpi: None, ydpi: None, unit: ResUnit::Unspecified, icc: None };
    let image = DecodedImage {
        width: 2,
        height: 2,
        layout: ImageLayout { bit_depth: 8, channels: 1, rgb: false },
        pixels: PixelBuf::U8(vec![1, 2, 3, 4]),
    };
    let mut args = default_args();
    let p = prepare(none.clone(), image.clone(), &args, false).unwrap();
    assert_eq!(p.planes.planes, vec![vec![1, 2, 3, 4]]);
    assert_eq!(p.meta, none);
    assert_eq!(p.config.num_resolutions, 3);

    // A buffer that does not fit the size.
    let short = DecodedImage { pixels: PixelBuf::U8(vec![1, 2, 3]), ..image.clone() };
    assert!(matches!(
        prepare(none.clone(), short.clone(), &args, false),
        Err(ConvertError::Planarize(PlanarizeError::ShapeMismatch))
    ));
    // A faulty argument is reported before the shape.
    args.block = String::from("48x48");
    assert!(matches!(
        prepare(none.clone(), short, &args, false),
        Err(ConvertError::Validation(ValidationError::InvalidCodeBlock { width: 48, height: 48 }))
    ));
    args.tile = String::from("big");
    assert!(matches!(
        prepare(none, image, &args, false),
        Err(ConvertError::Validation(ValidationError::MalformedTileSize))
    ));
}

#[test]
fn prepare_keeps_the_metadata() {
    let d = Some(Density { num: 300, den: 1 });
    let meta = TiffMeta { xdpi: d, ydpi: d, unit: ResUnit::Inch, icc: Some(vec![1, 2, 3]) };
    let image = DecodedImage {
        width: 1,
        height: 2,
        layout: ImageLayout { bit_depth: 16, channels: 3, rgb: true },
        pixels: PixelBuf::U16(vec![1, 2, 3, 4, 5, 6]),
    };
    let mut args = default_args();
    args.xmp_dpi_off = true;
    let p = prepare(meta.clone(), image, &args, true).unwrap();
    assert_eq!(p.meta, meta);
    assert_eq!(p.plan, MetadataPlan { res_box: true, xmp_box: false });
    assert_eq!(p.planes.planes, vec![vec![1, 4], vec![2, 5], vec![3, 6]]);
    assert!(p.config.mct);
}
