use tiff2jp2::container::{top_level_boxes, BoxEntry};
use tiff2jp2::rational::Ppm;
use tiff2jp2::resolution::{
    build_res_superbox, build_resc_resd_payload, insert_resolution_box_jp2, Density, ResUnit,
    RES_CHILD_LEN, RES_PAYLOAD_LEN, RES_SUPERBOX_LEN, TAG_JP2H, TAG_RES, TAG_RESC, TAG_RESD,
};
use tiff2jp2::xmp::{
    append_jp2_xmp_box, append_trailing_box, build_xmp_with_dpi, density_thousandths, push_decimal,
    trailing_box, TAG_UUID, XMP_UUID,
};

fn boxed(tag: &[u8; 4], payload: &[u8]) -> Vec<u8> {
    let mut out = Vec::new();
    out.extend_from_slice(&((8 + payload.len()) as u32).to_be_bytes());
    out.extend_from_slice(tag);
    out.extend_from_slice(payload);
    out
}

fn sample_container() -> Vec<u8> {
    let mut data = Vec::new();
    data.extend_from_slice(&boxed(b"jP  ", &[0x0d, 0x0a, 0x87, 0x0a]));
    data.extend_from_slice(&boxed(b"ftyp", b"jp2 \0\0\0\0jp2 "));
    data.extend_from_slice(&boxed(b"jp2h", &boxed(b"ihdr", &[1, 2, 3, 4, 5, 6])));
    data.extend_from_slice(&boxed(b"jp2c", &[0xff, 0x4f, 0xff, 0x51, 9, 9, 9]));
    data
}

#[test]
fn tags_are_the_four_letter_codes() {
    assert_eq!(&TAG_JP2H, b"jp2h");
    assert_eq!(&TAG_RES, b"res ");
    assert_eq!(&TAG_RESC, b"resc");
    assert_eq!(&TAG_RESD, b"resd");
    assert_eq!(&TAG_UUID, b"uuid");
    assert_eq!(RES_PAYLOAD_LEN, 11);
    assert_eq!(RES_CHILD_LEN, 19);
    assert_eq!(RES_SUPERBOX_LEN, 46);
}

#[test]
fn payload_holds_vertical_then_horizontal() {
    // 300 dpi vertical: 11811/1 * 10^0; 72 dpi horizontal: 18577/65535 * 10^4.
    let v = Ppm { num: 3_000_000, den: 254 };
    let h = Ppm { num: 720_000, den: 254 };
    let payload = build_resc_resd_payload(v, h);
    assert_eq!(
        payload,
        vec![0x2e, 0x23, 0x00, 0x01, 0x00, 0x48, 0x91, 0xff, 0xff, 0x04, 0x00]
    );
}

#[test]
fn payload_of_no_density_is_neutral() {
    let none = Ppm { num: 0, den: 1 };
    assert_eq!(build_resc_resd_payload(none, none), vec![0, 0, 0, 1, 0, 0, 0, 0, 1, 0, 0]);
}

#[test]
fn superbox_holds_capture_and_display_boxes() {
    let v = Ppm { num: 3_000_000, den: 254 };
    let h = Ppm { num: 6_000_000, den: 254 };
    let payload = build_resc_resd_payload(v, h);
    let mut children = boxed(b"resc", &payload);
    children.extend_from_slice(&boxed(b"resd", &payload));
    let expected = boxed(b"res ", &children);
    let superbox = build_res_superbox(v, h);
    assert_eq!(superbox, expected);
    assert_eq!(superbox.len(), 46);
    assert_eq!(&superbox[..4], &[0, 0, 0, 46]);
    assert_eq!(
        top_level_boxes(&superbox[8..]),
        vec![
            BoxEntry { offset: 0, length: 19, tag: *b"resc" },
            BoxEntry { offset: 19, length: 19, tag: *b"resd" },
        ]
    );
}

#[test]
fn resolution_box_goes_into_the_header() {
    let data = sample_container();
    let dpi = Density { num: 300, den: 1 };
    let out = insert_resolution_box_jp2(&data, dpi, dpi, ResUnit::Inch);
    assert_eq!(out.len(), data.len() + 46);
    let boxes = top_level_boxes(&out);
    assert_eq!(
        boxes,
        vec![
            BoxEntry { offset: 0, length: 12, tag: *b"jP  " },
            BoxEntry { offset: 12, length: 20, tag: *b"ftyp" },
            BoxEntry { offset: 32, length: 68, tag: *b"jp2h" },
            BoxEntry { offset: 100, length: 15, tag: *b"jp2c" },
        ]
    );
    let children = top_level_boxes(&out[40..100]);
    assert_eq!(
        children,
        vec![
            BoxEntry { offset: 0, length: 14, tag: *b"ihdr" },
            BoxEntry { offset: 14, length: 46, tag: *b"res " },
        ]
    );
    // The triplet pair 11811/1 * 10^0 stands for 300 dpi within one unit.
    let resc = &out[54 + 8 + 8..54 + 8 + 19];
    assert_eq!(resc, &[0x2e, 0x23, 0, 1, 0, 0x2e, 0x23, 0, 1, 0, 0]);
    let value = u16::from_be_bytes([resc[0], resc[1]]) as f64
        / u16::from_be_bytes([resc[2], resc[3]]) as f64
        * 10f64.powi(resc[4] as i32);
    assert!((value - 300.0 / 0.0254).abs() < 1.0);
    assert_eq!(&out[100..], &data[54..]);
    assert_eq!(&out[..32], &data[..32]);
}

#[test]
fn vertical_density_comes_from_ydpi() {
    let data = sample_container();
    let x = Density { num: 600, den: 1 };
    let y = Density { num: 300, den: 1 };
    let out = insert_resolution_box_jp2(&data, x, y, ResUnit::Unspecified);
    let resd = &out[54 + 8 + 19 + 8..54 + 8 + 19 + 19];
    // Vertical 11811, horizontal 23622.
    assert_eq!(resd, &[0x2e, 0x23, 0, 1, 0, 0x5c, 0x46, 0, 1, 0, 0]);
}

#[test]
fn centimetre_density_is_scaled_by_100() {
    let data = sample_container();
    let d = Density { num: 150, den: 1 };
    let out = insert_resolution_box_jp2(&data, d, d, ResUnit::Centimeter);
    let resc = &out[54 + 8 + 8..54 + 8 + 19];
    assert_eq!(resc, &[0x3a, 0x98, 0, 1, 0, 0x3a, 0x98, 0, 1, 0, 0]);
}

#[test]
fn container_without_header_is_left_alone() {
    let mut data = boxed(b"jP  ", &[1, 2, 3, 4]);
    data.extend_from_slice(&boxed(b"jp2c", &[5, 6]));
    let dpi = Density { num: 300, den: 1 };
    assert_eq!(insert_resolution_box_jp2(&data, dpi, dpi, ResUnit::Inch), data);
}

#[test]
fn header_that_runs_to_the_end_is_left_alone() {
    let mut data = boxed(b"jP  ", &[1, 2, 3, 4]);
    data.extend_from_slice(&[0, 0, 0, 0]);
    data.extend_from_slice(b"jp2h");
    data.extend_from_slice(&boxed(b"ihdr", &[1, 2]));
    let dpi = Density { num: 72, den: 1 };
    assert_eq!(insert_resolution_box_jp2(&data, dpi, dpi, ResUnit::Inch), data);
}

#[test]
fn decimal_digits_are_appended() {
    let mut s = String::from("n=");
    push_decimal(0, &mut s);
    s.push(',');
    push_decimal(7, &mut s);
    s.push(',');
    push_decimal(10, &mut s);
    s.push(',');
    push_decimal(1_234_567_890, &mut s);
    s.push(',');
    push_decimal(u64::MAX, &mut s);
    assert_eq!(s, "n=0,7,10,1234567890,18446744073709551615");
}

#[test]
fn thousandths_round_to_nearest() {
    assert_eq!(density_thousandths(Density { num: 300, den: 1 }), 300_000);
    assert_eq!(density_thousandths(Density { num: 1, den: 3 }), 333);
    assert_eq!(density_thousandths(Density { num: 2, den: 3 }), 667);
    assert_eq!(density_thousandths(Density { num: 1, den: 2000 }), 1);
    assert_eq!(density_thousandths(Density { num: 1, den: 2001 }), 0);
    assert_eq!(density_thousandths(Density { num: u32::MAX, den: 1 }), 4_294_967_295_000);
    assert_eq!(density_thousandths(Density { num: 0, den: 5 }), 0);
}

#[test]
fn xmp_packet_carries_density_and_unit() {
    let xmp = build_xmp_with_dpi(
        Density { num: 300, den: 1 },
        Density { num: 2999, den: 10 },
        ResUnit::Inch,
    );
    let expected = "<x:xmpmeta xmlns:x=\"adobe:ns:meta/\">\n <rdf:RDF xmlns:rdf=\"http://www.w3.org/1999/02/22-rdf-syntax-ns#\">\n  <rdf:Description xmlns:tiff=\"http://ns.adobe.com/tiff/1.0/\"\n    tiff:XResolution=\"300000/1000\"\n    tiff:YResolution=\"299900/1000\"\n    tiff:ResolutionUnit=\"2\"/>\n </rdf:RDF>\n</x:xmpmeta>";
    assert_eq!(xmp, expected);
}

#[test]
fn xmp_unit_codes() {
    let d = Density { num: 72, den: 1 };
    assert!(build_xmp_with_dpi(d, d, ResUnit::Inch).contains("tiff:ResolutionUnit=\"2\""));
    assert!(build_xmp_with_dpi(d, d, ResUnit::Centimeter).contains("tiff:ResolutionUnit=\"3\""));
    assert!(build_xmp_with_dpi(d, d, ResUnit::Unspecified).contains("tiff:ResolutionUnit=\"1\""));
    assert!(build_xmp_with_dpi(d, d, ResUnit::Inch).contains("tiff:XResolution=\"72000/1000\""));
}

#[test]
fn trailing_box_layout() {
    let id = [7u8; 16];
    let bytes = trailing_box(b"uuid", &id, &[1, 2, 3]).unwrap();
    let mut expected = vec![0, 0, 0, 27];
    expected.extend_from_slice(b"uuid");
    expected.extend_from_slice(&id);
    expected.extend_from_slice(&[1, 2, 3]);
    assert_eq!(bytes, expected);
    let empty = trailing_box(b"abcd", &id, &[]).unwrap();
    assert_eq!(empty.len(), 24);
    assert_eq!(&empty[..8], &[0, 0, 0, 24, b'a', b'b', b'c', b'd']);
}

#[test]
fn xmp_box_has_the_packet_type() {
    let bytes = append_jp2_xmp_box(b"<x/>").unwrap();
    assert_eq!(&bytes[..4], &[0, 0, 0, 28]);
    assert_eq!(&bytes[4..8], b"uuid");
    assert_eq!(
        &bytes[8..24],
        &[
            0xBE, 0x7A, 0xCF, 0xCB, 0x97, 0xA9, 0x42, 0xE8, 0x9C, 0x71, 0x99, 0x94, 0x91, 0xE3,
            0xAF, 0xAC
        ]
    );
    assert_eq!(&bytes[8..24], &XMP_UUID);
    assert_eq!(&bytes[24..], b"<x/>");
}

#[test]
fn appended_box_is_scanned_as_the_last_box() {
    let mut data = sample_container();
    let before = top_level_boxes(&data);
    let len = data.len();
    assert!(append_trailing_box(&mut data, &TAG_UUID, &XMP_UUID, b"packet"));
    let after = top_level_boxes(&data);
    assert_eq!(&after[..before.len()], &before[..]);
    assert_eq!(after[before.len()], BoxEntry { offset: len, length: 30, tag: *b"uuid" });
    assert_eq!(after.len(), before.len() + 1);
}

#[test]
fn insert_then_append_keeps_both_boxes() {
    let data = sample_container();
    let dpi = Density { num: 300, den: 1 };
    let mut out = insert_resolution_box_jp2(&data, dpi, dpi, ResUnit::Inch);
    let xmp = build_xmp_with_dpi(dpi, dpi, ResUnit::Inch);
    assert!(append_trailing_box(&mut out, &TAG_UUID, &XMP_UUID, xmp.as_bytes()));
    let tags: Vec<[u8; 4]> = top_level_boxes(&out).iter().map(|b| b.tag).collect();
    assert_eq!(tags, vec![*b"jP  ", *b"ftyp", *b"jp2h", *b"jp2c", *b"uuid"]);
    let last = *top_level_boxes(&out).last().unwrap();
    assert_eq!(last.offset + last.length, out.len());
}
