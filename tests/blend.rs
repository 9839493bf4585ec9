use face_cutout::blend::{blend, build_feather_mask};
use face_cutout::image::{Image, Mask};

#[test]
fn feather_mask_is_centred_ellipse() {
    let m = build_feather_mask(10, 10);
    assert_eq!((m.width, m.height), (10, 10));
    assert_eq!(m.data[5 * 10 + 5], 255);
    assert_eq!(m.data[0], 0);
    assert_eq!(m.data[5 * 10 + 9], 255);
    assert_eq!(m.data[5], 0);
    assert_eq!(m.data[9 * 10 + 5], 255);
}

#[test]
fn feather_mask_narrower_than_tall() {
    let m = build_feather_mask(20, 20);
    assert_eq!(m.data[10 * 20 + 1], 0);
    assert_eq!(m.data[1 * 20 + 10], 255);
}

#[test]
fn full_mask_copies_source() {
    let source = Image::from_raw(10, 10, 3, (0..300).map(|i| (i % 256) as u8).collect()).unwrap();
    let mut dest = Image::filled(10, 10, 3, 7);
    let mask = Mask::filled(10, 10, 255);
    blend(&source, &mut dest, &mask, 0, 0);
    assert_eq!(dest.data, source.data);
}

#[test]
fn zero_mask_leaves_destination() {
    let source = Image::filled(4, 4, 3, 200);
    let mut dest = Image::from_raw(5, 5, 3, (0..75).collect()).unwrap();
    let before = dest.data.clone();
    let mask = Mask::filled(4, 4, 0);
    blend(&source, &mut dest, &mask, 1, 1);
    assert_eq!(dest.data, before);
}

#[test]
fn partial_opacity_mixes() {
    let source = Image::filled(1, 1, 3, 200);
    let mut dest = Image::filled(1, 1, 3, 100);
    let mask = Mask::filled(1, 1, 128);
    blend(&source, &mut dest, &mask, 0, 0);
    assert_eq!(dest.data, vec![150, 150, 150]);
}

#[test]
fn pixels_outside_destination_are_skipped() {
    let source = Image::from_raw(2, 2, 3, vec![1, 1, 1, 2, 2, 2, 3, 3, 3, 4, 4, 4]).unwrap();
    let mut dest = Image::filled(3, 3, 3, 0);
    let mask = Mask::filled(2, 2, 255);
    blend(&source, &mut dest, &mask, -1, -1);
    let mut expected = vec![0u8; 27];
    expected[0..3].copy_from_slice(&[4, 4, 4]);
    assert_eq!(dest.data, expected);
}

#[test]
fn blend_at_offset_touches_only_overlap() {
    let source = Image::filled(2, 2, 3, 9);
    let mut dest = Image::filled(4, 3, 3, 1);
    let mask = Mask::filled(2, 2, 255);
    blend(&source, &mut dest, &mask, 3, 2);
    for y in 0..3 {
        for x in 0..4 {
            let v = dest.data[(y * 4 + x) * 3];
            assert_eq!(v, if x == 3 && y == 2 { 9 } else { 1 });
        }
    }
}

#[test]
fn larger_mask_uses_its_top_left_part() {
    let source = Image::filled(2, 1, 3, 200);
    let mut dest = Image::filled(2, 1, 3, 100);
    let mask = Mask::from_raw(3, 2, vec![255, 0, 7, 7, 7, 7]).unwrap();
    blend(&source, &mut dest, &mask, 0, 0);
    assert_eq!(dest.data, vec![200, 200, 200, 100, 100, 100]);
}
