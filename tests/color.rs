use face_cutout::color::{
    apply_shift, estimate_strength, int_sqrt, pixel_is_skin, skin_means, strength_for_distance,
};
use face_cutout::image::Image;

#[test]
fn strength_at_zero_distance_is_zero() {
    assert_eq!(strength_for_distance(0), 0);
}

#[test]
fn strength_formula_values() {
    assert_eq!(strength_for_distance(10), 140);
    assert_eq!(strength_for_distance(40), 350);
    assert_eq!(strength_for_distance(17), 208);
    assert_eq!(strength_for_distance(u32::MAX), 699);
}

#[test]
fn strength_grows_with_distance() {
    let mut last = 0;
    for d in 0..2000u32 {
        let s = strength_for_distance(d);
        assert!(s >= last);
        assert!(s < 700);
        last = s;
    }
}

#[test]
fn integer_square_roots() {
    assert_eq!(int_sqrt(0), 0);
    assert_eq!(int_sqrt(300), 17);
    assert_eq!(int_sqrt(195075), 441);
    assert_eq!(int_sqrt(u32::MAX), 65535);
}

#[test]
fn skin_band() {
    assert!(pixel_is_skin(120, 150, 200));
    assert!(!pixel_is_skin(255, 0, 0));
    assert!(!pixel_is_skin(0, 255, 0));
}

#[test]
fn skin_means_use_skin_pixels() {
    let img = Image::from_raw(2, 1, 3, vec![120, 150, 200, 255, 0, 0]).unwrap();
    assert_eq!(skin_means(&img), [120, 150, 200]);
}

#[test]
fn skin_means_fall_back_to_whole_image() {
    let img = Image::from_raw(2, 1, 3, vec![255, 0, 0, 0, 255, 1]).unwrap();
    assert_eq!(skin_means(&img), [127, 127, 0]);
}

#[test]
fn identical_crops_need_no_correction() {
    let a = Image::from_raw(2, 1, 3, vec![120, 150, 200, 40, 50, 60]).unwrap();
    let b = a.clone();
    assert_eq!(estimate_strength(&a, &b), 0);
    let out = apply_shift(&a, &b, 0);
    assert_eq!(out.data, a.data);
    let out = apply_shift(&a, &b, 700);
    assert_eq!(out.data, a.data);
}

#[test]
fn shift_moves_toward_target_skin() {
    let source = Image::from_raw(1, 1, 3, vec![120, 150, 200]).unwrap();
    let target = Image::from_raw(1, 1, 3, vec![130, 160, 210]).unwrap();
    assert_eq!(estimate_strength(&source, &target), 208);
    let out = apply_shift(&source, &target, 500);
    assert_eq!(out.data, vec![125, 155, 205]);
    let full = apply_shift(&source, &target, 1000);
    assert_eq!(full.data, vec![130, 160, 210]);
}

#[test]
fn shift_saturates() {
    let source = Image::from_raw(2, 1, 3, vec![120, 150, 200, 250, 250, 5]).unwrap();
    let target = Image::from_raw(1, 1, 3, vec![200, 255, 255]).unwrap();
    let out = apply_shift(&source, &target, 1000);
    assert_eq!(out.width, 2);
    assert_eq!(out.data[3], 255);
    assert_eq!(out.data[4], 255);
}
