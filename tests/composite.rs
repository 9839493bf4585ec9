use face_cutout::composite::composite;
use face_cutout::image::{Image, Mask};

#[test]
fn composite_copies_colour_and_opacity() {
    let canvas = Image::from_raw(2, 2, 3, (1..=12).collect()).unwrap();
    let mask = Mask::from_raw(2, 2, vec![0, 100, 200, 255]).unwrap();
    let out = composite(&canvas, &mask);
    assert_eq!((out.width, out.height, out.channels), (2, 2, 4));
    assert_eq!(out.data, vec![1, 2, 3, 0, 4, 5, 6, 100, 7, 8, 9, 200, 10, 11, 12, 255]);
}

#[test]
fn composite_outside_small_mask_is_transparent() {
    let canvas = Image::filled(3, 2, 3, 9);
    let mask = Mask::from_raw(2, 1, vec![50, 60]).unwrap();
    let out = composite(&canvas, &mask);
    assert_eq!((out.width, out.height), (3, 2));
    let alphas: Vec<u8> = out.data.chunks(4).map(|p| p[3]).collect();
    assert_eq!(alphas, vec![50, 60, 0, 0, 0, 0]);
    assert!(out.data.chunks(4).all(|p| p[0] == 9 && p[1] == 9 && p[2] == 9));
}

#[test]
fn composite_of_empty_canvas_is_empty() {
    let canvas = Image::filled(0, 5, 3, 0);
    let mask = Mask::filled(0, 5, 0);
    let out = composite(&canvas, &mask);
    assert_eq!((out.width, out.height, out.channels), (0, 5, 4));
    assert!(out.data.is_empty());
}

#[test]
fn composite_of_many_rows() {
    let canvas = Image::from_raw(3, 50, 3, (0..450).map(|i| (i % 251) as u8).collect()).unwrap();
    let mask = Mask::from_raw(3, 50, (0..150).map(|i| (i % 256) as u8).collect()).unwrap();
    let out = composite(&canvas, &mask);
    for p in 0..150 {
        assert_eq!(&out.data[4 * p..4 * p + 3], &canvas.data[3 * p..3 * p + 3]);
        assert_eq!(out.data[4 * p + 3], mask.data[p]);
    }
}
