use face_cutout::error::FaceError;
use face_cutout::geometry::Rect;
use face_cutout::image::Mask;
use face_cutout::segment::{collapse_labels, seed_labels, tighten_mask};

#[test]
fn seed_labels_mark_hint_as_probable_foreground() {
    let labels = seed_labels(4, 3, Rect::new(1, 1, 2, 1)).unwrap();
    assert_eq!(labels.width, 4);
    assert_eq!(labels.height, 3);
    assert_eq!(labels.data, vec![2, 2, 2, 2, 2, 3, 3, 2, 2, 2, 2, 2]);
}

#[test]
fn seed_labels_reject_hint_outside_canvas() {
    assert!(matches!(seed_labels(4, 3, Rect::new(3, 0, 2, 1)), Err(FaceError::SegmentationFailed)));
    assert!(matches!(seed_labels(4, 3, Rect::new(0, 0, 0, 1)), Err(FaceError::SegmentationFailed)));
}

#[test]
fn collapse_keeps_both_foreground_labels() {
    let labels = Mask::from_raw(2, 2, vec![0, 1, 2, 3]).unwrap();
    let mask = collapse_labels(&labels);
    assert_eq!((mask.width, mask.height), (2, 2));
    assert_eq!(mask.data, vec![0, 255, 0, 255]);
}

#[test]
fn tighten_cuts_pixels_near_edge() {
    let closed = Mask::from_raw(2, 2, vec![255, 255, 0, 255]).unwrap();
    let distance = Mask::from_raw(2, 2, vec![10, 11, 200, 0]).unwrap();
    let mask = tighten_mask(&closed, &distance).unwrap();
    assert_eq!((mask.width, mask.height), (2, 2));
    assert_eq!(mask.data, vec![0, 255, 0, 0]);
}

#[test]
fn tighten_refuses_mismatched_buffers() {
    let closed = Mask::from_raw(2, 2, vec![255; 4]).unwrap();
    let distance = Mask::from_raw(4, 1, vec![255; 4]).unwrap();
    assert!(matches!(tighten_mask(&closed, &distance), Err(FaceError::SegmentationFailed)));
}
