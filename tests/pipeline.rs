use face_cutout::error::FaceError;
use face_cutout::geometry::{HintProfile, Rect};
use face_cutout::image::{Image, Mask};
use face_cutout::pipeline::{
    choose_strength, collect_batch, plan_face, plan_faces, prepare_segmentation, select_swap_faces,
    transplant,
};

#[test]
fn three_faces_planned_in_detector_order() {
    let faces = vec![Rect::new(10, 100, 40, 40), Rect::new(300, 120, 30, 30), Rect::new(150, 90, 50, 50)];
    let plans = plan_faces(&faces, 400, 300).unwrap();
    assert_eq!(plans.len(), 3);
    for (plan, face) in plans.iter().zip(faces.iter()) {
        assert_eq!(plan.face, *face);
        assert_eq!(*plan, plan_face(*face, 400, 300, HintProfile::Cutout).unwrap());
    }
    assert_eq!(plans[0].canvas, Rect::new(0, 60, 64, 88));
}

#[test]
fn zero_area_face_fails_whole_batch() {
    let faces = vec![Rect::new(10, 100, 40, 40), Rect::new(300, 120, 0, 30), Rect::new(150, 90, 50, 50)];
    assert_eq!(plan_faces(&faces, 400, 300), Err(FaceError::InvalidDetection));
}

#[test]
fn no_face_fails_batch() {
    assert_eq!(plan_faces(&Vec::new(), 400, 300), Err(FaceError::NoFaceDetected));
}

#[test]
fn batch_results_kept_in_order() {
    let results: Vec<Result<u32, FaceError>> = vec![Ok(3), Ok(1), Ok(2)];
    assert_eq!(collect_batch(results), Ok(vec![3, 1, 2]));
}

#[test]
fn batch_fails_with_first_error() {
    let results: Vec<Result<u32, FaceError>> =
        vec![Ok(3), Err(FaceError::SegmentationFailed), Err(FaceError::EncodeError)];
    assert_eq!(collect_batch(results), Err(FaceError::SegmentationFailed));
}

#[test]
fn swap_picks_first_faces() {
    let s = vec![Rect::new(1, 1, 5, 5), Rect::new(10, 10, 5, 5)];
    let t = vec![Rect::new(2, 3, 4, 4)];
    assert_eq!(select_swap_faces(&s, 20, 20, &t, 10, 10), Ok((s[0], t[0])));
}

#[test]
fn swap_needs_a_face_on_each_side() {
    let s = vec![Rect::new(1, 1, 5, 5)];
    assert_eq!(select_swap_faces(&s, 20, 20, &Vec::new(), 10, 10), Err(FaceError::NoFaceDetected));
    assert_eq!(select_swap_faces(&Vec::new(), 20, 20, &s, 10, 10), Err(FaceError::NoFaceDetected));
}

#[test]
fn swap_face_outside_image_is_invalid() {
    let s = vec![Rect::new(1, 1, 5, 5)];
    let t = vec![Rect::new(8, 8, 5, 5)];
    assert_eq!(select_swap_faces(&s, 20, 20, &t, 10, 10), Err(FaceError::InvalidDetection));
}

#[test]
fn segmentation_input_from_plan() {
    let img = Image::from_raw(4, 4, 3, (0..48).collect()).unwrap();
    let plan = plan_face(Rect::new(1, 2, 2, 2), 4, 4, HintProfile::Cutout).unwrap();
    assert_eq!(plan.canvas, Rect::new(1, 0, 2, 4));
    let (canvas, labels) = prepare_segmentation(&img, &plan).unwrap();
    assert_eq!((canvas.width, canvas.height, canvas.channels), (2, 4, 3));
    assert_eq!(&canvas.data[0..6], &[3, 4, 5, 6, 7, 8]);
    assert_eq!(&canvas.data[18..24], &[39, 40, 41, 42, 43, 44]);
    assert_eq!(plan.hint, Rect::new(1, 2, 1, 1));
    assert_eq!((labels.width, labels.height), (2, 4));
    assert_eq!(labels.data, vec![2, 2, 2, 2, 2, 3, 2, 2]);
}

#[test]
fn strength_requested_or_estimated() {
    let a = Image::from_raw(1, 1, 3, vec![120, 150, 200]).unwrap();
    let b = Image::from_raw(1, 1, 3, vec![130, 160, 210]).unwrap();
    assert_eq!(choose_strength(&a, &b, Some(450)), 450);
    assert_eq!(choose_strength(&a, &b, None), 208);
}

#[test]
fn transplant_feathers_corrected_face_in() {
    let face = Image::from_raw(1, 1, 3, vec![120, 150, 200]).unwrap();
    let target_face = Image::from_raw(1, 1, 3, vec![130, 160, 210]).unwrap();
    let mut target = Image::filled(3, 2, 3, 0);
    let feather = Mask::filled(1, 1, 255);
    transplant(&face, &target_face, &mut target, &feather, 2, 1, 500);
    let mut expected = vec![0u8; 18];
    expected[15..18].copy_from_slice(&[125, 155, 205]);
    assert_eq!(target.data, expected);
}

#[test]
fn no_face_message_is_fixed() {
    let err = plan_faces(&Vec::new(), 10, 10).unwrap_err();
    assert_eq!(err.message(), "顔が検出されませんでした");
}
