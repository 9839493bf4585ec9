use face_cutout::error::FaceError;
use face_cutout::geometry::{plan_canvas, plan_hint, HintProfile, Rect};

#[test]
fn canvas_around_face_in_blank_image() {
    let face = Rect::new(75, 75, 50, 50);
    let canvas = plan_canvas(face, 200, 200).unwrap();
    assert_eq!(canvas, Rect::new(60, 25, 80, 110));
    assert!(canvas.width >= 50 && canvas.height >= 50);
    assert!(canvas.x >= 0 && canvas.y >= 0);
    assert!(canvas.x + canvas.width <= 200 && canvas.y + canvas.height <= 200);
}

#[test]
fn canvas_clamped_to_image_corner() {
    let canvas = plan_canvas(Rect::new(0, 0, 100, 100), 120, 150).unwrap();
    assert_eq!(canvas, Rect::new(0, 0, 120, 150));
}

#[test]
fn canvas_of_face_partly_outside_image() {
    let canvas = plan_canvas(Rect::new(-10, 5, 20, 10), 30, 30).unwrap();
    assert_eq!(canvas, Rect::new(0, 0, 30, 22));
}

#[test]
fn zero_area_face_is_invalid() {
    assert_eq!(plan_canvas(Rect::new(10, 10, 0, 20), 100, 100), Err(FaceError::InvalidDetection));
    assert_eq!(plan_canvas(Rect::new(10, 10, 20, 0), 100, 100), Err(FaceError::InvalidDetection));
}

#[test]
fn face_outside_image_is_invalid() {
    assert_eq!(plan_canvas(Rect::new(100, 10, 20, 20), 100, 100), Err(FaceError::InvalidDetection));
    assert_eq!(plan_canvas(Rect::new(-30, 10, 20, 20), 100, 100), Err(FaceError::InvalidDetection));
}

#[test]
fn hint_for_cutout_leaves_out_neck() {
    let hint = plan_hint(Rect::new(60, 25, 80, 110), Rect::new(75, 75, 50, 50), HintProfile::Cutout);
    assert_eq!(hint, Rect::new(7, 2, 66, 93));
}

#[test]
fn hint_for_transplant_keeps_chin() {
    let hint = plan_hint(Rect::new(60, 25, 80, 110), Rect::new(75, 75, 50, 50), HintProfile::Transplant);
    assert_eq!(hint, Rect::new(7, 2, 66, 101));
}

#[test]
fn hint_clamped_to_one_pixel() {
    let hint = plan_hint(Rect::new(0, 0, 10, 10), Rect::new(0, 0, 100, 100), HintProfile::Cutout);
    assert_eq!(hint, Rect::new(9, 5, 1, 1));
}

#[test]
fn hint_keeps_two_pixel_border() {
    let hint = plan_hint(Rect::new(0, 0, 60, 70), Rect::new(15, 30, 10, 30), HintProfile::Cutout);
    assert_eq!(hint, Rect::new(2, 2, 56, 59));
}
