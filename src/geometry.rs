//! Working regions around a detected face: the canvas that frames the head
//! and the hint that seeds the segmentation.
use vstd::prelude::*;
use crate::error::FaceError;

verus! {

/// Margin above the face, in percent of the face height (room for hair).
pub const CANVAS_TOP_PERCENT: i64 = 100;
/// Margin below the face, in percent of the face height (a little neck).
pub const CANVAS_BOTTOM_PERCENT: i64 = 20;
/// Margin on each side of the face, in percent of the face width.
pub const CANVAS_SIDE_PERCENT: i64 = 30;
/// The least band, in pixels, that the hint leaves out along each edge of the canvas.
pub const HINT_BORDER: i64 = 2;
/// Band left out of the hint on each side, in percent of the face width.
pub const HINT_SIDE_PERCENT: i64 = 15;
/// Band left out of the hint at the top, in percent of the face height.
pub const HINT_TOP_PERCENT: i64 = 5;
/// Neck band left out of the hint of a plain cutout, in percent of the face height.
pub const CUTOUT_HINT_BOTTOM_PERCENT: i64 = 30;
/// Neck band left out of the hint of a transplanted face, in percent of the face height.
pub const TRANSPLANT_HINT_BOTTOM_PERCENT: i64 = 15;

/// An axis-aligned rectangle with its origin at the top left.
#[derive(Clone, Copy, Debug, PartialEq, Eq, Structural)]
pub struct Rect {
    pub x: i32,
    pub y: i32,
    pub width: i32,
    pub height: i32,
}

impl Rect {
    pub fn new(x: i32, y: i32, width: i32, height: i32) -> (r: Rect)
        ensures
            r == (Rect { x, y, width, height }),
    {
        Rect { x, y, width, height }
    }
}

/// How much of the chin and neck the segmentation hint leaves out.
#[derive(Clone, Copy, Debug, PartialEq, Eq, Structural)]
pub enum HintProfile {
    /// The head cutout: the hint stops well above the neck.
    Cutout,
    /// The face transplant: the hint keeps the chin.
    Transplant,
}

pub open spec fn bottom_percent(profile: HintProfile) -> int {
    match profile {
        HintProfile::Cutout => CUTOUT_HINT_BOTTOM_PERCENT as int,
        HintProfile::Transplant => TRANSPLANT_HINT_BOTTOM_PERCENT as int,
    }
}

pub open spec fn percent_of(v: int, p: int) -> int {
    v * p / 100
}

pub open spec fn max_int(a: int, b: int) -> int {
    if a >= b { a } else { b }
}

pub open spec fn min_int(a: int, b: int) -> int {
    if a <= b { a } else { b }
}

/// A detection can be planned around when it has an area and overlaps the image.
pub open spec fn is_usable_face(face: Rect, image_width: int, image_height: int) -> bool {
    &&& face.width > 0
    &&& face.height > 0
    &&& image_width > 0
    &&& image_height > 0
    &&& face.x < image_width
    &&& face.x + face.width > 0
    &&& face.y < image_height
    &&& face.y + face.height > 0
}

/// `r` is non-empty and lies inside a `width` x `height` image.
pub open spec fn lies_within(r: Rect, width: int, height: int) -> bool {
    &&& 0 <= r.x
    &&& 0 <= r.y
    &&& r.width >= 1
    &&& r.height >= 1
    &&& r.x + r.width <= width
    &&& r.y + r.height <= height
}

pub open spec fn canvas_x(face: Rect) -> int {
    max_int(0, face.x - percent_of(face.width as int, CANVAS_SIDE_PERCENT as int))
}

pub open spec fn canvas_y(face: Rect) -> int {
    max_int(0, face.y - percent_of(face.height as int, CANVAS_TOP_PERCENT as int))
}

pub open spec fn canvas_width(face: Rect, image_width: int) -> int {
    min_int(
        face.width + 2 * percent_of(face.width as int, CANVAS_SIDE_PERCENT as int),
        image_width - canvas_x(face),
    )
}

pub open spec fn canvas_height(face: Rect, image_height: int) -> int {
    min_int(
        face.height + percent_of(face.height as int, CANVAS_TOP_PERCENT as int) + percent_of(
            face.height as int,
            CANVAS_BOTTOM_PERCENT as int,
        ),
        image_height - canvas_y(face),
    )
}

/// The canvas around `face`: the face grown by its margins, cut to the image.
pub open spec fn canvas_of(face: Rect, image_width: int, image_height: int) -> Rect {
    Rect {
        x: canvas_x(face) as i32,
        y: canvas_y(face) as i32,
        width: canvas_width(face, image_width) as i32,
        height: canvas_height(face, image_height) as i32,
    }
}

/// The hint inside `canvas`, in the canvas's own coordinates: the canvas
/// less its side, top and neck bands, each at least `HINT_BORDER` wide, and
/// kept to at least one pixel inside the canvas.
pub open spec fn hint_of(canvas: Rect, face: Rect, profile: HintProfile) -> Rect {
    let side = max_int(HINT_BORDER as int, percent_of(face.width as int, HINT_SIDE_PERCENT as int));
    let top = max_int(HINT_BORDER as int, percent_of(face.height as int, HINT_TOP_PERCENT as int));
    let bottom = max_int(HINT_BORDER as int, percent_of(face.height as int, bottom_percent(profile)));
    Rect {
        x: min_int(side, canvas.width - 1) as i32,
        y: min_int(top, canvas.height - 1) as i32,
        width: max_int(1, canvas.width - 2 * side) as i32,
        height: max_int(1, canvas.height - top - bottom) as i32,
    }
}

/// Plans the canvas around a detected face in a `image_width` x `image_height`
/// image. A detection without area, or one that misses the image, is refused.
pub fn plan_canvas(face: Rect, image_width: i32, image_height: i32) -> (r: Result<Rect, FaceError>)
    ensures
        r is Ok <==> is_usable_face(face, image_width as int, image_height as int),
        !is_usable_face(face, image_width as int, image_height as int) ==> r == Err::<
            Rect,
            FaceError,
        >(FaceError::InvalidDetection),
        r is Ok ==> r->Ok_0 == canvas_of(face, image_width as int, image_height as int),
        r is Ok ==> lies_within(r->Ok_0, image_width as int, image_height as int),
{
    let fx = face.x as i64;
    let fy = face.y as i64;
    let fw = face.width as i64;
    let fh = face.height as i64;
    let iw = image_width as i64;
    let ih = image_height as i64;
    if !(fw > 0 && fh > 0 && iw > 0 && ih > 0 && fx < iw && fx + fw > 0 && fy < ih && fy + fh > 0) {
        return Err(FaceError::InvalidDetection);
    }
    let side = fw * CANVAS_SIDE_PERCENT / 100;
    let top = fh * CANVAS_TOP_PERCENT / 100;
    let bottom = fh * CANVAS_BOTTOM_PERCENT / 100;
    let x: i64 = if fx - side > 0 { fx - side } else { 0 };
    let y: i64 = if fy - top > 0 { fy - top } else { 0 };
    let w: i64 = if fw + 2 * side <= iw - x { fw + 2 * side } else { iw - x };
    let h: i64 = if fh + top + bottom <= ih - y { fh + top + bottom } else { ih - y };
    Ok(Rect { x: x as i32, y: y as i32, width: w as i32, height: h as i32 })
}

fn max_i64(a: i64, b: i64) -> (r: i64)
    ensures
        r == max_int(a as int, b as int),
{
    if a >= b {
        a
    } else {
        b
    }
}

/// Plans the segmentation hint inside `canvas` for `face`, in canvas
/// coordinates, leaving out side, top and neck bands.
pub fn plan_hint(canvas: Rect, face: Rect, profile: HintProfile) -> (r: Rect)
    requires
        canvas.width >= 1,
        canvas.height >= 1,
        face.width >= 0,
        face.height >= 0,
    ensures
        r == hint_of(canvas, face, profile),
        lies_within(r, canvas.width as int, canvas.height as int),
{
    let cw = canvas.width as i64;
    let ch = canvas.height as i64;
    let bottom_pct: i64 = match profile {
        HintProfile::Cutout => CUTOUT_HINT_BOTTOM_PERCENT,
        HintProfile::Transplant => TRANSPLANT_HINT_BOTTOM_PERCENT,
    };
    let side = max_i64(HINT_BORDER, face.width as i64 * HINT_SIDE_PERCENT / 100);
    let top = max_i64(HINT_BORDER, face.height as i64 * HINT_TOP_PERCENT / 100);
    let bottom = max_i64(HINT_BORDER, face.height as i64 * bottom_pct / 100);
    let x: i64 = if side <= cw - 1 { side } else { cw - 1 };
    let y: i64 = if top <= ch - 1 { top } else { ch - 1 };
    let w: i64 = if cw - 2 * side >= 1 { cw - 2 * side } else { 1 };
    let h: i64 = if ch - top - bottom >= 1 { ch - top - bottom } else { 1 };
    Rect { x: x as i32, y: y as i32, width: w as i32, height: h as i32 }
}

/// A face that lies inside its image is usable, and its canvas lies inside
/// the image with an area of at least one pixel.
pub proof fn lemma_canvas_within_bounds(face: Rect, image_width: i32, image_height: i32)
    requires
        lies_within(face, image_width as int, image_height as int),
    ensures
        is_usable_face(face, image_width as int, image_height as int),
        lies_within(
            canvas_of(face, image_width as int, image_height as int),
            image_width as int,
            image_height as int,
        ),
{
    let (iw, ih) = (image_width as int, image_height as int);
    let x = canvas_x(face);
    let y = canvas_y(face);
    let w = canvas_width(face, iw);
    let h = canvas_height(face, ih);
    assert(0 <= x <= face.x && 0 <= y <= face.y);
    assert(1 <= w <= iw - x);
    assert(1 <= h <= ih - y);
}

} // verus!
