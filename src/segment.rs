//! The label map of the foreground/background segmentation: how it is seeded
//! from the hint, and how the labels it ends with become an opacity mask.
use vstd::prelude::*;
use crate::error::FaceError;
use crate::geometry::{Rect, lies_within};
use crate::image::{Mask, lemma_split_index};

verus! {

/// Label of a pixel known to be background.
pub const LABEL_BACKGROUND: u8 = 0;
/// Label of a pixel known to be foreground.
pub const LABEL_FOREGROUND: u8 = 1;
/// Label of a pixel that is probably background.
pub const LABEL_PROBABLE_BACKGROUND: u8 = 2;
/// Label of a pixel that is probably foreground.
pub const LABEL_PROBABLE_FOREGROUND: u8 = 3;
/// Opacity of a pixel that belongs to the cutout.
pub const OPAQUE: u8 = 255;
/// Normalised edge distance at or below which a pixel is cut from the mask.
pub const EDGE_CUTOFF: u8 = 10;

/// Whether the pixel at column `x`, row `y` lies inside `r`.
pub open spec fn covers(r: Rect, x: int, y: int) -> bool {
    r.x <= x < r.x + r.width && r.y <= y < r.y + r.height
}

/// The label a pixel starts with: probably foreground inside the hint,
/// probably background elsewhere.
pub open spec fn seed_label(hint: Rect, x: int, y: int) -> u8 {
    if covers(hint, x, y) {
        LABEL_PROBABLE_FOREGROUND
    } else {
        LABEL_PROBABLE_BACKGROUND
    }
}

/// The opacity of a final label: opaque for either foreground label.
pub open spec fn label_opacity(label: u8) -> u8 {
    if label == LABEL_FOREGROUND || label == LABEL_PROBABLE_FOREGROUND {
        OPAQUE
    } else {
        0
    }
}

/// A mask value kept only where the pixel lies further than `cutoff` from
/// the mask's edge.
pub open spec fn tightened(value: u8, distance: u8, cutoff: u8) -> u8 {
    if distance > cutoff {
        value
    } else {
        0
    }
}

/// The label map that starts the segmentation of a `width` x `height`
/// canvas: the hint must lie inside the canvas.
pub fn seed_labels(width: usize, height: usize, hint: Rect) -> (r: Result<Mask, FaceError>)
    requires
        width * height <= usize::MAX,
    ensures
        r is Ok <==> lies_within(hint, width as int, height as int),
        r is Err ==> r->Err_0 == FaceError::SegmentationFailed,
        r is Ok ==> {
            let m = r->Ok_0;
            &&& m.wf()
            &&& m.width == width
            &&& m.height == height
            &&& forall|x: int, y: int|
                0 <= x < width && 0 <= y < height ==> #[trigger] m.at(x, y) == seed_label(
                    hint,
                    x,
                    y,
                )
        },
{
    if !(hint.x >= 0 && hint.y >= 0 && hint.width >= 1 && hint.height >= 1 && hint.x as u64
        + hint.width as u64 <= width as u64 && hint.y as u64 + hint.height as u64
        <= height as u64) {
        return Err(FaceError::SegmentationFailed);
    }
    let x0 = hint.x as usize;
    let y0 = hint.y as usize;
    let x1 = x0 + hint.width as usize;
    let y1 = y0 + hint.height as usize;
    let n = width * height;
    let mut data: Vec<u8> = Vec::with_capacity(n);
    let mut i: usize = 0;
    while i < n
        invariant
            n == width * height,
            width >= 1,
            i <= n,
            data@.len() == i,
            x0 == hint.x,
            y0 == hint.y,
            x1 == hint.x + hint.width,
            y1 == hint.y + hint.height,
            forall|j: int|
                0 <= j < i ==> #[trigger] data@[j] == seed_label(hint, j % width as int, j
                    / width as int),
        decreases n - i,
    {
        let x = i % width;
        let y = i / width;
        let label = if x0 <= x && x < x1 && y0 <= y && y < y1 {
            LABEL_PROBABLE_FOREGROUND
        } else {
            LABEL_PROBABLE_BACKGROUND
        };
        data.push(label);
        i = i + 1;
    }
    let m = Mask { width, height, data };
    proof {
        assert forall|x: int, y: int| 0 <= x < width && 0 <= y < height implies #[trigger] m.at(
            x,
            y,
        ) == seed_label(hint, x, y) by {
            crate::image::lemma_row_index(y, height as int, width as int, x);
            assert(height * width == width * height) by (nonlinear_arith);
            vstd::arithmetic::div_mod::lemma_fundamental_div_mod_converse(
                y * width + x,
                width as int,
                y,
                x,
            );
        }
    }
    Ok(m)
}

/// Collapses a final label map into a binary mask: opaque where either
/// foreground label stands, transparent elsewhere.
pub fn collapse_labels(labels: &Mask) -> (out: Mask)
    requires
        labels.wf(),
    ensures
        out.wf(),
        out.width == labels.width,
        out.height == labels.height,
        forall|i: int|
            0 <= i < out.data@.len() ==> #[trigger] out.data@[i] == label_opacity(
                labels.data@[i],
            ),
{
    let n = labels.data.len();
    let mut data: Vec<u8> = Vec::with_capacity(n);
    let mut i: usize = 0;
    while i < n
        invariant
            n == labels.data@.len(),
            i <= n,
            data@.len() == i,
            forall|j: int| 0 <= j < i ==> #[trigger] data@[j] == label_opacity(labels.data@[j]),
        decreases n - i,
    {
        let label = labels.data[i];
        let v = if label == LABEL_FOREGROUND || label == LABEL_PROBABLE_FOREGROUND {
            OPAQUE
        } else {
            0
        };
        data.push(v);
        i = i + 1;
    }
    Mask { width: labels.width, height: labels.height, data }
}

/// Tightens a closed mask to the pixels whose normalised distance from its
/// edge exceeds `EDGE_CUTOFF`. The two buffers must describe one canvas.
pub fn tighten_mask(closed: &Mask, distance: &Mask) -> (r: Result<Mask, FaceError>)
    requires
        closed.wf(),
        distance.wf(),
    ensures
        r is Ok <==> (closed.width == distance.width && closed.height == distance.height),
        r is Err ==> r->Err_0 == FaceError::SegmentationFailed,
        r is Ok ==> {
            let m = r->Ok_0;
            &&& m.wf()
            &&& m.width == closed.width
            &&& m.height == closed.height
            &&& forall|i: int|
                0 <= i < m.data@.len() ==> #[trigger] m.data@[i] == tightened(
                    closed.data@[i],
                    distance.data@[i],
                    EDGE_CUTOFF,
                )
        },
{
    if closed.width != distance.width || closed.height != distance.height {
        return Err(FaceError::SegmentationFailed);
    }
    let n = closed.data.len();
    let mut data: Vec<u8> = Vec::with_capacity(n);
    let mut i: usize = 0;
    while i < n
        invariant
            n == closed.data@.len(),
            n == distance.data@.len(),
            i <= n,
            data@.len() == i,
            forall|j: int|
                0 <= j < i ==> #[trigger] data@[j] == tightened(
                    closed.data@[j],
                    distance.data@[j],
                    EDGE_CUTOFF,
                ),
        decreases n - i,
    {
        let v = if distance.data[i] > EDGE_CUTOFF {
            closed.data[i]
        } else {
            0
        };
        data.push(v);
        i = i + 1;
    }
    Ok(Mask { width: closed.width, height: closed.height, data })
}

} // verus!
