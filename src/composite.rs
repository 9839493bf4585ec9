//! Fuses a canvas's colours and a mask's opacities into a four-channel image,
//! one row per parallel task.
use vstd::prelude::*;
use rayon::prelude::ParallelSliceMut;
use rayon::iter::{IndexedParallelIterator, ParallelIterator};
use crate::image::{Image, Mask, lemma_row_index, lemma_pixel_in_row};

verus! {

/// Channel `k` of the composite pixel at column `x`, row `y`: the canvas's
/// colour for the first three channels, the mask's value for the fourth, and
/// transparent where the mask has no such pixel.
pub open spec fn composite_sample(canvas: &Image, mask: &Mask, x: int, y: int, k: int) -> u8 {
    if k < 3 {
        canvas.at(x, y, k)
    } else if x < mask.width && y < mask.height {
        mask.at(x, y)
    } else {
        0
    }
}

/// Fills `row`, row `y` of the composite of `canvas` and `mask`, with four
/// samples per pixel.
pub fn composite_row(canvas: &Image, mask: &Mask, y: usize, row: &mut [u8])
    requires
        canvas.wf(),
        canvas.channels == 3,
        mask.wf(),
        y < canvas.height,
        old(row)@.len() == 4 * canvas.width,
    ensures
        final(row)@.len() == old(row)@.len(),
        forall|x: int, k: int|
            0 <= x < canvas.width && 0 <= k < 4 ==> #[trigger] final(row)@[4 * x + k]
                == composite_sample(canvas, mask, x, y as int, k),
{
    let w = canvas.width;
    if w == 0 {
        return;
    }
    let ghost len = canvas.data@.len() as int;
    let total = canvas.data.len();
    let mask_len = mask.data.len();
    let row_len = row.len();
    proof {
        assert(len == canvas.height * (w * 3)) by (nonlinear_arith)
            requires
                len == canvas.width * canvas.height * 3,
                w == canvas.width,
        ;
        lemma_row_index(y as int, canvas.height as int, w * 3, 0);
    }
    let stride = w * 3;
    let base = y * stride;
    let mut x: usize = 0;
    while x < w
        invariant
            canvas.wf(),
            canvas.channels == 3,
            mask.wf(),
            w == canvas.width,
            stride == w * 3,
            y < canvas.height,
            base == y * stride,
            base + stride <= canvas.data@.len(),
            mask_len == mask.data@.len(),
            total == canvas.data@.len(),
            row_len == 4 * w,
            row@.len() == 4 * w,
            x <= w,
            forall|xx: int, k: int|
                0 <= xx < x && 0 <= k < 4 ==> #[trigger] row@[4 * xx + k] == composite_sample(
                    canvas,
                    mask,
                    xx,
                    y as int,
                    k,
                ),
        decreases w - x,
    {
        let alpha: u8 = if x < mask.width && y < mask.height {
            proof {
                lemma_row_index(y as int, mask.height as int, mask.width as int, x as int);
                assert(mask.height * mask.width == mask.width * mask.height) by (nonlinear_arith);
            }
            mask.data[y * mask.width + x]
        } else {
            0
        };
        let p = base + 3 * x;
        row[4 * x] = canvas.data[p];
        row[4 * x + 1] = canvas.data[p + 1];
        row[4 * x + 2] = canvas.data[p + 2];
        row[4 * x + 3] = alpha;
        proof {
            assert forall|xx: int, k: int| 0 <= xx < x + 1 && 0 <= k < 4 implies #[trigger] row@[4
                * xx + k] == composite_sample(canvas, mask, xx, y as int, k) by {
                if xx == x {
                    assert(x * 3 == 3 * x);
                }
            }
        }
        x = x + 1;
    }
}

/// Relies on rayon's `par_chunks_exact_mut` with `enumerate` and `for_each`:
/// the buffer is cut into consecutive, disjoint chunks of `row_len` samples,
/// chunk `y` goes with index `y` to one call of `composite_row`, and the call
/// returns once every chunk is done. It panics only on a chunk length of zero.
#[verifier::external_body]
fn fill_rows_parallel(out: &mut Vec<u8>, row_len: usize, canvas: &Image, mask: &Mask)
    requires
        canvas.wf(),
        canvas.channels == 3,
        mask.wf(),
        canvas.width >= 1,
        canvas.height >= 1,
        row_len == 4 * canvas.width,
        old(out)@.len() == canvas.height * row_len,
    ensures
        final(out)@.len() == old(out)@.len(),
        forall|x: int, y: int, k: int|
            0 <= x < canvas.width && 0 <= y < canvas.height && 0 <= k < 4 ==> #[trigger] final(out)@[y * (4
                * canvas.width) + 4 * x + k] == composite_sample(canvas, mask, x, y, k),
{
    out.par_chunks_exact_mut(row_len).enumerate().for_each(
        |(y, row)| composite_row(canvas, mask, y, row),
    );
}

/// The transparent image of the canvas cut out by the mask: colours from
/// `canvas`, opacity from `mask`, pixel for pixel.
pub fn composite(canvas: &Image, mask: &Mask) -> (out: Image)
    requires
        canvas.wf(),
        canvas.channels == 3,
        mask.wf(),
        canvas.width * canvas.height * 4 <= usize::MAX,
    ensures
        out.wf(),
        out.width == canvas.width,
        out.height == canvas.height,
        out.channels == 4,
        forall|x: int, y: int, k: int|
            0 <= x < canvas.width && 0 <= y < canvas.height && 0 <= k < 4 ==> #[trigger] out.at(
                x,
                y,
                k,
            ) == composite_sample(canvas, mask, x, y, k),
        mask.width == canvas.width && mask.height == canvas.height ==> forall|x: int, y: int|
            0 <= x < canvas.width && 0 <= y < canvas.height ==> out.at(x, y, 3) == #[trigger] mask.at(
                x,
                y,
            ) && out.at(x, y, 0) == canvas.at(x, y, 0) && out.at(x, y, 1) == canvas.at(x, y, 1)
                && out.at(x, y, 2) == canvas.at(x, y, 2),
{
    let w = canvas.width;
    let h = canvas.height;
    proof {
        assert(w * h * 4 == h * (4 * w)) by (nonlinear_arith);
    }
    let n = w * h * 4;
    let mut data: Vec<u8> = Vec::with_capacity(n);
    let mut i: usize = 0;
    while i < n
        invariant
            i <= n,
            data@.len() == i,
        decreases n - i,
    {
        data.push(0);
        i = i + 1;
    }
    if w >= 1 && h >= 1 {
        proof {
            assert(4 * w <= n) by (nonlinear_arith)
                requires
                    n == h * (4 * w),
                    h >= 1,
                    w >= 1,
            ;
        }
        let row_len = 4 * w;
        fill_rows_parallel(&mut data, row_len, canvas, mask);
    }
    let out = Image { width: w, height: h, channels: 4, data };
    proof {
        assert forall|x: int, y: int, k: int|
            0 <= x < canvas.width && 0 <= y < canvas.height && 0 <= k < 4 implies #[trigger] out.at(
                x,
                y,
                k,
            ) == composite_sample(canvas, mask, x, y, k) by {
            assert(x * 4 == 4 * x);
        }
    }
    out
}

} // verus!
