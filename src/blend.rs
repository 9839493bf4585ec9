//! The feather mask of a transplanted face and the alpha blend that lays the
//! face into its destination.
use vstd::prelude::*;
use crate::image::{Image, Mask, lemma_split_index, lemma_row_index, lemma_pixel_in_row};

verus! {

/// Horizontal semi-axis of the feather ellipse, in percent of the width.
pub const FEATHER_AXIS_X_PERCENT: u128 = 40;
/// Vertical semi-axis of the feather ellipse, in percent of the height.
pub const FEATHER_AXIS_Y_PERCENT: u128 = 48;

/// Whether the pixel at column `x`, row `y` of a `width` x `height` canvas
/// lies inside the feather ellipse, centred in the canvas.
pub open spec fn in_feather_ellipse(width: int, height: int, x: int, y: int) -> bool {
    let a = width * FEATHER_AXIS_X_PERCENT / 100;
    let b = height * FEATHER_AXIS_Y_PERCENT / 100;
    let dx = x - width / 2;
    let dy = y - height / 2;
    (dx * dx) * (b * b) + (dy * dy) * (a * a) <= (a * a) * (b * b)
}

/// A destination sample `d` covered by source sample `s` with opacity `m`,
/// rounded down.
pub open spec fn mix(s: int, d: int, m: int) -> int {
    (s * m + d * (255 - m)) / 255
}

/// Channel `c` of the destination pixel at column `x`, row `y` once `source`
/// has been blended in with its top left corner at (`ox`, `oy`).
pub open spec fn blended_at(
    source: Image,
    dest: Image,
    mask: Mask,
    ox: int,
    oy: int,
    x: int,
    y: int,
    c: int,
) -> int {
    let sx = x - ox;
    let sy = y - oy;
    if 0 <= sx < source.width && 0 <= sy < source.height {
        mix(source.at(sx, sy, c) as int, dest.at(x, y, c) as int, mask.at(sx, sy) as int)
    } else {
        dest.at(x, y, c) as int
    }
}

/// Bounds the product of two squares by the square of the product of their bounds.
proof fn lemma_square_product(p: int, w: int, q: int, h: int)
    requires
        0 <= p <= w,
        0 <= q <= h,
        w * h <= u64::MAX,
        w <= u64::MAX,
        h <= u64::MAX,
    ensures
        0 <= (p * p) * (q * q) <= u128::MAX,
        0 <= p * p <= u128::MAX,
        0 <= q * q <= u128::MAX,
{
    assert(p * p <= u64::MAX * u64::MAX) by (nonlinear_arith)
        requires
            0 <= p <= u64::MAX,
    ;
    assert(q * q <= u64::MAX * u64::MAX) by (nonlinear_arith)
        requires
            0 <= q <= u64::MAX,
    ;
    assert(p * q <= w * h) by (nonlinear_arith)
        requires
            0 <= p <= w,
            0 <= q <= h,
    ;
    assert((p * q) * (p * q) <= u64::MAX * u64::MAX) by (nonlinear_arith)
        requires
            0 <= p * q <= u64::MAX,
    ;
    assert((p * p) * (q * q) == (p * q) * (p * q)) by (nonlinear_arith);
    assert(0 <= (p * p) * (q * q)) by (nonlinear_arith);
}

/// The feather mask of a `width` x `height` face: opaque inside a centred
/// ellipse with semi-axes of 40% of the width and 48% of the height,
/// transparent outside.
pub fn build_feather_mask(width: usize, height: usize) -> (m: Mask)
    requires
        width * height <= usize::MAX,
    ensures
        m.wf(),
        m.width == width,
        m.height == height,
        forall|x: int, y: int|
            0 <= x < width && 0 <= y < height ==> #[trigger] m.at(x, y) == if in_feather_ellipse(
                width as int,
                height as int,
                x,
                y,
            ) {
                255u8
            } else {
                0u8
            },
{
    let n = width * height;
    let w = width as u128;
    let h = height as u128;
    let a = w * FEATHER_AXIS_X_PERCENT / 100;
    let b = h * FEATHER_AXIS_Y_PERCENT / 100;
    let cx = w / 2;
    let cy = h / 2;
    let mut data: Vec<u8> = Vec::with_capacity(n);
    let mut i: usize = 0;
    while i < n
        invariant
            n == width * height,
            n <= usize::MAX,
            w == width,
            h == height,
            a == w * FEATHER_AXIS_X_PERCENT / 100,
            b == h * FEATHER_AXIS_Y_PERCENT / 100,
            cx == w / 2,
            cy == h / 2,
            i <= n,
            data@.len() == i,
            forall|j: int|
                0 <= j < i ==> #[trigger] data@[j] == if in_feather_ellipse(
                    width as int,
                    height as int,
                    j % width as int,
                    j / width as int,
                ) {
                    255u8
                } else {
                    0u8
                },
        decreases n - i,
    {
        proof {
            assert(height * width == width * height) by (nonlinear_arith);
            lemma_split_index(i as int, width as int, height as int);
        }
        let x = (i % width) as u128;
        let y = (i / width) as u128;
        let dx = if x >= cx { x - cx } else { cx - x };
        let dy = if y >= cy { y - cy } else { cy - y };
        proof {
            lemma_square_product(dx as int, w as int, b as int, h as int);
            lemma_square_product(dy as int, h as int, a as int, w as int);
            lemma_square_product(a as int, w as int, b as int, h as int);
            assert(h * w == w * h) by (nonlinear_arith);
            assert((dx as int - 0) * (dx as int) == (x as int - cx as int) * (x as int - cx as int))
                by (nonlinear_arith)
                requires
                    dx as int == x as int - cx as int || dx as int == cx as int - x as int,
            ;
            assert((dy as int) * (dy as int) == (y as int - cy as int) * (y as int - cy as int))
                by (nonlinear_arith)
                requires
                    dy as int == y as int - cy as int || dy as int == cy as int - y as int,
            ;
        }
        let t1 = (dx * dx) * (b * b);
        let t2 = (dy * dy) * (a * a);
        let limit = (a * a) * (b * b);
        let inside = t1 <= limit && t2 <= limit - t1;
        data.push(if inside { 255 } else { 0 });
        i = i + 1;
    }
    let m = Mask { width, height, data };
    proof {
        assert forall|x: int, y: int| 0 <= x < width && 0 <= y < height implies #[trigger] m.at(
            x,
            y,
        ) == if in_feather_ellipse(width as int, height as int, x, y) {
            255u8
        } else {
            0u8
        } by {
            lemma_row_index(y, height as int, width as int, x);
            assert(height * width == width * height) by (nonlinear_arith);
            vstd::arithmetic::div_mod::lemma_fundamental_div_mod_converse(
                y * width + x,
                width as int,
                y,
                x,
            );
        }
    }
    m
}

/// Channel `c` of the destination pixel that holds sample `j` of a buffer
/// with `stride` samples per row and three per pixel.
pub open spec fn blended_sample(
    source: Image,
    dest: Image,
    mask: Mask,
    ox: int,
    oy: int,
    j: int,
) -> int {
    let stride = dest.width * 3;
    blended_at(source, dest, mask, ox, oy, (j % stride) / 3, j / stride, (j % stride) % 3)
}

/// Lays `source` into `dest` with its top left corner at (`ox`, `oy`): each
/// destination pixel under a source pixel becomes their mix weighted by the
/// mask's opacity there; the source's pixels that fall outside `dest` are
/// skipped, and every other destination pixel is left untouched.
pub fn blend(source: &Image, dest: &mut Image, mask: &Mask, ox: i32, oy: i32)
    requires
        source.wf(),
        source.channels == 3,
        old(dest).wf(),
        old(dest).channels == 3,
        mask.wf(),
        mask.width >= source.width,
        mask.height >= source.height,
    ensures
        final(dest).wf(),
        final(dest).channels == 3,
        final(dest).width == old(dest).width,
        final(dest).height == old(dest).height,
        forall|x: int, y: int, c: int|
            0 <= x < old(dest).width && 0 <= y < old(dest).height && 0 <= c < 3 ==> #[trigger] final(dest).at(x, y, c) == blended_at(*source, *old(dest), *mask, ox as int, oy as int, x, y, c),
        (forall|i: int| 0 <= i < mask.data@.len() ==> #[trigger] mask.data@[i] == 0) ==> final(dest).data@ == old(dest).data@,
        (forall|i: int| 0 <= i < mask.data@.len() ==> #[trigger] mask.data@[i] == 255) ==> forall|
            x: int,
            y: int,
            c: int,
        |
            0 <= x < old(dest).width && 0 <= y < old(dest).height && 0 <= c < 3 && 0 <= x - ox
                < source.width && 0 <= y - oy < source.height ==> #[trigger] final(dest).at(x, y, c)
                == source.at(x - ox, y - oy, c),
{
    let n = dest.data.len();
    let sl = source.data.len();
    let ml = mask.data.len();
    let dw = dest.width;
    if n == 0 {
        proof {
            assert(dest.width == 0 || dest.height == 0) by (nonlinear_arith)
                requires
                    dest.width * dest.height * 3 == 0,
            ;
        }
        return;
    }
    let ghost old_dest = *dest;
    proof {
        assert(n == dest.height * (dw * 3)) by (nonlinear_arith)
            requires
                n == dest.width * dest.height * 3,
                dw == dest.width,
        ;
        assert(dw * 3 >= 1) by (nonlinear_arith)
            requires
                n == dest.height * (dw * 3),
                n >= 1,
        ;
        assert(dw * 3 <= n) by (nonlinear_arith)
            requires
                n == dest.height * (dw * 3),
                n >= 1,
        ;
        assert(sl == source.height * (source.width * 3)) by (nonlinear_arith)
            requires
                sl == source.width * source.height * 3,
        ;
        assert(ml == mask.height * mask.width) by (nonlinear_arith)
            requires
                ml == mask.width * mask.height,
        ;
    }
    let stride = dw * 3;
    let sw = source.width as i128;
    let sh = source.height as i128;
    let mut data: Vec<u8> = Vec::with_capacity(n);
    let mut i: usize = 0;
    while i < n
        invariant
            old_dest == *dest,
            dest.wf(),
            dest.channels == 3,
            source.wf(),
            source.channels == 3,
            mask.wf(),
            mask.width >= source.width,
            mask.height >= source.height,
            n == dest.data@.len(),
            n == dest.height * stride,
            stride == dest.width * 3,
            stride >= 1,
            sl == source.data@.len(),
            sl == source.height * (source.width * 3),
            ml == mask.data@.len(),
            ml == mask.height * mask.width,
            sw == source.width,
            sh == source.height,
            i <= n,
            data@.len() == i,
            forall|j: int|
                0 <= j < i ==> #[trigger] data@[j] as int == blended_sample(
                    *source,
                    old_dest,
                    *mask,
                    ox as int,
                    oy as int,
                    j,
                ),
            (forall|k: int| 0 <= k < mask.data@.len() ==> #[trigger] mask.data@[k] == 0) ==> forall|
                j: int,
            | 0 <= j < i ==> #[trigger] data@[j] == old_dest.data@[j],
        decreases n - i,
    {
        let y = i / stride;
        let r = i % stride;
        let x = r / 3;
        let c = r % 3;
        proof {
            lemma_split_index(i as int, stride as int, dest.height as int);
            lemma_split_index(r as int, 3, dest.width as int);
            assert(i == y * stride + x * 3 + c);
        }
        let d = dest.data[i];
        let sx = x as i128 - ox as i128;
        let sy = y as i128 - oy as i128;
        let v: u8 = if 0 <= sx && sx < sw && 0 <= sy && sy < sh {
            let sxu = sx as usize;
            let syu = sy as usize;
            proof {
                lemma_pixel_in_row(sxu as int, source.width as int, c as int, 3);
                lemma_row_index(syu as int, source.height as int, source.width * 3, sxu * 3 + c);
                lemma_row_index(syu as int, mask.height as int, mask.width as int, sxu as int);
            }
            let s = source.data[syu * (source.width * 3) + sxu * 3 + c];
            let m = mask.data[syu * mask.width + sxu];
            proof {
                assert(s as int * m as int + d as int * (255 - m as int) <= 255 * 255) by (
                nonlinear_arith)
                    requires
                        0 <= s <= 255,
                        0 <= d <= 255,
                        0 <= m <= 255,
                ;
                assert(0 <= s as int * m as int + d as int * (255 - m as int)) by (nonlinear_arith)
                    requires
                        0 <= s <= 255,
                        0 <= d <= 255,
                        0 <= m <= 255,
                ;
                assert((forall|k: int| 0 <= k < mask.data@.len() ==> #[trigger] mask.data@[k] == 0)
                    ==> m == 0) by {
                    if forall|k: int| 0 <= k < mask.data@.len() ==> #[trigger] mask.data@[k] == 0 {
                        assert(mask.data@[syu * mask.width + sxu] == 0);
                    }
                }
                assert(m == 0 ==> (s as int * m as int + d as int * (255 - m as int)) / 255 == d)
                    by (nonlinear_arith);
            }
            ((s as u32 * m as u32 + d as u32 * (255 - m as u32)) / 255) as u8
        } else {
            d
        };
        data.push(v);
        i = i + 1;
    }
    dest.data = data;
    proof {
        assert forall|x: int, y: int, c: int|
            0 <= x < old_dest.width && 0 <= y < old_dest.height && 0 <= c < 3 implies #[trigger] dest.at(
            x,
            y,
            c,
        ) == blended_at(*source, old_dest, *mask, ox as int, oy as int, x, y, c) by {
            lemma_pixel_in_row(x, dw as int, c, 3);
            lemma_row_index(y, old_dest.height as int, stride as int, x * 3 + c);
            let j = y * stride + x * 3 + c;
            vstd::arithmetic::div_mod::lemma_fundamental_div_mod_converse(
                j,
                stride as int,
                y,
                x * 3 + c,
            );
            vstd::arithmetic::div_mod::lemma_fundamental_div_mod_converse(x * 3 + c, 3, x, c);
            assert(data@[j] as int == blended_sample(
                *source,
                old_dest,
                *mask,
                ox as int,
                oy as int,
                j,
            ));
        }
        if forall|k: int| 0 <= k < mask.data@.len() ==> #[trigger] mask.data@[k] == 0 {
            assert(dest.data@ =~= old_dest.data@);
        }
        if forall|i: int| 0 <= i < mask.data@.len() ==> #[trigger] mask.data@[i] == 255 {
            assert forall|x: int, y: int, c: int|
                0 <= x < old_dest.width && 0 <= y < old_dest.height && 0 <= c < 3 && 0 <= x - ox
                    < source.width && 0 <= y - oy < source.height implies #[trigger] dest.at(x, y, c)
                == source.at(x - ox, y - oy, c) by {
                let sx = x - ox;
                let sy = y - oy;
                lemma_row_index(sy, mask.height as int, mask.width as int, sx);
                assert(mask.at(sx, sy) == 255);
                assert(dest.at(x, y, c) == blended_at(*source, old_dest, *mask, ox as int, oy as int, x, y, c));
                let sv = source.at(sx, sy, c) as int;
                let dv = old_dest.at(x, y, c) as int;
                assert(mix(sv, dv, 255) == sv);
            }
        }
    }
}

} // verus!
