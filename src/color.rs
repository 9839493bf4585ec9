//! Skin-tone colour matching between two face crops: how strongly to correct,
//! and the shift that moves the source's skin colour toward the target's.
//!
//! Images here hold three channels per pixel in blue, green, red order.
use vstd::prelude::*;
use crate::image::Image;

verus! {

/// The strength approached for very different skin tones, in thousandths.
pub const MAX_STRENGTH_PERMILLE: u64 = 700;
/// The skin-tone distance at which the strength reaches half its maximum.
pub const HALF_STRENGTH_DISTANCE: u64 = 40;
/// Lowest red-difference chroma of a skin pixel.
pub const SKIN_CR_LOW: i64 = 133;
/// Highest red-difference chroma of a skin pixel.
pub const SKIN_CR_HIGH: i64 = 173;
/// Lowest blue-difference chroma of a skin pixel.
pub const SKIN_CB_LOW: i64 = 77;
/// Highest blue-difference chroma of a skin pixel.
pub const SKIN_CB_HIGH: i64 = 127;

/// Luma of a pixel, full-range BT.601 weights in 14-bit fixed point.
pub open spec fn luma(b: int, g: int, r: int) -> int {
    (b * 1868 + g * 9617 + r * 4899 + 8192) / 16384
}

/// A 14-bit fixed-point value brought back to 8 bits, saturated.
pub open spec fn descale_saturated(v: int) -> int {
    if v < 0 {
        0
    } else if v / 16384 > 255 {
        255
    } else {
        v / 16384
    }
}

/// Red-difference chroma of a pixel.
pub open spec fn chroma_red(b: int, g: int, r: int) -> int {
    descale_saturated((r - luma(b, g, r)) * 11682 + 128 * 16384 + 8192)
}

/// Blue-difference chroma of a pixel.
pub open spec fn chroma_blue(b: int, g: int, r: int) -> int {
    descale_saturated((b - luma(b, g, r)) * 9241 + 128 * 16384 + 8192)
}

/// Whether a pixel's chroma lies in the skin-tone band.
pub open spec fn is_skin(b: int, g: int, r: int) -> bool {
    &&& SKIN_CR_LOW <= chroma_red(b, g, r) <= SKIN_CR_HIGH
    &&& SKIN_CB_LOW <= chroma_blue(b, g, r) <= SKIN_CB_HIGH
}

pub open spec fn is_skin_pixel(data: Seq<u8>, p: int) -> bool {
    is_skin(data[3 * p] as int, data[3 * p + 1] as int, data[3 * p + 2] as int)
}

/// Whether pixel `p` counts toward a mean: every pixel, or the skin pixels only.
pub open spec fn counted(data: Seq<u8>, p: int, skin_only: bool) -> bool {
    !skin_only || is_skin_pixel(data, p)
}

/// The sum of channel `c` over the counted pixels among the first `n`.
pub open spec fn channel_sum(data: Seq<u8>, n: nat, c: int, skin_only: bool) -> int
    decreases n,
{
    if n == 0 {
        0
    } else {
        channel_sum(data, (n - 1) as nat, c, skin_only) + if counted(data, n - 1, skin_only) {
            data[3 * (n - 1) + c] as int
        } else {
            0
        }
    }
}

/// The number of counted pixels among the first `n`.
pub open spec fn pixel_count(data: Seq<u8>, n: nat, skin_only: bool) -> int
    decreases n,
{
    if n == 0 {
        0
    } else {
        pixel_count(data, (n - 1) as nat, skin_only) + if counted(data, n - 1, skin_only) {
            1int
        } else {
            0
        }
    }
}

/// The mean of channel `c` over the skin pixels of `img`, rounded down; over
/// all of its pixels when none is skin, and 0 for an image without pixels.
pub open spec fn skin_mean(img: Image, c: int) -> int {
    let n = (img.width * img.height) as nat;
    if pixel_count(img.data@, n, true) > 0 {
        channel_sum(img.data@, n, c, true) / pixel_count(img.data@, n, true)
    } else if n > 0 {
        channel_sum(img.data@, n, c, false) / n as int
    } else {
        0
    }
}

/// The squared distance between the skin means of two images.
pub open spec fn skin_distance_squared(a: Image, b: Image) -> int {
    let d0 = skin_mean(b, 0) - skin_mean(a, 0);
    let d1 = skin_mean(b, 1) - skin_mean(a, 1);
    let d2 = skin_mean(b, 2) - skin_mean(a, 2);
    d0 * d0 + d1 * d1 + d2 * d2
}

/// `r` is the integer square root of `v`.
pub open spec fn is_int_sqrt(r: int, v: int) -> bool {
    0 <= r && r * r <= v < (r + 1) * (r + 1)
}

/// The skin-tone distance between two images: the Euclidean distance of their
/// skin means, rounded down.
pub open spec fn skin_distance(a: Image, b: Image) -> int {
    choose|r: int| is_int_sqrt(r, skin_distance_squared(a, b))
}

/// The correction strength, in thousandths, for skin-tone distance `d`.
pub open spec fn strength_for(d: int) -> int {
    MAX_STRENGTH_PERMILLE * d / (d + HALF_STRENGTH_DISTANCE)
}

/// Sample `v` moved by `delta` scaled by `strength` thousandths, rounded to
/// the nearest integer and saturated to 8 bits.
pub open spec fn shifted(v: int, delta: int, strength: int) -> int {
    let t = (1000 * v + delta * strength + 500) / 1000;
    if t < 0 {
        0
    } else if t > 255 {
        255
    } else {
        t
    }
}

/// A well-formed three-channel image.
pub open spec fn is_color_image(img: Image) -> bool {
    img.wf() && img.channels == 3
}

proof fn lemma_sum_bounds(data: Seq<u8>, n: nat, c: int, skin_only: bool)
    ensures
        0 <= channel_sum(data, n, c, skin_only) <= 255 * pixel_count(data, n, skin_only),
        0 <= pixel_count(data, n, skin_only) <= n,
        !skin_only ==> pixel_count(data, n, skin_only) == n,
    decreases n,
{
    if n > 0 {
        lemma_sum_bounds(data, (n - 1) as nat, c, skin_only);
    }
}

/// A mean of 8-bit values fits in 8 bits.
proof fn lemma_mean_bound(s: int, k: int)
    requires
        0 <= s <= 255 * k,
        k > 0,
    ensures
        0 <= s / k <= 255,
{
    vstd::arithmetic::div_mod::lemma_fundamental_div_mod(s, k);
    vstd::arithmetic::div_mod::lemma_mod_pos_bound(s, k);
    vstd::arithmetic::div_mod::lemma_div_pos_is_pos(s, k);
    let q = s / k;
    assert(q <= 255) by (nonlinear_arith)
        requires
            s == k * q + s % k,
            0 <= s % k,
            s <= 255 * k,
            k > 0,
    ;
}

/// The integer square root is unique.
proof fn lemma_int_sqrt_unique(r: int, s: int, v: int)
    requires
        is_int_sqrt(r, v),
        is_int_sqrt(s, v),
    ensures
        r == s,
{
    if r < s {
        assert((r + 1) * (r + 1) <= s * s) by (nonlinear_arith)
            requires
                0 <= r + 1 <= s,
        ;
    } else if s < r {
        assert((s + 1) * (s + 1) <= r * r) by (nonlinear_arith)
            requires
                0 <= s + 1 <= r,
        ;
    }
}

/// The skin means of `img`, channel by channel.
pub fn skin_means(img: &Image) -> (r: [u64; 3])
    requires
        is_color_image(*img),
    ensures
        forall|c: int| 0 <= c < 3 ==> r[c] as int == skin_mean(*img, c),
        forall|c: int| 0 <= c < 3 ==> r[c] <= 255,
{
    let len = img.data.len();
    let n = img.width * img.height;
    let ghost data = img.data@;
    let mut skin: [u128; 3] = [0, 0, 0];
    let mut all: [u128; 3] = [0, 0, 0];
    let mut skin_n: u128 = 0;
    let mut p: usize = 0;
    while p < n
        invariant
            data == img.data@,
            len == data.len(),
            len == n * 3,
            p <= n,
            skin_n == pixel_count(data, p as nat, true),
            forall|c: int| 0 <= c < 3 ==> #[trigger] skin[c] == channel_sum(data, p as nat, c, true),
            forall|c: int| 0 <= c < 3 ==> #[trigger] all[c] == channel_sum(data, p as nat, c, false),
        decreases n - p,
    {
        proof {
            lemma_sum_bounds(data, p as nat, 0, true);
            lemma_sum_bounds(data, p as nat, 1, true);
            lemma_sum_bounds(data, p as nat, 2, true);
            lemma_sum_bounds(data, p as nat, 0, false);
            lemma_sum_bounds(data, p as nat, 1, false);
            lemma_sum_bounds(data, p as nat, 2, false);
        }
        let b = img.data[3 * p];
        let g = img.data[3 * p + 1];
        let r = img.data[3 * p + 2];
        let hit = pixel_is_skin(b, g, r);
        all = [all[0] + b as u128, all[1] + g as u128, all[2] + r as u128];
        if hit {
            skin = [skin[0] + b as u128, skin[1] + g as u128, skin[2] + r as u128];
            skin_n = skin_n + 1;
        }
        proof {
            assert(is_skin_pixel(data, p as int) == hit);
            assert forall|c: int| 0 <= c < 3 implies #[trigger] skin[c] == channel_sum(
                data,
                (p + 1) as nat,
                c,
                true,
            ) by {
                assert(channel_sum(data, (p + 1) as nat, c, true) == channel_sum(data, p as nat, c, true)
                    + if counted(data, p as int, true) { data[3 * p + c] as int } else { 0 });
            }
            assert forall|c: int| 0 <= c < 3 implies #[trigger] all[c] == channel_sum(
                data,
                (p + 1) as nat,
                c,
                false,
            ) by {
                assert(channel_sum(data, (p + 1) as nat, c, false) == channel_sum(data, p as nat, c, false)
                    + data[3 * p + c] as int);
            }
        }
        p = p + 1;
    }
    let mut means: [u64; 3] = [0, 0, 0];
    let mut c: usize = 0;
    while c < 3
        invariant
            c <= 3,
            data == img.data@,
            n == img.width * img.height,
            skin_n == pixel_count(data, n as nat, true),
            forall|k: int| 0 <= k < 3 ==> #[trigger] skin[k] == channel_sum(data, n as nat, k, true),
            forall|k: int| 0 <= k < 3 ==> #[trigger] all[k] == channel_sum(data, n as nat, k, false),
            forall|k: int| 0 <= k < c ==> #[trigger] means[k] as int == skin_mean(*img, k),
            forall|k: int| 0 <= k < c ==> #[trigger] means[k] <= 255,
        decreases 3 - c,
    {
        proof {
            lemma_sum_bounds(data, n as nat, c as int, true);
            lemma_sum_bounds(data, n as nat, c as int, false);
            if skin_n > 0 {
                lemma_mean_bound(channel_sum(data, n as nat, c as int, true), skin_n as int);
            }
            if n > 0 {
                lemma_mean_bound(channel_sum(data, n as nat, c as int, false), n as int);
            }
        }
        let m: u128 = if skin_n > 0 {
            skin[c] / skin_n
        } else if n > 0 {
            all[c] / n as u128
        } else {
            0
        };
        means[c] = m as u64;
        c = c + 1;
    }
    means
}

/// Whether the pixel with channels `b`, `g`, `r` has a skin-tone chroma.
pub fn pixel_is_skin(b: u8, g: u8, r: u8) -> (s: bool)
    ensures
        s == is_skin(b as int, g as int, r as int),
{
    let y: i64 = (b as i64 * 1868 + g as i64 * 9617 + r as i64 * 4899 + 8192) / 16384;
    let cr_num: i64 = (r as i64 - y) * 11682 + 128 * 16384 + 8192;
    let cb_num: i64 = (b as i64 - y) * 9241 + 128 * 16384 + 8192;
    let cr: i64 = if cr_num < 0 {
        0
    } else if cr_num / 16384 > 255 {
        255
    } else {
        cr_num / 16384
    };
    let cb: i64 = if cb_num < 0 {
        0
    } else if cb_num / 16384 > 255 {
        255
    } else {
        cb_num / 16384
    };
    SKIN_CR_LOW <= cr && cr <= SKIN_CR_HIGH && SKIN_CB_LOW <= cb && cb <= SKIN_CB_HIGH
}

/// The integer square root of `v`.
pub fn int_sqrt(v: u32) -> (r: u64)
    ensures
        is_int_sqrt(r as int, v as int),
{
    let mut r: u64 = 0;
    while (r + 1) * (r + 1) <= v as u64
        invariant
            r * r <= v,
            r <= 65536,
            (r + 1) * (r + 1) <= 65537 * 65537,
        decreases v - r * r,
    {
        proof {
            assert(r * r < (r + 1) * (r + 1)) by (nonlinear_arith)
                requires
                    r >= 0,
            ;
            assert(r + 1 <= 65536) by (nonlinear_arith)
                requires
                    (r + 1) * (r + 1) <= v,
                    v <= u32::MAX,
                    r >= 0,
            ;
            assert((r + 2) * (r + 2) <= 65537 * 65537) by (nonlinear_arith)
                requires
                    0 <= r + 1 <= 65536,
            ;
        }
        r = r + 1;
    }
    r
}

/// The correction strength, in thousandths, for skin-tone distance `d`.
pub fn strength_for_distance(d: u32) -> (r: u64)
    ensures
        r == strength_for(d as int),
        r < MAX_STRENGTH_PERMILLE,
{
    proof {
        lemma_strength_law(d as int, d as int);
    }
    MAX_STRENGTH_PERMILLE * d as u64 / (d as u64 + HALF_STRENGTH_DISTANCE)
}

/// The strength with which `source`'s skin colour is moved toward
/// `target`'s, in thousandths: `700 * d / (d + 40)` rounded down, where the
/// skin-tone distance `d` is the Euclidean distance of the two integer skin
/// means, rounded down.
pub fn estimate_strength(source: &Image, target: &Image) -> (r: u64)
    requires
        is_color_image(*source),
        is_color_image(*target),
    ensures
        r == strength_for(skin_distance(*source, *target)),
        r < MAX_STRENGTH_PERMILLE,
{
    let ms = skin_means(source);
    let mt = skin_means(target);
    let d0: i64 = mt[0] as i64 - ms[0] as i64;
    let d1: i64 = mt[1] as i64 - ms[1] as i64;
    let d2: i64 = mt[2] as i64 - ms[2] as i64;
    proof {
        assert(d0 * d0 <= 65025 && d1 * d1 <= 65025 && d2 * d2 <= 65025) by (nonlinear_arith)
            requires
                -255 <= d0 <= 255,
                -255 <= d1 <= 255,
                -255 <= d2 <= 255,
        ;
        assert(d0 * d0 >= 0 && d1 * d1 >= 0 && d2 * d2 >= 0) by (nonlinear_arith);
    }
    let squared = (d0 * d0 + d1 * d1 + d2 * d2) as u32;
    let d = int_sqrt(squared);
    proof {
        assert(squared == skin_distance_squared(*source, *target));
        lemma_int_sqrt_unique(d as int, skin_distance(*source, *target), squared as int);
        assert(d <= 65536) by (nonlinear_arith)
            requires
                d * d <= u32::MAX,
        ;
    }
    strength_for_distance(d as u32)
}

/// Moves every sample of `source` by the difference between `target`'s and
/// `source`'s skin means in its channel, scaled by `strength` thousandths.
pub fn apply_shift(source: &Image, target: &Image, strength: u32) -> (out: Image)
    requires
        is_color_image(*source),
        is_color_image(*target),
    ensures
        is_color_image(out),
        out.width == source.width,
        out.height == source.height,
        forall|i: int|
            0 <= i < out.data@.len() ==> #[trigger] out.data@[i] == shifted(
                source.data@[i] as int,
                skin_mean(*target, i % 3) - skin_mean(*source, i % 3),
                strength as int,
            ),
{
    let ms = skin_means(source);
    let mt = skin_means(target);
    let n = source.data.len();
    let mut data: Vec<u8> = Vec::with_capacity(n);
    let mut i: usize = 0;
    while i < n
        invariant
            n == source.data@.len(),
            i <= n,
            data@.len() == i,
            forall|c: int| 0 <= c < 3 ==> #[trigger] ms[c] as int == skin_mean(*source, c),
            forall|c: int| 0 <= c < 3 ==> #[trigger] mt[c] as int == skin_mean(*target, c),
            forall|c: int| 0 <= c < 3 ==> #[trigger] ms[c] <= 255,
            forall|c: int| 0 <= c < 3 ==> #[trigger] mt[c] <= 255,
            forall|j: int|
                0 <= j < i ==> #[trigger] data@[j] == shifted(
                    source.data@[j] as int,
                    skin_mean(*target, j % 3) - skin_mean(*source, j % 3),
                    strength as int,
                ),
        decreases n - i,
    {
        let c = i % 3;
        let delta: i64 = mt[c] as i64 - ms[c] as i64;
        proof {
            assert(-255 * u32::MAX <= delta * strength <= 255 * u32::MAX) by (nonlinear_arith)
                requires
                    -255 <= delta <= 255,
                    0 <= strength <= u32::MAX,
            ;
        }
        let v: i64 = 1000 * source.data[i] as i64 + delta * strength as i64 + 500;
        let t: u8 = if v < 0 {
            0
        } else if v / 1000 > 255 {
            255
        } else {
            (v / 1000) as u8
        };
        data.push(t);
        i = i + 1;
    }
    proof {
        assert(data@.len() == source.width * source.height * 3);
    }
    Image { width: source.width, height: source.height, channels: 3, data }
}

/// The strength grows with the distance, starts at zero, and stays below its
/// maximum.
pub proof fn lemma_strength_law(d1: int, d2: int)
    requires
        0 <= d1 <= d2,
    ensures
        strength_for(d1) <= strength_for(d2),
        0 <= strength_for(d1),
        strength_for(d2) < MAX_STRENGTH_PERMILLE,
        strength_for(0) == 0,
{
    let b = d1 + 40;
    let e = d2 + 40;
    let q = (700 * d1) / b;
    let q2 = (700 * d2) / e;
    vstd::arithmetic::div_mod::lemma_fundamental_div_mod(700 * d1, b);
    vstd::arithmetic::div_mod::lemma_mod_pos_bound(700 * d1, b);
    vstd::arithmetic::div_mod::lemma_fundamental_div_mod(700 * d2, e);
    vstd::arithmetic::div_mod::lemma_mod_pos_bound(700 * d2, e);
    vstd::arithmetic::div_mod::lemma_div_pos_is_pos(700 * d1, b);
    vstd::arithmetic::div_mod::lemma_div_pos_is_pos(700 * d2, e);
    assert(q < 700) by (nonlinear_arith)
        requires
            700 * d1 == b * q + (700 * d1) % b,
            0 <= (700 * d1) % b,
            b == d1 + 40,
            d1 >= 0,
    ;
    assert(q2 < 700) by (nonlinear_arith)
        requires
            700 * d2 == e * q2 + (700 * d2) % e,
            0 <= (700 * d2) % e,
            e == d2 + 40,
            d2 >= 0,
    ;
    assert(q * e <= 700 * d2) by (nonlinear_arith)
        requires
            b * q <= 700 * d1,
            e == b + (d2 - d1),
            d2 - d1 >= 0,
            0 <= q < 700,
    ;
    assert(q <= q2) by (nonlinear_arith)
        requires
            q * e <= 700 * d2,
            700 * d2 == e * q2 + (700 * d2) % e,
            (700 * d2) % e < e,
            e > 0,
    ;
}

/// Two crops with the same skin means are zero apart, get no correction, and
/// any shift between them leaves every sample as it is.
pub proof fn lemma_equal_skin_means(source: Image, target: Image)
    requires
        forall|c: int| 0 <= c < 3 ==> skin_mean(source, c) == skin_mean(target, c),
    ensures
        skin_distance(source, target) == 0,
        strength_for(skin_distance(source, target)) == 0,
        forall|v: int, c: int, s: int|
            0 <= v <= 255 && 0 <= c < 3 && 0 <= s ==> #[trigger] shifted(
                v,
                skin_mean(target, c) - skin_mean(source, c),
                s,
            ) == v,
{
    assert(skin_distance_squared(source, target) == 0) by {
        assert(skin_mean(source, 0) == skin_mean(target, 0));
        assert(skin_mean(source, 1) == skin_mean(target, 1));
        assert(skin_mean(source, 2) == skin_mean(target, 2));
    }
    assert(is_int_sqrt(0, 0));
    lemma_int_sqrt_unique(0, skin_distance(source, target), 0);
    assert forall|v: int, c: int, s: int|
        0 <= v <= 255 && 0 <= c < 3 && 0 <= s implies #[trigger] shifted(
        v,
        skin_mean(target, c) - skin_mean(source, c),
        s,
    ) == v by {
        assert(skin_mean(target, c) - skin_mean(source, c) == 0);
        assert((1000 * v + 0 * s + 500) / 1000 == v);
    }
}

} // verus!
