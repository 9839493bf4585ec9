//! Pixel buffers: colour images and single-channel masks, row-major with the
//! origin at the top left.
use vstd::prelude::*;
use crate::geometry::{Rect, lies_within};

verus! {

/// An 8-bit image of `width` x `height` pixels with `channels` samples each.
#[derive(Clone, Debug)]
pub struct Image {
    pub width: usize,
    pub height: usize,
    pub channels: usize,
    pub data: Vec<u8>,
}

/// A single-channel 8-bit buffer: a label map or an opacity mask.
#[derive(Clone, Debug)]
pub struct Mask {
    pub width: usize,
    pub height: usize,
    pub data: Vec<u8>,
}

impl Image {
    /// The buffer holds exactly one sample per pixel and channel.
    pub open spec fn wf(&self) -> bool {
        &&& self.channels >= 1
        &&& self.data@.len() == self.width * self.height * self.channels
    }

    /// The number of samples in one row.
    pub open spec fn stride(&self) -> int {
        self.width * self.channels
    }

    /// Channel `c` of the pixel at column `x`, row `y`.
    pub open spec fn at(&self, x: int, y: int, c: int) -> u8 {
        self.data@[y * self.stride() + x * self.channels + c]
    }

    /// Builds an image from its samples, or `None` when their number does not
    /// match the dimensions.
    pub fn from_raw(width: usize, height: usize, channels: usize, data: Vec<u8>) -> (r: Option<
        Image,
    >)
        ensures
            r is Some <==> (channels >= 1 && data@.len() == width * height * channels),
            r is Some ==> r->Some_0.wf() && r->Some_0.width == width && r->Some_0.height
                == height && r->Some_0.channels == channels && r->Some_0.data@ == data@,
    {
        let len = data.len();
        if channels == 0 {
            return None;
        }
        match width.checked_mul(height) {
            None => {
                proof {
                    lemma_mul_grows(width as int * height as int, channels as int);
                }
                None
            },
            Some(wh) => match wh.checked_mul(channels) {
                None => None,
                Some(n) => {
                    if n == data.len() {
                        Some(Image { width, height, channels, data })
                    } else {
                        None
                    }
                },
            },
        }
    }

    /// An image whose every sample is `value`.
    pub fn filled(width: usize, height: usize, channels: usize, value: u8) -> (r: Image)
        requires
            channels >= 1,
            width * height * channels <= usize::MAX,
        ensures
            r.wf(),
            r.width == width,
            r.height == height,
            r.channels == channels,
            forall|i: int| 0 <= i < r.data@.len() ==> r.data@[i] == value,
    {
        proof {
            lemma_mul_grows(width as int * height as int, channels as int);
        }
        let n = width * height * channels;
        let mut data: Vec<u8> = Vec::with_capacity(n);
        let mut i: usize = 0;
        while i < n
            invariant
                i <= n,
                data@.len() == i,
                forall|j: int| 0 <= j < i ==> data@[j] == value,
            decreases n - i,
        {
            data.push(value);
            i = i + 1;
        }
        Image { width, height, channels, data }
    }
}

impl Mask {
    /// The buffer holds exactly one value per pixel.
    pub open spec fn wf(&self) -> bool {
        self.data@.len() == self.width * self.height
    }

    /// The value at column `x`, row `y`.
    pub open spec fn at(&self, x: int, y: int) -> u8 {
        self.data@[y * self.width + x]
    }

    /// Builds a mask from its values, or `None` when their number does not
    /// match the dimensions.
    pub fn from_raw(width: usize, height: usize, data: Vec<u8>) -> (r: Option<Mask>)
        ensures
            r is Some <==> data@.len() == width * height,
            r is Some ==> r->Some_0.wf() && r->Some_0.width == width && r->Some_0.height
                == height && r->Some_0.data@ == data@,
    {
        let len = data.len();
        match width.checked_mul(height) {
            None => None,
            Some(n) => {
                if n == data.len() {
                    Some(Mask { width, height, data })
                } else {
                    None
                }
            },
        }
    }

    /// A mask whose every value is `value`.
    pub fn filled(width: usize, height: usize, value: u8) -> (r: Mask)
        requires
            width * height <= usize::MAX,
        ensures
            r.wf(),
            r.width == width,
            r.height == height,
            forall|i: int| 0 <= i < r.data@.len() ==> r.data@[i] == value,
    {
        let n = width * height;
        let mut data: Vec<u8> = Vec::with_capacity(n);
        let mut i: usize = 0;
        while i < n
            invariant
                i <= n,
                data@.len() == i,
                forall|j: int| 0 <= j < i ==> data@[j] == value,
            decreases n - i,
        {
            data.push(value);
            i = i + 1;
        }
        Mask { width, height, data }
    }
}

pub proof fn lemma_mul_grows(a: int, b: int) by (nonlinear_arith)
    requires
        a >= 0,
        b >= 1,
    ensures
        a <= a * b,
{
}

/// An index into a row-major buffer stays below its length.
pub proof fn lemma_row_index(row: int, rows: int, stride: int, col: int) by (nonlinear_arith)
    requires
        0 <= row < rows,
        0 <= col < stride,
    ensures
        0 <= row * stride + col < rows * stride,
        0 <= row * stride,
        row * stride + stride <= rows * stride,
{
}

/// Where a pixel's sample lies inside its row.
pub proof fn lemma_pixel_in_row(x: int, width: int, c: int, channels: int) by (nonlinear_arith)
    requires
        0 <= x < width,
        0 <= c < channels,
    ensures
        0 <= x * channels + c < width * channels,
        x * channels + channels <= width * channels,
{
}

/// Where the sample at position `i` of a crop of `row` samples per row,
/// taken at sample `left` of row `top`, lies in a buffer of `stride` samples
/// per row.
pub open spec fn crop_source(i: int, row: int, stride: int, top: int, left: int) -> int {
    (top + i / row) * stride + left + i % row
}

/// Splits a position in a row-major buffer into its row and column.
pub proof fn lemma_split_index(i: int, d: int, n: int)
    requires
        0 <= i < n * d,
        d > 0,
    ensures
        0 <= i / d < n,
        0 <= i % d < d,
        i == (i / d) * d + i % d,
{
    vstd::arithmetic::div_mod::lemma_fundamental_div_mod(i, d);
    vstd::arithmetic::div_mod::lemma_mod_pos_bound(i, d);
    vstd::arithmetic::div_mod::lemma_div_pos_is_pos(i, d);
    let q = i / d;
    assert(q * d == d * q) by (nonlinear_arith);
    assert(q < n) by (nonlinear_arith)
        requires
            q * d <= i,
            i < n * d,
            d > 0,
    ;
}

/// Copies the part of `img` that `r` covers into an image of its own.
pub fn crop(img: &Image, r: Rect) -> (out: Image)
    requires
        img.wf(),
        lies_within(r, img.width as int, img.height as int),
    ensures
        out.wf(),
        out.width == r.width,
        out.height == r.height,
        out.channels == img.channels,
        forall|x: int, y: int, c: int|
            0 <= x < r.width && 0 <= y < r.height && 0 <= c < img.channels ==> #[trigger] out.at(
                x,
                y,
                c,
            ) == img.at(r.x + x, r.y + y, c),
{
    let ch = img.channels;
    let total = img.data.len();
    let rx = r.x as usize;
    let ry = r.y as usize;
    let rw = r.width as usize;
    let rh = r.height as usize;
    let ghost len = img.data@.len() as int;
    proof {
        let (w, h) = (img.width as int, img.height as int);
        assert(len == h * (w * ch)) by (nonlinear_arith)
            requires
                len == w * h * ch,
        ;
        lemma_mul_grows(w * ch, h);
        assert(h * (w * ch) == (w * ch) * h) by (nonlinear_arith);
        assert(w * ch >= 1) by (nonlinear_arith)
            requires
                w >= 1,
                ch >= 1,
        ;
        assert(rx * ch + rw * ch <= w * ch) by (nonlinear_arith)
            requires
                rx + rw <= w,
                ch >= 1,
        ;
        assert(rw * ch >= 1) by (nonlinear_arith)
            requires
                rw >= 1,
                ch >= 1,
        ;
        assert(rh * (rw * ch) <= h * (w * ch)) by (nonlinear_arith)
            requires
                rh <= h,
                rw * ch <= w * ch,
                rw * ch >= 0,
        ;
    }
    let stride = img.width * ch;
    let left = rx * ch;
    let row = rw * ch;
    let n = rh * row;
    let mut data: Vec<u8> = Vec::with_capacity(n);
    let mut i: usize = 0;
    while i < n
        invariant
            img.wf(),
            len == img.data@.len(),
            len <= usize::MAX,
            len == img.height * stride,
            stride >= 1,
            row >= 1,
            left + row <= stride,
            ry + rh <= img.height,
            n == rh * row,
            i <= n,
            data@.len() == i,
            forall|j: int|
                0 <= j < i ==> #[trigger] data@[j] == img.data@[crop_source(
                    j,
                    row as int,
                    stride as int,
                    ry as int,
                    left as int,
                )],
        decreases n - i,
    {
        let a = i / row;
        let k = i % row;
        proof {
            lemma_split_index(i as int, row as int, rh as int);
            lemma_row_index(ry + a, img.height as int, stride as int, left + k);
        }
        let src = (ry + a) * stride + left + k;
        data.push(img.data[src]);
        i = i + 1;
    }
    let out = Image { width: rw, height: rh, channels: ch, data };
    proof {
        assert(rw * rh * ch == rh * (rw * ch)) by (nonlinear_arith);
        assert forall|x: int, y: int, c: int|
            0 <= x < r.width && 0 <= y < r.height && 0 <= c < img.channels implies #[trigger] out.at(
                x,
                y,
                c,
            ) == img.at(r.x + x, r.y + y, c) by {
            lemma_pixel_in_row(x, rw as int, c, ch as int);
            assert((rx + x) * ch == rx * ch + x * ch) by (nonlinear_arith);
            let k = x * ch + c;
            let j = y * row + k;
            vstd::arithmetic::div_mod::lemma_fundamental_div_mod_converse(j, row as int, y, k);
            lemma_row_index(y, rh as int, row as int, k);
        }
    }
    out
}

} // verus!
