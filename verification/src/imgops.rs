//! Integer image operations of the OCR pipeline: RGB buffers, 90/180 degree
//! rotations, 2x2 dilation of a binary mask, RGBA input validation and RGB
//! extraction, and the multiple-of-32 rounding of detection sizes.

use vstd::prelude::*;
use vstd::arithmetic::div_mod::{lemma_fundamental_div_mod, lemma_fundamental_div_mod_converse, lemma_mod_pos_bound};
use crate::error::AppError;
use crate::server::{decimal, decimal_string};
use crate::text::concat;

verus! {

/// Pixel `p` of a buffer of `w`-wide rows is at column `p % w`, row `p / w`.
pub(crate) proof fn lemma_pixel_coords(p: int, w: int, h: int)
    requires
        0 < w,
        0 <= p < w * h,
    ensures
        p == (p / w) * w + p % w,
        0 <= p % w < w,
        0 <= p / w < h,
{
    lemma_fundamental_div_mod(p, w);
    lemma_mod_pos_bound(p, w);
    assert(p / w >= 0) by (nonlinear_arith)
        requires 0 <= p, 0 < w, p == w * (p / w) + p % w, 0 <= p % w < w;
    assert(p / w < h) by (nonlinear_arith)
        requires p < w * h, 0 < w, p == w * (p / w) + p % w, 0 <= p % w < w;
    assert((p / w) * w == w * (p / w)) by (nonlinear_arith);
}

/// Coordinates determine the pixel index.
pub(crate) proof fn lemma_coords_pixel(x: int, y: int, w: int, h: int)
    requires
        0 <= x < w,
        0 <= y < h,
    ensures
        0 <= y * w + x < w * h,
        (y * w + x) / w == y,
        (y * w + x) % w == x,
{
    assert(0 <= y * w + x < w * h) by (nonlinear_arith)
        requires 0 <= x < w, 0 <= y < h;
    lemma_fundamental_div_mod_converse(y * w + x, w, y, x);
}

/// RGB buffer (row-major, 3 bytes per pixel).
#[derive(Debug, Clone)]
pub struct ImgBuf {
    /// Pixel bytes.
    pub pixels: Vec<u8>,
    /// Width.
    pub w: u32,
    /// Height.
    pub h: u32,
}

impl ImgBuf {
    /// The buffer holds exactly `w * h` RGB pixels, addressable in 32 bits.
    pub open spec fn wf(&self) -> bool {
        &&& self.pixels@.len() == self.w * self.h * 3
        &&& self.w * self.h * 3 <= u32::MAX
    }

    /// Channel `c` of the pixel at column `x`, row `y`.
    pub open spec fn at(&self, x: int, y: int, c: int) -> u8 {
        self.pixels@[(y * self.w + x) * 3 + c]
    }

    /// Wraps a pixel buffer of the stated size.
    pub fn new(pixels: Vec<u8>, w: u32, h: u32) -> (b: Self)
        requires
            pixels@.len() == w * h * 3,
            w * h * 3 <= u32::MAX,
        ensures
            b.wf(),
            b.pixels@ == pixels@,
            b.w == w,
            b.h == h,
    {
        ImgBuf { pixels, w, h }
    }

    /// Byte offset of pixel `(x, y)`.
    fn off(&self, x: u32, y: u32) -> (o: usize)
        requires
            self.wf(),
            x < self.w,
            y < self.h,
        ensures
            o == (y * self.w + x) * 3,
            o + 3 <= self.pixels@.len(),
    {
        proof {
            lemma_coords_pixel(x as int, y as int, self.w as int, self.h as int);
            assert((y * self.w + x) * 3 + 3 <= self.w * self.h * 3) by (nonlinear_arith)
                requires y * self.w + x < self.w * self.h;
        }
        ((y as usize) * (self.w as usize) + (x as usize)) * 3
    }

    /// The RGB value at `(x, y)`.
    pub fn rgb_at(&self, x: u32, y: u32) -> (px: [u8; 3])
        requires
            self.wf(),
            x < self.w,
            y < self.h,
        ensures
            px@ == seq![self.at(x as int, y as int, 0), self.at(x as int, y as int, 1), self.at(x as int, y as int, 2)],
    {
        let i = self.off(x, y);
        [self.pixels[i], self.pixels[i + 1], self.pixels[i + 2]]
    }
}

/// Rotates 90 degrees counter-clockwise (`np.rot90`, k = 1): the result is
/// `h` wide and `w` high, and `out[y][x] = src[x][w - 1 - y]`.
pub fn rot90_ccw(img: &ImgBuf) -> (r: ImgBuf)
    requires
        img.wf(),
    ensures
        r.wf(),
        r.w == img.h,
        r.h == img.w,
        forall|x: int, y: int, c: int|
            0 <= x < r.w && 0 <= y < r.h && 0 <= c < 3 ==> #[trigger] r.at(x, y, c) == img.at(img.w - 1 - y, x, c),
{
    let w = img.w;
    let h = img.h;
    let n: usize = (w as usize) * (h as usize);
    let mut out: Vec<u8> = Vec::new();
    let mut p: usize = 0;
    // output pixel p sits at row y = p / h, column x = p % h
    while p < n
        invariant
            img.wf(),
            w == img.w,
            h == img.h,
            n == w * h,
            p <= n,
            out@.len() == 3 * p,
            forall|q: int, c: int|
                0 <= q < p && 0 <= c < 3 ==> #[trigger] out@[3 * q + c] == img.at(w - 1 - q / (h as int), q % (h as int), c),
        decreases n - p,
    {
        proof {
            assert(h > 0 && w > 0) by (nonlinear_arith)
                requires p < n, n == w * h;
            assert(p < (h as int) * (w as int)) by (nonlinear_arith)
                requires p < n, n == w * h;
            lemma_pixel_coords(p as int, h as int, w as int);
        }
        let y = (p / (h as usize)) as u32;
        let x = (p % (h as usize)) as u32;
        let src = img.off(w - 1 - y, x);
        let ghost before = out@;
        out.push(img.pixels[src]);
        out.push(img.pixels[src + 1]);
        out.push(img.pixels[src + 2]);
        proof {
            assert forall|q: int, c: int|
                0 <= q < p + 1 && 0 <= c < 3 implies #[trigger] out@[3 * q + c] == img.at(
                w - 1 - q / (h as int),
                q % (h as int),
                c,
            ) by {
                if q < p {
                    assert(out@[3 * q + c] == before[3 * q + c]);
                }
            }
        }
        p += 1;
    }
    proof {
        assert(out@.len() == (h as int) * (w as int) * 3) by (nonlinear_arith)
            requires out@.len() == 3 * p, p == n, n == w * h;
        assert(w * h * 3 == (h as int) * (w as int) * 3) by (nonlinear_arith);
        assert forall|x: int, y: int, c: int|
            0 <= x < h && 0 <= y < w && 0 <= c < 3 implies #[trigger] out@[(y * (h as int) + x) * 3 + c] == img.at(
            w - 1 - y,
            x,
            c,
        ) by {
            lemma_coords_pixel(x, y, h as int, w as int);
            let q = y * (h as int) + x;
            assert((y * (h as int) + x) * 3 + c == 3 * q + c);
        }
    }
    ImgBuf { pixels: out, w: h, h: w }
}

/// Rotates 180 degrees: `out[y][x] = src[h - 1 - y][w - 1 - x]`.
pub fn rot180(img: &ImgBuf) -> (r: ImgBuf)
    requires
        img.wf(),
    ensures
        r.wf(),
        r.w == img.w,
        r.h == img.h,
        forall|x: int, y: int, c: int|
            0 <= x < r.w && 0 <= y < r.h && 0 <= c < 3 ==> #[trigger] r.at(x, y, c) == img.at(img.w - 1 - x, img.h - 1 - y, c),
{
    let w = img.w;
    let h = img.h;
    let n: usize = (w as usize) * (h as usize);
    let mut out: Vec<u8> = Vec::new();
    let mut p: usize = 0;
    // output pixel p is source pixel n - 1 - p
    while p < n
        invariant
            img.wf(),
            w == img.w,
            h == img.h,
            n == w * h,
            p <= n,
            out@.len() == 3 * p,
            forall|q: int, c: int|
                0 <= q < p && 0 <= c < 3 ==> #[trigger] out@[3 * q + c] == img.pixels@[3 * (n - 1 - q) + c],
        decreases n - p,
    {
        let s = (n - 1 - p) * 3;
        proof {
            assert(s + 3 <= img.pixels@.len()) by (nonlinear_arith)
                requires s == (n - 1 - p) * 3, p < n, img.pixels@.len() == w * h * 3, n == w * h;
        }
        let ghost before = out@;
        out.push(img.pixels[s]);
        out.push(img.pixels[s + 1]);
        out.push(img.pixels[s + 2]);
        proof {
            assert forall|q: int, c: int|
                0 <= q < p + 1 && 0 <= c < 3 implies #[trigger] out@[3 * q + c] == img.pixels@[3 * (n - 1 - q) + c] by {
                if q < p {
                    assert(out@[3 * q + c] == before[3 * q + c]);
                }
            }
        }
        p += 1;
    }
    proof {
        assert forall|x: int, y: int, c: int|
            0 <= x < w && 0 <= y < h && 0 <= c < 3 implies #[trigger] out@[(y * (w as int) + x) * 3 + c] == img.at(
            w - 1 - x,
            h - 1 - y,
            c,
        ) by {
            lemma_coords_pixel(x, y, w as int, h as int);
            let q = y * (w as int) + x;
            assert((h - 1 - y) * (w as int) + (w - 1 - x) == n - 1 - q) by (nonlinear_arith)
                requires q == y * (w as int) + x, n == w * h;
            assert(((h - 1 - y) * (w as int) + (w - 1 - x)) * 3 + c == 3 * (n - 1 - q) + c);
            assert((y * (w as int) + x) * 3 + c == 3 * q + c);
        }
    }
    ImgBuf { pixels: out, w, h }
}

/// Value of the 2x2 dilation at `(x, y)`: the pixel or its left, upper or
/// upper-left neighbour (outside the image counts as unset).
pub open spec fn dilated(mask: Seq<bool>, w: int, x: int, y: int) -> bool {
    mask[y * w + x] || (x > 0 && mask[y * w + x - 1]) || (y > 0 && mask[(y - 1) * w + x]) || (x > 0 && y > 0
        && mask[(y - 1) * w + x - 1])
}

/// 2x2 dilation of a `w` x `h` mask (`cv2.dilate` with a 2x2 kernel, anchor (1,1)).
pub fn dilate_2x2(mask: &[bool], w: usize, h: usize) -> (out: Vec<bool>)
    requires
        mask.len() == w * h,
    ensures
        out@.len() == w * h,
        forall|x: int, y: int| 0 <= x < w && 0 <= y < h ==> #[trigger] out@[y * w + x] == dilated(mask@, w as int, x, y),
{
    let n = w * h;
    let mut out: Vec<bool> = Vec::new();
    let mut p: usize = 0;
    while p < n
        invariant
            mask.len() == w * h,
            n == w * h,
            p <= n,
            out@.len() == p,
            forall|q: int| 0 <= q < p ==> #[trigger] out@[q] == dilated(mask@, w as int, q % (w as int), q / (w as int)),
        decreases n - p,
    {
        proof {
            assert(w > 0) by (nonlinear_arith)
                requires p < n, n == w * h;
            lemma_pixel_coords(p as int, w as int, h as int);
        }
        let y = p / w;
        let x = p % w;
        proof {
            assert(p == y * w + x);
            assert(y > 0 ==> y * w >= w) by (nonlinear_arith)
                requires y >= 0, w > 0;
            assert(y > 0 ==> (y - 1) * w == y * w - w) by (nonlinear_arith);
        }
        let v = mask[p] || (x > 0 && mask[p - 1]) || (y > 0 && mask[p - w]) || (x > 0 && y > 0 && mask[p
            - w - 1]);
        out.push(v);
        p += 1;
    }
    proof {
        assert forall|x: int, y: int| 0 <= x < w && 0 <= y < h implies #[trigger] out@[y * w + x] == dilated(
            mask@,
            w as int,
            x,
            y,
        ) by {
            lemma_coords_pixel(x, y, w as int, h as int);
        }
    }
    out
}

/// Nearest integer to `v / 32`, ties to the even one.
pub open spec fn round_half_even_div32(v: int) -> int {
    let q = v / 32;
    let r = v % 32;
    if r < 16 { q } else if r > 16 { q + 1 } else if q % 2 == 0 { q } else { q + 1 }
}

/// Detection size rounding: the nearest multiple of 32 (ties to even), at least
/// 32, truncated to 32 bits. Exact while `|v| <= 2^53`, where `v as f64` is.
pub open spec fn round32_spec(v: int) -> u32 {
    let m = round_half_even_div32(v) * 32;
    let m2 = if m < 32 { 32 } else { m };
    (m2 % 0x1_0000_0000) as u32
}

/// Rounds a size to a multiple of 32 (at least 32).
pub fn round32(v: i64) -> (r: u32)
    requires
        -0x20_0000_0000_0000 <= v <= 0x20_0000_0000_0000,
    ensures
        r == round32_spec(v as int),
{
    let q = if v >= 0 { v / 32 } else { -((-v + 31) / 32) };
    let rem = v - q * 32;
    proof {
        lemma_fundamental_div_mod_converse(v as int, 32, q as int, rem as int);
    }
    let rq = if rem < 16 {
        q
    } else if rem > 16 {
        q + 1
    } else if q % 2 == 0 {
        q
    } else {
        q + 1
    };
    let m = rq * 32;
    let m2 = if m < 32 { 32 } else { m };
    (m2 % 0x1_0000_0000) as u32
}

/// Pixel limit of an OCR input (40 megapixels).
pub const MAX_PIXELS: u64 = 40_000_000;

/// Message of a zero dimension.
pub open spec fn invalid_size_message(w: u32, h: u32) -> Seq<char> {
    "plugin_ocr_recognize: invalid image size "@ + decimal(w as nat) + "x"@ + decimal(h as nat) + " (must be > 0)"@
}

/// Message of an image above the pixel limit.
pub open spec fn too_large_message(w: u32, h: u32) -> Seq<char> {
    "plugin_ocr_recognize: image too large "@ + decimal(w as nat) + "x"@ + decimal(h as nat) + " ("@ + decimal(
        (w * h) as nat,
    ) + " px, limit "@ + decimal(MAX_PIXELS as nat) + ")"@
}

/// Message of a byte count that does not match the size.
pub open spec fn mismatch_message(path: Seq<char>, len: nat, w: u32, h: u32) -> Seq<char> {
    "plugin_ocr_recognize: RGBA file "@ + path + " size mismatch: "@ + decimal(len) + " bytes, expected "@ + decimal(
        (w * h * 4) as nat,
    ) + " ("@ + decimal(w as nat) + "x"@ + decimal(h as nat) + "x4)"@
}

fn cat5(a: &str, b: &str, c: &str, d: &str, e: &str) -> (s: String)
    ensures
        s@ == a@ + b@ + c@ + d@ + e@,
{
    let ab = concat(a, b);
    let abc = concat(ab.as_str(), c);
    let abcd = concat(abc.as_str(), d);
    concat(abcd.as_str(), e)
}

/// RGBA8 image (row-major, no header).
#[derive(Debug)]
pub struct RgbaImage {
    /// Pixel bytes.
    pub pixels: Vec<u8>,
    /// Width.
    pub width: u32,
    /// Height.
    pub height: u32,
}

/// Accepted dimensions: both positive and at most 40 megapixels.
pub open spec fn size_ok(width: u32, height: u32) -> bool {
    width > 0 && height > 0 && width * height <= MAX_PIXELS
}

impl RgbaImage {
    /// Validates the declared size and returns the expected byte count
    /// (`width * height * 4`): both sides positive and at most 40 megapixels.
    pub fn validate_size(width: u32, height: u32) -> (r: Result<u64, AppError>)
        ensures
            r is Ok <==> size_ok(width, height),
            r matches Ok(n) ==> n == width * height * 4,
            (width == 0 || height == 0) ==> (r matches Err(AppError::InvalidInput(m)) && m@ == invalid_size_message(
                width,
                height,
            )),
            width > 0 && height > 0 && width * height > MAX_PIXELS ==> (r matches Err(AppError::InvalidInput(m))
                && m@ == too_large_message(width, height)),
    {
        if width == 0 || height == 0 {
            let m = cat5("plugin_ocr_recognize: invalid image size ", decimal_string(width as u64).as_str(), "x", decimal_string(height as u64).as_str(), " (must be > 0)");
            return Err(AppError::InvalidInput(m));
        }
        proof {
            assert((width as u64) * (height as u64) <= 0xffff_ffffu64 * 0xffff_ffffu64) by (nonlinear_arith)
                requires width <= 0xffff_ffffu64, height <= 0xffff_ffffu64;
        }
        let pixels = (width as u64) * (height as u64);
        if pixels > MAX_PIXELS {
            let head = cat5("plugin_ocr_recognize: image too large ", decimal_string(width as u64).as_str(), "x", decimal_string(height as u64).as_str(), " (");
            let m = cat5(head.as_str(), decimal_string(pixels).as_str(), " px, limit ", decimal_string(MAX_PIXELS).as_str(), ")");
            return Err(AppError::InvalidInput(m));
        }
        Ok(pixels * 4)
    }

    /// Builds an image from the raw RGBA bytes read from `path`: the size
    /// must be valid and the byte count exactly `width * height * 4`.
    pub fn from_rgba_bytes(path: &str, data: Vec<u8>, width: u32, height: u32) -> (r: Result<Self, AppError>)
        ensures
            r is Ok <==> size_ok(width, height) && data@.len() == width * height * 4,
            r matches Ok(img) ==> img.pixels@ == data@ && img.width == width && img.height == height,
            r matches Err(e) ==> e is InvalidInput,
            (width == 0 || height == 0) ==> (r matches Err(AppError::InvalidInput(m)) && m@ == invalid_size_message(
                width,
                height,
            )),
            width > 0 && height > 0 && width * height > MAX_PIXELS ==> (r matches Err(AppError::InvalidInput(m))
                && m@ == too_large_message(width, height)),
            size_ok(width, height) && data@.len() != width * height * 4 ==> (r matches Err(AppError::InvalidInput(m))
                && m@ == mismatch_message(path@, data@.len() as nat, width, height)),
    {
        let expected = match Self::validate_size(width, height) {
            Ok(n) => n,
            Err(e) => return Err(e),
        };
        if data.len() as u64 != expected {
            let head = cat5("plugin_ocr_recognize: RGBA file ", path, " size mismatch: ", decimal_string(data.len() as u64).as_str(), " bytes, expected ");
            let mid = cat5(head.as_str(), decimal_string(expected).as_str(), " (", decimal_string(width as u64).as_str(), "x");
            let m = cat5(mid.as_str(), decimal_string(height as u64).as_str(), "x4)", "", "");
            proof {
                reveal_strlit("");
                assert(m@ == mismatch_message(path@, data@.len() as nat, width, height));
            }
            return Err(AppError::InvalidInput(m));
        }
        Ok(RgbaImage { pixels: data, width, height })
    }

    /// RGB bytes (alpha dropped): the first three bytes of every complete
    /// 4-byte pixel.
    pub fn to_rgb(&self) -> (out: Vec<u8>)
        ensures
            out@.len() == (self.pixels@.len() / 4) * 3,
            forall|i: int, c: int|
                0 <= i < self.pixels@.len() / 4 && 0 <= c < 3 ==> #[trigger] out@[3 * i + c] == self.pixels@[4 * i + c],
    {
        let n = self.pixels.len() / 4;
        let mut out: Vec<u8> = Vec::new();
        let mut i: usize = 0;
        while i < n
            invariant
                n == self.pixels@.len() / 4,
                i <= n,
                out@.len() == 3 * i,
                forall|k: int, c: int| 0 <= k < i && 0 <= c < 3 ==> #[trigger] out@[3 * k + c] == self.pixels@[4 * k + c],
            decreases n - i,
        {
            proof {
                assert(4 * i + 3 < self.pixels.len());
            }
            let ghost before = out@;
            out.push(self.pixels[4 * i]);
            out.push(self.pixels[4 * i + 1]);
            out.push(self.pixels[4 * i + 2]);
            proof {
                assert forall|k: int, c: int| 0 <= k < i + 1 && 0 <= c < 3 implies #[trigger] out@[3 * k + c]
                    == self.pixels@[4 * k + c] by {
                    if k < i {
                        assert(out@[3 * k + c] == before[3 * k + c]);
                    }
                }
            }
            i += 1;
        }
        out
    }
}

} // verus!
