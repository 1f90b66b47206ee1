//! Camera image planes as they travel between nodes: rows of `stride_bytes` bytes, each
//! holding `width` pixels in the plane's pixel format. Decoding 16-bit depth planes and
//! converting color planes to packed RGB.
use vstd::prelude::*;
use crate::simulated_camera::le_bytes_spec;
use crate::text::{owned, str_eq};

verus! {

/// One image plane of a camera frame.
pub struct ImagePlane {
    pub width: u32,
    pub height: u32,
    pub stride_bytes: u32,
    pub pixel_format: String,
    pub data: Vec<u8>,
}

/// Why a plane cannot be decoded.
pub enum PlaneError {
    UnsupportedDepthEncoding(String),
    UnsupportedColorEncoding(String),
    StrideShorterThanRow,
}

pub open spec fn plane_error_text(e: PlaneError) -> Seq<char> {
    match e {
        PlaneError::UnsupportedDepthEncoding(f) => "不支持的深度编码 "@ + f@,
        PlaneError::UnsupportedColorEncoding(f) => "不支持的彩色图编码 "@ + f@,
        PlaneError::StrideShorterThanRow => "图像 stride 小于像素行宽"@,
    }
}

impl PlaneError {
    /// The message reported for the error.
    pub fn message(&self) -> (res: String)
        ensures
            res@ == plane_error_text(*self),
    {
        match self {
            PlaneError::UnsupportedDepthEncoding(f) => {
                let mut m = owned("不支持的深度编码 ");
                m.append(f.as_str());
                m
            },
            PlaneError::UnsupportedColorEncoding(f) => {
                let mut m = owned("不支持的彩色图编码 ");
                m.append(f.as_str());
                m
            },
            PlaneError::StrideShorterThanRow => owned("图像 stride 小于像素行宽"),
        }
    }
}

/// The number of whole rows in the plane's data.
pub open spec fn full_rows(p: ImagePlane) -> int {
    p.data@.len() as int / p.stride_bytes as int
}

/// A 16-bit value from two bytes, least significant first.
pub open spec fn from_le(lo: u8, hi: u8) -> u16 {
    (lo + 256 * hi) as u16
}

/// A 16-bit value from two bytes, most significant first.
pub open spec fn from_be(hi: u8, lo: u8) -> u16 {
    (256 * hi + lo) as u16
}

pub open spec fn depth_encoding(f: Seq<char>) -> bool {
    f == "z16le"@ || f == "z16be"@
}

/// The depth value at column `c` of row `r`.
pub open spec fn depth_at(p: ImagePlane, r: int, c: int) -> u16 {
    let i = r * p.stride_bytes + 2 * c;
    if p.pixel_format@ == "z16le"@ {
        from_le(p.data@[i], p.data@[i + 1])
    } else {
        from_be(p.data@[i], p.data@[i + 1])
    }
}

proof fn lemma_in_row(r: int, c: int, rows: int, stride: int, len: int, width: int, bpp: int)
    requires
        0 <= r < rows,
        0 <= c < width,
        1 <= bpp,
        width * bpp <= stride,
        0 < stride,
        rows == len / stride,
        0 <= len,
    ensures
        0 <= r * stride + bpp * c,
        r * stride + bpp * c + bpp <= len,
        r * stride + bpp * c + bpp <= (r + 1) * stride,
{
    assert(rows * stride <= len) by (nonlinear_arith)
        requires
            rows == len / stride,
            0 < stride,
            0 <= len,
    ;
    assert(bpp * c + bpp <= width * bpp) by (nonlinear_arith)
        requires
            0 <= c < width,
            1 <= bpp,
    ;
    assert((r + 1) * stride <= rows * stride) by (nonlinear_arith)
        requires
            r + 1 <= rows,
            0 < stride,
    ;
    assert((r + 1) * stride == r * stride + stride) by (nonlinear_arith);
    assert(0 <= r * stride) by (nonlinear_arith)
        requires
            0 <= r,
            0 < stride,
    ;
    assert(0 <= bpp * c) by (nonlinear_arith)
        requires
            0 <= c,
            1 <= bpp,
    ;
}

/// Decodes a 16-bit depth plane (`z16le` or `z16be`): the first `width` values of each
/// whole row of `stride_bytes` bytes, row after row. A trailing partial row is ignored.
pub fn decode_depth(plane: &ImagePlane) -> (res: Result<Vec<u16>, PlaneError>)
    requires
        depth_encoding(plane.pixel_format@) ==> plane.stride_bytes > 0 && (plane.data@.len() < plane.stride_bytes || 2
            * plane.width <= plane.stride_bytes),
    ensures
        !depth_encoding(plane.pixel_format@) ==> (res matches Err(PlaneError::UnsupportedDepthEncoding(f)) && f@
            == plane.pixel_format@),
        depth_encoding(plane.pixel_format@) ==> (res matches Ok(d) && d@.len() == full_rows(*plane) * plane.width && forall|
            r: int,
            c: int,
        | 0 <= r < full_rows(*plane) && 0 <= c < plane.width ==> #[trigger] d@[r * plane.width + c] == depth_at(*plane, r, c)),
{
    let fmt = plane.pixel_format.as_str();
    let little = str_eq(fmt, "z16le");
    if !little && !str_eq(fmt, "z16be") {
        return Err(PlaneError::UnsupportedDepthEncoding(plane.pixel_format.clone()));
    }
    let stride = plane.stride_bytes as usize;
    let width = plane.width as usize;
    let len = plane.data.len();
    let rows = len / stride;
    let ghost w = plane.width as int;
    if rows > 0 {
        assert(2 * plane.width <= plane.stride_bytes) by (nonlinear_arith)
            requires
                (plane.data@.len() as int) / (plane.stride_bytes as int) > 0,
                plane.stride_bytes > 0,
                plane.data@.len() < plane.stride_bytes || 2 * plane.width <= plane.stride_bytes,
        ;
    }
    let mut depth: Vec<u16> = Vec::new();
    let mut r: usize = 0;
    while r < rows
        invariant
            depth_encoding(plane.pixel_format@),
            little == (plane.pixel_format@ == "z16le"@),
            stride == plane.stride_bytes,
            stride > 0,
            width == plane.width,
            w == plane.width as int,
            len == plane.data@.len(),
            rows == full_rows(*plane),
            rows > 0 ==> 2 * width <= stride,
            r <= rows,
            depth@.len() == r * w,
            forall|a: int, c: int| 0 <= a < r && 0 <= c < w ==> #[trigger] depth@[a * w + c] == depth_at(*plane, a, c),
        decreases rows - r,
    {
        let mut c: usize = 0;
        while c < width
            invariant
                depth_encoding(plane.pixel_format@),
                little == (plane.pixel_format@ == "z16le"@),
                stride == plane.stride_bytes,
                stride > 0,
                width == plane.width,
                w == plane.width as int,
                len == plane.data@.len(),
                rows == full_rows(*plane),
                2 * width <= stride,
                r < rows,
                c <= width,
                depth@.len() == r * w + c,
                forall|a: int, b: int| 0 <= a < r && 0 <= b < w ==> #[trigger] depth@[a * w + b] == depth_at(*plane, a, b),
                forall|b: int| 0 <= b < c ==> #[trigger] depth@[r * w + b] == depth_at(*plane, r as int, b),
            decreases width - c,
        {
            proof {
                lemma_in_row(r as int, c as int, rows as int, stride as int, plane.data@.len() as int, w, 2);
            }
            let i = r * stride + 2 * c;
            let b0 = plane.data[i];
            let b1 = plane.data[i + 1];
            let v: u16 = if little {
                (b0 as u16) + (b1 as u16) * 256
            } else {
                (b0 as u16) * 256 + (b1 as u16)
            };
            let ghost before = depth@;
            depth.push(v);
            proof {
                assert forall|a: int, b: int| 0 <= a < r && 0 <= b < w implies #[trigger] depth@[a * w + b] == depth_at(
                    *plane,
                    a,
                    b,
                ) by {
                    assert(a * w + b < r * w) by (nonlinear_arith)
                        requires
                            0 <= a < r,
                            0 <= b < w,
                    ;
                    assert(depth@[a * w + b] == before[a * w + b]);
                }
                assert forall|b: int| 0 <= b < c + 1 implies #[trigger] depth@[r * w + b] == depth_at(*plane, r as int, b) by {
                    if b < c {
                        assert(depth@[r * w + b] == before[r * w + b]);
                    }
                }
            }
            c += 1;
        }
        proof {
            assert((r + 1) * w == r * w + w) by (nonlinear_arith);
            assert forall|a: int, b: int| 0 <= a < r + 1 && 0 <= b < w implies #[trigger] depth@[a * w + b] == depth_at(
                *plane,
                a,
                b,
            ) by {
                if a == r {
                    assert(depth@[r * w + b] == depth_at(*plane, r as int, b));
                }
            }
        }
        r += 1;
    }
    Ok(depth)
}

proof fn lemma_le_bytes(values: Seq<u16>, i: int)
    requires
        0 <= i < values.len(),
    ensures
        le_bytes_spec(values).len() == 2 * values.len(),
        le_bytes_spec(values)[2 * i] == (values[i] % 256) as u8,
        le_bytes_spec(values)[2 * i + 1] == (values[i] / 256) as u8,
    decreases values.len(),
{
    lemma_le_bytes_len(values);
    let p = values.drop_last();
    lemma_le_bytes_len(p);
    if i < values.len() - 1 {
        lemma_le_bytes(p, i);
    }
}

proof fn lemma_le_bytes_len(values: Seq<u16>)
    ensures
        le_bytes_spec(values).len() == 2 * values.len(),
    decreases values.len(),
{
    if values.len() > 0 {
        lemma_le_bytes_len(values.drop_last());
    }
}

/// Decoding a little-endian depth plane whose rows are exactly `width` values long gives
/// back the values that were encoded: decoding undoes the encoding.
pub proof fn little_endian_depth_round_trips(values: Seq<u16>, plane: ImagePlane)
    requires
        plane.pixel_format@ == "z16le"@,
        plane.width > 0,
        plane.stride_bytes == 2 * plane.width,
        (values.len() as int) % (plane.width as int) == 0,
        plane.data@ == le_bytes_spec(values),
    ensures
        full_rows(plane) * plane.width == values.len(),
        forall|r: int, c: int|
            0 <= r < full_rows(plane) && 0 <= c < plane.width ==> #[trigger] depth_at(plane, r, c) == values[r
                * plane.width + c],
{
    let w = plane.width as int;
    lemma_le_bytes_len(values);
    let n = values.len() as int;
    let q = n / w;
    vstd::arithmetic::div_mod::lemma_fundamental_div_mod(n, w);
    assert(n == q * w) by (nonlinear_arith)
        requires
            n == w * q + n % w,
            n % w == 0,
    ;
    assert(2 * n == q * (2 * w) + 0) by (nonlinear_arith)
        requires
            n == q * w,
    ;
    vstd::arithmetic::div_mod::lemma_fundamental_div_mod_converse(2 * n, 2 * w, q, 0);
    assert(full_rows(plane) == q);
    assert(full_rows(plane) * w == n);
    assert forall|r: int, c: int| 0 <= r < full_rows(plane) && 0 <= c < plane.width implies #[trigger] depth_at(plane, r, c)
        == values[r * plane.width + c] by {
        let i = r * w + c;
        assert(0 <= i < n) by (nonlinear_arith)
            requires
                i == r * w + c,
                0 <= r < full_rows(plane),
                0 <= c < w,
                full_rows(plane) * w == n,
        ;
        assert(r * plane.stride_bytes + 2 * c == 2 * i) by (nonlinear_arith)
            requires
                plane.stride_bytes == 2 * w,
                i == r * w + c,
        ;
        lemma_le_bytes(values, i);
        let v = values[i];
        assert(((v % 256) as u8) + 256 * ((v / 256) as u8) == v);
    }
}

// ---------------------------------------------------------------------------------------
// Color planes
// ---------------------------------------------------------------------------------------

/// The bytes per pixel of a color encoding the nodes read, if they read it.
pub open spec fn color_bytes_per_pixel(f: Seq<char>) -> Option<int> {
    if f == "rgb8"@ || f == "bgr8"@ {
        Some(3)
    } else if f == "rgba8"@ || f == "bgra8"@ {
        Some(4)
    } else if f == "y8"@ {
        Some(1)
    } else {
        None
    }
}

/// Channel `k` (red, green, blue) of the pixel at column `c` of row `r` of the RGB image;
/// pixels past the plane's whole rows stay black.
pub open spec fn rgb_at(p: ImagePlane, r: int, c: int, k: int) -> u8 {
    let f = p.pixel_format@;
    let bpp = color_bytes_per_pixel(f)->Some_0;
    let i = r * p.stride_bytes + c * bpp;
    if r >= full_rows(p) {
        0
    } else if f == "y8"@ {
        p.data@[i]
    } else if f == "rgb8"@ || f == "rgba8"@ {
        p.data@[i + k]
    } else {
        p.data@[i + 2 - k]
    }
}

/// Converts a color plane (`rgb8`, `bgr8`, `rgba8`, `bgra8` or `y8`) to a packed RGB
/// image of `width` by `height` pixels, three bytes each: pixel `c` of row `r` comes from
/// the first `width` pixels of the plane's row `r`, with blue and red swapped for the
/// `bgr` encodings, alpha dropped, and gray repeated; rows the plane lacks stay black.
pub fn color_rgb(plane: &ImagePlane) -> (res: Result<Vec<u8>, PlaneError>)
    requires
        color_bytes_per_pixel(plane.pixel_format@) is Some && plane.width == 0 ==> plane.stride_bytes > 0,
        3 * plane.width * plane.height <= usize::MAX,
    ensures
        color_bytes_per_pixel(plane.pixel_format@) is None ==> (res matches Err(PlaneError::UnsupportedColorEncoding(f))
            && f@ == plane.pixel_format@),
        color_bytes_per_pixel(plane.pixel_format@) matches Some(bpp) && plane.stride_bytes < plane.width * bpp ==> res matches Err(
            PlaneError::StrideShorterThanRow,
        ),
        color_bytes_per_pixel(plane.pixel_format@) matches Some(bpp) && plane.stride_bytes >= plane.width * bpp ==> (
        res matches Ok(rgb) && rgb@.len() == 3 * plane.width * plane.height && forall|r: int, c: int, k: int|
            0 <= r < plane.height && 0 <= c < plane.width && 0 <= k < 3 ==> #[trigger] rgb@[3 * (r * plane.width + c) + k]
                == rgb_at(*plane, r, c, k)),
{
    let fmt = plane.pixel_format.as_str();
    let rgb = str_eq(fmt, "rgb8");
    let bgr = str_eq(fmt, "bgr8");
    let rgba = str_eq(fmt, "rgba8");
    let bgra = str_eq(fmt, "bgra8");
    let gray = str_eq(fmt, "y8");
    let bpp: usize = if rgb || bgr {
        3
    } else if rgba || bgra {
        4
    } else if gray {
        1
    } else {
        return Err(PlaneError::UnsupportedColorEncoding(plane.pixel_format.clone()));
    };
    let direct = rgb || rgba;
    let width = plane.width as usize;
    let height = plane.height as usize;
    let stride = plane.stride_bytes as usize;
    if (plane.stride_bytes as u64) < (plane.width as u64) * (bpp as u64) {
        return Err(PlaneError::StrideShorterThanRow);
    }
    let len = plane.data.len();
    let rows = len / stride;
    let ghost w = plane.width as int;
    let mut out: Vec<u8> = Vec::new();
    let mut r: usize = 0;
    while r < height
        invariant
            color_bytes_per_pixel(plane.pixel_format@) == Some(bpp as int),
            gray == (plane.pixel_format@ == "y8"@),
            direct == (plane.pixel_format@ == "rgb8"@ || plane.pixel_format@ == "rgba8"@),
            width == plane.width,
            w == plane.width as int,
            height == plane.height,
            stride == plane.stride_bytes,
            stride > 0,
            width * bpp <= stride,
            len == plane.data@.len(),
            rows == full_rows(*plane),
            3 * plane.width * plane.height <= usize::MAX,
            r <= height,
            out@.len() == 3 * (r * w),
            forall|a: int, b: int, k: int|
                0 <= a < r && 0 <= b < w && 0 <= k < 3 ==> #[trigger] out@[3 * (a * w + b) + k] == rgb_at(*plane, a, b, k),
        decreases height - r,
    {
        let mut c: usize = 0;
        while c < width
            invariant
                color_bytes_per_pixel(plane.pixel_format@) == Some(bpp as int),
                gray == (plane.pixel_format@ == "y8"@),
                direct == (plane.pixel_format@ == "rgb8"@ || plane.pixel_format@ == "rgba8"@),
                width == plane.width,
                w == plane.width as int,
                height == plane.height,
                stride == plane.stride_bytes,
                stride > 0,
                width * bpp <= stride,
                len == plane.data@.len(),
                rows == full_rows(*plane),
                3 * plane.width * plane.height <= usize::MAX,
                r < height,
                c <= width,
                out@.len() == 3 * (r * w + c),
                forall|a: int, b: int, k: int|
                    0 <= a < r && 0 <= b < w && 0 <= k < 3 ==> #[trigger] out@[3 * (a * w + b) + k] == rgb_at(*plane, a, b, k),
                forall|b: int, k: int| 0 <= b < c && 0 <= k < 3 ==> #[trigger] out@[3 * (r * w + b) + k] == rgb_at(*plane, r as int, b, k),
            decreases width - c,
        {
            let ghost before = out@;
            if r < rows {
                proof {
                    lemma_in_row(r as int, c as int, rows as int, stride as int, len as int, w, bpp as int);
                }
                let i = r * stride + c * bpp;
                assert(c * bpp == bpp * c) by (nonlinear_arith);
                if gray {
                    let v = plane.data[i];
                    out.push(v);
                    out.push(v);
                    out.push(v);
                } else if direct {
                    out.push(plane.data[i]);
                    out.push(plane.data[i + 1]);
                    out.push(plane.data[i + 2]);
                } else {
                    out.push(plane.data[i + 2]);
                    out.push(plane.data[i + 1]);
                    out.push(plane.data[i]);
                }
            } else {
                out.push(0);
                out.push(0);
                out.push(0);
            }
            proof {
                assert(3 * (r * w + c + 1) == 3 * (r * w + c) + 3);
                assert forall|a: int, b: int, k: int|
                    0 <= a < r && 0 <= b < w && 0 <= k < 3 implies #[trigger] out@[3 * (a * w + b) + k] == rgb_at(*plane, a, b, k) by {
                    assert(a * w + b < r * w) by (nonlinear_arith)
                        requires
                            0 <= a < r,
                            0 <= b < w,
                    ;
                    assert(out@[3 * (a * w + b) + k] == before[3 * (a * w + b) + k]);
                }
                assert forall|b: int, k: int| 0 <= b < c + 1 && 0 <= k < 3 implies #[trigger] out@[3 * (r * w + b) + k] == rgb_at(
                    *plane,
                    r as int,
                    b,
                    k,
                ) by {
                    if b < c {
                        assert(out@[3 * (r * w + b) + k] == before[3 * (r * w + b) + k]);
                    }
                }
            }
            c += 1;
        }
        proof {
            assert((r + 1) * w == r * w + w) by (nonlinear_arith);
            assert forall|a: int, b: int, k: int|
                0 <= a < r + 1 && 0 <= b < w && 0 <= k < 3 implies #[trigger] out@[3 * (a * w + b) + k] == rgb_at(*plane, a, b, k) by {
                if a == r {
                    assert(out@[3 * (r * w + b) + k] == rgb_at(*plane, r as int, b, k));
                }
            }
        }
        r += 1;
    }
    assert(3 * (plane.height * w) == 3 * plane.width * plane.height) by (nonlinear_arith)
        requires
            w == plane.width,
    ;
    Ok(out)
}

} // verus!
