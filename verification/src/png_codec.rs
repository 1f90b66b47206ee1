//! PNG assets of the perception and scene nodes: the color image, the depth preview
//! (depth scaled to 8-bit gray against the frame's farthest value), and instance masks.
//! Encoding and decoding PNG is the `image` crate's work.
use vstd::prelude::*;
use crate::board_image::GrayRaster;
use crate::image_planes::{color_bytes_per_pixel, color_rgb, rgb_at, ImagePlane, PlaneError};
use crate::text::owned;

verus! {

/// The PNG encoding of an 8-bit gray image, if the encoder accepts it.
pub uninterp spec fn gray_png(width: u32, height: u32, pixels: Seq<u8>) -> Option<Seq<u8>>;

/// The PNG encoding of a packed 8-bit RGB image, if the encoder accepts it.
pub uninterp spec fn rgb_png(width: u32, height: u32, pixels: Seq<u8>) -> Option<Seq<u8>>;

/// The gray image a PNG file decodes to (width, height, pixels), if it decodes.
pub uninterp spec fn png_gray_pixels(png: Seq<u8>) -> Option<(u32, u32, Seq<u8>)>;

/// Encodes a gray image as PNG with `image::DynamicImage::write_to`. The result is the
/// named encoding of the arguments; the encoder refuses an image without pixels. The
/// encoder's error text is returned as it is, and nothing is claimed of it.
#[verifier::external_body]
fn encode_gray_png(width: u32, height: u32, pixels: Vec<u8>) -> (res: Result<Vec<u8>, String>)
    requires
        pixels@.len() == width * height,
    ensures
        match res {
            Ok(png) => gray_png(width, height, pixels@) == Some(png@),
            Err(_) => gray_png(width, height, pixels@) is None,
        },
        width == 0 || height == 0 ==> res is Err,
{
    let image = image::GrayImage::from_raw(width, height, pixels).ok_or_else(|| String::new())?;
    let mut out = std::io::Cursor::new(Vec::new());
    match image::DynamicImage::ImageLuma8(image).write_to(&mut out, image::ImageFormat::Png) {
        Ok(()) => Ok(out.into_inner()),
        Err(e) => Err(format!("{e}")),
    }
}

/// Encodes a packed RGB image as PNG with `image::DynamicImage::write_to`. The result is
/// the named encoding of the arguments; the encoder refuses an image without pixels. The
/// encoder's error text is returned as it is, and nothing is claimed of it.
#[verifier::external_body]
fn encode_rgb_png(width: u32, height: u32, pixels: Vec<u8>) -> (res: Result<Vec<u8>, String>)
    requires
        pixels@.len() == 3 * width * height,
    ensures
        match res {
            Ok(png) => rgb_png(width, height, pixels@) == Some(png@),
            Err(_) => rgb_png(width, height, pixels@) is None,
        },
        width == 0 || height == 0 ==> res is Err,
{
    let image = image::RgbImage::from_raw(width, height, pixels).ok_or_else(|| String::new())?;
    let mut out = std::io::Cursor::new(Vec::new());
    match image::DynamicImage::ImageRgb8(image).write_to(&mut out, image::ImageFormat::Png) {
        Ok(()) => Ok(out.into_inner()),
        Err(e) => Err(format!("{e}")),
    }
}

/// Decodes a PNG file to gray with `image::load_from_memory_with_format` and
/// `DynamicImage::into_luma8`. The result is the named decoding of the bytes; a decoded
/// image holds one value per pixel and has pixels (the PNG decoder refuses a zero width
/// or height). The decoder's error text is returned as it is, and nothing is claimed of it.
#[verifier::external_body]
pub(crate) fn decode_gray_png(png: &Vec<u8>) -> (res: Result<GrayRaster, String>)
    ensures
        match res {
            Ok(img) => png_gray_pixels(png@) == Some((img.width, img.height, img.pixels@)) && img.wf() && img.width > 0
                && img.height > 0,
            Err(_) => png_gray_pixels(png@) is None,
        },
{
    match image::load_from_memory_with_format(png.as_slice(), image::ImageFormat::Png) {
        Ok(decoded) => {
            let gray = decoded.into_luma8();
            let (width, height) = gray.dimensions();
            Ok(GrayRaster { width, height, pixels: gray.into_raw() })
        },
        Err(e) => Err(format!("{e}")),
    }
}

// ---------------------------------------------------------------------------------------
// Depth preview
// ---------------------------------------------------------------------------------------

/// The largest value, 0 for none.
pub open spec fn max_of(s: Seq<u16>) -> u16
    decreases s.len(),
{
    if s.len() == 0 {
        0
    } else {
        let m = max_of(s.drop_last());
        if s.last() > m {
            s.last()
        } else {
            m
        }
    }
}

/// A depth value as gray: its share of the farthest value, scaled to 255.
pub open spec fn preview_value(v: u16, farthest: u16) -> u8 {
    if farthest == 0 {
        0
    } else {
        ((v * 255) / (farthest as int)) as u8
    }
}

proof fn lemma_max_of(s: Seq<u16>)
    ensures
        forall|i: int| 0 <= i < s.len() ==> #[trigger] s[i] <= max_of(s),
    decreases s.len(),
{
    if s.len() > 0 {
        lemma_max_of(s.drop_last());
        assert forall|i: int| 0 <= i < s.len() implies #[trigger] s[i] <= max_of(s) by {
            if i < s.len() - 1 {
                assert(s[i] == s.drop_last()[i]);
            }
        }
    }
}

/// The depth preview's gray values: each depth value scaled against the farthest one.
pub fn depth_preview(values: &Vec<u16>) -> (res: Vec<u8>)
    ensures
        res@.len() == values@.len(),
        forall|i: int| 0 <= i < values@.len() ==> #[trigger] res@[i] == preview_value(values@[i], max_of(values@)),
{
    let mut farthest: u16 = 0;
    let mut i: usize = 0;
    while i < values.len()
        invariant
            i <= values@.len(),
            farthest == max_of(values@.take(i as int)),
        decreases values@.len() - i,
    {
        assert(values@.take(i as int + 1).drop_last() =~= values@.take(i as int));
        if values[i] > farthest {
            farthest = values[i];
        }
        i += 1;
    }
    assert(values@.take(values@.len() as int) =~= values@);
    proof {
        lemma_max_of(values@);
    }
    let mut res: Vec<u8> = Vec::new();
    let mut j: usize = 0;
    while j < values.len()
        invariant
            j <= values@.len(),
            farthest == max_of(values@),
            forall|t: int| 0 <= t < values@.len() ==> #[trigger] values@[t] <= farthest,
            res@.len() == j,
            forall|t: int| 0 <= t < j ==> #[trigger] res@[t] == preview_value(values@[t], farthest),
        decreases values@.len() - j,
    {
        let v = values[j];
        let g: u8 = if farthest == 0 {
            0
        } else {
            assert((v as int * 255) / (farthest as int) <= 255) by (nonlinear_arith)
                requires
                    v <= farthest,
                    farthest > 0,
            ;
            ((v as u32 * 255) / (farthest as u32)) as u8
        };
        res.push(g);
        j += 1;
    }
    res
}

/// Why an asset could not be made.
pub enum AssetError {
    /// The depth image has fewer values than its width and height call for.
    DepthSizeMismatch,
    Color(PlaneError),
    /// The PNG codec's own message.
    Codec(String),
}

impl AssetError {
    /// The message reported for the error.
    pub fn message(&self) -> (res: String)
        ensures
            match self {
                AssetError::DepthSizeMismatch => res@ == "深度图尺寸与数据长度不一致"@,
                AssetError::Color(e) => res@ == crate::image_planes::plane_error_text(*e),
                AssetError::Codec(m) => res@ == m@,
            },
    {
        match self {
            AssetError::DepthSizeMismatch => owned("深度图尺寸与数据长度不一致"),
            AssetError::Color(e) => e.message(),
            AssetError::Codec(m) => m.clone(),
        }
    }
}

/// The depth preview as a PNG of `width` by `height` gray pixels. Too few values for the
/// size is an error.
pub fn depth_preview_png(width: u32, height: u32, values: &Vec<u16>) -> (res: Result<Vec<u8>, AssetError>)
    requires
        values@.len() <= width * height,
    ensures
        values@.len() < width * height ==> res matches Err(AssetError::DepthSizeMismatch),
        values@.len() == width * height ==> match gray_png(
            width,
            height,
            Seq::new(values@.len(), |i: int| preview_value(values@[i], max_of(values@))),
        ) {
            Some(png) => res matches Ok(p) && p@ == png,
            None => res matches Err(AssetError::Codec(_)),
        },
{
    assert((width as int) * (height as int) <= 0xffff_ffff_ffff_ffff) by (nonlinear_arith)
        requires
            width <= 0xffff_ffff,
            height <= 0xffff_ffff,
    ;
    if (values.len() as u64) < (width as u64) * (height as u64) {
        return Err(AssetError::DepthSizeMismatch);
    }
    let pixels = depth_preview(values);
    assert(pixels@ =~= Seq::new(values@.len(), |i: int| preview_value(values@[i], max_of(values@))));
    match encode_gray_png(width, height, pixels) {
        Ok(png) => Ok(png),
        Err(m) => Err(AssetError::Codec(m)),
    }
}

/// The color plane as an RGB PNG.
pub fn color_png(plane: &ImagePlane) -> (res: Result<Vec<u8>, AssetError>)
    requires
        color_bytes_per_pixel(plane.pixel_format@) is Some && plane.width == 0 ==> plane.stride_bytes > 0,
        3 * plane.width * plane.height <= usize::MAX,
    ensures
        color_bytes_per_pixel(plane.pixel_format@) is None ==> res matches Err(AssetError::Color(
            PlaneError::UnsupportedColorEncoding(_),
        )),
        color_bytes_per_pixel(plane.pixel_format@) matches Some(bpp) && plane.stride_bytes < plane.width * bpp ==> res matches Err(
            AssetError::Color(PlaneError::StrideShorterThanRow),
        ),
        color_bytes_per_pixel(plane.pixel_format@) matches Some(bpp) && plane.stride_bytes >= plane.width * bpp ==> (
        exists|rgb: Seq<u8>|
            #![trigger rgb_png(plane.width, plane.height, rgb)]
            rgb.len() == 3 * plane.width * plane.height && (forall|r: int, c: int, k: int|
                0 <= r < plane.height && 0 <= c < plane.width && 0 <= k < 3 ==> #[trigger] rgb[3 * (r * plane.width + c) + k]
                    == rgb_at(*plane, r, c, k)) && match rgb_png(plane.width, plane.height, rgb) {
                Some(png) => res matches Ok(p) && p@ == png,
                None => res matches Err(AssetError::Codec(_)),
            }),
{
    match color_rgb(plane) {
        Err(e) => Err(AssetError::Color(e)),
        Ok(rgb) => {
            let ghost pixels = rgb@;
            let encoded = encode_rgb_png(plane.width, plane.height, rgb);
            assert(match rgb_png(plane.width, plane.height, pixels) {
                Some(png) => encoded matches Ok(p) && p@ == png,
                None => encoded is Err,
            });
            match encoded {
                Ok(png) => Ok(png),
                Err(m) => Err(AssetError::Codec(m)),
            }
        },
    }
}

} // verus!
