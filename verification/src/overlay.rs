//! The segmentation overlay: the frame's color image with every instance's mask tinted
//! in its palette color and its bounding box outlined in the same color.
use vstd::prelude::*;
use crate::image_planes::{color_bytes_per_pixel, color_rgb, rgb_at, ImagePlane, PlaneError};
use crate::png_codec::{decode_gray_png, png_gray_pixels};
use crate::text::owned;

verus! {

/// One instance to draw: its mask as PNG and its bounding box (left, top, right, bottom),
/// each coordinate rounded to the nearest pixel.
pub struct OverlayInstance {
    pub mask_png: Vec<u8>,
    pub rounded_box: (i64, i64, i64, i64),
}

/// The palette color of the `n`-th instance: four colors in turn.
pub open spec fn palette(n: int) -> (u8, u8, u8) {
    let i = n % 4;
    if i == 0 {
        (255, 72, 72)
    } else if i == 1 {
        (64, 196, 255)
    } else if i == 2 {
        (255, 196, 64)
    } else {
        (150, 92, 255)
    }
}

pub open spec fn channel(color: (u8, u8, u8), k: int) -> u8 {
    if k == 0 {
        color.0
    } else if k == 1 {
        color.1
    } else {
        color.2
    }
}

/// A rounded coordinate moved into `0..=limit - 1`.
pub open spec fn clamp_coord(v: i64, limit: u32) -> int {
    if v < 0 {
        0
    } else if v > limit - 1 {
        limit - 1
    } else {
        v as int
    }
}

/// Whether `(x, y)` lies on the outline of the box clamped into a `w` by `h` image.
pub open spec fn on_outline(x: int, y: int, b: (i64, i64, i64, i64), w: u32, h: u32) -> bool {
    let l = clamp_coord(b.0, w);
    let t = clamp_coord(b.1, h);
    let r = clamp_coord(b.2, w);
    let btm = clamp_coord(b.3, h);
    ((y == t || y == btm) && l <= x <= r) || ((x == l || x == r) && t <= y <= btm)
}

/// Channel `k` of pixel `(x, y)` after drawing the instances `masks` (mask pixels and
/// box each) over the RGB image of the plane `base`: a masked pixel moves a third of the
/// way to the instance's color, and the outline takes the color.
pub open spec fn overlay_at(
    base: ImagePlane,
    w: u32,
    h: u32,
    masks: Seq<(Seq<u8>, (i64, i64, i64, i64))>,
    x: int,
    y: int,
    k: int,
) -> u8
    decreases masks.len(),
{
    if masks.len() == 0 {
        rgb_at(base, y, x, k)
    } else {
        let n = masks.len() - 1;
        let prev = overlay_at(base, w, h, masks.drop_last(), x, y, k);
        let color = palette(n);
        if on_outline(x, y, masks[n].1, w, h) {
            channel(color, k)
        } else if masks[n].0[y * w + x] != 0 {
            ((2 * prev + channel(color, k)) / 3) as u8
        } else {
            prev
        }
    }
}

/// The decoded masks of the instances with their boxes.
pub open spec fn decoded_masks(insts: Seq<OverlayInstance>) -> Seq<(Seq<u8>, (i64, i64, i64, i64))> {
    insts.map_values(|i: OverlayInstance| (png_gray_pixels(i.mask_png@)->Some_0.2, i.rounded_box))
}

/// Whether the mask of instance `i` decodes to an image of the frame's size.
pub open spec fn mask_fits(inst: OverlayInstance, w: u32, h: u32) -> bool {
    png_gray_pixels(inst.mask_png@) matches Some(m) && m.0 == w && m.1 == h
}

/// Why the overlay could not be drawn.
pub enum OverlayError {
    Color(PlaneError),
    /// The PNG decoder's own message.
    MaskUnreadable(String),
    MaskSizeMismatch,
}

impl OverlayError {
    /// The message reported for the error.
    pub fn message(&self) -> (res: String)
        ensures
            match self {
                OverlayError::Color(e) => res@ == crate::image_planes::plane_error_text(*e),
                OverlayError::MaskUnreadable(m) => res@ == m@,
                OverlayError::MaskSizeMismatch => res@ == "实例分割掩码尺寸与彩色图不一致"@,
            },
    {
        match self {
            OverlayError::Color(e) => e.message(),
            OverlayError::MaskUnreadable(m) => m.clone(),
            OverlayError::MaskSizeMismatch => owned("实例分割掩码尺寸与彩色图不一致"),
        }
    }
}

fn palette_color(n: usize) -> (res: (u8, u8, u8))
    ensures
        res == palette(n as int),
{
    let i = n % 4;
    if i == 0 {
        (255, 72, 72)
    } else if i == 1 {
        (64, 196, 255)
    } else if i == 2 {
        (255, 196, 64)
    } else {
        (150, 92, 255)
    }
}

fn clamp(v: i64, limit: u32) -> (res: u32)
    requires
        limit > 0,
    ensures
        res == clamp_coord(v, limit),
{
    if v < 0 {
        0
    } else if v > (limit - 1) as i64 {
        limit - 1
    } else {
        v as u32
    }
}

proof fn lemma_index(x: int, y: int, k: int, w: int, h: int)
    requires
        0 <= x < w,
        0 <= y < h,
        0 <= k < 3,
    ensures
        0 <= y * w + x < w * h,
        0 <= 3 * (y * w + x) + k < 3 * (w * h),
{
    assert(0 <= y * w + x < w * h) by (nonlinear_arith)
        requires
            0 <= x < w,
            0 <= y < h,
    ;
}

/// Draws one instance over the image `cur` (the image after the first `n` instances).
fn draw_instance(
    cur: &Vec<u8>,
    w: u32,
    h: u32,
    mask: &Vec<u8>,
    b: (i64, i64, i64, i64),
    n: usize,
    Ghost(base): Ghost<ImagePlane>,
    Ghost(masks): Ghost<Seq<(Seq<u8>, (i64, i64, i64, i64))>>,
) -> (res: Vec<u8>)
    requires
        w > 0,
        h > 0,
        cur@.len() == 3 * (w * h),
        3 * (w * h) <= usize::MAX,
        mask@.len() == w * h,
        masks.len() == n + 1,
        masks[n as int] == (mask@, b),
        forall|x: int, y: int, k: int|
            0 <= x < w && 0 <= y < h && 0 <= k < 3 ==> #[trigger] cur@[3 * (y * w + x) + k] == overlay_at(
                base,
                w,
                h,
                masks.drop_last(),
                x,
                y,
                k,
            ),
    ensures
        res@.len() == 3 * (w * h),
        forall|x: int, y: int, k: int|
            0 <= x < w && 0 <= y < h && 0 <= k < 3 ==> #[trigger] res@[3 * (y * w + x) + k] == overlay_at(base, w, h, masks, x, y, k),
{
    let color = palette_color(n);
    let left = clamp(b.0, w);
    let top = clamp(b.1, h);
    let right = clamp(b.2, w);
    let bottom = clamp(b.3, h);
    let ghost wi = w as int;
    let mut out: Vec<u8> = Vec::new();
    let mut y: u32 = 0;
    while y < h
        invariant
            w > 0,
            h > 0,
            wi == w as int,
            cur@.len() == 3 * (w * h),
            3 * (w * h) <= usize::MAX,
            mask@.len() == w * h,
            masks.len() == n + 1,
            masks[n as int] == (mask@, b),
            color == palette(n as int),
            left == clamp_coord(b.0, w),
            top == clamp_coord(b.1, h),
            right == clamp_coord(b.2, w),
            bottom == clamp_coord(b.3, h),
            forall|x: int, y: int, k: int|
                0 <= x < w && 0 <= y < h && 0 <= k < 3 ==> #[trigger] cur@[3 * (y * w + x) + k] == overlay_at(
                    base,
                    w,
                    h,
                    masks.drop_last(),
                    x,
                    y,
                    k,
                ),
            y <= h,
            out@.len() == 3 * (y * wi),
            forall|a: int, c: int, k: int|
                0 <= a < w && 0 <= c < y && 0 <= k < 3 ==> #[trigger] out@[3 * (c * wi + a) + k] == overlay_at(base, w, h, masks, a, c, k),
        decreases h - y,
    {
        let mut x: u32 = 0;
        while x < w
            invariant
                w > 0,
                h > 0,
                wi == w as int,
                cur@.len() == 3 * (w * h),
                3 * (w * h) <= usize::MAX,
                mask@.len() == w * h,
                masks.len() == n + 1,
                masks[n as int] == (mask@, b),
                color == palette(n as int),
                left == clamp_coord(b.0, w),
                top == clamp_coord(b.1, h),
                right == clamp_coord(b.2, w),
                bottom == clamp_coord(b.3, h),
                forall|x: int, y: int, k: int|
                    0 <= x < w && 0 <= y < h && 0 <= k < 3 ==> #[trigger] cur@[3 * (y * w + x) + k] == overlay_at(
                        base,
                        w,
                        h,
                        masks.drop_last(),
                        x,
                        y,
                        k,
                    ),
                y < h,
                x <= w,
                out@.len() == 3 * (y * wi + x),
                forall|a: int, c: int, k: int|
                    0 <= a < w && 0 <= c < y && 0 <= k < 3 ==> #[trigger] out@[3 * (c * wi + a) + k] == overlay_at(
                        base,
                        w,
                        h,
                        masks,
                        a,
                        c,
                        k,
                    ),
                forall|a: int, k: int|
                    0 <= a < x && 0 <= k < 3 ==> #[trigger] out@[3 * (y * wi + a) + k] == overlay_at(base, w, h, masks, a, y as int, k),
            decreases w - x,
        {
            proof {
                lemma_index(x as int, y as int, 0, w as int, h as int);
                lemma_index(x as int, y as int, 2, w as int, h as int);
            }
            let p: usize = (y as usize) * (w as usize) + (x as usize);
            let outline = ((y == top || y == bottom) && left <= x && x <= right) || ((x == left || x == right) && top <= y
                && y <= bottom);
            let ghost before = out@;
            let mut k: usize = 0;
            while k < 3
                invariant
                    w > 0,
                    h > 0,
                    wi == w as int,
                    cur@.len() == 3 * (w * h),
                    3 * (w * h) <= usize::MAX,
                    mask@.len() == w * h,
                    masks.len() == n + 1,
                    masks[n as int] == (mask@, b),
                    color == palette(n as int),
                    outline == on_outline(x as int, y as int, b, w, h),
                    p == y * wi + x,
                    p < w * h,
                    x < w,
                    y < h,
                    forall|x: int, y: int, k: int|
                        0 <= x < w && 0 <= y < h && 0 <= k < 3 ==> #[trigger] cur@[3 * (y * w + x) + k] == overlay_at(
                            base,
                            w,
                            h,
                            masks.drop_last(),
                            x,
                            y,
                            k,
                        ),
                    k <= 3,
                    out@.len() == before.len() + k,
                    out@.len() <= 3 * (w * h),
                    before.len() == 3 * (y * wi + x),
                    forall|t: int| 0 <= t < before.len() ==> #[trigger] out@[t] == before[t],
                    forall|j: int| 0 <= j < k ==> #[trigger] out@[3 * p + j] == overlay_at(base, w, h, masks, x as int, y as int, j),
                decreases 3 - k,
            {
                let c = if k == 0 {
                    color.0
                } else if k == 1 {
                    color.1
                } else {
                    color.2
                };
                let old_value = cur[3 * p + k];
                let v: u8 = if outline {
                    c
                } else if mask[p] != 0 {
                    ((2 * (old_value as u16) + (c as u16)) / 3) as u8
                } else {
                    old_value
                };
                assert(masks.drop_last().len() == n);
                assert(v == overlay_at(base, w, h, masks, x as int, y as int, k as int));
                out.push(v);
                k += 1;
            }
            proof {
                assert forall|a: int, c: int, j: int|
                    0 <= a < w && 0 <= c < y && 0 <= j < 3 implies #[trigger] out@[3 * (c * wi + a) + j] == overlay_at(
                    base,
                    w,
                    h,
                    masks,
                    a,
                    c,
                    j,
                ) by {
                    assert(c * wi + a < y * wi) by (nonlinear_arith)
                        requires
                            0 <= a < wi,
                            0 <= c < y,
                    ;
                    assert(out@[3 * (c * wi + a) + j] == before[3 * (c * wi + a) + j]);
                }
                assert forall|a: int, j: int| 0 <= a < x + 1 && 0 <= j < 3 implies #[trigger] out@[3 * (y * wi + a) + j] == overlay_at(
                    base,
                    w,
                    h,
                    masks,
                    a,
                    y as int,
                    j,
                ) by {
                    if a < x {
                        assert(out@[3 * (y * wi + a) + j] == before[3 * (y * wi + a) + j]);
                    } else {
                        assert(out@[3 * p + j] == overlay_at(base, w, h, masks, x as int, y as int, j));
                    }
                }
            }
            x += 1;
        }
        proof {
            assert((y + 1) * wi == y * wi + wi) by (nonlinear_arith);
            assert forall|a: int, c: int, j: int|
                0 <= a < w && 0 <= c < y + 1 && 0 <= j < 3 implies #[trigger] out@[3 * (c * wi + a) + j] == overlay_at(
                base,
                w,
                h,
                masks,
                a,
                c,
                j,
            ) by {
                if c == y {
                    assert(out@[3 * (y * wi + a) + j] == overlay_at(base, w, h, masks, a, y as int, j));
                }
            }
        }
        y += 1;
    }
    assert(h * wi == w * h) by (nonlinear_arith)
        requires
            wi == w,
    ;
    out
}

/// Whether the masks of the instances before `n` all decode to the frame's size.
pub open spec fn masks_fit_before(insts: Seq<OverlayInstance>, n: int, w: u32, h: u32) -> bool {
    forall|j: int| 0 <= j < n ==> #[trigger] mask_fits(insts[j], w, h)
}

/// Whether the mask decodes, to an image of another size than the frame's.
pub open spec fn mask_misfits(inst: OverlayInstance, w: u32, h: u32) -> bool {
    png_gray_pixels(inst.mask_png@) matches Some(m) && (m.0 != w || m.1 != h)
}

/// `out` is the RGB overlay of the instances over the plane `source`.
pub open spec fn overlay_drawn(source: ImagePlane, insts: Seq<OverlayInstance>, out: ImagePlane) -> bool {
    &&& out.width == source.width
    &&& out.height == source.height
    &&& out.stride_bytes == 3 * source.width
    &&& out.pixel_format@ == "rgb8"@
    &&& out.data@.len() == 3 * source.width * source.height
    &&& forall|x: int, y: int, k: int|
        0 <= x < source.width && 0 <= y < source.height && 0 <= k < 3 ==> #[trigger] out.data@[3 * (y * source.width + x) + k]
            == overlay_at(source, source.width, source.height, decoded_masks(insts), x, y, k)
}

/// Draws the segmentation overlay of a frame: its color plane as RGB, then each instance
/// in turn, its mask tinted and its box outlined in the instance's palette color. A mask
/// that does not decode, or that has another size than the frame, ends the drawing with
/// an error.
pub fn segmentation_overlay(source: &ImagePlane, instances: &Vec<OverlayInstance>) -> (res: Result<ImagePlane, OverlayError>)
    requires
        color_bytes_per_pixel(source.pixel_format@) is Some && source.width == 0 ==> source.stride_bytes > 0,
        3 * source.width * source.height <= usize::MAX,
        3 * source.width <= u32::MAX,
    ensures
        color_bytes_per_pixel(source.pixel_format@) is None ==> res matches Err(OverlayError::Color(
            PlaneError::UnsupportedColorEncoding(_),
        )),
        color_bytes_per_pixel(source.pixel_format@) matches Some(bpp) && source.stride_bytes < source.width * bpp ==> res matches Err(
            OverlayError::Color(PlaneError::StrideShorterThanRow),
        ),
        color_bytes_per_pixel(source.pixel_format@) matches Some(bpp) && source.stride_bytes >= source.width * bpp ==> (
        masks_fit_before(instances@, instances@.len() as int, source.width, source.height) ==> (res matches Ok(out)
            && overlay_drawn(*source, instances@, out))),
        color_bytes_per_pixel(source.pixel_format@) matches Some(bpp) && source.stride_bytes >= source.width * bpp ==> forall|
            n: int,
        |
            0 <= n < instances@.len() && masks_fit_before(instances@, n, source.width, source.height) && #[trigger] png_gray_pixels(
                instances@[n].mask_png@,
            ) is None ==> res matches Err(OverlayError::MaskUnreadable(_)),
        color_bytes_per_pixel(source.pixel_format@) matches Some(bpp) && source.stride_bytes >= source.width * bpp ==> forall|
            n: int,
        |
            0 <= n < instances@.len() && masks_fit_before(instances@, n, source.width, source.height) && #[trigger] mask_misfits(
                instances@[n],
                source.width,
                source.height,
            ) ==> res matches Err(OverlayError::MaskSizeMismatch),
{
    let mut cur = match color_rgb(source) {
        Err(e) => {
            return Err(OverlayError::Color(e));
        },
        Ok(rgb) => rgb,
    };
    let w = source.width;
    let h = source.height;
    let ghost all = decoded_masks(instances@);
    proof {
        assert forall|x: int, y: int, k: int| 0 <= x < w && 0 <= y < h && 0 <= k < 3 implies #[trigger] cur@[3 * (y * w + x) + k]
            == overlay_at(*source, w, h, all.take(0), x, y, k) by {
            assert(cur@[3 * (y * w + x) + k] == rgb_at(*source, y, x, k));
        }
    }
    let mut i: usize = 0;
    while i < instances.len()
        invariant
            w == source.width,
            h == source.height,
            3 * source.width * source.height <= usize::MAX,
            3 * source.width <= u32::MAX,
            color_bytes_per_pixel(source.pixel_format@) is Some,
            source.stride_bytes >= source.width * color_bytes_per_pixel(source.pixel_format@)->Some_0,
            all == decoded_masks(instances@),
            i <= instances@.len(),
            cur@.len() == 3 * w * h,
            masks_fit_before(instances@, i as int, w, h),
            forall|x: int, y: int, k: int|
                0 <= x < w && 0 <= y < h && 0 <= k < 3 ==> #[trigger] cur@[3 * (y * w + x) + k] == overlay_at(
                    *source,
                    w,
                    h,
                    all.take(i as int),
                    x,
                    y,
                    k,
                ),
        decreases instances@.len() - i,
    {
        let mask = match decode_gray_png(&instances[i].mask_png) {
            Err(m) => {
                proof {
                    lemma_first_failure(instances@, i as int, w, h);
                    assert forall|n: int|
                        0 <= n < instances@.len() && masks_fit_before(instances@, n, w, h) && #[trigger] mask_misfits(
                            instances@[n],
                            w,
                            h,
                        ) implies false by {
                        assert(!mask_fits(instances@[n], w, h));
                    }
                }
                return Err(OverlayError::MaskUnreadable(m));
            },
            Ok(m) => m,
        };
        if mask.width != w || mask.height != h {
            proof {
                lemma_first_failure(instances@, i as int, w, h);
                assert forall|n: int|
                    0 <= n < instances@.len() && masks_fit_before(instances@, n, w, h) && #[trigger] png_gray_pixels(
                        instances@[n].mask_png@,
                    ) is None implies false by {
                    assert(!mask_fits(instances@[n], w, h));
                }
            }
            return Err(OverlayError::MaskSizeMismatch);
        }
        proof {
            assert(all.take(i as int + 1).drop_last() =~= all.take(i as int));
            assert(all.take(i as int + 1)[i as int] == (mask.pixels@, instances@[i as int].rounded_box));
            assert(3 * (w * h) == 3 * w * h) by (nonlinear_arith);
            assert(mask_fits(instances@[i as int], w, h));
        }
        cur = draw_instance(&cur, w, h, &mask.pixels, instances[i].rounded_box, i, Ghost(*source), Ghost(all.take(i as int + 1)));
        i += 1;
    }
    assert(all.take(instances@.len() as int) =~= all);
    proof {
        assert forall|n: int| 0 <= n < instances@.len() implies !(#[trigger] png_gray_pixels(instances@[n].mask_png@) is None)
            && !mask_misfits(instances@[n], w, h) by {
            assert(mask_fits(instances@[n], w, h));
        }
    }
    Ok(ImagePlane { width: w, height: h, stride_bytes: 3 * w, pixel_format: owned("rgb8"), data: cur })
}

proof fn lemma_first_failure(insts: Seq<OverlayInstance>, i: int, w: u32, h: u32)
    requires
        0 <= i < insts.len(),
        masks_fit_before(insts, i, w, h),
        !mask_fits(insts[i], w, h),
    ensures
        forall|n: int|
            0 <= n < insts.len() && masks_fit_before(insts, n, w, h) && !#[trigger] mask_fits(insts[n], w, h) ==> n == i,
        !masks_fit_before(insts, insts.len() as int, w, h),
{
    assert forall|n: int| 0 <= n < insts.len() && masks_fit_before(insts, n, w, h) && !#[trigger] mask_fits(insts[n], w, h) implies n
        == i by {
        if n > i {
            assert(mask_fits(insts[i], w, h));
        }
    }
}

/// A pixel that no instance's mask covers and no instance's box outline passes keeps the
/// colour of the frame.
pub proof fn untouched_pixels_keep_their_color(
    base: ImagePlane,
    masks: Seq<(Seq<u8>, (i64, i64, i64, i64))>,
    x: int,
    y: int,
    k: int,
)
    requires
        forall|n: int| 0 <= n < masks.len() ==> (#[trigger] masks[n]).0[y * base.width + x] == 0 && !on_outline(
            x,
            y,
            masks[n].1,
            base.width,
            base.height,
        ),
    ensures
        overlay_at(base, base.width, base.height, masks, x, y, k) == rgb_at(base, y, x, k),
    decreases masks.len(),
{
    if masks.len() > 0 {
        let p = masks.drop_last();
        assert forall|n: int| 0 <= n < p.len() implies (#[trigger] p[n]).0[y * base.width + x] == 0 && !on_outline(
            x,
            y,
            p[n].1,
            base.width,
            base.height,
        ) by {
            assert(p[n] == masks[n]);
        }
        untouched_pixels_keep_their_color(base, p, x, y, k);
        assert(masks[masks.len() - 1].0[y * base.width + x] == 0);
    }
}

proof fn lemma_color_kept_above(
    base: ImagePlane,
    w: u32,
    h: u32,
    masks: Seq<(Seq<u8>, (i64, i64, i64, i64))>,
    n: int,
    x: int,
    y: int,
    k: int,
    j: int,
)
    requires
        0 <= n < j <= masks.len(),
        overlay_at(base, w, h, masks.take(n + 1), x, y, k) == channel(palette(n), k),
        forall|m: int| n < m < masks.len() ==> !on_outline(x, y, #[trigger] masks[m].1, w, h) && masks[m].0[y * w + x] == 0,
    ensures
        overlay_at(base, w, h, masks.take(j), x, y, k) == channel(palette(n), k),
    decreases j,
{
    if j > n + 1 {
        lemma_color_kept_above(base, w, h, masks, n, x, y, k, j - 1);
        assert(masks.take(j).drop_last() =~= masks.take(j - 1));
        assert(masks.take(j)[j - 1] == masks[j - 1]);
    }
}

/// Each instance's box is outlined in its palette color on all four sides: every pixel
/// of the top and bottom rows and of the left and right columns of the box (clamped
/// into the image) takes exactly that color, unless a later instance's outline or mask
/// covers it.
pub proof fn box_sides_take_the_instance_color(
    source: ImagePlane,
    insts: Seq<OverlayInstance>,
    out: ImagePlane,
    n: int,
    x: int,
    y: int,
    k: int,
)
    requires
        overlay_drawn(source, insts, out),
        0 <= n < insts.len(),
        0 <= x < source.width,
        0 <= y < source.height,
        0 <= k < 3,
        ({
            let l = clamp_coord(insts[n].rounded_box.0, source.width);
            let t = clamp_coord(insts[n].rounded_box.1, source.height);
            let r = clamp_coord(insts[n].rounded_box.2, source.width);
            let b = clamp_coord(insts[n].rounded_box.3, source.height);
            ||| ((x == l || x == r) && t <= y <= b)
            ||| ((y == t || y == b) && l <= x <= r)
        }),
        forall|m: int|
            n < m < insts.len() ==> !on_outline(x, y, #[trigger] insts[m].rounded_box, source.width, source.height)
                && decoded_masks(insts)[m].0[y * source.width + x] == 0,
    ensures
        out.data@[3 * (y * source.width + x) + k] == channel(palette(n), k),
{
    let w = source.width;
    let h = source.height;
    let masks = decoded_masks(insts);
    let first = masks.take(n + 1);
    assert(first.drop_last() =~= masks.take(n));
    assert(first[n] == masks[n]);
    assert(masks[n].1 == insts[n].rounded_box);
    assert(overlay_at(source, w, h, first, x, y, k) == channel(palette(n), k));
    assert forall|m: int| n < m < masks.len() implies !on_outline(x, y, #[trigger] masks[m].1, w, h) && masks[m].0[y * w + x]
        == 0 by {
        assert(masks[m].1 == insts[m].rounded_box);
    }
    lemma_color_kept_above(source, w, h, masks, n, x, y, k, masks.len() as int);
    assert(masks.take(masks.len() as int) =~= masks);
}

} // verus!
