//! Synthetic depth images of the simulated RGB-D cameras: boxes of constant depth drawn
//! into a row-major 16-bit depth buffer.
use vstd::prelude::*;
use crate::board_image::{mask_bounds, GrayRaster, Mark};

verus! {

/// Whether position `i` of a row-major buffer `width` wide lies in the rectangle
/// (columns `left..=right`, rows `top..=bottom`).
pub open spec fn in_rect(i: int, width: int, left: int, top: int, right: int, bottom: int) -> bool {
    exists|y: int, x: int| top <= y <= bottom && left <= x <= right && #[trigger] (y * width + x) == i
}

/// The rectangle's positions already drawn when the scan reaches row `y`, column `x`.
pub open spec fn drawn_before(i: int, width: int, left: int, top: int, right: int, y: int, x: int) -> bool {
    exists|yy: int, xx: int|
        top <= yy && left <= xx <= right && (yy < y || (yy == y && xx < x)) && #[trigger] (yy * width + xx) == i
}

proof fn lemma_position_bound(y: int, x: int, width: int, right: int, bottom: int)
    requires
        0 <= y <= bottom,
        0 <= x <= right,
        0 <= width,
    ensures
        y * width + x <= bottom * width + right,
{
    assert(y * width <= bottom * width) by (nonlinear_arith)
        requires
            0 <= y <= bottom,
            0 <= width,
    ;
}

/// Sets every position of the rectangle (columns `left..=right`, rows `top..=bottom`) of
/// a buffer `width` wide to `depth`; the rest is unchanged.
pub fn fill_rect(values: &mut Vec<u16>, width: u32, left: u32, top: u32, right: u32, bottom: u32, depth: u16)
    requires
        top <= bottom && left <= right ==> bottom * width + right < old(values)@.len(),
        top <= bottom && left <= right ==> bottom * width + right <= u32::MAX,
    ensures
        final(values)@.len() == old(values)@.len(),
        forall|i: int|
            0 <= i < final(values)@.len() ==> #[trigger] final(values)@[i] == if in_rect(
                i,
                width as int,
                left as int,
                top as int,
                right as int,
                bottom as int,
            ) {
                depth
            } else {
                old(values)@[i]
            },
{
    if top > bottom || left > right {
        assert forall|i: int| 0 <= i < values@.len() implies !in_rect(
            i,
            width as int,
            left as int,
            top as int,
            right as int,
            bottom as int,
        ) by {}
        return;
    }
    let ghost start = values@;
    let ghost w = width as int;
    let ghost l = left as int;
    let ghost t = top as int;
    let ghost r = right as int;
    let mut y: u64 = top as u64;
    while y <= bottom as u64
        invariant
            top <= y <= bottom as u64 + 1,
            left <= right,
            bottom * width + right < start.len(),
            bottom * width + right <= u32::MAX,
            values@.len() == start.len(),
            w == width as int && l == left as int && t == top as int && r == right as int,
            forall|i: int|
                0 <= i < values@.len() ==> #[trigger] values@[i] == if drawn_before(i, w, l, t, r, y as int, l) {
                    depth
                } else {
                    start[i]
                },
        decreases bottom as u64 + 1 - y,
    {
        let mut x: u64 = left as u64;
        while x <= right as u64
            invariant
                top <= y <= bottom,
                left <= x <= right as u64 + 1,
                left <= right,
                bottom * width + right < start.len(),
                bottom * width + right <= u32::MAX,
                values@.len() == start.len(),
                w == width as int && l == left as int && t == top as int && r == right as int,
                forall|i: int|
                    0 <= i < values@.len() ==> #[trigger] values@[i] == if drawn_before(i, w, l, t, r, y as int, x as int) {
                        depth
                    } else {
                        start[i]
                    },
            decreases right as u64 + 1 - x,
        {
            proof {
                lemma_position_bound(y as int, x as int, w, r, bottom as int);
            }
            let p = (y as u32) * width + (x as u32);
            let ghost before = values@;
            values.set(p as usize, depth);
            proof {
                let nx = x as int + 1;
                assert(p as int == (y as int) * w + (x as int));
                assert forall|i: int| 0 <= i < values@.len() implies #[trigger] values@[i] == if drawn_before(
                    i, w, l, t, r, y as int, nx,
                ) {
                    depth
                } else {
                    start[i]
                } by {
                    if i == p {
                        assert(drawn_before(i, w, l, t, r, y as int, nx)) by {
                            assert((y as int) * w + (x as int) == i);
                        }
                    } else {
                        assert(values@[i] == before[i]);
                        if drawn_before(i, w, l, t, r, y as int, nx) {
                            let (yy, xx) = choose|yy: int, xx: int|
                                t <= yy && l <= xx <= r && (yy < y || (yy == y && xx < nx))
                                    && #[trigger] (yy * w + xx) == i;
                            assert(!(yy == y && xx == x));
                            assert(drawn_before(i, w, l, t, r, y as int, x as int));
                        } else {
                            if drawn_before(i, w, l, t, r, y as int, x as int) {
                                let (yy, xx) = choose|yy: int, xx: int|
                                    t <= yy && l <= xx <= r && (yy < y || (yy == y && xx < x))
                                        && #[trigger] (yy * w + xx) == i;
                                assert(drawn_before(i, w, l, t, r, y as int, nx));
                            }
                        }
                    }
                }
            }
            x += 1;
        }
        proof {
            assert forall|i: int| 0 <= i < values@.len() implies #[trigger] drawn_before(i, w, l, t, r, y as int, r + 1)
                == drawn_before(i, w, l, t, r, y as int + 1, l) by {
                if drawn_before(i, w, l, t, r, y as int, r + 1) {
                    let (yy, xx) = choose|yy: int, xx: int|
                        t <= yy && l <= xx <= r && (yy < y || (yy == y && xx < r + 1)) && #[trigger] (yy * w + xx)
                            == i;
                    assert(drawn_before(i, w, l, t, r, y as int + 1, l));
                }
                if drawn_before(i, w, l, t, r, y as int + 1, l) {
                    let (yy, xx) = choose|yy: int, xx: int|
                        t <= yy && l <= xx <= r && (yy < y + 1 || (yy == y + 1 && xx < l)) && #[trigger] (yy * w
                            + xx) == i;
                    assert(drawn_before(i, w, l, t, r, y as int, r + 1));
                }
            }
        }
        y += 1;
    }
    proof {
        assert forall|i: int| 0 <= i < values@.len() implies #[trigger] drawn_before(i, w, l, t, r, bottom as int + 1, l)
            == in_rect(i, w, l, t, r, bottom as int) by {
            if drawn_before(i, w, l, t, r, bottom as int + 1, l) {
                let (yy, xx) = choose|yy: int, xx: int|
                    t <= yy && l <= xx <= r && (yy < bottom + 1 || (yy == bottom + 1 && xx < l)) && #[trigger] (yy
                        * w + xx) == i;
                assert(in_rect(i, w, l, t, r, bottom as int));
            }
            if in_rect(i, w, l, t, r, bottom as int) {
                let (yy, xx) = choose|yy: int, xx: int| t <= yy <= bottom && l <= xx <= r && #[trigger] (yy * w + xx) == i;
                assert(drawn_before(i, w, l, t, r, bottom as int + 1, l));
            }
        }
    }
}

/// The scene a simulated camera shows.
#[derive(PartialEq, Eq, Structural, Clone, Copy)]
pub enum SimulationKind {
    PickPlace,
    DepthGrid,
}

/// The depth of a position of a simulated depth image: the boxes of the scene at their
/// depths (in depth units), 0 elsewhere.
pub open spec fn simulated_depth(kind: SimulationKind, width: int, i: int) -> u16 {
    match kind {
        SimulationKind::PickPlace => if in_rect(i, width, 263, 119, 580, 359) || in_rect(i, width, 80, 217, 171, 318) {
            630
        } else {
            0
        },
        SimulationKind::DepthGrid => if in_rect(i, width, 350, 210, 356, 217) {
            380
        } else if in_rect(i, width, 310, 210, 330, 230) {
            400
        } else {
            0
        },
    }
}

/// The depth image of a simulated scene, `width` by `height`, row-major.
pub fn simulation_depth(kind: SimulationKind, width: u32, height: u32) -> (res: Vec<u16>)
    requires
        width * height <= usize::MAX,
        width * height <= u32::MAX,
        kind == SimulationKind::PickPlace ==> 359 * width + 580 < width * height,
        kind == SimulationKind::DepthGrid ==> 230 * width + 330 < width * height && 217 * width + 356 < width
            * height,
    ensures
        res@.len() == width * height,
        forall|i: int| 0 <= i < res@.len() ==> #[trigger] res@[i] == simulated_depth(kind, width as int, i),
{
    let n = (width * height) as usize;
    let mut values: Vec<u16> = Vec::new();
    let mut k: usize = 0;
    while k < n
        invariant
            k <= n,
            values@.len() == k,
            forall|i: int| 0 <= i < k ==> values@[i] == 0,
        decreases n - k,
    {
        values.push(0);
        k += 1;
    }
    match kind {
        SimulationKind::PickPlace => {
            proof {
                assert(318 * width + 171 <= 359 * width + 580) by (nonlinear_arith);
            }
            fill_rect(&mut values, width, 80, 217, 171, 318, 630);
            fill_rect(&mut values, width, 263, 119, 580, 359, 630);
        },
        SimulationKind::DepthGrid => {
            fill_rect(&mut values, width, 310, 210, 330, 230, 400);
            fill_rect(&mut values, width, 350, 210, 356, 217, 380);
        },
    }
    values
}

/// A coordinate of a scene drawn for a reference frame `reference` pixels across, carried
/// to a frame `dimension` pixels across (rounded down): the reference's first and last
/// positions land on the frame's first and last.
pub open spec fn scaled_coordinate(coordinate: u32, dimension: u32, reference: u32) -> int {
    (coordinate * (if dimension == 0 { 0int } else { dimension - 1 })) / (reference - 1)
}

proof fn lemma_scaled_within(coordinate: u32, dimension: u32, reference: u32)
    requires
        coordinate < reference,
        2 <= reference,
        1 <= dimension,
    ensures
        0 <= scaled_coordinate(coordinate, dimension, reference) <= dimension - 1,
{
    let c = coordinate as int;
    let d = dimension - 1;
    let r = reference - 1;
    assert(c * d <= r * d) by (nonlinear_arith)
        requires
            0 <= c <= r,
            0 <= d,
    ;
    assert(0 <= (c * d) / r <= d) by (nonlinear_arith)
        requires
            0 <= c * d <= r * d,
            1 <= r,
            0 <= d,
    ;
}

/// Fills a rectangle given in a 640 by 480 reference frame (columns `left..=right`, rows
/// `top..=bottom`), carried to the buffer's own `width` by `height`.
fn fill_relative_rect(
    values: &mut Vec<u16>,
    width: u32,
    height: u32,
    left: u32,
    top: u32,
    right: u32,
    bottom: u32,
    depth: u16,
)
    requires
        1 <= width,
        1 <= height,
        old(values)@.len() == width * height,
        width * height <= u32::MAX,
        left < 640 && right < 640,
        top < 480 && bottom < 480,
    ensures
        final(values)@.len() == old(values)@.len(),
        forall|i: int|
            0 <= i < final(values)@.len() ==> #[trigger] final(values)@[i] == if in_rect(
                i,
                width as int,
                scaled_coordinate(left, width, 640),
                scaled_coordinate(top, height, 480),
                scaled_coordinate(right, width, 640),
                scaled_coordinate(bottom, height, 480),
            ) {
                depth
            } else {
                old(values)@[i]
            },
{
    let w: u64 = width.saturating_sub(1) as u64;
    let h: u64 = height.saturating_sub(1) as u64;
    proof {
        lemma_scaled_within(left, width, 640);
        lemma_scaled_within(top, height, 480);
        lemma_scaled_within(right, width, 640);
        lemma_scaled_within(bottom, height, 480);
        assert((left as u64) * w <= 639 * w) by (nonlinear_arith)
            requires
                left < 640,
        ;
        assert((right as u64) * w <= 639 * w) by (nonlinear_arith)
            requires
                right < 640,
        ;
        assert((top as u64) * h <= 479 * h) by (nonlinear_arith)
            requires
                top < 480,
        ;
        assert((bottom as u64) * h <= 479 * h) by (nonlinear_arith)
            requires
                bottom < 480,
        ;
    }
    let l = ((left as u64 * w) / 639) as u32;
    let t = ((top as u64 * h) / 479) as u32;
    let r = ((right as u64 * w) / 639) as u32;
    let b = ((bottom as u64 * h) / 479) as u32;
    assert(w as int == width - 1);
    assert(h as int == height - 1);
    assert(r as int == scaled_coordinate(right, width, 640));
    assert(b as int == scaled_coordinate(bottom, height, 480));
    assert(l as int == scaled_coordinate(left, width, 640));
    assert(t as int == scaled_coordinate(top, height, 480));
    proof {
        let x = r as int;
        let y = b as int;
        let ww = width as int;
        let hh = height as int;
        assert(y * ww + x <= (hh - 1) * ww + (ww - 1)) by (nonlinear_arith)
            requires
                0 <= x <= ww - 1,
                0 <= y <= hh - 1,
                1 <= ww,
        ;
        assert((hh - 1) * ww + (ww - 1) == ww * hh - 1) by (nonlinear_arith);
        assert(b * width + r < values@.len());
    }
    fill_rect(values, width, l, t, r, b, depth);
}

/// The depth of a position of the camera node's depth-grid scene, `width` pixels across
/// and `height` high: its two boxes, drawn for a 640 by 480 frame and scaled to this one.
pub open spec fn depth_grid_value(width: u32, height: u32, i: int) -> u16 {
    if in_rect(
        i,
        width as int,
        scaled_coordinate(350, width, 640),
        scaled_coordinate(210, height, 480),
        scaled_coordinate(356, width, 640),
        scaled_coordinate(217, height, 480),
    ) {
        380
    } else if in_rect(
        i,
        width as int,
        scaled_coordinate(310, width, 640),
        scaled_coordinate(210, height, 480),
        scaled_coordinate(330, width, 640),
        scaled_coordinate(230, height, 480),
    ) {
        400
    } else {
        0
    }
}

/// The camera node's depth-grid scene, `width` by `height`, row-major.
pub fn depth_grid(width: u32, height: u32) -> (res: Vec<u16>)
    requires
        1 <= width,
        1 <= height,
        width * height <= u32::MAX,
        width * height <= usize::MAX,
    ensures
        res@.len() == width * height,
        forall|i: int| 0 <= i < res@.len() ==> #[trigger] res@[i] == depth_grid_value(width, height, i),
{
    let n = (width * height) as usize;
    let mut values: Vec<u16> = Vec::new();
    let mut k: usize = 0;
    while k < n
        invariant
            k <= n,
            values@.len() == k,
            forall|i: int| 0 <= i < k ==> values@[i] == 0,
        decreases n - k,
    {
        values.push(0);
        k += 1;
    }
    fill_relative_rect(&mut values, width, height, 310, 210, 330, 230, 400);
    fill_relative_rect(&mut values, width, height, 350, 210, 356, 217, 380);
    values
}

/// The depth of a masked pixel on row `y` of a mask spanning rows `top..=bottom`: `near` on
/// the top row, rising evenly to `far` on the bottom row (rounded down).
pub open spec fn ramp_depth(near: u16, far: u16, top: int, bottom: int, y: int) -> u16 {
    let span = bottom - top;
    (near + if span == 0 {
        0
    } else {
        ((far - near) * (y - top)) / span
    }) as u16
}

proof fn lemma_distinct_positions(a: int, c: int, x: int, y: int, w: int)
    requires
        0 <= a < w,
        0 <= x < w,
        0 <= c,
        0 <= y,
        a != x || c != y,
    ensures
        c * w + a != y * w + x,
{
    if c < y {
        assert(c * w + a < y * w) by (nonlinear_arith)
            requires
                0 <= a < w,
                0 <= c < y,
        ;
    } else if c > y {
        assert(y * w + x < c * w) by (nonlinear_arith)
            requires
                0 <= x < w,
                0 <= y < c,
        ;
    }
}

/// Draws a masked object into a depth image of the mask's size: every set pixel of the
/// mask gets the depth of its row on a ramp from `near` at the mask's top row to `far` at
/// its bottom row; every other value is unchanged.
pub fn fill_masked_depth(depth: &mut Vec<u16>, mask: &GrayRaster, near: u16, far: u16)
    requires
        mask.wf(),
        old(depth)@.len() >= mask.width * mask.height,
        near <= far,
        exists|x: int, y: int| #[trigger] mask.marked_at(x, y, Mark::Nonzero),
        forall|b: (u32, u32, u32, u32)| #[trigger] mask.bounds_are(b, Mark::Nonzero) ==> (far - near) * (b.3 - b.1) <= u32::MAX,
    ensures
        final(depth)@.len() == old(depth)@.len(),
        forall|t: int| mask.width * mask.height <= t < old(depth)@.len() ==> #[trigger] final(depth)@[t] == old(depth)@[t],
        forall|b: (u32, u32, u32, u32)|
            #[trigger] mask.bounds_are(b, Mark::Nonzero) ==> forall|x: int, y: int|
                0 <= x < mask.width && 0 <= y < mask.height ==> #[trigger] final(depth)@[y * mask.width + x] == if mask.marked_at(
                    x,
                    y,
                    Mark::Nonzero,
                ) {
                    ramp_depth(near, far, b.1 as int, b.3 as int, y)
                } else {
                    old(depth)@[y * mask.width + x]
                },
{
    let b = match mask_bounds(mask) {
        Some(b) => b,
        None => {
            proof {
                let (x, y) = choose|x: int, y: int| #[trigger] mask.marked_at(x, y, Mark::Nonzero);
                assert(mask.marked_at(x, y, Mark::Nonzero));
            }
            return ;
        },
    };
    assert((far - near) * (b.3 - b.1) <= u32::MAX);
    let top = b.1;
    let span = b.3 - b.1;
    let w = mask.width;
    let h = mask.height;
    let ghost wi = w as int;
    let ghost start = depth@;
    let n = mask.pixels.len();
    let mut y: u32 = 0;
    while y < h
        invariant
            mask.wf(),
            n == mask.pixels@.len(),
            w == mask.width,
            h == mask.height,
            wi == w as int,
            near <= far,
            mask.bounds_are(b, Mark::Nonzero),
            top == b.1,
            span == b.3 - b.1,
            (far - near) * span <= u32::MAX,
            depth@.len() == start.len(),
            start.len() >= w * h,
            y <= h,
            forall|t: int| w * h <= t < start.len() ==> #[trigger] depth@[t] == start[t],
            forall|a: int, c: int|
                0 <= a < w && 0 <= c < h ==> #[trigger] depth@[c * wi + a] == if c < y && mask.marked_at(a, c, Mark::Nonzero) {
                    ramp_depth(near, far, b.1 as int, b.3 as int, c)
                } else {
                    start[c * wi + a]
                },
        decreases h - y,
    {
        let mut x: u32 = 0;
        while x < w
            invariant
                mask.wf(),
                n == mask.pixels@.len(),
                w == mask.width,
                h == mask.height,
                wi == w as int,
                near <= far,
                mask.bounds_are(b, Mark::Nonzero),
                top == b.1,
                span == b.3 - b.1,
                (far - near) * span <= u32::MAX,
                depth@.len() == start.len(),
                start.len() >= w * h,
                y < h,
                x <= w,
                forall|t: int| w * h <= t < start.len() ==> #[trigger] depth@[t] == start[t],
                forall|a: int, c: int|
                    0 <= a < w && 0 <= c < h ==> #[trigger] depth@[c * wi + a] == if (c < y || (c == y && a < x)) && mask.marked_at(
                        a,
                        c,
                        Mark::Nonzero,
                    ) {
                        ramp_depth(near, far, b.1 as int, b.3 as int, c)
                    } else {
                        start[c * wi + a]
                    },
            decreases w - x,
        {
            assert(0 <= y * wi + x < w * h) by (nonlinear_arith)
                requires
                    0 <= x < w,
                    0 <= y < h,
                    wi == w,
            ;
            let i: usize = (y as usize) * (w as usize) + (x as usize);
            if mask.pixels[i] != 0 {
                assert(mask.marked_at(x as int, y as int, Mark::Nonzero));
                assert(top <= y <= b.3);
                let steps: u32 = y - top;
                assert((far - near) as int * steps as int <= (far - near) * span) by (nonlinear_arith)
                    requires
                        steps <= span,
                        near <= far,
                ;
                let offset: u32 = if span == 0 {
                    0
                } else {
                    ((far - near) as u32 * steps) / span
                };
                assert(offset <= far - near) by (nonlinear_arith)
                    requires
                        offset == (if span == 0 {
                            0int
                        } else {
                            ((far - near) as int * steps as int) / (span as int)
                        }),
                        steps <= span,
                        near <= far,
                ;
                let v: u16 = near + offset as u16;
                assert(v == ramp_depth(near, far, b.1 as int, b.3 as int, y as int));
                let ghost before = depth@;
                depth.set(i, v);
                proof {
                    assert forall|a: int, c: int| 0 <= a < w && 0 <= c < h implies #[trigger] depth@[c * wi + a] == if (c < y || (c
                        == y && a < x + 1)) && mask.marked_at(a, c, Mark::Nonzero) {
                        ramp_depth(near, far, b.1 as int, b.3 as int, c)
                    } else {
                        start[c * wi + a]
                    } by {
                        if a != x || c != y {
                            lemma_distinct_positions(a, c, x as int, y as int, wi);
                            assert(0 <= c * wi + a < w * h) by (nonlinear_arith)
                                requires
                                    0 <= a < w,
                                    0 <= c < h,
                                    wi == w,
                            ;
                            assert(depth@[c * wi + a] == before[c * wi + a]);
                        }
                    }
                    assert forall|t: int| w * h <= t < start.len() implies #[trigger] depth@[t] == start[t] by {
                        assert(depth@[t] == before[t]);
                    }
                }
            } else {
                proof {
                    assert(!mask.marked_at(x as int, y as int, Mark::Nonzero));
                }
            }
            x += 1;
        }
        y += 1;
    }
    proof {
        assert forall|bb: (u32, u32, u32, u32)| #[trigger] mask.bounds_are(bb, Mark::Nonzero) implies bb == b by {
            crate::board_image::lemma_bounds_unique(*mask, b, bb, Mark::Nonzero);
        }
    }
}

} // verus!
