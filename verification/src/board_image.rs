//! Grayscale rasters of the printed calibration board, and the removal of the white
//! print margin around it: the board is the smallest rectangle holding every dark pixel.
use vstd::prelude::*;

verus! {

/// An 8-bit grayscale image, row after row.
pub struct GrayRaster {
    pub width: u32,
    pub height: u32,
    pub pixels: Vec<u8>,
}

/// Pixels darker than this belong to the board's print.
pub const DARK_BELOW: u8 = 128;

/// Which pixels a bounding box is taken of: dark ones (print on paper) or non-zero ones
/// (set in a mask).
#[derive(PartialEq, Eq, Structural, Clone, Copy, Debug)]
pub enum Mark {
    Dark,
    Nonzero,
}

/// Whether a pixel value is marked.
pub open spec fn marked(v: u8, m: Mark) -> bool {
    match m {
        Mark::Dark => v < DARK_BELOW,
        Mark::Nonzero => v != 0,
    }
}

fn is_marked(v: u8, m: Mark) -> (res: bool)
    ensures
        res == marked(v, m),
{
    match m {
        Mark::Dark => v < DARK_BELOW,
        Mark::Nonzero => v != 0,
    }
}

impl GrayRaster {
    /// One value per pixel.
    pub open spec fn wf(&self) -> bool {
        self.pixels@.len() == self.width * self.height
    }

    /// The value at column `x` of row `y`.
    pub open spec fn at(&self, x: int, y: int) -> u8 {
        self.pixels@[y * self.width + x]
    }

    /// Whether `(x, y)` is a marked pixel of the image.
    pub open spec fn marked_at(&self, x: int, y: int, m: Mark) -> bool {
        0 <= x < self.width && 0 <= y < self.height && marked(self.at(x, y), m)
    }

    /// `(left, top, right, bottom)` is the smallest rectangle (inclusive) that holds every
    /// marked pixel: each marked pixel lies in it, and each of its edges touches one.
    pub open spec fn bounds_are(&self, b: (u32, u32, u32, u32), m: Mark) -> bool {
        &&& forall|x: int, y: int| #[trigger] self.marked_at(x, y, m) ==> b.0 <= x <= b.2 && b.1 <= y <= b.3
        &&& exists|y: int| #[trigger] self.marked_at(b.0 as int, y, m)
        &&& exists|x: int| #[trigger] self.marked_at(x, b.1 as int, m)
        &&& exists|y: int| #[trigger] self.marked_at(b.2 as int, y, m)
        &&& exists|x: int| #[trigger] self.marked_at(x, b.3 as int, m)
    }
}

proof fn lemma_index(x: int, y: int, width: int, height: int)
    requires
        0 <= x < width,
        0 <= y < height,
    ensures
        0 <= y * width + x < width * height,
        y * width + x + 1 <= (y + 1) * width,
{
    assert(y * width + x < width * height) by (nonlinear_arith)
        requires
            0 <= x < width,
            0 <= y < height,
    ;
    assert(0 <= y * width) by (nonlinear_arith)
        requires
            0 <= y,
            0 <= width,
    ;
    assert((y + 1) * width == y * width + width) by (nonlinear_arith);
}

proof fn lemma_row_before(a: int, b: int, y: int, width: int)
    requires
        0 <= a < width,
        0 <= b < y,
    ensures
        b * width + a < y * width,
{
    assert(b * width + a < y * width) by (nonlinear_arith)
        requires
            0 <= a < width,
            0 <= b < y,
    ;
}

/// The smallest rectangle holding every marked pixel, if there is one.
pub fn marked_bounds(image: &GrayRaster, mark: Mark) -> (res: Option<(u32, u32, u32, u32)>)
    requires
        image.wf(),
    ensures
        match res {
            Some(b) => image.bounds_are(b, mark),
            None => forall|x: int, y: int| !#[trigger] image.marked_at(x, y, mark),
        },
{
    let mut bounds: Option<(u32, u32, u32, u32)> = None;
    let ghost mut left_y: int = 0;
    let ghost mut top_x: int = 0;
    let ghost mut right_y: int = 0;
    let ghost mut bottom_x: int = 0;
    let n: usize = image.pixels.len();
    let mut y: u32 = 0;
    while y < image.height
        invariant
            image.wf(),
            n == image.pixels@.len(),
            y <= image.height,
            match bounds {
                Some(b) => {
                    &&& forall|a: int, c: int| #[trigger] image.marked_at(a, c, mark) && c < y ==> b.0 <= a <= b.2 && b.1 <= c <= b.3
                    &&& image.marked_at(b.0 as int, left_y, mark)
                    &&& image.marked_at(top_x, b.1 as int, mark)
                    &&& image.marked_at(b.2 as int, right_y, mark)
                    &&& image.marked_at(bottom_x, b.3 as int, mark)
                },
                None => forall|a: int, c: int| #[trigger] image.marked_at(a, c, mark) ==> c >= y,
            },
        decreases image.height - y,
    {
        let mut x: u32 = 0;
        while x < image.width
            invariant
                image.wf(),
                n == image.pixels@.len(),
                y < image.height,
                x <= image.width,
                match bounds {
                    Some(b) => {
                        &&& forall|a: int, c: int|
                            #[trigger] image.marked_at(a, c, mark) && (c < y || (c == y && a < x)) ==> b.0 <= a <= b.2 && b.1 <= c
                                <= b.3
                        &&& image.marked_at(b.0 as int, left_y, mark)
                        &&& image.marked_at(top_x, b.1 as int, mark)
                        &&& image.marked_at(b.2 as int, right_y, mark)
                        &&& image.marked_at(bottom_x, b.3 as int, mark)
                    },
                    None => forall|a: int, c: int| #[trigger] image.marked_at(a, c, mark) ==> (c > y || (c == y && a >= x)),
                },
            decreases image.width - x,
        {
            proof {
                lemma_index(x as int, y as int, image.width as int, image.height as int);
            }
            let i: usize = (y as usize) * (image.width as usize) + (x as usize);
            if is_marked(image.pixels[i], mark) {
                assert(image.marked_at(x as int, y as int, mark));
                match bounds {
                    None => {
                        bounds = Some((x, y, x, y));
                        proof {
                            left_y = y as int;
                            top_x = x as int;
                            right_y = y as int;
                            bottom_x = x as int;
                        }
                    },
                    Some((l, t, r, b)) => {
                        let nl = if x < l { x } else { l };
                        let nt = if y < t { y } else { t };
                        let nr = if x > r { x } else { r };
                        let nb = if y > b { y } else { b };
                        proof {
                            if x < l {
                                left_y = y as int;
                            }
                            if y < t {
                                top_x = x as int;
                            }
                            if x > r {
                                right_y = y as int;
                            }
                            if y > b {
                                bottom_x = x as int;
                            }
                        }
                        bounds = Some((nl, nt, nr, nb));
                    },
                }
            }
            x += 1;
        }
        y += 1;
    }
    proof {
        match bounds {
            Some(b) => {
                assert(image.bounds_are(b, mark)) by {
                    assert forall|a: int, c: int| #[trigger] image.marked_at(a, c, mark) implies b.0 <= a <= b.2 && b.1 <= c <= b.3 by {
                    }
                }
            },
            None => {},
        }
    }
    bounds
}

/// The smallest rectangle holding every dark pixel, if there is one.
pub fn dark_bounds(image: &GrayRaster) -> (res: Option<(u32, u32, u32, u32)>)
    requires
        image.wf(),
    ensures
        match res {
            Some(b) => image.bounds_are(b, Mark::Dark),
            None => forall|x: int, y: int| !#[trigger] image.marked_at(x, y, Mark::Dark),
        },
{
    marked_bounds(image, Mark::Dark)
}

/// The smallest rectangle holding every set pixel of a mask, if there is one.
pub fn mask_bounds(mask: &GrayRaster) -> (res: Option<(u32, u32, u32, u32)>)
    requires
        mask.wf(),
    ensures
        match res {
            Some(b) => mask.bounds_are(b, Mark::Nonzero),
            None => forall|x: int, y: int| !#[trigger] mask.marked_at(x, y, Mark::Nonzero),
        },
{
    marked_bounds(mask, Mark::Nonzero)
}

/// The part of the image inside `left..=right`, `top..=bottom`.
pub fn crop(image: &GrayRaster, left: u32, top: u32, right: u32, bottom: u32) -> (res: GrayRaster)
    requires
        image.wf(),
        left <= right < image.width,
        top <= bottom < image.height,
    ensures
        res.wf(),
        res.width == right - left + 1,
        res.height == bottom - top + 1,
        forall|x: int, y: int| 0 <= x < res.width && 0 <= y < res.height ==> #[trigger] res.at(x, y) == image.at(left + x, top + y),
{
    let width: u32 = right - left + 1;
    let height: u32 = bottom - top + 1;
    let n: usize = image.pixels.len();
    let mut pixels: Vec<u8> = Vec::new();
    let mut y: u32 = 0;
    while y < height
        invariant
            image.wf(),
            n == image.pixels@.len(),
            left <= right < image.width,
            top <= bottom < image.height,
            width == right - left + 1,
            height == bottom - top + 1,
            y <= height,
            pixels@.len() == y * width,
            forall|a: int, c: int| 0 <= a < width && 0 <= c < y ==> #[trigger] pixels@[c * width + a] == image.at(left + a, top + c),
        decreases height - y,
    {
        let mut x: u32 = 0;
        while x < width
            invariant
                image.wf(),
                n == image.pixels@.len(),
                left <= right < image.width,
                top <= bottom < image.height,
                width == right - left + 1,
                height == bottom - top + 1,
                y < height,
                x <= width,
                pixels@.len() == y * width + x,
                forall|a: int, c: int|
                    0 <= a < width && 0 <= c < y ==> #[trigger] pixels@[c * width + a] == image.at(left + a, top + c),
                forall|a: int| 0 <= a < x ==> #[trigger] pixels@[y * width + a] == image.at(left + a, top + y),
            decreases width - x,
        {
            proof {
                lemma_index((left + x) as int, (top + y) as int, image.width as int, image.height as int);
            }
            let i: usize = ((top + y) as usize) * (image.width as usize) + ((left + x) as usize);
            let ghost before = pixels@;
            pixels.push(image.pixels[i]);
            proof {
                assert forall|a: int, c: int| 0 <= a < width && 0 <= c < y implies #[trigger] pixels@[c * width + a] == image.at(
                    left + a,
                    top + c,
                ) by {
                    lemma_row_before(a, c, y as int, width as int);
                    assert(before[c * width + a] == pixels@[c * width + a]);
                }
                assert forall|a: int| 0 <= a < x + 1 implies #[trigger] pixels@[y * width + a] == image.at(left + a, top + y) by {
                    if a < x {
                        assert(before[y * width + a] == pixels@[y * width + a]);
                    }
                }
            }
            x += 1;
        }
        proof {
            assert((y + 1) * width == y * width + width) by (nonlinear_arith);
            assert forall|a: int, c: int| 0 <= a < width && 0 <= c < y + 1 implies #[trigger] pixels@[c * width + a] == image.at(
                left + a,
                top + c,
            ) by {
                if c == y {
                    assert(pixels@[y * width + a] == image.at(left + a, top + y));
                }
            }
        }
        y += 1;
    }
    assert(height * width == width * height) by (nonlinear_arith);
    GrayRaster { width, height, pixels }
}

/// The board without its print margin: the image cropped to the smallest rectangle that
/// holds every dark pixel; an image without dark pixels is returned as it is.
pub fn crop_print_margin(image: &GrayRaster) -> (res: GrayRaster)
    requires
        image.wf(),
    ensures
        res.wf(),
        (forall|x: int, y: int| !#[trigger] image.marked_at(x, y, Mark::Dark)) ==> res.width == image.width && res.height
            == image.height && res.pixels@ == image.pixels@,
        forall|b: (u32, u32, u32, u32)|
            #[trigger] image.bounds_are(b, Mark::Dark) ==> res.width == b.2 - b.0 + 1 && res.height == b.3 - b.1 + 1 && forall|
                x: int,
                y: int,
            | 0 <= x < res.width && 0 <= y < res.height ==> #[trigger] res.at(x, y) == image.at(b.0 + x, b.1 + y),
{
    match dark_bounds(image) {
        None => GrayRaster { width: image.width, height: image.height, pixels: image.pixels.clone() },
        Some((left, top, right, bottom)) => {
            proof {
                let b = (left, top, right, bottom);
                assert forall|c: (u32, u32, u32, u32)| #[trigger] image.bounds_are(c, Mark::Dark) implies c == b by {
                    lemma_bounds_unique(*image, b, c, Mark::Dark);
                }
            }
            crop(image, left, top, right, bottom)
        },
    }
}

pub proof fn lemma_bounds_unique(image: GrayRaster, b: (u32, u32, u32, u32), c: (u32, u32, u32, u32), m: Mark)
    requires
        image.bounds_are(b, m),
        image.bounds_are(c, m),
    ensures
        b == c,
{
    let y0 = choose|y: int| #[trigger] image.marked_at(b.0 as int, y, m);
    let y0c = choose|y: int| #[trigger] image.marked_at(c.0 as int, y, m);
    let x1 = choose|x: int| #[trigger] image.marked_at(x, b.1 as int, m);
    let x1c = choose|x: int| #[trigger] image.marked_at(x, c.1 as int, m);
    let y2 = choose|y: int| #[trigger] image.marked_at(b.2 as int, y, m);
    let y2c = choose|y: int| #[trigger] image.marked_at(c.2 as int, y, m);
    let x3 = choose|x: int| #[trigger] image.marked_at(x, b.3 as int, m);
    let x3c = choose|x: int| #[trigger] image.marked_at(x, c.3 as int, m);
}

} // verus!
