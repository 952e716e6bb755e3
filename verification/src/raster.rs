//! Rasterization: evaluate a composed field once per pixel of an image and
//! classify each pixel as inside (distance strictly negative) or outside.

use vstd::prelude::*;
use crate::field::COORD_MAX;
use crate::field::Point;
use crate::field::Sdf;
use crate::field::eval;

verus! {

/// Whether the field classifies the pixel at column `x`, row `y` as inside:
/// the distance there is strictly negative; zero or more is outside.
pub open spec fn pixel_inside(s: Sdf, x: int, y: int) -> bool {
    eval(s, x, y).v < 0
}

/// Classify every pixel of a `width` by `height` image: entry `y * width + x`
/// of the row-major result is `true` exactly when the field's distance at the
/// point `(x, y)` is strictly negative.
pub fn rasterize(s: &Sdf, width: usize, height: usize) -> (img: Vec<bool>)
    requires
        s.wf(),
        width <= COORD_MAX,
        height <= COORD_MAX,
        width * height <= usize::MAX,
    ensures
        img@.len() == width * height,
        forall|x: int, y: int|
            0 <= x < width && 0 <= y < height ==> img@[y * width + x] == pixel_inside(*s, x, y),
{
    let mut img: Vec<bool> = Vec::new();
    let mut y: usize = 0;
    while y < height
        invariant
            s.wf(),
            width <= COORD_MAX,
            height <= COORD_MAX,
            width * height <= usize::MAX,
            y <= height,
            img@.len() == y * width,
            forall|px: int, py: int|
                0 <= px < width && 0 <= py < y ==> img@[py * width + px] == pixel_inside(*s, px, py),
        decreases height - y,
    {
        let mut x: usize = 0;
        proof {
            assert((y + 1) * width == y * width + width) by (nonlinear_arith);
            assert(y * width + width <= width * height) by (nonlinear_arith)
                requires
                    y < height,
                    0 <= width,
            ;
        }
        while x < width
            invariant
                s.wf(),
                width <= COORD_MAX,
                height <= COORD_MAX,
                y < height,
                x <= width,
                y * width + width <= usize::MAX,
                img@.len() == y * width + x,
                forall|px: int, py: int|
                    0 <= px < width && 0 <= py < y ==> img@[py * width + px] == pixel_inside(
                        *s,
                        px,
                        py,
                    ),
                forall|px: int| 0 <= px < x ==> img@[y * width + px] == pixel_inside(*s, px, y as int),
            decreases width - x,
        {
            let p = Point::new(x as i64, y as i64);
            let d = s.distance(&p);
            img.push(d.v < 0);
            x = x + 1;
            proof {
                assert forall|px: int, py: int|
                    0 <= px < width && 0 <= py < y implies #[trigger] img@[py * width + px]
                    == pixel_inside(*s, px, py) by {
                    assert(py * width + px < (py + 1) * width <= y * width) by (nonlinear_arith)
                        requires
                            0 <= px < width,
                            0 <= py,
                            py + 1 <= y,
                    ;
                }
            }
        }
        y = y + 1;
        proof {
            assert(y * width == (y - 1) * width + width) by (nonlinear_arith);
        }
    }
    proof {
        assert((height as int) * width == width * height) by (nonlinear_arith);
    }
    img
}

} // verus!
