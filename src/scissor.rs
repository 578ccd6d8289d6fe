use crate::image::{grid_coordinates, lemma_grid_coordinates_contains, CoordinateIterator};
use vstd::prelude::*;

verus! {

/// An axis-aligned rectangle of pixels: `width` columns from `x`, `height`
/// rows from `y`.
#[derive(Debug, Clone, Copy, PartialEq, Eq, Structural)]
pub struct Scissor {
    pub x: usize,
    pub y: usize,
    pub width: usize,
    pub height: usize,
}

pub open spec fn min(a: int, b: int) -> int {
    if a <= b { a } else { b }
}

pub open spec fn max(a: int, b: int) -> int {
    if a >= b { a } else { b }
}

impl Scissor {
    /// The far corners fit in a `usize`.
    pub open spec fn wf(&self) -> bool {
        &&& self.x + self.width <= usize::MAX
        &&& self.y + self.height <= usize::MAX
    }

    /// Pixel (px, py) lies inside the rectangle.
    pub open spec fn holds(&self, px: int, py: int) -> bool {
        &&& self.x <= px < self.x + self.width
        &&& self.y <= py < self.y + self.height
    }

    /// The overlap of two rectangles: origins at the larger of the two, far
    /// corners at the smaller; none when it has no area.
    pub open spec fn overlap(a: Scissor, b: Scissor) -> Option<Scissor> {
        let x0 = max(a.x as int, b.x as int);
        let y0 = max(a.y as int, b.y as int);
        let x1 = min(a.x + a.width, b.x + b.width);
        let y1 = min(a.y + a.height, b.y + b.height);
        if x1 <= x0 || y1 <= y0 {
            None
        } else {
            Some(
                Scissor {
                    x: x0 as usize,
                    y: y0 as usize,
                    width: (x1 - x0) as usize,
                    height: (y1 - y0) as usize,
                },
            )
        }
    }

    /// The rectangle's own coordinates, (0, 0) to (width - 1, height - 1),
    /// row by row.
    pub fn coordinates(&self) -> (r: CoordinateIterator)
        requires
            self.width * self.height <= usize::MAX,
        ensures
            r.wf(),
            r.remaining() == grid_coordinates(self.width as nat, self.height as nat),
    {
        CoordinateIterator::new(self.width, self.height)
    }

    /// Whether pixel (x, y) lies inside the rectangle.
    pub fn contains(&self, x: usize, y: usize) -> (r: bool)
        ensures
            r == self.holds(x as int, y as int),
    {
        x >= self.x && x - self.x < self.width && y >= self.y && y - self.y < self.height
    }

    /// The overlap with `other`, or `None` where the two share no pixel.
    pub fn intersect_with(&self, other: &Scissor) -> (r: Option<Scissor>)
        requires
            self.wf(),
            other.wf(),
        ensures
            r == Scissor::overlap(*self, *other),
            r matches Some(s) ==> s.wf() && s.width > 0 && s.height > 0,
            r matches Some(s) ==> forall|px: int, py: int|
                s.holds(px, py) <==> self.holds(px, py) && other.holds(px, py),
            r is None ==> forall|px: int, py: int|
                !(self.holds(px, py) && other.holds(px, py)),
    {
        let x0 = if self.x >= other.x { self.x } else { other.x };
        let y0 = if self.y >= other.y { self.y } else { other.y };
        let sx1 = self.x + self.width;
        let ox1 = other.x + other.width;
        let sy1 = self.y + self.height;
        let oy1 = other.y + other.height;
        let x1 = if sx1 <= ox1 { sx1 } else { ox1 };
        let y1 = if sy1 <= oy1 { sy1 } else { oy1 };
        if x1 <= x0 || y1 <= y0 {
            None
        } else {
            Some(Scissor { x: x0, y: y0, width: x1 - x0, height: y1 - y0 })
        }
    }
}

/// Intersection does not depend on the order of its operands.
pub proof fn lemma_intersection_commutative(a: Scissor, b: Scissor)
    ensures
        Scissor::overlap(a, b) == Scissor::overlap(b, a),
{
}

/// A rectangle with at least one pixel intersected with itself is itself.
pub proof fn lemma_intersection_idempotent(a: Scissor)
    requires
        a.width > 0,
        a.height > 0,
    ensures
        Scissor::overlap(a, a) == Some(a),
{
}

/// A pixel lies inside a rectangle exactly when its offset from the
/// rectangle's origin is among the rectangle's own coordinates.
pub proof fn lemma_contains_iff_enumerated(s: Scissor, px: usize, py: usize)
    requires
        s.width * s.height <= usize::MAX,
    ensures
        s.holds(px as int, py as int) <==> {
            &&& px >= s.x
            &&& py >= s.y
            &&& grid_coordinates(s.width as nat, s.height as nat).contains(
                ((px - s.x) as usize, (py - s.y) as usize),
            )
        },
{
    if px >= s.x && py >= s.y {
        lemma_grid_coordinates_contains(
            s.width as nat,
            s.height as nat,
            (px - s.x) as usize,
            (py - s.y) as usize,
        );
    }
}

} // verus!
