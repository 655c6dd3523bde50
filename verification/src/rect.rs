use vstd::prelude::*;

verus! {

/// An axis-aligned rectangle: signed top-left corner, unsigned size.
///
/// The origin may be negative or lie past the screen: off-screen geometry is
/// legal everywhere in this crate and is clipped at draw time.
#[derive(Clone, Copy, PartialEq, Eq, Structural, Debug)]
pub struct Rect {
    pub width: usize,
    pub height: usize,
    pub x: isize,
    pub y: isize,
}

impl Rect {
    /// One past the right edge, as a mathematical integer.
    pub open spec fn spec_end_x(self) -> int {
        self.x + self.width
    }

    /// One past the bottom edge, as a mathematical integer.
    pub open spec fn spec_end_y(self) -> int {
        self.y + self.height
    }

    /// Both edge sums stay representable in `isize`, so the executable edge
    /// computations cannot overflow.
    pub open spec fn fits(self) -> bool {
        self.width <= isize::MAX && self.height <= isize::MAX && self.x + self.width <= isize::MAX
            && self.y + self.height <= isize::MAX
    }

    /// Strict interval overlap on both axes: rectangles that merely touch
    /// along an edge do not collide.
    pub open spec fn spec_collides(self, other: Rect) -> bool {
        self.x < other.spec_end_x() && self.spec_end_x() > other.x && self.y < other.spec_end_y()
            && self.spec_end_y() > other.y
    }

    /// Does the point `(x, y)` lie inside this rectangle?
    pub open spec fn contains(self, x: int, y: int) -> bool {
        self.x <= x < self.spec_end_x() && self.y <= y < self.spec_end_y()
    }

    pub fn new(width: usize, height: usize, x: isize, y: isize) -> (r: Rect)
        ensures
            r == (Rect { width, height, x, y }),
    {
        Rect { width, height, x, y }
    }

    pub fn start_x(&self) -> (r: isize)
        ensures
            r == self.x,
    {
        self.x
    }

    pub fn end_x(&self) -> (r: isize)
        requires
            self.fits(),
        ensures
            r == self.spec_end_x(),
    {
        self.x + self.width as isize
    }

    pub fn start_y(&self) -> (r: isize)
        ensures
            r == self.y,
    {
        self.y
    }

    pub fn end_y(&self) -> (r: isize)
        requires
            self.fits(),
        ensures
            r == self.spec_end_y(),
    {
        self.y + self.height as isize
    }

    pub fn detect_collision(&self, other: &Rect) -> (r: bool)
        requires
            self.fits(),
            other.fits(),
        ensures
            r == self.spec_collides(*other),
    {
        self.x < other.end_x() && self.end_x() > other.x && self.y < other.end_y()
            && self.end_y() > other.y
    }
}

/// Collision is symmetric: testing A against B answers the same as testing B
/// against A.
pub proof fn lemma_collision_symmetric(a: Rect, b: Rect)
    ensures
        a.spec_collides(b) == b.spec_collides(a),
{
}

/// A rectangle does not collide with a copy of itself shifted by exactly its
/// own width (either direction) or exactly its own height (either direction):
/// the two then touch along an edge, and edge contact is not a collision.
pub proof fn lemma_edge_touch_no_collision(a: Rect, b: Rect)
    requires
        b.width == a.width,
        b.height == a.height,
        (b.x == a.x + a.width && b.y == a.y) || (b.x == a.x - a.width && b.y == a.y) || (b.y == a.y
            + a.height && b.x == a.x) || (b.y == a.y - a.height && b.x == a.x),
    ensures
        !a.spec_collides(b),
        !b.spec_collides(a),
{
}

} // verus!
