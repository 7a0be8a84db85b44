use vstd::prelude::*;

verus! {

/// A point in physical screen coordinates.
///
/// Coordinates may be negative on multi-monitor desktops where a display is
/// positioned left of or above the primary monitor.
#[derive(Debug, Clone, Copy, PartialEq, Eq, Structural)]
pub struct ScreenPoint {
    pub x: i32,
    pub y: i32,
}

impl ScreenPoint {
    pub fn new(x: i32, y: i32) -> (p: Self)
        ensures
            p.x == x,
            p.y == y,
    {
        Self { x, y }
    }
}

/// A rectangle in physical screen coordinates.
///
/// The rectangle uses half-open bounds: `x <= point.x < right` and
/// `y <= point.y < bottom`.
#[derive(Debug, Clone, Copy, PartialEq, Eq, Structural)]
pub struct ScreenRect {
    pub x: i32,
    pub y: i32,
    pub width: u32,
    pub height: u32,
}

impl ScreenRect {
    /// Exclusive right edge, as a mathematical integer.
    pub open spec fn spec_right(self) -> int {
        self.x + self.width
    }

    /// Exclusive bottom edge, as a mathematical integer.
    pub open spec fn spec_bottom(self) -> int {
        self.y + self.height
    }

    pub open spec fn spec_is_empty(self) -> bool {
        self.width == 0 || self.height == 0
    }

    /// Half-open containment of a point given by integer coordinates.
    pub open spec fn spec_contains_xy(self, px: int, py: int) -> bool {
        &&& !self.spec_is_empty()
        &&& self.x <= px < self.spec_right()
        &&& self.y <= py < self.spec_bottom()
    }

    pub open spec fn spec_contains(self, point: ScreenPoint) -> bool {
        self.spec_contains_xy(point.x as int, point.y as int)
    }

    pub fn new(x: i32, y: i32, width: u32, height: u32) -> (r: Self)
        ensures
            r.x == x,
            r.y == y,
            r.width == width,
            r.height == height,
    {
        Self { x, y, width, height }
    }

    pub fn is_empty(self) -> (b: bool)
        ensures
            b == self.spec_is_empty(),
    {
        self.width == 0 || self.height == 0
    }

    pub fn right(self) -> (r: i64)
        ensures
            r == self.spec_right(),
    {
        self.x as i64 + self.width as i64
    }

    pub fn bottom(self) -> (b: i64)
        ensures
            b == self.spec_bottom(),
    {
        self.y as i64 + self.height as i64
    }

    pub fn contains(self, point: ScreenPoint) -> (b: bool)
        ensures
            b == self.spec_contains(point),
    {
        let x = point.x as i64;
        let y = point.y as i64;

        !self.is_empty() && x >= self.x as i64 && x < self.right() && y >= self.y as i64 && y
            < self.bottom()
    }
}

} // verus!
