use vstd::prelude::*;

verus! {

/// A position in logical compositor coordinates.
#[derive(Debug, Clone, Copy, PartialEq, Eq, Structural)]
pub struct Point {
    pub x: i32,
    pub y: i32,
}

/// A width/height pair in pixels.
#[derive(Debug, Clone, Copy, PartialEq, Eq, Structural)]
pub struct Size {
    pub width: u32,
    pub height: u32,
}

/// An axis-aligned rectangle: top-left origin plus size.
#[derive(Debug, Clone, Copy, PartialEq, Eq, Structural)]
pub struct Rect {
    pub origin: Point,
    pub size: Size,
}

impl Rect {
    pub open spec fn spec_new(x: i32, y: i32, width: u32, height: u32) -> Rect {
        Rect { origin: Point { x, y }, size: Size { width, height } }
    }

    /// Builds a rectangle from its origin and size.
    pub fn new(x: i32, y: i32, width: u32, height: u32) -> (r: Rect)
        ensures
            r == Rect::spec_new(x, y, width, height),
    {
        Rect { origin: Point { x, y }, size: Size { width, height } }
    }

    /// Right edge (exclusive), as a mathematical integer.
    pub open spec fn right(self) -> int {
        self.origin.x + self.size.width
    }

    /// Bottom edge (exclusive), as a mathematical integer.
    pub open spec fn bottom(self) -> int {
        self.origin.y + self.size.height
    }

    /// The rectangle's size and edges fit the signed 32-bit coordinate space.
    pub open spec fn fits(self) -> bool {
        &&& self.size.width <= i32::MAX
        &&& self.size.height <= i32::MAX
        &&& self.right() <= i32::MAX
        &&& self.bottom() <= i32::MAX
    }
}

} // verus!
