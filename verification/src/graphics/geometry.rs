use vstd::prelude::*;

verus! {

/// A point on the screen, in pixels.
#[derive(Debug, Clone, Copy, PartialEq, Eq, Structural)]
pub struct Point {
    pub x: usize,
    pub y: usize,
}

/// A size in pixels.
#[derive(Debug, Clone, Copy, PartialEq, Eq, Structural)]
pub struct Size {
    pub width: usize,
    pub height: usize,
}

/// A rectangle: its top left corner and its size.
#[derive(Debug, Clone, Copy, PartialEq, Eq, Structural)]
pub struct Rect {
    pub origin: Point,
    pub size: Size,
}

/// Whether `p` lies in the rectangle, its right and bottom edges excluded.
pub open spec fn rect_contains(r: Rect, p: Point) -> bool {
    r.origin.x <= p.x < r.origin.x + r.size.width && r.origin.y <= p.y < r.origin.y + r.size.height
}

impl Point {
    pub fn new(x: usize, y: usize) -> (res: Self)
        ensures
            res == (Point { x, y }),
    {
        Point { x, y }
    }
}

impl Size {
    pub fn new(width: usize, height: usize) -> (res: Self)
        ensures
            res == (Size { width, height }),
    {
        Size { width, height }
    }
}

impl Rect {
    pub fn new(x: usize, y: usize, width: usize, height: usize) -> (res: Self)
        ensures
            res == (Rect { origin: Point { x, y }, size: Size { width, height } }),
    {
        Rect { origin: Point { x, y }, size: Size { width, height } }
    }

    pub fn from_point_and_size(origin: Point, size: Size) -> (res: Self)
        ensures
            res == (Rect { origin, size }),
    {
        Rect { origin, size }
    }

    pub fn contains(&self, p: Point) -> (res: bool)
        ensures
            res == rect_contains(*self, p),
    {
        let x_in = self.origin.x <= p.x && (p.x - self.origin.x) < self.size.width;
        let y_in = self.origin.y <= p.y && (p.y - self.origin.y) < self.size.height;
        x_in && y_in
    }
}

} // verus!
