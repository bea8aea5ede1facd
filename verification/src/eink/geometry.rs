//! Points, sizes and rectangles of the display's drawing coordinates, as the
//! `embedded-graphics` drawing model defines them: a rectangle is its top-left
//! corner and its size, and its bottom-right corner is inclusive.
use vstd::prelude::*;

verus! {

/// A point in drawing coordinates.
#[derive(Debug, Clone, Copy, PartialEq, Eq, Structural)]
pub struct Point {
    pub x: i32,
    pub y: i32,
}

/// A width and a height in pixels.
#[derive(Debug, Clone, Copy, PartialEq, Eq, Structural)]
pub struct Size {
    pub width: u32,
    pub height: u32,
}

/// An axis-aligned rectangle.
#[derive(Debug, Clone, Copy, PartialEq, Eq, Structural)]
pub struct Rectangle {
    pub top_left: Point,
    pub size: Size,
}

impl Point {
    pub fn new(x: i32, y: i32) -> (r: Self)
        ensures
            r == (Point { x, y }),
    {
        Point { x, y }
    }
}

impl Size {
    pub fn new(width: u32, height: u32) -> (r: Self)
        ensures
            r == (Size { width, height }),
    {
        Size { width, height }
    }
}

/// The far edges `x + width` and `y + height` of `r` stay within `i32`.
pub open spec fn rect_in_range(r: Rectangle) -> bool {
    &&& r.size.width <= i32::MAX
    &&& r.size.height <= i32::MAX
    &&& r.top_left.x + r.size.width <= i32::MAX
    &&& r.top_left.y + r.size.height <= i32::MAX
}

/// The inclusive bottom-right corner of `r`, or `None` for an empty rectangle.
pub open spec fn rect_bottom_right(r: Rectangle) -> Option<Point> {
    if r.size.width > 0 && r.size.height > 0 {
        Some(
            Point {
                x: (r.top_left.x + r.size.width - 1) as i32,
                y: (r.top_left.y + r.size.height - 1) as i32,
            },
        )
    } else {
        None
    }
}

/// Whether `p` lies in `r`.
pub open spec fn rect_contains(r: Rectangle, p: Point) -> bool {
    &&& r.size.width > 0
    &&& r.size.height > 0
    &&& r.top_left.x <= p.x < r.top_left.x + r.size.width
    &&& r.top_left.y <= p.y < r.top_left.y + r.size.height
}

impl Rectangle {
    pub fn new(top_left: Point, size: Size) -> (r: Self)
        ensures
            r == (Rectangle { top_left, size }),
    {
        Rectangle { top_left, size }
    }

    /// The inclusive bottom-right corner, or `None` when the rectangle is empty.
    pub fn bottom_right(&self) -> (r: Option<Point>)
        requires
            rect_in_range(*self),
        ensures
            r == rect_bottom_right(*self),
    {
        if self.size.width > 0 && self.size.height > 0 {
            Some(
                Point {
                    x: self.top_left.x + self.size.width as i32 - 1,
                    y: self.top_left.y + self.size.height as i32 - 1,
                },
            )
        } else {
            None
        }
    }

    /// Whether `point` lies in the rectangle.
    pub fn contains(&self, point: Point) -> (r: bool)
        requires
            rect_in_range(*self),
        ensures
            r == rect_contains(*self, point),
    {
        if point.x >= self.top_left.x && point.y >= self.top_left.y {
            match self.bottom_right() {
                Some(br) => point.x <= br.x && point.y <= br.y,
                None => false,
            }
        } else {
            false
        }
    }
}

} // verus!
