//! The shapes a component draws.
use vstd::prelude::*;
use crate::eink::geometry::{Point, Size};
use crate::eink::pixel_color::Gray4;

verus! {

/// How a shape is painted: filled, or outlined with a stroke `width`
/// pixels wide.
#[derive(Debug, Clone, Copy, PartialEq, Eq, Structural)]
pub enum Paint {
    Fill(Gray4),
    Stroke { color: Gray4, width: u32 },
}

/// One shape, in display coordinates.
#[derive(Debug, Clone, Copy, PartialEq, Eq, Structural)]
pub enum DrawOp {
    /// A triangle through three corners.
    Triangle { a: Point, b: Point, c: Point, paint: Paint },
    /// An axis-aligned rectangle.
    Rect { top_left: Point, size: Size, paint: Paint },
    /// A rectangle whose four corners are rounded with `radius`.
    RoundedRect { top_left: Point, size: Size, radius: u32, paint: Paint },
    /// A circle given by the top-left corner of its bounding square and
    /// its diameter.
    Circle { top_left: Point, diameter: u32, paint: Paint },
}

/// `v` fits in `i32`.
pub open spec fn fits_i32(v: int) -> bool {
    i32::MIN <= v <= i32::MAX
}

/// `a / b` rounded toward zero, as Rust's integer division does (`b > 0`).
pub open spec fn div_toward_zero(a: int, b: int) -> int {
    if a >= 0 { a / b } else { -((-a) / b) }
}

/// `p` moved by (`dx`, `dy`).
pub open spec fn moved(p: Point, dx: int, dy: int) -> Point {
    Point { x: (p.x + dx) as i32, y: (p.y + dy) as i32 }
}

/// `p` can be moved by (`dx`, `dy`) without leaving `i32`.
pub open spec fn can_move(p: Point, dx: int, dy: int) -> bool {
    fits_i32(p.x + dx) && fits_i32(p.y + dy)
}

/// `p` moved by (`dx`, `dy`).
pub fn offset(p: Point, dx: i32, dy: i32) -> (r: Point)
    requires
        can_move(p, dx as int, dy as int),
    ensures
        r == moved(p, dx as int, dy as int),
{
    Point { x: p.x + dx, y: p.y + dy }
}

/// Whether `p` can be moved by (`dx`, `dy`) without leaving `i32`.
pub fn can_offset(p: Point, dx: i64, dy: i64) -> (r: bool)
    requires
        -0x1_0000_0000 <= dx <= 0x1_0000_0000,
        -0x1_0000_0000 <= dy <= 0x1_0000_0000,
    ensures
        r == can_move(p, dx as int, dy as int),
{
    let x = p.x as i64 + dx;
    let y = p.y as i64 + dy;
    i32::MIN as i64 <= x && x <= i32::MAX as i64 && i32::MIN as i64 <= y && y <= i32::MAX as i64
}

/// Whether `v` fits in `i32`.
pub fn fits_i32_exec(v: i64) -> (r: bool)
    ensures
        r == fits_i32(v as int),
{
    i32::MIN as i64 <= v && v <= i32::MAX as i64
}

/// Half of `v`, rounded toward zero.
pub fn half_i32(v: i32) -> (r: i32)
    ensures
        r == div_toward_zero(v as int, 2),
{
    v / 2
}

} // verus!
