//! Partial-refresh alignment.
//!
//! E-ink controllers refresh partial windows on 8-pixel boundaries; a window
//! is widened to the enclosing aligned rectangle before the refresh.
use vstd::prelude::*;
use crate::eink::geometry::{rect_contains, rect_in_range, Point, Rectangle, Size};

verus! {

/// Partial-window coordinates must be multiples of this many pixels.
pub const ALIGNMENT: u32 = 8;

/// `v` rounded down to a multiple of 8.
pub open spec fn down8(v: int) -> int {
    v - v % 8
}

/// `v` rounded up to a multiple of 8.
pub open spec fn up8(v: int) -> int {
    if v % 8 == 0 { v } else { v - v % 8 + 8 }
}

/// Round a value down to the nearest multiple of [`ALIGNMENT`].
pub fn align_down(value: u32) -> (r: u32)
    ensures
        r == down8(value as int),
{
    (value / ALIGNMENT) * ALIGNMENT
}

/// Round a value up to the nearest multiple of [`ALIGNMENT`].
pub fn align_up(value: u32) -> (r: u32)
    requires
        up8(value as int) <= u32::MAX,
    ensures
        r == up8(value as int),
{
    let q = value / ALIGNMENT + if value % ALIGNMENT != 0 { 1 } else { 0 };
    q * ALIGNMENT
}

/// Whether `value` is a multiple of [`ALIGNMENT`].
pub fn is_aligned(value: u32) -> (r: bool)
    ensures
        r == (value % 8 == 0),
{
    value % ALIGNMENT == 0
}

/// `v`, or 0 when `v` is negative.
pub open spec fn clamp0(v: int) -> int {
    if v < 0 { 0 } else { v }
}

/// The far corner of `rect`, exclusive: `(x + width, y + height)`; for an
/// empty rectangle its top-left corner.
pub open spec fn far_corner(rect: Rectangle) -> (int, int) {
    if rect.size.width > 0 && rect.size.height > 0 {
        (rect.top_left.x + rect.size.width, rect.top_left.y + rect.size.height)
    } else {
        (rect.top_left.x as int, rect.top_left.y as int)
    }
}

/// The smallest 8-aligned rectangle of the non-negative quadrant that
/// contains `rect`'s pixels there: the top-left corner is rounded down and
/// the exclusive far corner up (an empty rectangle keeps its top-left
/// corner as far corner).
pub open spec fn aligned_rect(rect: Rectangle) -> Rectangle {
    let (fx, fy) = far_corner(rect);
    let x = down8(clamp0(rect.top_left.x as int));
    let y = down8(clamp0(rect.top_left.y as int));
    let right = up8(clamp0(fx));
    let bottom = up8(clamp0(fy));
    Rectangle {
        top_left: Point { x: x as i32, y: y as i32 },
        size: Size { width: (right - x) as u32, height: (bottom - y) as u32 },
    }
}

/// Align a rectangle to 8-pixel boundaries, expanding it (see
/// [`aligned_rect`]).
pub fn align_rectangle(rect: &Rectangle) -> (r: Rectangle)
    requires
        rect_in_range(*rect),
    ensures
        r == aligned_rect(*rect),
{
    let top_left = rect.top_left;
    let (far_x, far_y) = if rect.size.width > 0 && rect.size.height > 0 {
        (top_left.x + rect.size.width as i32, top_left.y + rect.size.height as i32)
    } else {
        (top_left.x, top_left.y)
    };
    let aligned_x = align_down(if top_left.x > 0 { top_left.x as u32 } else { 0 });
    let aligned_y = align_down(if top_left.y > 0 { top_left.y as u32 } else { 0 });
    proof {
        lemma_round8(clamp0(far_x as int));
        lemma_round8(clamp0(far_y as int));
        lemma_round8(clamp0(top_left.x as int));
        lemma_round8(clamp0(top_left.y as int));
    }
    let aligned_right = align_up(if far_x > 0 { far_x as u32 } else { 0 });
    let aligned_bottom = align_up(if far_y > 0 { far_y as u32 } else { 0 });
    let width = aligned_right - aligned_x;
    let height = aligned_bottom - aligned_y;
    Rectangle::new(Point::new(aligned_x as i32, aligned_y as i32), Size::new(width, height))
}

/// A rectangle of the non-negative quadrant whose corner and size are
/// multiples of 8 and which is not empty is already aligned.
pub proof fn lemma_aligned_unchanged(rect: Rectangle)
    requires
        rect_in_range(rect),
        rect.top_left.x >= 0,
        rect.top_left.y >= 0,
        rect.top_left.x % 8 == 0,
        rect.top_left.y % 8 == 0,
        rect.size.width % 8 == 0,
        rect.size.height % 8 == 0,
        rect.size.width > 0,
        rect.size.height > 0,
    ensures
        aligned_rect(rect) == rect,
{
    lemma_round8(rect.top_left.x as int);
    lemma_round8(rect.top_left.y as int);
    lemma_round8(rect.top_left.x + rect.size.width);
    lemma_round8(rect.top_left.y + rect.size.height);
}

/// Align a rectangle and report whether alignment changed it.
pub fn validate_and_align(rect: &Rectangle) -> (r: (Rectangle, bool))
    requires
        rect_in_range(*rect),
    ensures
        r.0 == aligned_rect(*rect),
        r.1 == (aligned_rect(*rect) != *rect),
{
    let aligned = align_rectangle(rect);
    let needed_alignment = aligned != *rect;
    (aligned, needed_alignment)
}

/// Aligning a rectangle whose alignment is not empty a second time changes
/// nothing.
pub proof fn lemma_alignment_idempotent(rect: Rectangle)
    requires
        rect_in_range(rect),
        rect.top_left.x + rect.size.width <= i32::MAX - 8,
        rect.top_left.y + rect.size.height <= i32::MAX - 8,
        aligned_rect(rect).size.width > 0,
        aligned_rect(rect).size.height > 0,
    ensures
        rect_in_range(aligned_rect(rect)),
        aligned_rect(aligned_rect(rect)) == aligned_rect(rect),
{
    let (fx, fy) = far_corner(rect);
    let x = clamp0(rect.top_left.x as int);
    let y = clamp0(rect.top_left.y as int);
    lemma_round8(x);
    lemma_round8(y);
    lemma_round8(clamp0(fx));
    lemma_round8(clamp0(fy));
    lemma_round8(down8(x));
    lemma_round8(down8(y));
    lemma_round8(up8(clamp0(fx)));
    lemma_round8(up8(clamp0(fy)));
    let a = aligned_rect(rect);
    lemma_round8(a.top_left.x + a.size.width);
    lemma_round8(a.top_left.y + a.size.height);
}

/// The aligned rectangle covers every pixel of the rectangle in the
/// non-negative quadrant.
pub proof fn lemma_aligned_covers(rect: Rectangle, p: Point)
    requires
        rect_in_range(rect),
        rect_contains(rect, p),
        p.x >= 0,
        p.y >= 0,
    ensures
        rect_contains(aligned_rect(rect), p),
{
    lemma_round8(clamp0(rect.top_left.x as int));
    lemma_round8(clamp0(rect.top_left.y as int));
    lemma_round8(rect.top_left.x + rect.size.width);
    lemma_round8(rect.top_left.y + rect.size.height);
}

proof fn lemma_round8(v: int)
    requires
        v >= 0,
    ensures
        down8(v) <= v <= up8(v),
        down8(v) % 8 == 0,
        up8(v) % 8 == 0,
        v - 8 < down8(v),
        up8(v) < v + 8,
        v % 8 == 0 ==> down8(v) == v && up8(v) == v,
        down8(v) >= 0,
{
}

} // verus!
