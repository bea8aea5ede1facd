//! Partial-window refresh regions.
//!
//! A partial window updates only a rectangular region of the display. The
//! controller needs the region on 8-pixel boundaries, so every window keeps
//! both the requested and the aligned rectangle.
use vstd::prelude::*;
use crate::eink::alignment::{aligned_rect, align_rectangle, lemma_aligned_covers, validate_and_align};
use crate::eink::geometry::{rect_contains, rect_in_range, Point, Rectangle, Size};

verus! {

/// A partial refresh window: the requested rectangle, its 8-aligned
/// version, and whether alignment changed it.
#[derive(Debug, Clone, PartialEq, Eq, Structural)]
pub struct PartialWindow {
    /// Requested rectangle (may not be aligned)
    pub rect: Rectangle,
    /// Hardware-aligned rectangle (8-pixel boundaries)
    pub aligned_rect: Rectangle,
    /// Whether alignment changed the rectangle
    pub was_aligned: bool,
}

/// The window built for `rect`.
pub open spec fn window_of(rect: Rectangle) -> PartialWindow {
    PartialWindow { rect, aligned_rect: aligned_rect(rect), was_aligned: aligned_rect(rect) != rect }
}

/// The bounding box of `a` and `b`.
pub open spec fn merged_box(a: Rectangle, b: Rectangle) -> Rectangle {
    let x = if a.top_left.x < b.top_left.x { a.top_left.x } else { b.top_left.x };
    let y = if a.top_left.y < b.top_left.y { a.top_left.y } else { b.top_left.y };
    let ar = a.top_left.x + a.size.width;
    let br = b.top_left.x + b.size.width;
    let ab = a.top_left.y + a.size.height;
    let bb = b.top_left.y + b.size.height;
    let right = if ar > br { ar } else { br };
    let bottom = if ab > bb { ab } else { bb };
    Rectangle {
        top_left: Point { x, y },
        size: Size { width: (right - x) as u32, height: (bottom - y) as u32 },
    }
}

/// Both rectangles are in range and the extent of their bounding box fits in `i32`.
pub open spec fn merge_fits(a: Rectangle, b: Rectangle) -> bool {
    let x = if a.top_left.x < b.top_left.x { a.top_left.x } else { b.top_left.x };
    let y = if a.top_left.y < b.top_left.y { a.top_left.y } else { b.top_left.y };
    let ar = a.top_left.x + a.size.width;
    let br = b.top_left.x + b.size.width;
    let ab = a.top_left.y + a.size.height;
    let bb = b.top_left.y + b.size.height;
    let right = if ar > br { ar } else { br };
    let bottom = if ab > bb { ab } else { bb };
    &&& rect_in_range(a)
    &&& rect_in_range(b)
    &&& right - x <= i32::MAX
    &&& bottom - y <= i32::MAX
}

/// The bounding box of a non-empty list, merged left to right.
pub open spec fn merge_all(rects: Seq<Rectangle>) -> Rectangle
    decreases rects.len(),
{
    if rects.len() <= 1 {
        rects[0]
    } else {
        merged_box(merge_all(rects.drop_last()), rects.last())
    }
}

/// Every merge step of [`merge_all`] fits in `i32`.
pub open spec fn merge_all_fits(rects: Seq<Rectangle>) -> bool
    decreases rects.len(),
{
    if rects.len() == 0 {
        true
    } else if rects.len() == 1 {
        rect_in_range(rects[0])
    } else {
        merge_all_fits(rects.drop_last()) && merge_fits(merge_all(rects.drop_last()), rects.last())
    }
}

/// Merge two rectangles into their bounding box.
fn merge_pair(a: &Rectangle, b: &Rectangle) -> (r: Rectangle)
    requires
        merge_fits(*a, *b),
    ensures
        r == merged_box(*a, *b),
        rect_in_range(r),
{
    let top_left = Point::new(
        if a.top_left.x < b.top_left.x { a.top_left.x } else { b.top_left.x },
        if a.top_left.y < b.top_left.y { a.top_left.y } else { b.top_left.y },
    );
    let ar = a.top_left.x + a.size.width as i32;
    let br = b.top_left.x + b.size.width as i32;
    let ab = a.top_left.y + a.size.height as i32;
    let bb = b.top_left.y + b.size.height as i32;
    let bottom_right = Point::new(if ar > br { ar } else { br }, if ab > bb { ab } else { bb });
    let size = Size::new(
        (bottom_right.x - top_left.x) as u32,
        (bottom_right.y - top_left.y) as u32,
    );
    Rectangle::new(top_left, size)
}

impl PartialWindow {
    /// Create a window for `rect`, aligning it.
    pub fn new(rect: Rectangle) -> (r: Self)
        requires
            rect_in_range(rect),
        ensures
            r == window_of(rect),
    {
        let (aligned_rect, was_aligned) = validate_and_align(&rect);
        PartialWindow { rect, aligned_rect, was_aligned }
    }

    /// Re-align after `rect` was changed.
    pub fn align(&mut self)
        requires
            rect_in_range(old(self).rect),
        ensures
            *final(self) == window_of(old(self).rect),
    {
        let (aligned_rect, was_aligned) = validate_and_align(&self.rect);
        self.aligned_rect = aligned_rect;
        self.was_aligned = was_aligned;
    }

    /// Whether `point` lies in the aligned rectangle.
    pub fn contains(&self, point: Point) -> (r: bool)
        requires
            rect_in_range(self.aligned_rect),
        ensures
            r == rect_contains(self.aligned_rect, point),
    {
        self.aligned_rect.contains(point)
    }

    /// Area of the aligned rectangle in pixels.
    pub fn area(&self) -> (r: u32)
        requires
            self.aligned_rect.size.width * self.aligned_rect.size.height <= u32::MAX,
        ensures
            r == self.aligned_rect.size.width * self.aligned_rect.size.height,
    {
        self.aligned_rect.size.width * self.aligned_rect.size.height
    }

    /// The window of the bounding box of both aligned rectangles.
    pub fn merge(&self, other: &PartialWindow) -> (r: PartialWindow)
        requires
            merge_fits(self.aligned_rect, other.aligned_rect),
        ensures
            r == window_of(merged_box(self.aligned_rect, other.aligned_rect)),
    {
        let merged_rect = merge_pair(&self.aligned_rect, &other.aligned_rect);
        PartialWindow::new(merged_rect)
    }
}

/// Merge rectangles into their aligned bounding box; `None` for no rectangle.
pub fn merge_rectangles(rects: &[Rectangle]) -> (r: Option<Rectangle>)
    requires
        merge_all_fits(rects@),
    ensures
        rects@.len() == 0 ==> r is None,
        rects@.len() > 0 ==> r == Some(aligned_rect(merge_all(rects@))),
{
    if rects.len() == 0 {
        return None;
    }
    let mut merged = rects[0];
    let mut i: usize = 1;
    proof {
        lemma_fits_prefix(rects@, 1);
        assert(rects@.subrange(0, 1).len() == 1);
    }
    while i < rects.len()
        invariant
            1 <= i <= rects@.len(),
            merge_all_fits(rects@),
            merged == merge_all(rects@.subrange(0, i as int)),
            rect_in_range(merged),
        decreases rects@.len() - i,
    {
        proof {
            lemma_fits_prefix(rects@, i + 1);
            let s = rects@.subrange(0, i + 1);
            assert(s.drop_last() == rects@.subrange(0, i as int));
            assert(s.last() == rects@[i as int]);
        }
        merged = merge_pair(&merged, &rects[i]);
        i = i + 1;
    }
    assert(rects@.subrange(0, rects@.len() as int) == rects@);
    Some(align_rectangle(&merged))
}

/// Every prefix of a list whose merges fit has merges that fit.
proof fn lemma_fits_prefix(rects: Seq<Rectangle>, n: int)
    requires
        1 <= n <= rects.len(),
        merge_all_fits(rects),
    ensures
        merge_all_fits(rects.subrange(0, n)),
        n >= 2 ==> merge_fits(merge_all(rects.subrange(0, n - 1)), rects[n - 1]),
        rect_in_range(merge_all(rects.subrange(0, n))),
    decreases rects.len() - n,
{
    if n < rects.len() {
        lemma_fits_prefix(rects.drop_last(), n);
        assert(rects.drop_last().subrange(0, n) == rects.subrange(0, n));
        assert(rects.drop_last().subrange(0, n - 1) == rects.subrange(0, n - 1));
    } else {
        assert(rects.subrange(0, n) == rects);
        if n >= 2 {
            assert(rects.drop_last() == rects.subrange(0, n - 1));
        }
    }
    let s = rects.subrange(0, n);
    if n >= 2 {
        assert(s.drop_last() == rects.subrange(0, n - 1));
        lemma_merged_in_range(merge_all(s.drop_last()), s.last());
    }
}

proof fn lemma_merged_in_range(a: Rectangle, b: Rectangle)
    requires
        merge_fits(a, b),
    ensures
        rect_in_range(merged_box(a, b)),
{
}

/// The bounding box of two rectangles contains every pixel of both.
pub proof fn lemma_merged_box_covers(a: Rectangle, b: Rectangle, p: Point)
    requires
        merge_fits(a, b),
        rect_contains(a, p) || rect_contains(b, p),
    ensures
        rect_contains(merged_box(a, b), p),
{
}

/// The merge of a list of rectangles contains every pixel of each of them.
pub proof fn lemma_merge_all_covers(rects: Seq<Rectangle>, i: int, p: Point)
    requires
        merge_all_fits(rects),
        0 <= i < rects.len(),
        rect_contains(rects[i], p),
    ensures
        rect_contains(merge_all(rects), p),
    decreases rects.len(),
{
    if rects.len() > 1 {
        let init = rects.drop_last();
        lemma_fits_prefix(rects, rects.len() as int);
        lemma_fits_prefix(rects, rects.len() - 1);
        assert(rects.subrange(0, rects.len() - 1) == init);
        assert(rects.subrange(0, rects.len() as int) == rects);
        if i < rects.len() - 1 {
            assert(init[i] == rects[i]);
            lemma_merge_all_covers(init, i, p);
        }
        lemma_merged_box_covers(merge_all(init), rects.last(), p);
    }
}

/// The window `merge_rectangles` gives covers every pixel, in the
/// non-negative quadrant, of every rectangle it merged.
pub proof fn lemma_merge_rectangles_covers(rects: Seq<Rectangle>, i: int, p: Point)
    requires
        merge_all_fits(rects),
        0 <= i < rects.len(),
        rect_contains(rects[i], p),
        p.x >= 0,
        p.y >= 0,
    ensures
        rect_contains(aligned_rect(merge_all(rects)), p),
{
    lemma_merge_all_covers(rects, i, p);
    lemma_fits_prefix(rects, rects.len() as int);
    assert(rects.subrange(0, rects.len() as int) == rects);
    lemma_aligned_covers(merge_all(rects), p);
}

} // verus!
