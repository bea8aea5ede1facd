use soul_listener::eink::alignment::{align_down, align_rectangle, align_up, is_aligned, validate_and_align, ALIGNMENT};
use soul_listener::eink::geometry::{Point, Rectangle, Size};
use soul_listener::eink::partial_window::{merge_rectangles, PartialWindow};

#[test]
fn test_align_down() {
    assert_eq!(align_down(0), 0);
    assert_eq!(align_down(1), 0);
    assert_eq!(align_down(7), 0);
    assert_eq!(align_down(8), 8);
    assert_eq!(align_down(9), 8);
    assert_eq!(align_down(15), 8);
    assert_eq!(align_down(16), 16);
}

#[test]
fn test_align_up() {
    assert_eq!(align_up(0), 0);
    assert_eq!(align_up(1), 8);
    assert_eq!(align_up(7), 8);
    assert_eq!(align_up(8), 8);
    assert_eq!(align_up(9), 16);
    assert_eq!(align_up(15), 16);
    assert_eq!(align_up(16), 16);
}

#[test]
fn test_is_aligned() {
    assert!(is_aligned(0));
    assert!(is_aligned(8));
    assert!(is_aligned(16));
    assert!(is_aligned(24));
    assert!(!is_aligned(1));
    assert!(!is_aligned(7));
    assert!(!is_aligned(9));
    assert!(!is_aligned(15));
}

#[test]
fn test_align_rectangle_already_aligned() {
    let rect = Rectangle::new(Point::new(0, 0), Size::new(16, 16));
    let aligned = align_rectangle(&rect);
    assert_eq!(rect, aligned);
}

#[test]
fn test_align_rectangle_needs_alignment() {
    let rect = Rectangle::new(Point::new(5, 5), Size::new(10, 10));
    let aligned = align_rectangle(&rect);
    assert_eq!(aligned.top_left, Point::new(0, 0));
    assert_eq!(aligned.size, Size::new(16, 16));
}

#[test]
fn test_align_rectangle_partial() {
    let rect = Rectangle::new(Point::new(8, 12), Size::new(24, 20));
    let aligned = align_rectangle(&rect);
    assert_eq!(aligned.top_left, Point::new(8, 8));
    assert_eq!(aligned.size, Size::new(24, 24));
}

#[test]
fn test_validate_and_align() {
    let rect = Rectangle::new(Point::new(0, 0), Size::new(16, 16));
    let (aligned, needed) = validate_and_align(&rect);
    assert_eq!(rect, aligned);
    assert!(!needed);

    let rect = Rectangle::new(Point::new(5, 5), Size::new(10, 10));
    let (aligned, needed) = validate_and_align(&rect);
    assert_ne!(rect, aligned);
    assert!(needed);
}

#[test]
fn test_alignment_constant() {
    assert_eq!(ALIGNMENT, 8);
}

#[test]
fn align_rectangle_is_idempotent() {
    for (x, y, w, h) in [(5, 5, 10, 10), (8, 12, 24, 20), (0, 0, 16, 16), (3, 9, 1, 1), (100, 7, 33, 65)] {
        let once = align_rectangle(&Rectangle::new(Point::new(x, y), Size::new(w, h)));
        assert_eq!(align_rectangle(&once), once);
    }
}

#[test]
fn align_rectangle_edge_cases() {
    // Negative corner clamps to 0.
    let r = align_rectangle(&Rectangle::new(Point::new(-5, -3), Size::new(10, 10)));
    assert_eq!(r, Rectangle::new(Point::new(0, 0), Size::new(8, 8)));
    // An empty rectangle keeps its aligned corner, size 0 or 8.
    let r = align_rectangle(&Rectangle::new(Point::new(3, 3), Size::new(0, 0)));
    assert_eq!(r, Rectangle::new(Point::new(0, 0), Size::new(8, 8)));
    // Column and row 8 are kept: the far edge 9 rounds up to 16.
    let r = align_rectangle(&Rectangle::new(Point::new(0, 0), Size::new(9, 9)));
    assert_eq!(r, Rectangle::new(Point::new(0, 0), Size::new(16, 16)));
    assert_eq!(merge_rectangles(&[Rectangle::new(Point::new(0, 0), Size::new(9, 9))]), Some(r));
    // A rectangle ending on a multiple of 8 keeps that edge.
    let r = align_rectangle(&Rectangle::new(Point::new(3, 3), Size::new(5, 13)));
    assert_eq!(r, Rectangle::new(Point::new(0, 0), Size::new(8, 16)));
}

#[test]
fn test_partial_window_new_aligned() {
    let rect = Rectangle::new(Point::new(0, 0), Size::new(16, 16));
    let window = PartialWindow::new(rect);
    assert_eq!(window.rect, rect);
    assert_eq!(window.aligned_rect, rect);
    assert!(!window.was_aligned);
}

#[test]
fn test_partial_window_new_needs_alignment() {
    let rect = Rectangle::new(Point::new(5, 5), Size::new(10, 10));
    let window = PartialWindow::new(rect);
    assert_eq!(window.rect, rect);
    assert_ne!(window.aligned_rect, rect);
    assert!(window.was_aligned);
    assert_eq!(window.aligned_rect.top_left, Point::new(0, 0));
    assert_eq!(window.aligned_rect.size, Size::new(16, 16));
}

#[test]
fn test_partial_window_align() {
    let mut window = PartialWindow::new(Rectangle::new(Point::new(0, 0), Size::new(16, 16)));
    assert!(!window.was_aligned);
    window.rect = Rectangle::new(Point::new(5, 5), Size::new(10, 10));
    window.align();
    assert!(window.was_aligned);
    assert_eq!(window.aligned_rect.top_left, Point::new(0, 0));
    assert_eq!(window.aligned_rect.size, Size::new(16, 16));
}

#[test]
fn test_partial_window_contains() {
    let window = PartialWindow::new(Rectangle::new(Point::new(5, 5), Size::new(10, 10)));
    assert!(window.contains(Point::new(0, 0)));
    assert!(window.contains(Point::new(8, 8)));
    assert!(window.contains(Point::new(15, 15)));
    assert!(!window.contains(Point::new(16, 16)));
}

#[test]
fn test_partial_window_area() {
    let window = PartialWindow::new(Rectangle::new(Point::new(5, 5), Size::new(10, 10)));
    assert_eq!(window.area(), 256);
}

#[test]
fn test_partial_window_merge() {
    let window1 = PartialWindow::new(Rectangle::new(Point::new(0, 0), Size::new(8, 8)));
    let window2 = PartialWindow::new(Rectangle::new(Point::new(16, 16), Size::new(8, 8)));
    let merged = window1.merge(&window2);
    assert_eq!(merged.aligned_rect.top_left, Point::new(0, 0));
    assert_eq!(merged.aligned_rect.size, Size::new(24, 24));
}

#[test]
fn test_merge_rectangles_empty() {
    let result = merge_rectangles(&[]);
    assert!(result.is_none());
}

#[test]
fn test_merge_rectangles_single() {
    let rects = vec![Rectangle::new(Point::new(5, 5), Size::new(10, 10))];
    let merged = merge_rectangles(&rects).unwrap();
    assert_eq!(merged.top_left, Point::new(0, 0));
    assert_eq!(merged.size, Size::new(16, 16));
}

#[test]
fn test_merge_rectangles_multiple() {
    let rects = vec![
        Rectangle::new(Point::new(5, 5), Size::new(10, 10)),
        Rectangle::new(Point::new(20, 20), Size::new(15, 15)),
    ];
    let merged = merge_rectangles(&rects).unwrap();
    assert_eq!(merged.top_left, Point::new(0, 0));
    assert_eq!(merged.size, Size::new(40, 40));
}

#[test]
fn test_merge_rectangles_already_aligned() {
    let rects = vec![
        Rectangle::new(Point::new(0, 0), Size::new(16, 16)),
        Rectangle::new(Point::new(16, 16), Size::new(16, 16)),
    ];
    let merged = merge_rectangles(&rects).unwrap();
    assert_eq!(merged.top_left, Point::new(0, 0));
    assert_eq!(merged.size, Size::new(32, 32));
}

#[test]
fn test_merge_rectangles_overlapping() {
    let rects = vec![
        Rectangle::new(Point::new(0, 0), Size::new(20, 20)),
        Rectangle::new(Point::new(10, 10), Size::new(20, 20)),
    ];
    let merged = merge_rectangles(&rects).unwrap();
    assert_eq!(merged.top_left, Point::new(0, 0));
    assert_eq!(merged.size, Size::new(32, 32));
}

#[test]
fn rectangle_geometry() {
    let r = Rectangle::new(Point::new(2, 3), Size::new(4, 5));
    assert_eq!(r.bottom_right(), Some(Point::new(5, 7)));
    assert!(r.contains(Point::new(2, 3)));
    assert!(r.contains(Point::new(5, 7)));
    assert!(!r.contains(Point::new(6, 7)));
    assert_eq!(Rectangle::new(Point::new(2, 3), Size::new(0, 5)).bottom_right(), None);
}
