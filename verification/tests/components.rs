use soul_listener::components::button::{Button, ButtonStyle, Edges};
use soul_listener::components::draw::{DrawOp, Paint};
use soul_listener::components::icon::{Icon, IconType};
use soul_listener::components::label::{Label, LabelBuilder, TextSize};
use soul_listener::eink::geometry::{Point, Rectangle, Size};
use soul_listener::eink::pixel_color::Gray4;

#[test]
fn test_button_creation() {
    let button = Button::new("Click Me");
    assert_eq!(button.label, "Click Me");
}

#[test]
fn test_button_size_calculation() {
    let button = Button::new("Test");
    let size = button.calculate_size();
    assert!(size.width >= 40);
    assert_eq!(size.height, 20 + 16);
}

#[test]
fn test_min_width() {
    let button = Button::new("Hi").min_width(100);
    let size = button.calculate_size();
    assert!(size.width >= 100);
}

#[test]
fn test_style_presets() {
    let primary = ButtonStyle::primary();
    assert_eq!(primary.background, Gray4::new(0x2));

    let secondary = ButtonStyle::secondary();
    assert_eq!(secondary.background, Gray4::new(0xC));

    let text = ButtonStyle::text();
    assert!(text.border.is_none());
}

#[test]
fn test_icon_creation() {
    let icon = Icon::new(IconType::Play, 24);
    assert_eq!(icon.icon_type, IconType::Play);
    assert_eq!(icon.size, 24);
}

#[test]
fn test_icon_color() {
    let icon = Icon::new(IconType::Play, 24).color(Gray4::new(0x8));
    assert_eq!(icon.color, Gray4::new(0x8));
}

#[test]
fn test_icon_dimensions() {
    let icon = Icon::new(IconType::Play, 32);
    assert_eq!(icon.dimensions(), Size::new(32, 32));
}

#[test]
fn test_label_creation() {
    let label = Label::new("Hello World");
    assert_eq!(label.text, "Hello World");
    assert_eq!(label.color, Gray4::black());
}

#[test]
fn test_label_dimensions() {
    let label = Label::new("Test");
    let dims = label.dimensions();
    assert_eq!(dims.width, 4 * 10);
    assert_eq!(dims.height, 20);
}

#[test]
fn test_text_sizes() {
    assert_eq!(TextSize::Small.line_height(), 10);
    assert_eq!(TextSize::Normal.line_height(), 20);
    assert_eq!(TextSize::Small.char_width(), 6);
    assert_eq!(TextSize::Normal.char_width(), 10);
}

#[test]
fn test_label_builder() {
    let heading = LabelBuilder::heading("Title");
    assert_eq!(heading.size, TextSize::Normal);

    let subtitle = LabelBuilder::subtitle("Subtitle");
    assert_eq!(subtitle.size, TextSize::Small);

    let caption = LabelBuilder::caption("Caption");
    assert_eq!(caption.size, TextSize::Small);
}

fn p(x: i32, y: i32) -> Point {
    Point::new(x, y)
}

#[test]
fn button_sizes_and_text_position() {
    let button = Button::new("Test");
    assert_eq!(button.calculate_size(), Size::new(72, 36));
    assert_eq!(Button::new("Hi").min_width(100).calculate_size(), Size::new(100, 36));
    assert_eq!(Button::new("Hi").style(ButtonStyle::text()).calculate_size(), Size::new(36, 28));
    assert_eq!(button.bounds(p(3, 4)), Rectangle::new(p(3, 4), Size::new(72, 36)));
    let d = button.render(p(0, 0));
    assert_eq!(d.text_at, p(16, 25));
    assert_eq!(d.text_color, Gray4::white());
    assert_eq!(
        d.shapes,
        vec![
            DrawOp::RoundedRect { top_left: p(0, 0), size: Size::new(72, 36), radius: 4, paint: Paint::Fill(Gray4::new(2)) },
            DrawOp::RoundedRect {
                top_left: p(0, 0),
                size: Size::new(72, 36),
                radius: 4,
                paint: Paint::Stroke { color: Gray4::black(), width: 1 },
            },
        ]
    );
    let flat = Button::new("Ok").style(ButtonStyle::text()).render(p(10, 10));
    assert_eq!(
        flat.shapes,
        vec![DrawOp::Rect { top_left: p(10, 10), size: Size::new(36, 28), paint: Paint::Fill(Gray4::white()) }]
    );
    assert_eq!(Edges::horizontal_vertical(3, 5).horizontal(), 6);
    assert_eq!(Edges::horizontal_vertical(3, 5).vertical(), 10);
}

#[test]
fn button_fits_only_inside_i32() {
    assert!(Button::new("Test").fits_at(p(0, 0)));
    assert!(!Button::new("Test").fits_at(p(i32::MAX - 10, 0)));
    assert!(!Button::new("Test").fits_at(p(0, i32::MAX - 10)));
}

#[test]
fn icon_shapes_per_kind() {
    let black = Paint::Fill(Gray4::black());
    assert_eq!(
        Icon::new(IconType::Play, 24).render(p(0, 0)),
        vec![DrawOp::Triangle { a: p(0, 0), b: p(0, 24), c: p(24, 12), paint: black }]
    );
    assert_eq!(
        Icon::new(IconType::Pause, 24).render(p(1, 1)),
        vec![
            DrawOp::Rect { top_left: p(1, 1), size: Size::new(8, 24), paint: black },
            DrawOp::Rect { top_left: p(13, 1), size: Size::new(8, 24), paint: black },
        ]
    );
    assert_eq!(
        Icon::new(IconType::Stop, 10).render(p(2, 3)),
        vec![DrawOp::Rect { top_left: p(2, 3), size: Size::new(10, 10), paint: black }]
    );
    assert_eq!(
        Icon::new(IconType::Previous, 24).render(p(0, 0)),
        vec![
            DrawOp::Triangle { a: p(24, 0), b: p(24, 12), c: p(12, 6), paint: black },
            DrawOp::Triangle { a: p(12, 0), b: p(12, 12), c: p(0, 6), paint: black },
        ]
    );
    let gray = Gray4::new(5);
    assert_eq!(
        Icon::new(IconType::VolumeDown, 32).color(gray).render(p(0, 0)),
        vec![
            DrawOp::Rect { top_left: p(0, 0), size: Size::new(8, 16), paint: Paint::Fill(gray) },
            DrawOp::Circle { top_left: p(12, 8), diameter: 4, paint: Paint::Stroke { color: gray, width: 1 } },
        ]
    );
    assert_eq!(
        Icon::new(IconType::Settings, 20).render(p(5, 5)),
        vec![
            DrawOp::Circle { top_left: p(5, 5), diameter: 20, paint: Paint::Stroke { color: Gray4::black(), width: 2 } },
            DrawOp::Circle { top_left: p(10, 10), diameter: 10, paint: black },
        ]
    );
    assert_eq!(Icon::new(IconType::Next, 24).render(p(0, 0))[1], DrawOp::Triangle {
        a: p(12, 0),
        b: p(12, 12),
        c: p(24, 6),
        paint: black,
    });
}

#[test]
fn icon_fits_only_inside_i32() {
    assert!(Icon::new(IconType::Play, 24).fits_at(p(0, 0)));
    assert!(!Icon::new(IconType::Play, 24).fits_at(p(i32::MAX - 5, 0)));
    assert!(Icon::new(IconType::Stop, 24).fits_at(p(i32::MAX, i32::MAX)));
    assert!(!Icon::new(IconType::Settings, 24).fits_at(p(0, i32::MAX - 3)));
}

#[test]
fn small_labels_use_the_small_font() {
    let label = LabelBuilder::caption("abc");
    assert_eq!(label.color, Gray4::new(8));
    assert_eq!(label.dimensions(), Size::new(18, 10));
    assert_eq!(Label::new("x").size(TextSize::Small).color(Gray4::new(3)).dimensions(), Size::new(6, 10));
}
