//! Buttons: a label in the 10 × 20 font on a padded, optionally rounded
//! and bordered background.
use vstd::prelude::*;
use vstd::string::StringSliceAdditionalSpecFns;
use crate::components::draw::{div_toward_zero, fits_i32, fits_i32_exec, half_i32, DrawOp, Paint};
use crate::eink::geometry::{Point, Rectangle, Size};
use crate::eink::pixel_color::Gray4;

verus! {

/// Space kept on each side of a box's content.
#[derive(Debug, Clone, Copy, PartialEq, Eq, Structural)]
pub struct Edges {
    pub top: u32,
    pub right: u32,
    pub bottom: u32,
    pub left: u32,
}

impl Edges {
    /// `horizontal` on the left and right, `vertical` above and below.
    pub fn horizontal_vertical(horizontal: u32, vertical: u32) -> (r: Self)
        ensures
            r == (Edges { top: vertical, right: horizontal, bottom: vertical, left: horizontal }),
    {
        Edges { top: vertical, right: horizontal, bottom: vertical, left: horizontal }
    }

    /// Space left and right together.
    pub fn horizontal(&self) -> (r: u32)
        requires
            self.left + self.right <= u32::MAX,
        ensures
            r == self.left + self.right,
    {
        self.left + self.right
    }

    /// Space above and below together.
    pub fn vertical(&self) -> (r: u32)
        requires
            self.top + self.bottom <= u32::MAX,
        ensures
            r == self.top + self.bottom,
    {
        self.top + self.bottom
    }
}

/// Colours, padding and corner radius of a button.
#[derive(Debug, Clone, Copy, PartialEq, Eq, Structural)]
pub struct ButtonStyle {
    pub background: Gray4,
    pub foreground: Gray4,
    pub border: Option<Gray4>,
    pub padding: Edges,
    pub corner_radius: u32,
}

/// The primary style: dark background, white text, black border,
/// padding 16 × 8, corners rounded by 4.
pub open spec fn primary_style() -> ButtonStyle {
    ButtonStyle {
        background: Gray4 { luma: 2 },
        foreground: Gray4 { luma: 15 },
        border: Some(Gray4 { luma: 0 }),
        padding: Edges { top: 8, right: 16, bottom: 8, left: 16 },
        corner_radius: 4,
    }
}

impl ButtonStyle {
    /// The primary style; see [`primary_style`].
    pub fn primary() -> (r: Self)
        ensures
            r == primary_style(),
    {
        ButtonStyle {
            background: Gray4::new(0x2),
            foreground: Gray4::white(),
            border: Some(Gray4::black()),
            padding: Edges::horizontal_vertical(16, 8),
            corner_radius: 4,
        }
    }

    /// Light background, black text, middle-gray border, padding 16 × 8,
    /// corners rounded by 4.
    pub fn secondary() -> (r: Self)
        ensures
            r == (ButtonStyle {
                background: Gray4 { luma: 12 },
                foreground: Gray4 { luma: 0 },
                border: Some(Gray4 { luma: 8 }),
                padding: Edges { top: 8, right: 16, bottom: 8, left: 16 },
                corner_radius: 4,
            }),
    {
        ButtonStyle {
            background: Gray4::new(0xC),
            foreground: Gray4::black(),
            border: Some(Gray4::new(0x8)),
            padding: Edges::horizontal_vertical(16, 8),
            corner_radius: 4,
        }
    }

    /// Text only: white background, black text, no border, padding 8 × 4,
    /// square corners.
    pub fn text() -> (r: Self)
        ensures
            r == (ButtonStyle {
                background: Gray4 { luma: 15 },
                foreground: Gray4 { luma: 0 },
                border: None,
                padding: Edges { top: 4, right: 8, bottom: 4, left: 8 },
                corner_radius: 0,
            }),
    {
        ButtonStyle {
            background: Gray4::white(),
            foreground: Gray4::black(),
            border: None,
            padding: Edges::horizontal_vertical(8, 4),
            corner_radius: 0,
        }
    }
}

/// A labelled button.
pub struct Button {
    pub label: &'static str,
    pub style: ButtonStyle,
    pub min_width: Option<u32>,
}

/// The label's byte length as Rust's `as u32` and `as i32` give it.
pub open spec fn label_u32(label: &str) -> u32 {
    (label.spec_bytes().len() as usize) as u32
}

/// See [`label_u32`].
pub open spec fn label_i32(label: &str) -> i32 {
    (label.spec_bytes().len() as usize) as i32
}

/// The button's size fits `u32`: the label ten pixels per byte, plus the
/// padding, twenty pixels high plus the padding.
pub open spec fn size_fits(label: &str, style: ButtonStyle) -> bool {
    &&& label_u32(label) * 10 + style.padding.left + style.padding.right <= u32::MAX
    &&& 20 + style.padding.top + style.padding.bottom <= u32::MAX
}

/// The button's size: the label's width (ten pixels per byte) and height
/// (twenty pixels) plus the padding, at least `min_width` wide.
pub open spec fn button_size(label: &str, style: ButtonStyle, min_width: Option<u32>) -> Size {
    let content_w = label_u32(label) * 10 + style.padding.left + style.padding.right;
    let w = match min_width {
        Some(m) => if content_w < m { m as int } else { content_w },
        None => content_w,
    };
    Size { width: w as u32, height: (20 + style.padding.top + style.padding.bottom) as u32 }
}

/// Where the label's baseline starts for a button of size `size` at `pos`:
/// centred across, seven pixels below the middle.
pub open spec fn text_origin(label: &str, size: Size, pos: Point) -> (int, int) {
    (
        pos.x + div_toward_zero((size.width as i32) as int, 2) - div_toward_zero(label_i32(label) * 10, 2),
        pos.y + div_toward_zero((size.height as i32) as int, 2) + 7,
    )
}

/// Drawing the button at `pos` stays within `i32`.
pub open spec fn render_fits(label: &str, style: ButtonStyle, min_width: Option<u32>, pos: Point) -> bool {
    let size = button_size(label, style, min_width);
    &&& size_fits(label, style)
    &&& fits_i32(label_i32(label) * 10)
    &&& fits_i32(pos.x + div_toward_zero((size.width as i32) as int, 2))
    &&& fits_i32(text_origin(label, size, pos).0)
    &&& fits_i32(pos.y + div_toward_zero((size.height as i32) as int, 2))
    &&& fits_i32(text_origin(label, size, pos).1)
}

/// The button's background at `pos`: rounded when the style has a corner
/// radius, filled, then outlined one pixel wide in the border colour if
/// there is one.
pub open spec fn button_frame(style: ButtonStyle, size: Size, pos: Point) -> Seq<DrawOp> {
    let fill = if style.corner_radius > 0 {
        DrawOp::RoundedRect { top_left: pos, size, radius: style.corner_radius, paint: Paint::Fill(style.background) }
    } else {
        DrawOp::Rect { top_left: pos, size, paint: Paint::Fill(style.background) }
    };
    match style.border {
        Some(c) => seq![
            fill,
            if style.corner_radius > 0 {
                DrawOp::RoundedRect {
                    top_left: pos,
                    size,
                    radius: style.corner_radius,
                    paint: Paint::Stroke { color: c, width: 1 },
                }
            } else {
                DrawOp::Rect { top_left: pos, size, paint: Paint::Stroke { color: c, width: 1 } }
            },
        ],
        None => seq![fill],
    }
}

/// What a button draws: its background shapes, and where its label goes
/// (left end of the baseline), in the style's text colour.
pub struct ButtonDrawing {
    pub shapes: Vec<DrawOp>,
    pub text_at: Point,
    pub text_color: Gray4,
}

impl Button {
    /// A button with `label` in the primary style.
    pub fn new(label: &'static str) -> (r: Self)
        ensures
            r.label == label,
            r.style == primary_style(),
            r.min_width is None,
    {
        Button { label, style: ButtonStyle::primary(), min_width: None }
    }

    /// The button in `style`.
    pub fn style(self, style: ButtonStyle) -> (r: Self)
        ensures
            r.label == self.label,
            r.style == style,
            r.min_width == self.min_width,
    {
        Button { style, ..self }
    }

    /// The button at least `width` wide.
    pub fn min_width(self, width: u32) -> (r: Self)
        ensures
            r.label == self.label,
            r.style == self.style,
            r.min_width == Some(width),
    {
        Button { min_width: Some(width), ..self }
    }

    /// The button's size; see [`button_size`].
    pub fn calculate_size(&self) -> (r: Size)
        requires
            size_fits(self.label, self.style),
        ensures
            r == button_size(self.label, self.style, self.min_width),
    {
        let n = self.label.len() as u32;
        let text_width = n * 10;
        let text_height: u32 = 20;
        let content_width = text_width + self.style.padding.horizontal();
        let content_height = text_height + self.style.padding.vertical();
        let final_width = match self.min_width {
            Some(min_w) => if content_width < min_w { min_w } else { content_width },
            None => content_width,
        };
        Size::new(final_width, content_height)
    }

    /// Whether the button can be drawn at `position`; see [`render_fits`].
    pub fn fits_at(&self, position: Point) -> (r: bool)
        ensures
            r == render_fits(self.label, self.style, self.min_width, position),
    {
        let n = self.label.len() as u32;
        let p = self.style.padding;
        if n as u64 * 10 + p.left as u64 + p.right as u64 > u32::MAX as u64 {
            return false;
        }
        if 20 + p.top as u64 + p.bottom as u64 > u32::MAX as u64 {
            return false;
        }
        let size = self.calculate_size();
        let tw = (self.label.len() as i32) as i64 * 10;
        if !fits_i32_exec(tw) {
            return false;
        }
        let half_tw = half_i32(tw as i32) as i64;
        let cx = position.x as i64 + half_i32(size.width as i32) as i64;
        let cy = position.y as i64 + half_i32(size.height as i32) as i64;
        fits_i32_exec(cx) && fits_i32_exec(cx - half_tw) && fits_i32_exec(cy) && fits_i32_exec(cy + 7)
    }

    /// What the button draws at `position`: [`button_frame`] and the label
    /// at [`text_origin`].
    pub fn render(&self, position: Point) -> (r: ButtonDrawing)
        requires
            render_fits(self.label, self.style, self.min_width, position),
        ensures
            r.shapes@ == button_frame(self.style, button_size(self.label, self.style, self.min_width), position),
            r.text_at.x == text_origin(self.label, button_size(self.label, self.style, self.min_width), position).0,
            r.text_at.y == text_origin(self.label, button_size(self.label, self.style, self.min_width), position).1,
            r.text_color == self.style.foreground,
    {
        let size = self.calculate_size();
        let mut shapes: Vec<DrawOp> = Vec::new();
        if self.style.corner_radius > 0 {
            shapes.push(DrawOp::RoundedRect {
                top_left: position,
                size,
                radius: self.style.corner_radius,
                paint: Paint::Fill(self.style.background),
            });
            if let Some(border_color) = self.style.border {
                shapes.push(DrawOp::RoundedRect {
                    top_left: position,
                    size,
                    radius: self.style.corner_radius,
                    paint: Paint::Stroke { color: border_color, width: 1 },
                });
            }
        } else {
            shapes.push(DrawOp::Rect { top_left: position, size, paint: Paint::Fill(self.style.background) });
            if let Some(border_color) = self.style.border {
                shapes.push(DrawOp::Rect {
                    top_left: position,
                    size,
                    paint: Paint::Stroke { color: border_color, width: 1 },
                });
            }
        }
        let text_width = (self.label.len() as i32) * 10;
        let text_x = position.x + (size.width as i32) / 2 - text_width / 2;
        let text_y = position.y + (size.height as i32) / 2 + 7;
        ButtonDrawing { shapes, text_at: Point::new(text_x, text_y), text_color: self.style.foreground }
    }

    /// The rectangle the button covers at `position`.
    pub fn bounds(&self, position: Point) -> (r: Rectangle)
        requires
            size_fits(self.label, self.style),
        ensures
            r == (Rectangle { top_left: position, size: button_size(self.label, self.style, self.min_width) }),
    {
        Rectangle::new(position, self.calculate_size())
    }
}

} // verus!
