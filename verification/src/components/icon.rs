//! Icons for the player's controls, drawn from triangles, rectangles and
//! circles scaled to the icon's size.
use vstd::prelude::*;
use crate::components::draw::{can_move, can_offset, div_toward_zero, half_i32, moved, offset, DrawOp, Paint};
use crate::eink::geometry::{Point, Size};
use crate::eink::pixel_color::Gray4;

verus! {

/// The kinds of icon.
#[derive(Debug, Clone, Copy, PartialEq, Eq, Structural)]
pub enum IconType {
    Play,
    Pause,
    Stop,
    Next,
    Previous,
    VolumeUp,
    VolumeDown,
    Settings,
}

/// An icon of one kind, `size` pixels square, in one gray.
pub struct Icon {
    pub icon_type: IconType,
    pub size: u32,
    pub color: Gray4,
}

/// `size` as Rust's `as i32` gives it.
pub open spec fn signed(size: u32) -> int {
    (size as i32) as int
}

/// The icon's corners and offsets stay within `i32` when it is drawn at
/// `pos`.
pub open spec fn icon_fits(t: IconType, size: u32, pos: Point) -> bool {
    let s = signed(size);
    let h: int = (size / 2) as int;
    match t {
        IconType::Play => can_move(pos, 0, s) && can_move(pos, s, div_toward_zero(s, 2)),
        IconType::Pause => can_move(pos, (size / 3 + size / 6) as int, 0),
        IconType::Stop => true,
        IconType::Next => can_move(pos, 0, h) && can_move(pos, h, h / 2) && can_move(pos, h, 0)
            && can_move(pos, h, h) && can_move(pos, s, h / 2),
        IconType::Previous => can_move(pos, s, 0) && can_move(pos, s, h) && can_move(pos, h, h / 2)
            && can_move(pos, h, 0) && can_move(pos, h, h) && can_move(pos, 0, h / 2),
        IconType::VolumeUp | IconType::VolumeDown => can_move(pos, (size / 4) + 4, (size / 4) as int),
        IconType::Settings => can_move(pos, h, h),
    }
}

/// The shapes of an icon of kind `t`, `size` pixels square, drawn at `pos`
/// in `color`:
/// - Play: a triangle pointing right;
/// - Pause: two bars a third of the size wide, a sixth apart;
/// - Stop: a square;
/// - Next and Previous: two half-size triangles pointing right or left;
/// - volume: a speaker bar and the outline of a sound-wave circle;
/// - Settings: a ring of the icon's size around a filled circle of half
///   of it.
pub open spec fn icon_shapes(t: IconType, size: u32, color: Gray4, pos: Point) -> Seq<DrawOp> {
    let s = signed(size);
    let h: int = (size / 2) as int;
    let fill = Paint::Fill(color);
    match t {
        IconType::Play => seq![
            DrawOp::Triangle { a: pos, b: moved(pos, 0, s), c: moved(pos, s, div_toward_zero(s, 2)), paint: fill },
        ],
        IconType::Pause => seq![
            DrawOp::Rect { top_left: pos, size: Size { width: size / 3, height: size }, paint: fill },
            DrawOp::Rect {
                top_left: moved(pos, (size / 3 + size / 6) as int, 0),
                size: Size { width: size / 3, height: size },
                paint: fill,
            },
        ],
        IconType::Stop => seq![DrawOp::Rect { top_left: pos, size: Size { width: size, height: size }, paint: fill }],
        IconType::Next => seq![
            DrawOp::Triangle { a: pos, b: moved(pos, 0, h), c: moved(pos, h, h / 2), paint: fill },
            DrawOp::Triangle {
                a: moved(pos, h, 0),
                b: moved(pos, h, h),
                c: moved(pos, s, h / 2),
                paint: fill,
            },
        ],
        IconType::Previous => seq![
            DrawOp::Triangle {
                a: moved(pos, s, 0),
                b: moved(pos, s, h),
                c: moved(pos, h, h / 2),
                paint: fill,
            },
            DrawOp::Triangle {
                a: moved(pos, h, 0),
                b: moved(pos, h, h),
                c: moved(pos, 0, h / 2),
                paint: fill,
            },
        ],
        IconType::VolumeUp | IconType::VolumeDown => seq![
            DrawOp::Rect { top_left: pos, size: Size { width: size / 4, height: size / 2 }, paint: fill },
            DrawOp::Circle {
                top_left: moved(pos, (size / 4) + 4, (size / 4) as int),
                diameter: size / 8,
                paint: Paint::Stroke { color, width: 1 },
            },
        ],
        IconType::Settings => seq![
            DrawOp::Circle { top_left: pos, diameter: size, paint: Paint::Stroke { color, width: 2 } },
            DrawOp::Circle {
                top_left: moved(moved(pos, h, h), -(h / 2), -(h / 2)),
                diameter: size / 2,
                paint: fill,
            },
        ],
    }
}

impl Icon {
    /// A black icon of kind `icon_type`, `size` pixels square.
    pub fn new(icon_type: IconType, size: u32) -> (r: Self)
        ensures
            r.icon_type == icon_type,
            r.size == size,
            r.color == (Gray4 { luma: 0 }),
    {
        Icon { icon_type, size, color: Gray4::black() }
    }

    /// The icon in `color`.
    pub fn color(self, color: Gray4) -> (r: Self)
        ensures
            r.icon_type == self.icon_type,
            r.size == self.size,
            r.color == color,
    {
        Icon { color, ..self }
    }

    /// The icon's width and height: its size both ways.
    pub fn dimensions(&self) -> (r: Size)
        ensures
            r == (Size { width: self.size, height: self.size }),
    {
        Size::new(self.size, self.size)
    }

    /// Whether the icon can be drawn at `position`; see [`icon_fits`].
    pub fn fits_at(&self, position: Point) -> (r: bool)
        ensures
            r == icon_fits(self.icon_type, self.size, position),
    {
        let si = self.size as i32;
        let s = si as i64;
        let h = (self.size / 2) as i64;
        let q = h / 2;
        match self.icon_type {
            IconType::Play => can_offset(position, 0, s) && can_offset(position, s, half_i32(si) as i64),
            IconType::Pause => can_offset(position, (self.size / 3 + self.size / 6) as i64, 0),
            IconType::Stop => true,
            IconType::Next => can_offset(position, 0, h) && can_offset(position, h, q) && can_offset(position, h, 0)
                && can_offset(position, h, h) && can_offset(position, s, q),
            IconType::Previous => can_offset(position, s, 0) && can_offset(position, s, h) && can_offset(
                position,
                h,
                q,
            ) && can_offset(position, h, 0) && can_offset(position, h, h) && can_offset(position, 0, q),
            IconType::VolumeUp | IconType::VolumeDown => can_offset(
                position,
                (self.size / 4) as i64 + 4,
                (self.size / 4) as i64,
            ),
            IconType::Settings => can_offset(position, h, h),
        }
    }

    /// The shapes of the icon drawn at `position`, in drawing order; see
    /// [`icon_shapes`].
    pub fn render(&self, position: Point) -> (r: Vec<DrawOp>)
        requires
            icon_fits(self.icon_type, self.size, position),
        ensures
            r@ == icon_shapes(self.icon_type, self.size, self.color, position),
    {
        match self.icon_type {
            IconType::Play => self.render_play(position),
            IconType::Pause => self.render_pause(position),
            IconType::Stop => self.render_stop(position),
            IconType::Next => self.render_next(position),
            IconType::Previous => self.render_previous(position),
            IconType::VolumeUp => self.render_volume_up(position),
            IconType::VolumeDown => self.render_volume_down(position),
            IconType::Settings => self.render_settings(position),
        }
    }

    fn render_play(&self, position: Point) -> (r: Vec<DrawOp>)
        requires
            self.icon_type == IconType::Play,
            icon_fits(self.icon_type, self.size, position),
        ensures
            r@ == icon_shapes(self.icon_type, self.size, self.color, position),
    {
        let s = self.size as i32;
        let off = half_i32(s);
        let p2 = offset(position, 0, s);
        let p3 = offset(position, s, off);
        vec![DrawOp::Triangle { a: position, b: p2, c: p3, paint: Paint::Fill(self.color) }]
    }

    fn render_pause(&self, position: Point) -> (r: Vec<DrawOp>)
        requires
            self.icon_type == IconType::Pause,
            icon_fits(self.icon_type, self.size, position),
        ensures
            r@ == icon_shapes(self.icon_type, self.size, self.color, position),
    {
        let bar_width = self.size / 3;
        let gap = self.size / 6;
        let second = offset(position, (bar_width + gap) as i32, 0);
        let bar = Size::new(bar_width, self.size);
        vec![
            DrawOp::Rect { top_left: position, size: bar, paint: Paint::Fill(self.color) },
            DrawOp::Rect { top_left: second, size: bar, paint: Paint::Fill(self.color) },
        ]
    }

    fn render_stop(&self, position: Point) -> (r: Vec<DrawOp>)
        requires
            self.icon_type == IconType::Stop,
        ensures
            r@ == icon_shapes(self.icon_type, self.size, self.color, position),
    {
        vec![DrawOp::Rect { top_left: position, size: Size::new(self.size, self.size), paint: Paint::Fill(self.color) }]
    }

    fn render_next(&self, position: Point) -> (r: Vec<DrawOp>)
        requires
            self.icon_type == IconType::Next,
            icon_fits(self.icon_type, self.size, position),
        ensures
            r@ == icon_shapes(self.icon_type, self.size, self.color, position),
    {
        let half = (self.size / 2) as i32;
        let off = half_i32(half);
        let s = self.size as i32;
        let fill = Paint::Fill(self.color);
        let first = DrawOp::Triangle { a: position, b: offset(position, 0, half), c: offset(position, half, off), paint: fill };
        let second = DrawOp::Triangle {
            a: offset(position, half, 0),
            b: offset(position, half, half),
            c: offset(position, s, off),
            paint: fill,
        };
        vec![first, second]
    }

    fn render_previous(&self, position: Point) -> (r: Vec<DrawOp>)
        requires
            self.icon_type == IconType::Previous,
            icon_fits(self.icon_type, self.size, position),
        ensures
            r@ == icon_shapes(self.icon_type, self.size, self.color, position),
    {
        let half = (self.size / 2) as i32;
        let off = half_i32(half);
        let s = self.size as i32;
        let fill = Paint::Fill(self.color);
        let first = DrawOp::Triangle {
            a: offset(position, s, 0),
            b: offset(position, s, half),
            c: offset(position, half, off),
            paint: fill,
        };
        let second = DrawOp::Triangle {
            a: offset(position, half, 0),
            b: offset(position, half, half),
            c: offset(position, 0, off),
            paint: fill,
        };
        vec![first, second]
    }

    fn render_volume_up(&self, position: Point) -> (r: Vec<DrawOp>)
        requires
            self.icon_type == IconType::VolumeUp || self.icon_type == IconType::VolumeDown,
            icon_fits(self.icon_type, self.size, position),
        ensures
            r@ == icon_shapes(self.icon_type, self.size, self.color, position),
    {
        let bar_width = self.size / 4;
        let offset_x = (bar_width + 4) as i32;
        let offset_y = (self.size / 4) as i32;
        vec![
            DrawOp::Rect { top_left: position, size: Size::new(bar_width, self.size / 2), paint: Paint::Fill(self.color) },
            DrawOp::Circle {
                top_left: offset(position, offset_x, offset_y),
                diameter: self.size / 8,
                paint: Paint::Stroke { color: self.color, width: 1 },
            },
        ]
    }

    /// The quieter volume icon is drawn as the louder one.
    fn render_volume_down(&self, position: Point) -> (r: Vec<DrawOp>)
        requires
            self.icon_type == IconType::VolumeDown,
            icon_fits(self.icon_type, self.size, position),
        ensures
            r@ == icon_shapes(self.icon_type, self.size, self.color, position),
    {
        self.render_volume_up(position)
    }

    fn render_settings(&self, position: Point) -> (r: Vec<DrawOp>)
        requires
            self.icon_type == IconType::Settings,
            icon_fits(self.icon_type, self.size, position),
        ensures
            r@ == icon_shapes(self.icon_type, self.size, self.color, position),
    {
        let radius = self.size / 2;
        let center = offset(position, radius as i32, radius as i32);
        let inner = offset(center, -((radius / 2) as i32), -((radius / 2) as i32));
        vec![
            DrawOp::Circle { top_left: position, diameter: self.size, paint: Paint::Stroke { color: self.color, width: 2 } },
            DrawOp::Circle { top_left: inner, diameter: radius, paint: Paint::Fill(self.color) },
        ]
    }
}

} // verus!
