//! Static text labels in one of the two monospace fonts.
use vstd::prelude::*;
use vstd::string::StringSliceAdditionalSpecFns;
use crate::eink::geometry::Size;
use crate::eink::pixel_color::Gray4;

verus! {

/// Text size: the 6 × 10 font (`Small`) or the 10 × 20 font (`Normal`).
#[derive(Debug, Clone, Copy, PartialEq, Eq, Structural)]
pub enum TextSize {
    Small,
    Normal,
}

/// Height of a line of text of size `s`.
pub open spec fn line_height_of(s: TextSize) -> u32 {
    match s {
        TextSize::Small => 10,
        TextSize::Normal => 20,
    }
}

/// Width of a character of size `s`.
pub open spec fn char_width_of(s: TextSize) -> u32 {
    match s {
        TextSize::Small => 6,
        TextSize::Normal => 10,
    }
}

impl TextSize {
    /// Height of a line of text.
    pub fn line_height(&self) -> (r: u32)
        ensures
            r == line_height_of(*self),
    {
        match self {
            TextSize::Small => 10,
            TextSize::Normal => 20,
        }
    }

    /// Width of a character.
    pub fn char_width(&self) -> (r: u32)
        ensures
            r == char_width_of(*self),
    {
        match self {
            TextSize::Small => 6,
            TextSize::Normal => 10,
        }
    }
}

/// A line of static text in one gray and one size.
pub struct Label {
    pub text: &'static str,
    pub color: Gray4,
    pub size: TextSize,
}

/// The byte length of `text` as Rust's `as u32` gives it.
pub open spec fn len_u32(text: &str) -> u32 {
    (text.spec_bytes().len() as usize) as u32
}

impl Label {
    /// Black text of normal size.
    pub fn new(text: &'static str) -> (r: Self)
        ensures
            r.text == text,
            r.color == (Gray4 { luma: 0 }),
            r.size == TextSize::Normal,
    {
        Label { text, color: Gray4::black(), size: TextSize::Normal }
    }

    /// The label in `color`.
    pub fn color(self, color: Gray4) -> (r: Self)
        ensures
            r.text == self.text,
            r.color == color,
            r.size == self.size,
    {
        Label { color, ..self }
    }

    /// The label in text size `size`.
    pub fn size(self, size: TextSize) -> (r: Self)
        ensures
            r.text == self.text,
            r.color == self.color,
            r.size == size,
    {
        Label { size, ..self }
    }

    /// Width and height of the text: one character width per byte, one
    /// line high.
    pub fn dimensions(&self) -> (r: Size)
        requires
            len_u32(self.text) * char_width_of(self.size) <= u32::MAX,
        ensures
            r == (Size {
                width: (len_u32(self.text) * char_width_of(self.size)) as u32,
                height: line_height_of(self.size),
            }),
    {
        let n = self.text.len() as u32;
        Size::new(n * self.size.char_width(), self.size.line_height())
    }
}

/// Ready-made label styles.
pub struct LabelBuilder;

impl LabelBuilder {
    /// A heading: black, normal size.
    pub fn heading(text: &'static str) -> (r: Label)
        ensures
            r.text == text,
            r.color == (Gray4 { luma: 0 }),
            r.size == TextSize::Normal,
    {
        Label::new(text).color(Gray4::black()).size(TextSize::Normal)
    }

    /// A subtitle: dark gray, small.
    pub fn subtitle(text: &'static str) -> (r: Label)
        ensures
            r.text == text,
            r.color == (Gray4 { luma: 4 }),
            r.size == TextSize::Small,
    {
        Label::new(text).color(Gray4::new(0x4)).size(TextSize::Small)
    }

    /// A caption: middle gray, small.
    pub fn caption(text: &'static str) -> (r: Label)
        ensures
            r.text == text,
            r.color == (Gray4 { luma: 8 }),
            r.size == TextSize::Small,
    {
        Label::new(text).color(Gray4::new(0x8)).size(TextSize::Small)
    }
}

} // verus!
