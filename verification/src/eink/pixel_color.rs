//! Unified pixel color for grayscale and color e-ink displays.
//!
//! Three color modes:
//! - Grayscale: traditional 4-bit gray e-ink panels
//! - Spectra 6 (ACeP): 6-color panels with a black/white plane and pigments
//! - Kaleido 3: 4096-color panels with a color filter overlay
use vstd::prelude::*;

verus! {

/// A 4-bit gray level (0 = black, 15 = white), as the pixel color of the
/// `embedded-graphics` drawing model carries it.
#[derive(Debug, Clone, Copy, PartialEq, Eq, Structural)]
pub struct Gray4 {
    /// The gray level; 0 to 15 in a well-formed value.
    pub luma: u8,
}

impl Gray4 {
    /// The level of this gray, as a contract sees it.
    pub open spec fn level(self) -> u8 {
        self.luma
    }

    /// Every gray level lies in 0..=15.
    pub open spec fn wf(self) -> bool {
        self.luma <= 15
    }

    /// A gray of the low four bits of `luma`.
    pub fn new(luma: u8) -> (r: Self)
        ensures
            r.level() == luma % 16,
            r.wf(),
    {
        assert(luma & 0xF == luma % 16) by (bit_vector);
        Gray4 { luma: luma & 0xF }
    }

    /// Black (level 0).
    pub fn black() -> (r: Self)
        ensures
            r.level() == 0,
            r.wf(),
    {
        Gray4 { luma: 0 }
    }

    /// White (level 15).
    pub fn white() -> (r: Self)
        ensures
            r.level() == 15,
            r.wf(),
    {
        Gray4 { luma: 15 }
    }

    /// The gray level, 0 to 15.
    pub fn luma(&self) -> (r: u8)
        requires
            self.wf(),
        ensures
            r == self.level(),
            r <= 15,
    {
        self.luma
    }
}

/// Spectra 6 color pigment states
#[derive(Debug, Copy, Clone, PartialEq, Eq, Structural)]
pub enum SpectraColor {
    /// No color (black/white only)
    NoColor,
    /// Red pigment active
    Red,
    /// Yellow pigment active
    Yellow,
    /// Blue pigment active
    Blue,
    /// Green pigment (yellow + blue combination)
    Green,
}

/// Unified color type supporting grayscale and color modes
#[derive(Debug, Copy, Clone, PartialEq, Eq, Structural)]
pub enum EinkColor {
    /// Grayscale mode (traditional e-ink)
    Gray(Gray4),
    /// Spectra 6 (ACeP, 6 colors): a black/white plane and a pigment.
    Spectra6 {
        /// Black/white plane (grayscale level)
        bw: Gray4,
        /// Color pigment state
        color: SpectraColor,
    },
    /// Kaleido 3 (4096 colors via color filter overlay), 4 bits per channel.
    Kaleido3 {
        /// 4-bit red (0-15)
        r: u8,
        /// 4-bit green (0-15)
        g: u8,
        /// 4-bit blue (0-15)
        b: u8,
    },
}

/// The 0xAARRGGBB word of the four channel values, each shifted into place
/// and OR-ed (a channel above 255 spills into the next one).
pub open spec fn argb(a: u32, r: u32, g: u32, b: u32) -> u32 {
    (a << 24u32) | (r << 16u32) | (g << 8u32) | b
}

/// `x` capped at `cap`.
pub open spec fn cap(x: u32, cap: u32) -> u32 {
    if x < cap { x } else { cap }
}

/// The ARGB word shown for color `c`.
pub open spec fn color_argb(c: EinkColor) -> u32 {
    match c {
        EinkColor::Gray(gray) => {
            let v = (gray.level() * 85) as u32;
            argb(255, v, v, v)
        },
        EinkColor::Spectra6 { bw, color } => {
            let base = (bw.level() * 85) as u32;
            match color {
                SpectraColor::NoColor => argb(255, base, base, base),
                SpectraColor::Red => argb(255, 255, cap(base, 128), cap(base, 128)),
                SpectraColor::Yellow => argb(255, 255, 255, cap(base, 128)),
                SpectraColor::Blue => argb(255, cap(base, 128), cap(base, 128), 255),
                SpectraColor::Green => argb(255, cap(base, 128), 255, cap(base, 180)),
            }
        },
        EinkColor::Kaleido3 { r, g, b } => argb(
            255,
            (cap(r as u32, 15) * 17) as u32,
            (cap(g as u32, 15) * 17) as u32,
            (cap(b as u32, 15) * 17) as u32,
        ),
    }
}

/// Every gray plane of `c` lies in 0..=15.
pub open spec fn color_wf(c: EinkColor) -> bool {
    match c {
        EinkColor::Gray(g) => g.wf(),
        EinkColor::Spectra6 { bw, .. } => bw.wf(),
        EinkColor::Kaleido3 { .. } => true,
    }
}

/// Color `c` quantized to `levels` gray levels: with at most 4 levels a gray
/// is rounded down to a multiple of `3 / (levels - 1)`; colors are kept.
pub open spec fn quantized_color(c: EinkColor, levels: u8) -> EinkColor {
    match c {
        EinkColor::Gray(g) => {
            let v = g.level();
            let q = if levels <= 4 {
                let step = 3int / (levels - 1);
                ((v as int) / step) * step
            } else {
                v as int
            };
            EinkColor::Gray(Gray4 { luma: q as u8 })
        },
        _ => c,
    }
}

impl EinkColor {
    /// Create from Gray4 for backward compatibility
    pub fn from_gray4(gray: Gray4) -> (r: Self)
        ensures
            r == EinkColor::Gray(gray),
    {
        EinkColor::Gray(gray)
    }

    /// Convert to ARGB (0xAARRGGBB) for display rendering.
    pub fn to_rgba(&self) -> (r: u32)
        requires
            color_wf(*self),
        ensures
            r == color_argb(*self),
    {
        match self {
            EinkColor::Gray(gray) => {
                let value = (gray.luma() as u32) * 85;
                let a: u32 = 255;
                (a << 24) | (value << 16) | (value << 8) | value
            },
            EinkColor::Spectra6 { bw, color } => {
                let base_value = (bw.luma() as u32) * 85;
                let m128 = if base_value < 128 { base_value } else { 128 };
                match color {
                    SpectraColor::NoColor => {
                        let a: u32 = 255;
                        (a << 24) | (base_value << 16) | (base_value << 8) | base_value
                    },
                    SpectraColor::Red => {
                        let a: u32 = 255;
                        let r: u32 = 255;
                        (a << 24) | (r << 16) | (m128 << 8) | m128
                    },
                    SpectraColor::Yellow => {
                        let a: u32 = 255;
                        let r: u32 = 255;
                        let g: u32 = 255;
                        (a << 24) | (r << 16) | (g << 8) | m128
                    },
                    SpectraColor::Blue => {
                        let a: u32 = 255;
                        let b: u32 = 255;
                        (a << 24) | (m128 << 16) | (m128 << 8) | b
                    },
                    SpectraColor::Green => {
                        let a: u32 = 255;
                        let g: u32 = 255;
                        let b = if base_value < 180 { base_value } else { 180 };
                        (a << 24) | (m128 << 16) | (g << 8) | b
                    },
                }
            },
            EinkColor::Kaleido3 { r, g, b } => {
                let r8 = (if *r < 15 { *r } else { 15 }) as u32 * 17;
                let g8 = (if *g < 15 { *g } else { 15 }) as u32 * 17;
                let b8 = (if *b < 15 { *b } else { 15 }) as u32 * 17;
                let a: u32 = 255;
                (a << 24) | (r8 << 16) | (g8 << 8) | b8
            },
        }
    }

    /// Check if this is grayscale mode
    pub fn is_grayscale(&self) -> (r: bool)
        ensures
            r == (*self is Gray),
    {
        matches!(self, EinkColor::Gray(_))
    }

    /// Check if this is a color mode (Spectra6 or Kaleido3)
    pub fn is_color(&self) -> (r: bool)
        ensures
            r == !(*self is Gray),
    {
        !self.is_grayscale()
    }

    /// Quantize to mode-specific levels (for grayscale); color values are
    /// already discrete and are kept.
    pub fn quantize(&self, levels: u8) -> (r: Self)
        requires
            levels >= 2,
            color_wf(*self),
        ensures
            r == quantized_color(*self, levels),
            color_wf(r),
    {
        match self {
            EinkColor::Gray(gray) => {
                let value = gray.luma();
                let quantized = if levels <= 4 {
                    let step = 3 / (levels - 1);
                    assert(1 <= step <= 3) by {
                        if levels == 2 {
                        } else if levels == 3 {
                        } else {
                        }
                    }
                    assert((value / step) * step <= value) by (nonlinear_arith)
                        requires
                            step >= 1,
                    ;
                    (value / step) * step
                } else {
                    value
                };
                assert(quantized <= value) by (nonlinear_arith)
                    requires
                        levels <= 4 ==> quantized == ((value as int) / (3int / (levels - 1))) * (3int / (levels - 1)),
                        levels > 4 ==> quantized == value,
                        levels >= 2,
                ;
                EinkColor::Gray(Gray4 { luma: quantized })
            },
            _ => *self,
        }
    }
}

impl From<Gray4> for EinkColor {
    fn from(gray: Gray4) -> (r: Self) {
        EinkColor::Gray(gray)
    }
}

impl vstd::std_specs::convert::FromSpecImpl<Gray4> for EinkColor {
    open spec fn obeys_from_spec() -> bool {
        true
    }

    open spec fn from_spec(v: Gray4) -> Self {
        EinkColor::Gray(v)
    }
}

impl Default for EinkColor {
    fn default() -> (r: Self)
        ensures
            r == EinkColor::Gray(Gray4 { luma: 15 }),
    {
        EinkColor::Gray(Gray4::white())
    }
}

} // verus!
