//! CPU-based framebuffer for e-ink simulation, in grayscale or one of the
//! color modes (Spectra 6, Kaleido 3), one [`EinkColor`] per pixel in
//! row-major order.
use vstd::prelude::*;
use crate::eink::pixel_color::{color_argb, color_wf, EinkColor, Gray4, SpectraColor};

verus! {

/// The screenshot byte of a pixel: a gray level times 85, Kaleido's
/// channel average times 17, kept to its low eight bits.
pub open spec fn screenshot_gray(c: EinkColor) -> u8 {
    let v: u32 = match c {
        EinkColor::Gray(g) => (g.luma * 85) as u32,
        EinkColor::Spectra6 { bw, .. } => (bw.luma * 85) as u32,
        EinkColor::Kaleido3 { r, g, b } => ((r + g + b) / 3 * 17) as u32,
    };
    v as u8
}

/// Color mode for framebuffer
#[derive(Debug, Copy, Clone, PartialEq, Eq, Structural)]
pub enum ColorMode {
    /// Traditional grayscale
    Grayscale,
    /// Spectra 6 (ACeP): 6 colors with dual-plane
    Spectra6,
    /// Kaleido 3: 4096 colors via color filter
    Kaleido3,
}

/// White in color mode `mode`.
pub open spec fn mode_white(mode: ColorMode) -> EinkColor {
    match mode {
        ColorMode::Grayscale => EinkColor::Gray(Gray4 { luma: 15 }),
        ColorMode::Spectra6 => EinkColor::Spectra6 { bw: Gray4 { luma: 15 }, color: SpectraColor::NoColor },
        ColorMode::Kaleido3 => EinkColor::Kaleido3 { r: 15, g: 15, b: 15 },
    }
}

/// The color that a gray shows as in color mode `mode`.
pub open spec fn gray_in_mode(mode: ColorMode, gray: Gray4) -> EinkColor {
    match mode {
        ColorMode::Grayscale => EinkColor::Gray(gray),
        ColorMode::Spectra6 => EinkColor::Spectra6 { bw: gray, color: SpectraColor::NoColor },
        ColorMode::Kaleido3 => {
            let v = (gray.level() * 5) as u8;
            EinkColor::Kaleido3 { r: v, g: v, b: v }
        },
    }
}

/// The pixel at `(x, y)` of row-major `pixels` of a `w × h` buffer, or
/// `None` outside it.
pub open spec fn pixel_of(pixels: Seq<EinkColor>, w: u32, h: u32, x: u32, y: u32) -> Option<EinkColor> {
    if x < w && y < h {
        Some(pixels[y * w + x])
    } else {
        None
    }
}

/// CPU-based framebuffer for e-ink simulation
pub struct Framebuffer {
    pub pixels: Vec<EinkColor>,
    pub width: u32,
    pub height: u32,
    pub color_mode: ColorMode,
}

impl Framebuffer {
    /// One pixel per position, and the pixel count fits in 32 bits.
    pub open spec fn wf(&self) -> bool {
        &&& self.width * self.height <= u32::MAX
        &&& self.pixels@.len() == self.width * self.height
    }

    /// The pixel at `(x, y)`, or `None` outside the buffer.
    pub open spec fn pixel_at(self, x: u32, y: u32) -> Option<EinkColor> {
        pixel_of(self.pixels@, self.width, self.height, x, y)
    }

    /// The pixels after writing `color` at `(x, y)`; a position outside the
    /// buffer changes nothing.
    pub open spec fn pixels_after_set(self, x: u32, y: u32, color: EinkColor) -> Seq<EinkColor> {
        if x < self.width && y < self.height {
            self.pixels@.update(y * self.width + x, color)
        } else {
            self.pixels@
        }
    }

    /// Every pixel's gray plane lies in 0..=15.
    pub open spec fn colors_wf(&self) -> bool {
        forall|i: int| 0 <= i < self.pixels@.len() ==> color_wf(#[trigger] self.pixels@[i])
    }

    /// Create new framebuffer filled with white (grayscale mode)
    pub fn new(width: u32, height: u32) -> (r: Self)
        requires
            width * height <= u32::MAX,
        ensures
            r.wf(),
            r.colors_wf(),
            r.width == width,
            r.height == height,
            r.color_mode == ColorMode::Grayscale,
            forall|i: int| 0 <= i < r.pixels@.len() ==> #[trigger] r.pixels@[i] == mode_white(ColorMode::Grayscale),
    {
        Self::with_color_mode(width, height, ColorMode::Grayscale)
    }

    /// Create framebuffer with specific color mode, filled with its white
    pub fn with_color_mode(width: u32, height: u32, mode: ColorMode) -> (r: Self)
        requires
            width * height <= u32::MAX,
        ensures
            r.wf(),
            r.colors_wf(),
            r.width == width,
            r.height == height,
            r.color_mode == mode,
            forall|i: int| 0 <= i < r.pixels@.len() ==> #[trigger] r.pixels@[i] == mode_white(mode),
    {
        let size = (width * height) as usize;
        let default_pixel = match mode {
            ColorMode::Grayscale => EinkColor::Gray(Gray4::white()),
            ColorMode::Spectra6 => EinkColor::Spectra6 { bw: Gray4::white(), color: SpectraColor::NoColor },
            ColorMode::Kaleido3 => EinkColor::Kaleido3 { r: 15, g: 15, b: 15 },
        };
        let mut pixels: Vec<EinkColor> = Vec::new();
        let mut i: usize = 0;
        while i < size
            invariant
                i <= size,
                pixels@.len() == i,
                forall|k: int| 0 <= k < i ==> #[trigger] pixels@[k] == mode_white(mode),
                default_pixel == mode_white(mode),
            decreases size - i,
        {
            pixels.push(default_pixel);
            i = i + 1;
        }
        Framebuffer { pixels, width, height, color_mode: mode }
    }

    /// Create a grayscale framebuffer from a Gray4 buffer
    pub fn from_gray4(width: u32, height: u32, gray_pixels: Vec<Gray4>) -> (r: Self)
        ensures
            r.width == width,
            r.height == height,
            r.color_mode == ColorMode::Grayscale,
            r.pixels@.len() == gray_pixels@.len(),
            forall|i: int| 0 <= i < r.pixels@.len() ==> #[trigger] r.pixels@[i] == EinkColor::Gray(gray_pixels@[i]),
    {
        let mut pixels: Vec<EinkColor> = Vec::new();
        let mut i: usize = 0;
        while i < gray_pixels.len()
            invariant
                i <= gray_pixels@.len(),
                pixels@.len() == i,
                forall|k: int| 0 <= k < i ==> #[trigger] pixels@[k] == EinkColor::Gray(gray_pixels@[k]),
            decreases gray_pixels@.len() - i,
        {
            pixels.push(EinkColor::Gray(gray_pixels[i]));
            i = i + 1;
        }
        Framebuffer { pixels, width, height, color_mode: ColorMode::Grayscale }
    }

    /// Set pixel at coordinates; positions outside the buffer are ignored.
    pub fn set_pixel(&mut self, x: u32, y: u32, color: EinkColor)
        requires
            old(self).wf(),
        ensures
            final(self).wf(),
            final(self).width == old(self).width,
            final(self).height == old(self).height,
            final(self).color_mode == old(self).color_mode,
            final(self).pixels@ == old(self).pixels_after_set(x, y, color),
    {
        if x < self.width && y < self.height {
            proof {
                lemma_index_in_grid(x as int, y as int, self.width as int, self.height as int);
            }
            let idx = (y * self.width + x) as usize;
            self.pixels.set(idx, color);
        }
    }

    /// Get pixel at coordinates, or `None` outside the buffer.
    pub fn get_pixel(&self, x: u32, y: u32) -> (r: Option<EinkColor>)
        requires
            self.wf(),
        ensures
            r == self.pixel_at(x, y),
    {
        if x < self.width && y < self.height {
            proof {
                lemma_index_in_grid(x as int, y as int, self.width as int, self.height as int);
            }
            Some(self.pixels[(y * self.width + x) as usize])
        } else {
            None
        }
    }

    /// Convert to ARGB words for display, pixel by pixel.
    pub fn to_rgba(&self) -> (r: Vec<u32>)
        requires
            self.colors_wf(),
        ensures
            r@.len() == self.pixels@.len(),
            forall|i: int| 0 <= i < r@.len() ==> #[trigger] r@[i] == color_argb(self.pixels@[i]),
    {
        let mut out: Vec<u32> = Vec::new();
        let mut i: usize = 0;
        while i < self.pixels.len()
            invariant
                i <= self.pixels@.len(),
                self.colors_wf(),
                out@.len() == i,
                forall|k: int| 0 <= k < i ==> #[trigger] out@[k] == color_argb(self.pixels@[k]),
            decreases self.pixels@.len() - i,
        {
            let c = self.pixels[i];
            assert(color_wf(self.pixels@[i as int]));
            out.push(c.to_rgba());
            i = i + 1;
        }
        out
    }

    /// One gray byte per pixel, in pixel order, for a grayscale
    /// screenshot; see [`screenshot_gray`].
    pub fn to_gray_bytes(&self) -> (r: Vec<u8>)
        ensures
            r@.len() == self.pixels@.len(),
            forall|i: int| 0 <= i < r@.len() ==> #[trigger] r@[i] == screenshot_gray(self.pixels@[i]),
    {
        let mut out: Vec<u8> = Vec::new();
        let mut i: usize = 0;
        while i < self.pixels.len()
            invariant
                i <= self.pixels@.len(),
                out@.len() == i,
                forall|k: int| 0 <= k < i ==> #[trigger] out@[k] == screenshot_gray(self.pixels@[k]),
            decreases self.pixels@.len() - i,
        {
            let gray: u32 = match self.pixels[i] {
                EinkColor::Gray(g) => (g.luma as u32) * 85,
                EinkColor::Spectra6 { bw, .. } => (bw.luma as u32) * 85,
                EinkColor::Kaleido3 { r, g, b } => ((r as u32) + (g as u32) + (b as u32)) / 3 * 17,
            };
            out.push(gray as u8);
            i = i + 1;
        }
        out
    }

    /// Fill entire framebuffer with color
    pub fn fill(&mut self, color: EinkColor)
        ensures
            final(self).pixels@.len() == old(self).pixels@.len(),
            forall|i: int| 0 <= i < final(self).pixels@.len() ==> #[trigger] final(self).pixels@[i] == color,
            final(self).width == old(self).width,
            final(self).height == old(self).height,
            final(self).color_mode == old(self).color_mode,
    {
        let n = self.pixels.len();
        let mut i: usize = 0;
        while i < n
            invariant
                i <= n,
                n == self.pixels@.len(),
                self.width == old(self).width,
                self.height == old(self).height,
                self.color_mode == old(self).color_mode,
                forall|k: int| 0 <= k < i ==> #[trigger] self.pixels@[k] == color,
            decreases n - i,
        {
            self.pixels.set(i, color);
            i = i + 1;
        }
    }

    /// Clear framebuffer (fill with the white of its color mode)
    pub fn clear(&mut self)
        ensures
            final(self).pixels@.len() == old(self).pixels@.len(),
            forall|i: int| 0 <= i < final(self).pixels@.len() ==> #[trigger] final(self).pixels@[i] == mode_white(old(self).color_mode),
            final(self).width == old(self).width,
            final(self).height == old(self).height,
            final(self).color_mode == old(self).color_mode,
    {
        let white = match self.color_mode {
            ColorMode::Grayscale => EinkColor::Gray(Gray4::white()),
            ColorMode::Spectra6 => EinkColor::Spectra6 { bw: Gray4::white(), color: SpectraColor::NoColor },
            ColorMode::Kaleido3 => EinkColor::Kaleido3 { r: 15, g: 15, b: 15 },
        };
        self.fill(white);
    }

    /// Convert a gray to the current color mode's equivalent
    pub fn gray4_to_mode(&self, gray: Gray4) -> (r: EinkColor)
        requires
            gray.wf(),
        ensures
            r == gray_in_mode(self.color_mode, gray),
    {
        match self.color_mode {
            ColorMode::Grayscale => EinkColor::Gray(gray),
            ColorMode::Spectra6 => EinkColor::Spectra6 { bw: gray, color: SpectraColor::NoColor },
            ColorMode::Kaleido3 => {
                let value = gray.luma() * 5;
                EinkColor::Kaleido3 { r: value, g: value, b: value }
            },
        }
    }
}

/// Reading a pixel after writing `color` at `(x, y)` gives `color` there
/// (inside the buffer) and the earlier pixel everywhere else.
pub proof fn lemma_read_after_write(fb: Framebuffer, x: u32, y: u32, color: EinkColor, px: u32, py: u32)
    requires
        fb.wf(),
    ensures
        pixel_of(fb.pixels_after_set(x, y, color), fb.width, fb.height, px, py) == if px == x && py == y && x
            < fb.width && y < fb.height {
            Some(color)
        } else {
            fb.pixel_at(px, py)
        },
{
    if px < fb.width && py < fb.height {
        lemma_index_in_grid(px as int, py as int, fb.width as int, fb.height as int);
        if x < fb.width && y < fb.height {
            lemma_index_in_grid(x as int, y as int, fb.width as int, fb.height as int);
            if px != x || py != y {
                lemma_grid_distinct(px as int, py as int, x as int, y as int, fb.width as int);
            }
        }
    }
}

/// Distinct grid points have distinct row-major indices.
pub proof fn lemma_grid_distinct(px: int, py: int, x: int, y: int, w: int)
    requires
        0 <= px < w,
        0 <= x < w,
        0 <= py,
        0 <= y,
        px != x || py != y,
    ensures
        py * w + px != y * w + x,
{
    if py == y {
    } else if py < y {
        assert(py * w + px < y * w + x) by (nonlinear_arith)
            requires
                py < y,
                0 <= px < w,
                0 <= x,
        ;
    } else {
        assert(y * w + x < py * w + px) by (nonlinear_arith)
            requires
                y < py,
                0 <= x < w,
                0 <= px,
        ;
    }
}

/// A position inside a `w × h` grid has a row-major index below `w * h`.
pub proof fn lemma_index_in_grid(x: int, y: int, w: int, h: int)
    requires
        0 <= x < w,
        0 <= y < h,
    ensures
        0 <= y * w + x < w * h,
{
    assert(y * w + x < w * h) by (nonlinear_arith)
        requires
            0 <= x < w,
            0 <= y < h,
    ;
    assert(0 <= y * w) by (nonlinear_arith)
        requires
            0 <= y,
            0 <= w,
    ;
}

} // verus!
