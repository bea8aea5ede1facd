//! Refresh modes, display statistics and the per-frame pixel work of the
//! emulated panel: waveform quantization, the initialization checkerboard
//! and the choice of a power profile for a panel.
use vstd::prelude::*;
use crate::eink::framebuffer::{Framebuffer, lemma_grid_distinct};
use crate::eink::pixel_color::{EinkColor, Gray4, color_wf};
use crate::eink::power::{
    PowerProfile, waveshare_2_13_v4_profile, waveshare_2_9_v2_profile, waveshare_4_2_v2_profile,
    waveshare_7_5_v2_profile,
};
use crate::eink::waveform_mode::{WaveformMode, mode_bit_depth, mode_clears_ghosting, quantized_gray};

verus! {

/// Refresh mode for e-ink displays
#[derive(Debug, Clone, Copy, PartialEq, Eq, Structural)]
pub enum RefreshMode {
    /// Full refresh with flashing (~2000ms): 16 gray levels, 3-4 flashes,
    /// clears all ghosting.
    Full,
    /// Partial refresh (~300ms): 4 gray levels, no flashing, accumulates
    /// ghosting (~15% per refresh).
    Partial,
    /// Fast refresh (~260ms): black and white only, single flash, high
    /// ghosting accumulation (~25% per refresh).
    Fast,
}

impl RefreshMode {
    /// Get human-readable name
    pub fn name(&self) -> (r: &'static str)
        ensures
            r@ == match *self {
                RefreshMode::Full => "Full"@,
                RefreshMode::Partial => "Partial"@,
                RefreshMode::Fast => "Fast"@,
            },
    {
        match self {
            RefreshMode::Full => "Full",
            RefreshMode::Partial => "Partial",
            RefreshMode::Fast => "Fast",
        }
    }

    /// Check if this mode accumulates ghosting
    pub fn accumulates_ghosting(&self) -> (r: bool)
        ensures
            r == (*self == RefreshMode::Partial || *self == RefreshMode::Fast),
    {
        match self {
            RefreshMode::Partial | RefreshMode::Fast => true,
            RefreshMode::Full => false,
        }
    }

    /// Check if this mode clears ghosting
    pub fn clears_ghosting(&self) -> (r: bool)
        ensures
            r == (*self == RefreshMode::Full),
    {
        *self == RefreshMode::Full
    }
}

impl Default for RefreshMode {
    fn default() -> (r: Self)
        ensures
            r == RefreshMode::Full,
    {
        RefreshMode::Full
    }
}

/// Count of partial and fast refreshes since the last full one, against the
/// threshold at which a full refresh is recommended to clear ghosting.
#[derive(Debug, Clone, Copy, PartialEq, Eq, Structural)]
pub struct RefreshCounter {
    partial_count: usize,
    full_refresh_threshold: usize,
}

impl RefreshCounter {
    /// Partial and fast refreshes since the last full refresh.
    pub closed spec fn count(&self) -> nat {
        self.partial_count as nat
    }

    /// Refreshes after which a full refresh is recommended.
    pub closed spec fn threshold(&self) -> nat {
        self.full_refresh_threshold as nat
    }

    /// A full refresh is recommended once the count reaches the threshold.
    pub open spec fn spec_needs_full_refresh(&self) -> bool {
        self.count() >= self.threshold()
    }

    /// Counter with the default threshold of 5.
    pub fn new() -> (r: Self)
        ensures
            r.count() == 0,
            r.threshold() == 5,
    {
        Self::with_threshold(5)
    }

    /// Counter with a custom threshold.
    pub fn with_threshold(threshold: usize) -> (r: Self)
        ensures
            r.count() == 0,
            r.threshold() == threshold,
    {
        RefreshCounter { partial_count: 0, full_refresh_threshold: threshold }
    }

    /// Number of partial refreshes since the last full refresh.
    pub fn partial_count(&self) -> (r: usize)
        ensures
            r == self.count(),
    {
        self.partial_count
    }

    /// Whether a full refresh is recommended.
    pub fn needs_full_refresh(&self) -> (r: bool)
        ensures
            r == self.spec_needs_full_refresh(),
    {
        self.partial_count >= self.full_refresh_threshold
    }

    /// Records a refresh: a full one clears the count, a partial or fast one
    /// adds to it. Returns whether a full refresh should follow.
    pub fn record(&mut self, mode: RefreshMode) -> (r: bool)
        requires
            mode != RefreshMode::Full ==> old(self).count() < usize::MAX,
        ensures
            final(self).threshold() == old(self).threshold(),
            mode == RefreshMode::Full ==> final(self).count() == 0 && !r,
            mode != RefreshMode::Full ==> final(self).count() == old(self).count() + 1
                && r == final(self).spec_needs_full_refresh(),
    {
        match mode {
            RefreshMode::Full => {
                self.partial_count = 0;
                false
            },
            RefreshMode::Partial | RefreshMode::Fast => {
                self.partial_count = self.partial_count + 1;
                self.needs_full_refresh()
            },
        }
    }

    /// Clears the count, as after a full refresh.
    pub fn reset(&mut self)
        ensures
            final(self).count() == 0,
            final(self).threshold() == old(self).threshold(),
    {
        self.partial_count = 0;
    }
}

impl Default for RefreshCounter {
    fn default() -> (r: Self)
        ensures
            r.count() == 0,
            r.threshold() == 5,
    {
        Self::new()
    }
}

/// Display statistics tracking
#[derive(Debug, Clone, Copy, PartialEq, Eq, Structural)]
pub struct DisplayStats {
    pub full_refresh_count: u64,
    pub partial_refresh_count: u64,
    pub fast_refresh_count: u64,
    pub total_refresh_time_ms: u64,
    pub dc_warnings: u32,
}

/// Statistics with nothing recorded.
pub open spec fn no_refreshes() -> DisplayStats {
    DisplayStats {
        full_refresh_count: 0,
        partial_refresh_count: 0,
        fast_refresh_count: 0,
        total_refresh_time_ms: 0,
        dc_warnings: 0,
    }
}

impl Default for DisplayStats {
    fn default() -> (r: Self)
        ensures
            r == no_refreshes(),
    {
        DisplayStats {
            full_refresh_count: 0,
            partial_refresh_count: 0,
            fast_refresh_count: 0,
            total_refresh_time_ms: 0,
            dc_warnings: 0,
        }
    }
}

/// The counters after one refresh in `mode` taking `duration_ms`: the
/// 16-level modes count as full refreshes, DU4 as partial, the rest as fast.
pub open spec fn stats_after_refresh(s: DisplayStats, mode: WaveformMode, duration_ms: u32) -> DisplayStats {
    let counted = match mode {
        WaveformMode::GC16 | WaveformMode::GL16 | WaveformMode::GCC16 => DisplayStats {
            full_refresh_count: (s.full_refresh_count + 1) as u64,
            ..s
        },
        WaveformMode::DU4 => DisplayStats { partial_refresh_count: (s.partial_refresh_count + 1) as u64, ..s },
        _ => DisplayStats { fast_refresh_count: (s.fast_refresh_count + 1) as u64, ..s },
    };
    DisplayStats { total_refresh_time_ms: (s.total_refresh_time_ms + duration_ms) as u64, ..counted }
}

impl DisplayStats {
    /// Count one refresh in `mode` that took `duration_ms`.
    pub fn record_refresh(&mut self, mode: WaveformMode, duration_ms: u32)
        requires
            old(self).full_refresh_count < u64::MAX,
            old(self).partial_refresh_count < u64::MAX,
            old(self).fast_refresh_count < u64::MAX,
            old(self).total_refresh_time_ms + duration_ms <= u64::MAX,
        ensures
            *final(self) == stats_after_refresh(*old(self), mode, duration_ms),
    {
        match mode {
            WaveformMode::GC16 | WaveformMode::GL16 | WaveformMode::GCC16 => {
                self.full_refresh_count = self.full_refresh_count + 1;
            },
            WaveformMode::DU4 => {
                self.partial_refresh_count = self.partial_refresh_count + 1;
            },
            WaveformMode::DU | WaveformMode::A2 | WaveformMode::GCU => {
                self.fast_refresh_count = self.fast_refresh_count + 1;
            },
        }
        self.total_refresh_time_ms = self.total_refresh_time_ms + duration_ms as u64;
    }
}

/// The gray plane of a color: itself for gray, the black/white plane for
/// Spectra 6, and a 0..=3 level from the mean channel for Kaleido 3.
pub open spec fn gray_plane(c: EinkColor) -> u8 {
    match c {
        EinkColor::Gray(g) => g.level(),
        EinkColor::Spectra6 { bw, .. } => bw.level(),
        EinkColor::Kaleido3 { r, g, b } => {
            let luma = (r + g + b) / 3;
            if luma / 4 < 3 { (luma / 4) as u8 } else { 3 }
        },
    }
}

/// The quantized gray of pixel `c` under `mode`: its gray plane times five,
/// quantized for the mode, divided by five (kept to four bits).
pub open spec fn quantized_pixel(c: EinkColor, mode: WaveformMode) -> u8 {
    ((quantized_gray(mode, (gray_plane(c) * 5) as u8) / 5) % 16) as u8
}

/// Quantize a framebuffer's pixels for a refresh in `mode`.
pub fn quantize_buffer(buffer: &Vec<EinkColor>, mode: WaveformMode) -> (r: Vec<Gray4>)
    requires
        forall|k: int| 0 <= k < buffer@.len() ==> color_wf(#[trigger] buffer@[k]),
    ensures
        r@.len() == buffer@.len(),
        forall|k: int| 0 <= k < r@.len() ==> (#[trigger] r@[k]).level() == quantized_pixel(buffer@[k], mode) && r@[k].wf(),
{
    let mut out: Vec<Gray4> = Vec::new();
    let mut i: usize = 0;
    while i < buffer.len()
        invariant
            i <= buffer@.len(),
            out@.len() == i,
            forall|k: int| 0 <= k < buffer@.len() ==> color_wf(#[trigger] buffer@[k]),
            forall|k: int| 0 <= k < i ==> (#[trigger] out@[k]).level() == quantized_pixel(buffer@[k], mode) && out@[k].wf(),
        decreases buffer@.len() - i,
    {
        let pixel = buffer[i];
        assert(color_wf(buffer@[i as int]));
        let gray = match pixel {
            EinkColor::Gray(g) => g,
            EinkColor::Spectra6 { bw, .. } => bw,
            EinkColor::Kaleido3 { r, g, b } => {
                let luma: u16 = (r as u16 + g as u16 + b as u16) / 3;
                let lv: u16 = if luma / 4 < 3 { luma / 4 } else { 3 };
                Gray4::new(lv as u8)
            },
        };
        let value_15 = gray.luma() * 5;
        let quantized_15 = mode.quantize_gray4(value_15);
        out.push(Gray4::new(quantized_15 / 5));
        i = i + 1;
    }
    out
}

/// Side of a checkerboard square, in pixels.
pub const CHECKER_SQUARE: u32 = 8;

/// Color of pixel `(x, y)` in the initialization checkerboard: black on
/// squares whose row and column add up to an even number, white elsewhere.
pub open spec fn checker_level(x: u32, y: u32) -> u8 {
    if (x / CHECKER_SQUARE + y / CHECKER_SQUARE) % 2 == 0 { 0 } else { 15 }
}

/// Fill the framebuffer with the initialization checkerboard of 8-pixel
/// squares.
pub fn fill_checkerboard(fb: &mut Framebuffer)
    requires
        old(fb).wf(),
    ensures
        final(fb).wf(),
        old(fb).colors_wf() ==> final(fb).colors_wf(),
        final(fb).width == old(fb).width,
        final(fb).height == old(fb).height,
        final(fb).color_mode == old(fb).color_mode,
        forall|x: u32, y: u32| x < final(fb).width && y < final(fb).height ==> #[trigger] final(fb).pixels@[
            y * final(fb).width + x
        ] == EinkColor::Gray(Gray4 { luma: checker_level(x, y) }),
{
    let w = fb.width;
    let h = fb.height;
    let ghost before = *fb;
    let mut y: u32 = 0;
    while y < h
        invariant
            fb.wf(),
            before.colors_wf() ==> fb.colors_wf(),
            fb.width == w,
            fb.height == h,
            fb.color_mode == before.color_mode,
            y <= h,
            forall|px: u32, py: u32| px < w && py < y ==> #[trigger] fb.pixels@[py * w + px]
                == EinkColor::Gray(Gray4 { luma: checker_level(px, py) }),
        decreases h - y,
    {
        let mut x: u32 = 0;
        while x < w
            invariant
                fb.wf(),
                before.colors_wf() ==> fb.colors_wf(),
                fb.width == w,
                fb.height == h,
                fb.color_mode == before.color_mode,
                y < h,
                x <= w,
                forall|px: u32, py: u32| px < w && py < y ==> #[trigger] fb.pixels@[py * w + px]
                    == EinkColor::Gray(Gray4 { luma: checker_level(px, py) }),
                forall|px: u32| px < x ==> #[trigger] fb.pixels@[y * w + px]
                    == EinkColor::Gray(Gray4 { luma: checker_level(px, y) }),
            decreases w - x,
        {
            assert(y * w + x < w * h) by (nonlinear_arith)
                requires y < h, x < w;
            let black = (x / CHECKER_SQUARE + y / CHECKER_SQUARE) % 2 == 0;
            let color = if black { Gray4::black() } else { Gray4::white() };
            let ghost prev = fb.pixels@;
            fb.set_pixel(x, y, EinkColor::Gray(color));
            proof {
                if before.colors_wf() {
                    assert forall|i: int| 0 <= i < fb.pixels@.len() implies color_wf(#[trigger] fb.pixels@[i]) by {
                        assert(color_wf(prev[i]) || fb.pixels@[i] == EinkColor::Gray(color));
                    }
                }
                assert forall|px: u32, py: u32| px < w && py < y implies #[trigger] fb.pixels@[py * w + px]
                    == EinkColor::Gray(Gray4 { luma: checker_level(px, py) }) by {
                    lemma_grid_distinct(px as int, py as int, x as int, y as int, w as int);
                    assert(py * w + px < w * h) by (nonlinear_arith)
                        requires py < h, px < w;
                    assert(prev[py * w + px] == EinkColor::Gray(Gray4 { luma: checker_level(px, py) }));
                }
                assert forall|px: u32| px < x + 1 implies #[trigger] fb.pixels@[y * w + px]
                    == EinkColor::Gray(Gray4 { luma: checker_level(px, y) }) by {
                    if px < x {
                        lemma_grid_distinct(px as int, y as int, x as int, y as int, w as int);
                        assert(y * w + px < w * h) by (nonlinear_arith)
                            requires y < h, px < w;
                        assert(prev[y * w + px] == EinkColor::Gray(Gray4 { luma: checker_level(px, y) }));
                    }
                }
            }
            x = x + 1;
        }
        y = y + 1;
    }
}

/// The power profile for a panel: by its name for the known Waveshare
/// panels, else by its pixel count (under 40 000, 100 000, 200 000, or
/// more).
pub open spec fn profile_for(name: Seq<char>, width: u32, height: u32) -> PowerProfile {
    if name == "Waveshare 2.13\" V4"@ {
        waveshare_2_13_v4_profile()
    } else if name == "Waveshare 2.9\" V2"@ {
        waveshare_2_9_v2_profile()
    } else if name == "Waveshare 4.2\" V2"@ {
        waveshare_4_2_v2_profile()
    } else if name == "Waveshare 7.5\" V2"@ {
        waveshare_7_5_v2_profile()
    } else {
        let pixels = width * height;
        if pixels < 40_000 {
            waveshare_2_13_v4_profile()
        } else if pixels < 100_000 {
            waveshare_2_9_v2_profile()
        } else if pixels < 200_000 {
            waveshare_4_2_v2_profile()
        } else {
            waveshare_7_5_v2_profile()
        }
    }
}

/// Select the power profile for a panel of that name and size; see
/// [`profile_for`].
pub fn select_power_profile(name: &str, width: u32, height: u32) -> (r: PowerProfile)
    ensures
        r == profile_for(name@, width, height),
{
    let n = name.to_owned();
    if n == "Waveshare 2.13\" V4".to_owned() {
        PowerProfile::waveshare_2_13_v4()
    } else if n == "Waveshare 2.9\" V2".to_owned() {
        PowerProfile::waveshare_2_9_v2()
    } else if n == "Waveshare 4.2\" V2".to_owned() {
        PowerProfile::waveshare_4_2_v2()
    } else if n == "Waveshare 7.5\" V2".to_owned() {
        PowerProfile::waveshare_7_5_v2()
    } else {
        assert(width as u64 * height as u64 <= 0xffff_ffffu64 * 0xffff_ffffu64) by (nonlinear_arith)
            requires width <= 0xffff_ffffu32, height <= 0xffff_ffffu32;
        let pixels: u64 = width as u64 * height as u64;
        if pixels < 40_000 {
            PowerProfile::waveshare_2_13_v4()
        } else if pixels < 100_000 {
            PowerProfile::waveshare_2_9_v2()
        } else if pixels < 200_000 {
            PowerProfile::waveshare_4_2_v2()
        } else {
            PowerProfile::waveshare_7_5_v2()
        }
    }
}


/// Each refresh adds one to exactly one counter, chosen by how many bits
/// the mode drives: the 4-bit (16-level) modes, which clear ghosting, count
/// as full refreshes, the 2-bit mode as partial, the rest as fast; the
/// refresh time grows by the refresh's duration.
pub proof fn lemma_refresh_counted_by_depth(s: DisplayStats, mode: WaveformMode, duration_ms: u32)
    requires
        s.full_refresh_count < u64::MAX,
        s.partial_refresh_count < u64::MAX,
        s.fast_refresh_count < u64::MAX,
        s.total_refresh_time_ms + duration_ms <= u64::MAX,
    ensures
        ({
            let r = stats_after_refresh(s, mode, duration_ms);
            &&& r.full_refresh_count + r.partial_refresh_count + r.fast_refresh_count == s.full_refresh_count
                + s.partial_refresh_count + s.fast_refresh_count + 1
            &&& (r.full_refresh_count == s.full_refresh_count + 1) == (mode_bit_depth(mode) == 4)
            &&& (r.full_refresh_count == s.full_refresh_count + 1) == mode_clears_ghosting(mode)
            &&& (r.partial_refresh_count == s.partial_refresh_count + 1) == (mode_bit_depth(mode) == 2)
            &&& (r.fast_refresh_count == s.fast_refresh_count + 1) == (mode_bit_depth(mode) != 4
                && mode_bit_depth(mode) != 2)
            &&& r.full_refresh_count >= s.full_refresh_count
            &&& r.partial_refresh_count >= s.partial_refresh_count
            &&& r.fast_refresh_count >= s.fast_refresh_count
            &&& r.total_refresh_time_ms == s.total_refresh_time_ms + duration_ms
            &&& r.dc_warnings == s.dc_warnings
        }),
{
}

/// A Kaleido 3 pixel's gray level is its channel mean in steps of four,
/// up to the darkest-to-lightest range 0..=3; a 16-level refresh shows that
/// level unchanged.
pub proof fn lemma_kaleido_gray_level(r: u8, g: u8, b: u8)
    ensures
        ({
            let c = EinkColor::Kaleido3 { r, g, b };
            let mean = (r + g + b) / 3;
            let lv = gray_plane(c) as int;
            &&& 0 <= lv <= 3
            &&& mean < 12 ==> 4 * lv <= mean < 4 * lv + 4
            &&& mean >= 12 ==> lv == 3
            &&& quantized_pixel(c, WaveformMode::GC16) as int == lv
            &&& quantized_pixel(c, WaveformMode::GL16) as int == lv
        }),
{
}

/// Squares of the checkerboard alternate: moving one square across or
/// down turns black into white and white into black, and every pixel of
/// a square has the square's color.
pub proof fn lemma_checker_alternates(x: u32, y: u32)
    ensures
        checker_level(x, y) == 0 || checker_level(x, y) == 15,
        x + CHECKER_SQUARE <= u32::MAX ==> checker_level((x + CHECKER_SQUARE) as u32, y) != checker_level(x, y),
        y + CHECKER_SQUARE <= u32::MAX ==> checker_level(x, (y + CHECKER_SQUARE) as u32) != checker_level(x, y),
        checker_level(x, y) == checker_level((x - x % CHECKER_SQUARE) as u32, (y - y % CHECKER_SQUARE) as u32),
{
}

} // verus!
