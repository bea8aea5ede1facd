//! E-ink waveform modes, after E Ink Corporation's waveform specifications
//! and controller datasheets. Each mode trades grayscale levels, speed and
//! ghosting differently.
use vstd::prelude::*;
use vstd::arithmetic::power2::{lemma2_to64, pow2};
use vstd::set_lib::{lemma_int_range, set_int_range};

verus! {

/// Waveform modes supported by e-ink displays (SSD1680, UC8151, IT8951).
#[derive(Debug, Clone, Copy, PartialEq, Eq)]
pub enum WaveformMode {
    /// Grayscale Clearing 16-level: 16 levels, ~980ms, 4 flashes, clears ghosting.
    GC16,
    /// Grayscale 16-level: 16 levels, ~980ms, reduced flashing, for text.
    GL16,
    /// Direct Update: black and white only, ~260ms, no flashing, ghosts ~20% per refresh.
    DU,
    /// Direct Update 4-level: 4 levels, ~260ms, minimal flashing, ghosts ~15% per refresh.
    DU4,
    /// Animation: black and white only, ~200ms, single flash, ghosts ~25% per refresh.
    A2,
    /// Grayscale Color Clearing (Spectra 6 full refresh): 6 colors, ~15s, clears ghosting.
    GCC16,
    /// Grayscale Color Update (Kaleido 3 fast update): ~500ms, ghosts ~8% per refresh.
    GCU,
}

/// A 4-bit gray value quantized to the levels that `mode` can show.
pub open spec fn quantized_gray(mode: WaveformMode, value: u8) -> u8 {
    let v: u8 = if value > 15 { 15 } else { value };
    match mode {
        WaveformMode::DU4 => if v <= 3 { 0 } else if v <= 7 { 5 } else if v <= 12 { 10 } else { 15 },
        WaveformMode::DU | WaveformMode::A2 => if v < 8 { 0 } else { 15 },
        _ => v,
    }
}

/// Number of gray levels that `mode` shows.
pub open spec fn mode_levels(mode: WaveformMode) -> u8 {
    match mode {
        WaveformMode::GC16 | WaveformMode::GL16 | WaveformMode::GCU => 16,
        WaveformMode::DU4 => 4,
        WaveformMode::DU | WaveformMode::A2 => 2,
        WaveformMode::GCC16 => 6,
    }
}

/// Bits per pixel that `mode` drives.
pub open spec fn mode_bit_depth(mode: WaveformMode) -> u8 {
    match mode {
        WaveformMode::GC16 | WaveformMode::GL16 | WaveformMode::GCC16 => 4,
        WaveformMode::DU4 => 2,
        WaveformMode::DU | WaveformMode::A2 => 1,
        WaveformMode::GCU => 12,
    }
}

/// The gray values that quantizing the 4-bit grays 0..=15 in `mode` gives.
pub open spec fn quantized_levels(mode: WaveformMode) -> Set<int> {
    Set::new(|q: int| exists|v: u8| v <= 15 && q == quantized_gray(mode, v) as int)
}

/// Whether a refresh in `mode` clears accumulated ghosting.
pub open spec fn mode_clears_ghosting(mode: WaveformMode) -> bool {
    mode == WaveformMode::GC16 || mode == WaveformMode::GL16 || mode == WaveformMode::GCC16
}

/// Number of flashes a refresh in `mode` makes.
pub open spec fn mode_flash_count(mode: WaveformMode) -> u8 {
    match mode {
        WaveformMode::GC16 => 4,
        WaveformMode::GL16 => 2,
        WaveformMode::DU4 => 1,
        WaveformMode::DU => 0,
        WaveformMode::A2 => 1,
        WaveformMode::GCC16 => 30,
        WaveformMode::GCU => 4,
    }
}

/// Typical refresh duration of `mode` in milliseconds.
pub open spec fn mode_base_duration_ms(mode: WaveformMode) -> u32 {
    match mode {
        WaveformMode::GC16 | WaveformMode::GL16 => 980,
        WaveformMode::DU4 | WaveformMode::DU => 260,
        WaveformMode::A2 => 200,
        WaveformMode::GCC16 => 15000,
        WaveformMode::GCU => 500,
    }
}

impl WaveformMode {
    /// Get the number of grayscale levels supported by this mode
    pub fn grayscale_levels(&self) -> (r: u8)
        ensures
            r == mode_levels(*self),
    {
        match self {
            WaveformMode::GC16 | WaveformMode::GL16 => 16,
            WaveformMode::DU4 => 4,
            WaveformMode::DU | WaveformMode::A2 => 2,
            WaveformMode::GCC16 => 6,
            WaveformMode::GCU => 16,
        }
    }

    /// Get the bit depth for this mode
    pub fn bit_depth(&self) -> (r: u8)
        ensures
            r == mode_bit_depth(*self),
    {
        match self {
            WaveformMode::GC16 | WaveformMode::GL16 => 4,
            WaveformMode::DU4 => 2,
            WaveformMode::DU | WaveformMode::A2 => 1,
            WaveformMode::GCC16 => 4,
            WaveformMode::GCU => 12,
        }
    }

    /// Get typical refresh duration in milliseconds
    pub fn base_duration_ms(&self) -> (r: u32)
        ensures
            r == mode_base_duration_ms(*self),
    {
        match self {
            WaveformMode::GC16 | WaveformMode::GL16 => 980,
            WaveformMode::DU4 | WaveformMode::DU => 260,
            WaveformMode::A2 => 200,
            WaveformMode::GCC16 => 15000,
            WaveformMode::GCU => 500,
        }
    }

    /// Get the number of flashes for this mode
    pub fn flash_count(&self) -> (r: u8)
        ensures
            r == mode_flash_count(*self),
    {
        match self {
            WaveformMode::GC16 => 4,
            WaveformMode::GL16 => 2,
            WaveformMode::DU4 => 1,
            WaveformMode::DU => 0,
            WaveformMode::A2 => 1,
            WaveformMode::GCC16 => 30,
            WaveformMode::GCU => 4,
        }
    }

    /// Check if this mode clears ghosting
    pub fn clears_ghosting(&self) -> (r: bool)
        ensures
            r == mode_clears_ghosting(*self),
    {
        matches!(self, WaveformMode::GC16 | WaveformMode::GL16 | WaveformMode::GCC16)
    }

    /// Check if this mode supports full 16-level grayscale
    pub fn is_high_quality(&self) -> (r: bool)
        ensures
            r == (*self == WaveformMode::GC16 || *self == WaveformMode::GL16),
    {
        matches!(self, WaveformMode::GC16 | WaveformMode::GL16)
    }

    /// Check if this is a fast update mode
    pub fn is_fast_mode(&self) -> (r: bool)
        ensures
            r == (*self == WaveformMode::DU || *self == WaveformMode::DU4 || *self
                == WaveformMode::A2 || *self == WaveformMode::GCU),
    {
        matches!(self, WaveformMode::DU | WaveformMode::DU4 | WaveformMode::A2 | WaveformMode::GCU)
    }

    /// Check if this mode supports color
    pub fn supports_color(&self) -> (r: bool)
        ensures
            r == (*self == WaveformMode::GCC16 || *self == WaveformMode::GCU),
    {
        matches!(self, WaveformMode::GCC16 | WaveformMode::GCU)
    }

    /// Get color refresh duration in milliseconds (0 for grayscale modes)
    pub fn color_refresh_duration_ms(&self) -> (r: u32)
        ensures
            r == (match *self {
                WaveformMode::GCC16 => 15000u32,
                WaveformMode::GCU => 500u32,
                _ => 0u32,
            }),
    {
        match self {
            WaveformMode::GCC16 => 15000,
            WaveformMode::GCU => 500,
            _ => 0,
        }
    }

    /// Get human-readable name
    pub fn name(&self) -> (r: &'static str)
        ensures
            r@ == (match *self {
                WaveformMode::GC16 => "GC16 (16-level, high quality)"@,
                WaveformMode::GL16 => "GL16 (16-level, reduced flash)"@,
                WaveformMode::DU => "DU (1-bit, no flash)"@,
                WaveformMode::DU4 => "DU4 (4-level, fast)"@,
                WaveformMode::A2 => "A2 (1-bit, animation)"@,
                WaveformMode::GCC16 => "GCC16 (Spectra 6 color, 15s)"@,
                WaveformMode::GCU => "GCU (Kaleido 3 color, 500ms)"@,
            }),
    {
        match self {
            WaveformMode::GC16 => "GC16 (16-level, high quality)",
            WaveformMode::GL16 => "GL16 (16-level, reduced flash)",
            WaveformMode::DU => "DU (1-bit, no flash)",
            WaveformMode::DU4 => "DU4 (4-level, fast)",
            WaveformMode::A2 => "A2 (1-bit, animation)",
            WaveformMode::GCC16 => "GCC16 (Spectra 6 color, 15s)",
            WaveformMode::GCU => "GCU (Kaleido 3 color, 500ms)",
        }
    }

    /// Quantize a 4-bit gray value (0-15) to this mode's supported levels.
    ///
    /// Values above 15 are treated as 15. DU4 maps 0-3, 4-7, 8-12, 13-15 to
    /// 0, 5, 10, 15; DU and A2 map below 8 to black and the rest to white.
    pub fn quantize_gray4(&self, value: u8) -> (r: u8)
        ensures
            r == quantized_gray(*self, value),
            r <= 15,
    {
        let value = if value < 15 { value } else { 15 };
        match self {
            WaveformMode::GC16 | WaveformMode::GL16 => value,
            WaveformMode::DU4 => {
                if value <= 3 {
                    0
                } else if value <= 7 {
                    5
                } else if value <= 12 {
                    10
                } else {
                    15
                }
            },
            WaveformMode::DU | WaveformMode::A2 => {
                if value < 8 {
                    0
                } else {
                    15
                }
            },
            WaveformMode::GCC16 | WaveformMode::GCU => value,
        }
    }
}

/// Quantizing twice gives the same result as quantizing once.
pub proof fn lemma_quantize_idempotent(mode: WaveformMode, value: u8)
    ensures
        quantized_gray(mode, quantized_gray(mode, value)) == quantized_gray(mode, value),
{
}

/// For the grayscale modes (GC16, GL16, DU4, DU, A2) the level count is
/// two to the bit depth, and quantizing the sixteen 4-bit grays gives
/// exactly that many distinct values.
pub proof fn lemma_levels_match_quantizer(mode: WaveformMode)
    requires
        mode == WaveformMode::GC16 || mode == WaveformMode::GL16 || mode == WaveformMode::DU4 || mode
            == WaveformMode::DU || mode == WaveformMode::A2,
    ensures
        mode_levels(mode) as nat == pow2(mode_bit_depth(mode) as nat),
        quantized_levels(mode).finite(),
        quantized_levels(mode).len() == mode_levels(mode) as nat,
{
    lemma2_to64();
    let qs = quantized_levels(mode);
    if mode == WaveformMode::DU4 {
        let s = set![0int, 5int, 10int, 15int];
        assert(quantized_gray(mode, 0u8) == 0);
        assert(quantized_gray(mode, 4u8) == 5);
        assert(quantized_gray(mode, 8u8) == 10);
        assert(quantized_gray(mode, 13u8) == 15);
        assert forall|q: int| qs.contains(q) <==> s.contains(q) by {
            if qs.contains(q) {
                let v = choose|v: u8| v <= 15 && q == quantized_gray(mode, v) as int;
                assert(s.contains(quantized_gray(mode, v) as int));
            }
        }
        assert(qs =~= s);
    } else if mode == WaveformMode::DU || mode == WaveformMode::A2 {
        let s = set![0int, 15int];
        assert(quantized_gray(mode, 0u8) == 0);
        assert(quantized_gray(mode, 15u8) == 15);
        assert forall|q: int| qs.contains(q) <==> s.contains(q) by {
            if qs.contains(q) {
                let v = choose|v: u8| v <= 15 && q == quantized_gray(mode, v) as int;
                assert(s.contains(quantized_gray(mode, v) as int));
            }
        }
        assert(qs =~= s);
    } else {
        let s = set_int_range(0, 16);
        assert forall|q: int| qs.contains(q) <==> s.contains(q) by {
            if s.contains(q) {
                assert(quantized_gray(mode, q as u8) as int == q);
            }
        }
        assert(qs =~= s);
        lemma_int_range(0, 16);
    }
}

impl Default for WaveformMode {
    fn default() -> (r: Self)
        ensures
            r == WaveformMode::GC16,
    {
        WaveformMode::GC16
    }
}

/// Quantizing keeps the order of grays and the two ends of the scale:
/// a lighter input never gives a darker output, black stays black, white
/// stays white, and the 16-level modes keep every 4-bit gray as it is.
pub proof fn lemma_quantize_monotone(mode: WaveformMode, v1: u8, v2: u8)
    requires
        v1 <= v2,
    ensures
        quantized_gray(mode, v1) <= quantized_gray(mode, v2),
        quantized_gray(mode, 0) == 0,
        quantized_gray(mode, 15) == 15,
        mode_levels(mode) == 16 && v1 <= 15 ==> quantized_gray(mode, v1) == v1,
{
}

} // verus!
