//! The emulator's display controller, without its clock sleeps, window and
//! pixel physics: the framebuffer and the buffer staged for refresh, the
//! waveform and refresh modes, temperature, statistics, dirty regions, the
//! initialization sequence and power tracking.
//!
//! A refresh is [`Emulator::begin_display`] (which checks initialization,
//! enters the refreshing power state and quantizes the staged buffer), the
//! caller's physics and flashes ([`flash_plan`]), then
//! [`Emulator::finish_display`]. Initialization likewise runs step by step.
use vstd::prelude::*;
use vstd::string::StringSliceAdditionalSpecFns;
use crate::eink::config::EmulatorConfig;
use crate::eink::display::{
    checker_level, fill_checkerboard, no_refreshes, quantize_buffer, quantized_pixel, stats_after_refresh, DisplayStats,
    RefreshMode,
};
use crate::eink::framebuffer::Framebuffer;
use crate::eink::geometry::Rectangle;
use crate::eink::initialization::{step_taken, InitSequence, InitializationState};
use crate::eink::partial_window::{merge_all, merge_rectangles};
use crate::eink::pixel_color::{color_wf, EinkColor, Gray4};
use crate::eink::power::{power_transition, PowerProfile, PowerState, PowerStats, PowerTracker};
use crate::eink::quirks::{
    check_quirk_list, checked_len, fired_upto, first_error, quirk_error_text, quirk_text, Quirk,
};
use crate::eink::waveform_mode::{mode_base_duration_ms, mode_flash_count, WaveformMode};

verus! {

/// Flash timing of a refresh: `flashes` black-white flashes of `flash_ms`
/// per color, then the image held for `settle_ms`.
#[derive(Debug, Clone, Copy, PartialEq, Eq, Structural)]
pub struct FlashPlan {
    pub flashes: u8,
    pub flash_ms: u32,
    pub settle_ms: u32,
}

/// The flash timing of a refresh in `mode` lasting `adjusted_ms` (the
/// temperature-adjusted duration): each of the mode's flashes takes a third
/// of the time divided among them, per color, and the final image a third.
pub fn flash_plan(mode: WaveformMode, adjusted_ms: u32) -> (r: FlashPlan)
    ensures
        r.flashes == mode_flash_count(mode),
        r.flash_ms == if r.flashes > 0 { adjusted_ms / (r.flashes * 3) as u32 } else { 0 },
        r.settle_ms == adjusted_ms / 3,
{
    let flashes = mode.flash_count();
    let flash_ms = if flashes > 0 { adjusted_ms / (flashes as u32 * 3) } else { 0 };
    FlashPlan { flashes, flash_ms, settle_ms: adjusted_ms / 3 }
}

/// A part of the emulator's state that a setter changes.
#[derive(Debug, Clone, Copy, PartialEq, Eq, Structural)]
pub enum EmulatorPart {
    Temperature,
    Waveform,
    Refresh,
    DirtyRegions,
    AutoDirty,
    RequiresInit,
    InitTimeout,
    PowerTracking,
    PowerStats,
    Quirks,
}

/// `a` and `b` agree in everything but `part`.
pub open spec fn same_except(a: Emulator, b: Emulator, part: EmulatorPart) -> bool {
    &&& a.wf() == b.wf()
    &&& a.frame() == b.frame()
    &&& a.staged() == b.staged()
    &&& a.display_stats() == b.display_stats()
    &&& a.init() == b.init()
    &&& a.init_total() == b.init_total()
    &&& a.settings() == b.settings()
    &&& part != EmulatorPart::Temperature ==> a.temp() == b.temp()
    &&& part != EmulatorPart::Waveform ==> a.mode() == b.mode()
    &&& part != EmulatorPart::Refresh ==> a.refresh() == b.refresh()
    &&& part != EmulatorPart::DirtyRegions ==> a.dirty() == b.dirty()
    &&& part != EmulatorPart::AutoDirty ==> a.auto_dirty() == b.auto_dirty()
    &&& part != EmulatorPart::RequiresInit ==> a.needs_init() == b.needs_init()
    &&& part != EmulatorPart::InitTimeout ==> a.init_timeout() == b.init_timeout()
    &&& part != EmulatorPart::PowerTracking ==> a.tracking_power() == b.tracking_power()
    &&& part != EmulatorPart::PowerStats ==> a.power() == b.power() && a.power_state() == b.power_state()
    &&& part != EmulatorPart::Quirks ==> a.quirks_on() == b.quirks_on() && a.quirk() == b.quirk()
}

/// The emulator's well-formedness rests on its framebuffer and staged
/// buffer alone.
proof fn lemma_wf_buffers(a: Emulator, b: Emulator)
    requires
        a.framebuffer == b.framebuffer,
        a.staged_buffer == b.staged_buffer,
    ensures
        a.wf() == b.wf(),
{
}

/// The e-ink display emulator's controller state.
pub struct Emulator {
    /// The drawing surface.
    pub framebuffer: Framebuffer,
    staged_buffer: Vec<EinkColor>,
    waveform_mode: WaveformMode,
    current_temp: i8,
    refresh_mode: RefreshMode,
    stats: DisplayStats,
    dirty_regions: Vec<Rectangle>,
    auto_track_dirty: bool,
    init_sequence: InitSequence,
    requires_init: bool,
    power_tracker: PowerTracker,
    /// Whether hardware quirks are simulated.
    pub quirks_enabled: bool,
    /// The quirk last triggered, if any.
    pub active_quirk: Option<String>,
    config: EmulatorConfig,
}

impl Emulator {
    /// The framebuffer is well formed and every color in it and in the
    /// staged buffer has a 4-bit gray plane.
    pub closed spec fn wf(&self) -> bool {
        &&& self.framebuffer.wf()
        &&& self.framebuffer.colors_wf()
        &&& forall|i: int| 0 <= i < self.staged_buffer@.len() ==> color_wf(#[trigger] self.staged_buffer@[i])
    }

    /// The power statistics.
    pub closed spec fn power(&self) -> PowerStats {
        self.power_tracker.statistics()
    }

    /// The framebuffer.
    pub closed spec fn frame(&self) -> Framebuffer {
        self.framebuffer
    }

    /// Whether quirks are simulated.
    pub closed spec fn quirks_on(&self) -> bool {
        self.quirks_enabled
    }

    /// The quirk last triggered.
    pub closed spec fn quirk(&self) -> Option<String> {
        self.active_quirk
    }

    /// Number of initialization steps.
    pub closed spec fn init_total(&self) -> u8 {
        self.init_sequence.steps()
    }

    pub closed spec fn staged(&self) -> Seq<EinkColor> {
        self.staged_buffer@
    }

    pub closed spec fn mode(&self) -> WaveformMode {
        self.waveform_mode
    }

    pub closed spec fn temp(&self) -> i8 {
        self.current_temp
    }

    pub closed spec fn refresh(&self) -> RefreshMode {
        self.refresh_mode
    }

    pub closed spec fn display_stats(&self) -> DisplayStats {
        self.stats
    }

    pub closed spec fn dirty(&self) -> Seq<Rectangle> {
        self.dirty_regions@
    }

    pub closed spec fn auto_dirty(&self) -> bool {
        self.auto_track_dirty
    }

    pub closed spec fn init(&self) -> InitializationState {
        self.init_sequence.phase()
    }

    pub closed spec fn init_timeout(&self) -> u32 {
        self.init_sequence.timeout()
    }

    pub closed spec fn needs_init(&self) -> bool {
        self.requires_init
    }

    pub closed spec fn power_state(&self) -> PowerState {
        self.power_tracker.current_state()
    }

    pub closed spec fn tracking_power(&self) -> bool {
        self.power_tracker.tracking()
    }

    /// The panel's power profile.
    pub closed spec fn panel_profile(&self) -> PowerProfile {
        self.power_tracker.power_profile()
    }

    /// The initialization sequence.
    pub closed spec fn init_seq(&self) -> InitSequence {
        self.init_sequence
    }

    /// `next` is this emulator after its power tracker went to `to` (see
    /// [`power_transition`]); profile and tracking stay.
    pub open spec fn powered_to(self, next: Emulator, to: PowerState) -> bool {
        &&& power_transition(
            self.power_state(),
            self.power(),
            self.panel_profile(),
            self.tracking_power(),
            to,
            next.power_state(),
            next.power(),
        )
        &&& next.panel_profile() == self.panel_profile()
        &&& next.tracking_power() == self.tracking_power()
    }

    pub closed spec fn settings(&self) -> EmulatorConfig {
        self.config
    }

    /// A headless emulator for a `width × height` panel drawing
    /// `profile`: white framebuffer and staged buffer, GC16, 25°C, full
    /// refresh mode, no statistics, no dirty regions, initialization not
    /// required, quirks on.
    pub fn headless_with_panel(width: u32, height: u32, profile: PowerProfile) -> (r: Self)
        requires
            width * height <= u32::MAX,
        ensures
            r.wf(),
            r.frame().width == width,
            r.frame().height == height,
            r.staged().len() == width * height,
            r.mode() == WaveformMode::GC16,
            r.temp() == 25,
            r.refresh() == RefreshMode::Full,
            r.display_stats() == no_refreshes(),
            r.dirty().len() == 0,
            !r.auto_dirty(),
            r.init() == InitializationState::Uninitialized,
            r.init_timeout() == 5000,
            r.init_total() == 7,
            !r.needs_init(),
            r.power_state() == PowerState::Idle,
            r.tracking_power(),
            r.quirks_on(),
            r.quirk() is None,
    {
        let framebuffer = Framebuffer::new(width, height);
        let n = (width * height) as usize;
        let mut staged_buffer: Vec<EinkColor> = Vec::new();
        let mut i: usize = 0;
        while i < n
            invariant
                i <= n,
                staged_buffer@.len() == i,
                forall|k: int| 0 <= k < i ==> #[trigger] staged_buffer@[k] == EinkColor::Gray(Gray4 { luma: 15 }),
            decreases n - i,
        {
            staged_buffer.push(EinkColor::default());
            i = i + 1;
        }
        Emulator {
            framebuffer,
            staged_buffer,
            waveform_mode: WaveformMode::GC16,
            current_temp: 25,
            refresh_mode: RefreshMode::Full,
            stats: DisplayStats::default(),
            dirty_regions: Vec::new(),
            auto_track_dirty: false,
            init_sequence: InitSequence::new(),
            requires_init: false,
            power_tracker: PowerTracker::new(profile),
            quirks_enabled: true,
            active_quirk: None,
            config: EmulatorConfig::standard(),
        }
    }
}


impl Emulator {
    /// Set the current temperature (for temperature compensation).
    pub fn set_temperature(&mut self, temp: i8)
        ensures
            same_except(*final(self), *old(self), EmulatorPart::Temperature),
            final(self).temp() == temp,
    {
        self.current_temp = temp;
        proof {
            lemma_wf_buffers(*self, *old(self));
        }
    }

    /// The current temperature.
    pub fn temperature(&self) -> (r: i8)
        ensures
            r == self.temp(),
    {
        self.current_temp
    }

    /// The power statistics.
    pub fn power_stats(&self) -> (r: &PowerStats)
        ensures
            *r == self.power(),
    {
        self.power_tracker.stats()
    }

    /// Reset the power statistics.
    pub fn reset_power_stats(&mut self)
        ensures
            same_except(*final(self), *old(self), EmulatorPart::PowerStats),
            final(self).power() == crate::eink::power::zero_stats(),
            final(self).power_state() == PowerState::Idle,
            final(self).tracking_power() == old(self).tracking_power(),
    {
        self.power_tracker.reset();
        proof {
            lemma_wf_buffers(*self, *old(self));
        }
    }

    /// Enable or disable power tracking.
    pub fn enable_power_tracking(&mut self, enabled: bool)
        ensures
            same_except(*final(self), *old(self), EmulatorPart::PowerTracking),
            final(self).tracking_power() == enabled,
    {
        self.power_tracker.set_enabled(enabled);
        proof {
            lemma_wf_buffers(*self, *old(self));
        }
    }

    /// Whether power tracking is enabled.
    pub fn is_power_tracking_enabled(&self) -> (r: bool)
        ensures
            r == self.tracking_power(),
    {
        self.power_tracker.is_enabled()
    }

    /// The waveform mode of the next refresh.
    pub fn waveform_mode(&self) -> (r: WaveformMode)
        ensures
            r == self.mode(),
    {
        self.waveform_mode
    }

    /// Set the waveform mode for subsequent refreshes.
    pub fn set_waveform_mode(&mut self, mode: WaveformMode)
        ensures
            same_except(*final(self), *old(self), EmulatorPart::Waveform),
            final(self).mode() == mode,
    {
        self.waveform_mode = mode;
        proof {
            lemma_wf_buffers(*self, *old(self));
        }
    }

    /// The refresh mode.
    pub fn refresh_mode(&self) -> (r: RefreshMode)
        ensures
            r == self.refresh(),
    {
        self.refresh_mode
    }

    /// Set the refresh mode.
    pub fn set_refresh_mode(&mut self, mode: RefreshMode)
        ensures
            same_except(*final(self), *old(self), EmulatorPart::Refresh),
            final(self).refresh() == mode,
    {
        self.refresh_mode = mode;
        proof {
            lemma_wf_buffers(*self, *old(self));
        }
    }

    /// The initialization state.
    pub fn init_state(&self) -> (r: &InitializationState)
        ensures
            *r == self.init(),
    {
        self.init_sequence.state()
    }

    /// Set whether initialization is required before a refresh.
    pub fn set_requires_initialization(&mut self, required: bool)
        ensures
            same_except(*final(self), *old(self), EmulatorPart::RequiresInit),
            final(self).needs_init() == required,
    {
        self.requires_init = required;
        proof {
            lemma_wf_buffers(*self, *old(self));
        }
    }

    /// Set the initialization timeout in milliseconds.
    pub fn set_init_timeout(&mut self, timeout_ms: u32)
        ensures
            same_except(*final(self), *old(self), EmulatorPart::InitTimeout),
            final(self).init_timeout() == timeout_ms,
            final(self).init() == old(self).init(),
            final(self).init_total() == old(self).init_total(),
    {
        self.init_sequence.set_timeout(timeout_ms);
        proof {
            lemma_wf_buffers(*self, *old(self));
        }
    }

    /// The display statistics.
    pub fn stats(&self) -> (r: &DisplayStats)
        ensures
            *r == self.display_stats(),
    {
        &self.stats
    }

    /// The presentation configuration.
    pub fn config(&self) -> (r: &EmulatorConfig)
        ensures
            *r == self.settings(),
    {
        &self.config
    }

    /// Mark a rectangular region as dirty.
    pub fn mark_dirty(&mut self, rect: Rectangle)
        ensures
            same_except(*final(self), *old(self), EmulatorPart::DirtyRegions),
            final(self).dirty() == old(self).dirty().push(rect),
    {
        self.dirty_regions.push(rect);
        proof {
            lemma_wf_buffers(*self, *old(self));
        }
    }

    /// Clear all dirty regions.
    pub fn clear_dirty(&mut self)
        ensures
            same_except(*final(self), *old(self), EmulatorPart::DirtyRegions),
            final(self).dirty().len() == 0,
    {
        self.dirty_regions.clear();
        proof {
            lemma_wf_buffers(*self, *old(self));
        }
    }

    /// The aligned bounding box of all dirty regions, or `None` when there
    /// are none.
    pub fn get_dirty_bounds(&self) -> (r: Option<Rectangle>)
        requires
            crate::eink::partial_window::merge_all_fits(self.dirty()),
        ensures
            self.dirty().len() == 0 ==> r is None,
            self.dirty().len() > 0 ==> r == Some(crate::eink::alignment::aligned_rect(merge_all(self.dirty()))),
    {
        merge_rectangles(self.dirty_regions.as_slice())
    }

    /// Enable or disable automatic dirty tracking.
    pub fn enable_auto_dirty_tracking(&mut self, enable: bool)
        ensures
            same_except(*final(self), *old(self), EmulatorPart::AutoDirty),
            final(self).auto_dirty() == enable,
            final(self).dirty() == old(self).dirty(),
    {
        self.auto_track_dirty = enable;
        proof {
            lemma_wf_buffers(*self, *old(self));
        }
    }

    /// The dirty regions.
    pub fn dirty_regions(&self) -> (r: &[Rectangle])
        ensures
            r@ == self.dirty(),
    {
        self.dirty_regions.as_slice()
    }

    /// Whether automatic dirty tracking is enabled.
    pub fn is_auto_dirty_tracking_enabled(&self) -> (r: bool)
        ensures
            r == self.auto_dirty(),
    {
        self.auto_track_dirty
    }

    /// Disable hardware quirk simulation, clearing the active quirk.
    pub fn disable_quirks(&mut self)
        ensures
            same_except(*final(self), *old(self), EmulatorPart::Quirks),
            !final(self).quirks_on(),
            final(self).quirk() is None,
    {
        self.quirks_enabled = false;
        self.active_quirk = None;
        proof {
            lemma_wf_buffers(*self, *old(self));
        }
    }

    /// Enable hardware quirk simulation.
    pub fn enable_quirks(&mut self)
        ensures
            same_except(*final(self), *old(self), EmulatorPart::Quirks),
            final(self).quirks_on(),
            final(self).quirk() == old(self).quirk(),
    {
        self.quirks_enabled = true;
        proof {
            lemma_wf_buffers(*self, *old(self));
        }
    }

    /// The quirk last triggered, if any.
    pub fn active_quirk(&self) -> (r: Option<&str>)
        ensures
            self.quirk() is None ==> r is None,
            self.quirk() matches Some(q) ==> (r matches Some(s) && s@ == q@),
    {
        match &self.active_quirk {
            Some(q) => Some(q.as_str()),
            None => None,
        }
    }

    /// Whether hardware quirks are simulated.
    pub fn quirks_enabled(&self) -> (r: bool)
        ensures
            r == self.quirks_on(),
    {
        self.quirks_enabled
    }

    /// Check whether `operation` triggers any of the panel's `quirks`.
    ///
    /// Nothing happens while quirk simulation is off or the panel has no
    /// quirks. Otherwise the quirks are gone through in order: each that the
    /// operation triggers becomes the active quirk, and the first that is an
    /// error ends the quirk check with its message. Besides the result, the
    /// indices of the quirks triggered are returned, in order, so that the
    /// warnings among them can be reported.
    pub fn check_quirks(&mut self, quirks: Option<&[Quirk]>, operation: &str) -> (r: (Result<(), String>, Vec<usize>))
        ensures
            same_except(*final(self), *old(self), EmulatorPart::Quirks),
            final(self).quirks_on() == old(self).quirks_on(),
            !old(self).quirks_on() || quirks is None ==> r.0 is Ok && r.1@.len() == 0 && final(self).quirk()
                == old(self).quirk(),
            old(self).quirks_on() && quirks is Some ==> ({
                let qs = quirks->0@;
                let op = operation.spec_bytes();
                let fired = fired_upto(qs, op, checked_len(qs, op));
                &&& r.1@ == fired
                &&& match first_error(qs, op, qs.len() as int) {
                    Some(k) => r.0 matches Err(m) && m@ == quirk_error_text(quirk_text(qs[k])),
                    None => r.0 is Ok,
                }
                &&& fired.len() == 0 ==> final(self).quirk() == old(self).quirk()
                &&& fired.len() > 0 ==> (final(self).quirk() matches Some(s) && s@ == quirk_text(
                    qs[fired.last() as int],
                ))
            }),
    {
        if !self.quirks_enabled {
            return (Ok(()), Vec::new());
        }
        match quirks {
            Some(qs) => {
                let (result, fired, active) = check_quirk_list(qs, operation);
                if active.is_some() {
                    self.active_quirk = active;
                }
                proof {
                    lemma_wf_buffers(*self, *old(self));
                }
                (result, fired)
            },
            None => (Ok(()), Vec::new()),
        }
    }

    /// Draw one gray pixel at drawing position (`x`, `y`); positions left
    /// of or above the display, or beyond it, are skipped.
    pub fn draw_point(&mut self, x: i32, y: i32, color: Gray4)
        requires
            old(self).wf(),
            color.wf(),
        ensures
            final(self).wf(),
            final(self).frame().width == old(self).frame().width,
            final(self).frame().height == old(self).frame().height,
            final(self).frame().color_mode == old(self).frame().color_mode,
            final(self).frame().pixels@ == if x >= 0 && y >= 0 {
                old(self).frame().pixels_after_set(x as u32, y as u32, EinkColor::Gray(color))
            } else {
                old(self).frame().pixels@
            },
            final(self).staged() == old(self).staged(),
            final(self).init() == old(self).init(),
            final(self).display_stats() == old(self).display_stats(),
    {
        if x >= 0 && y >= 0 {
            self.framebuffer.set_pixel(x as u32, y as u32, EinkColor::Gray(color));
            proof {
                assert forall|i: int| 0 <= i < self.framebuffer.pixels@.len() implies color_wf(
                    #[trigger] self.framebuffer.pixels@[i],
                ) by {
                    let ghost before = old(self).framebuffer.pixels@;
                    assert(old(self).framebuffer.colors_wf());
                    if (x as u32) < old(self).framebuffer.width && (y as u32) < old(self).framebuffer.height
                        && i == (y as u32) * old(self).framebuffer.width + (x as u32) {
                        assert(self.framebuffer.pixels@[i] == EinkColor::Gray(color));
                    } else {
                        if (x as u32) < old(self).framebuffer.width && (y as u32) < old(self).framebuffer.height {
                            crate::eink::framebuffer::lemma_index_in_grid(
                                x as int,
                                y as int,
                                old(self).framebuffer.width as int,
                                old(self).framebuffer.height as int,
                            );
                        }
                        assert(self.framebuffer.pixels@[i] == before[i]);
                        assert(color_wf(before[i]));
                    }
                }
            }
        }
    }

    /// Transfer the framebuffer to the controller's staged buffer (through
    /// the buffer-transfer power state, back to idle).
    pub fn update_buffer(&mut self)
        requires
            old(self).wf(),
        ensures
            final(self).wf(),
            final(self).staged() == old(self).frame().pixels@,
            final(self).frame() == old(self).frame(),
            final(self).mode() == old(self).mode(),
            final(self).init() == old(self).init(),
            final(self).needs_init() == old(self).needs_init(),
            final(self).display_stats() == old(self).display_stats(),
    {
        self.power_tracker.transition_to(PowerState::TransferringBuffer);
        let pixels = self.framebuffer.pixels.clone();
        assert(pixels@ =~= self.framebuffer.pixels@);
        self.staged_buffer = pixels;
        self.power_tracker.transition_to(PowerState::Idle);
    }

    /// Start a refresh of the staged buffer in `mode`: refused when
    /// initialization is required and not done; otherwise enter the
    /// refreshing power state with the mode's flashes and give the staged
    /// buffer quantized for the mode.
    pub fn begin_display(&mut self, mode: WaveformMode) -> (r: Result<Vec<Gray4>, String>)
        requires
            old(self).wf(),
        ensures
            final(self).wf(),
            old(self).needs_init() && !(old(self).init() is Initialized) <==> r is Err,
            r matches Err(m) ==> m@ == "Display not initialized. Call initialize() first."@
                && final(self).power_state() == old(self).power_state(),
            r matches Ok(q) ==> q@.len() == old(self).staged().len() && (forall|k: int|
                0 <= k < q@.len() ==> (#[trigger] q@[k]).level() == quantized_pixel(old(self).staged()[k], mode)),
            final(self).staged() == old(self).staged(),
            final(self).frame() == old(self).frame(),
            final(self).display_stats() == old(self).display_stats(),
            final(self).init() == old(self).init(),
            final(self).needs_init() == old(self).needs_init(),
    {
        if self.requires_init {
            let ready = self.init_sequence.state().is_ready();
            if !ready {
                return Err("Display not initialized. Call initialize() first.".to_owned());
            }
        }
        let flash_count = mode.flash_count();
        self.power_tracker.transition_to(PowerState::Refreshing { flash_count });
        Ok(quantize_buffer(&self.staged_buffer, mode))
    }

    /// Finish a refresh in `mode`: count it with the mode's base duration,
    /// count a DC-balance warning when the physics raised one, and return to
    /// the idle power state.
    pub fn finish_display(&mut self, mode: WaveformMode, dc_warning: bool)
        requires
            old(self).display_stats().full_refresh_count < u64::MAX,
            old(self).display_stats().partial_refresh_count < u64::MAX,
            old(self).display_stats().fast_refresh_count < u64::MAX,
            old(self).display_stats().total_refresh_time_ms + mode_base_duration_ms(mode) <= u64::MAX,
            dc_warning ==> old(self).display_stats().dc_warnings < u32::MAX,
        ensures
            final(self).display_stats() == ({
                let s = stats_after_refresh(old(self).display_stats(), mode, mode_base_duration_ms(mode));
                if dc_warning { DisplayStats { dc_warnings: (s.dc_warnings + 1) as u32, ..s } } else { s }
            }),
            final(self).staged() == old(self).staged(),
            final(self).frame() == old(self).frame(),
            final(self).init() == old(self).init(),
            old(self).wf() ==> final(self).wf(),
    {
        if dc_warning {
            self.stats.dc_warnings = self.stats.dc_warnings + 1;
        }
        self.stats.record_refresh(mode, mode.base_duration_ms());
        self.power_tracker.transition_to(PowerState::Idle);
    }

    /// Start initialization: enter the initializing power state and start
    /// the step sequence (refused while initializing or initialized).
    pub fn begin_initialize(&mut self) -> (r: Result<(), String>)
        ensures
            old(self).init() is Uninitialized || old(self).init() is Failed <==> r is Ok,
            r is Ok ==> final(self).init() == (InitializationState::Initializing {
                step: 1,
                total_steps: old(self).init_total(),
            }),
            final(self).init_total() == old(self).init_total(),
            r is Err ==> final(self).init() == old(self).init(),
            final(self).frame() == old(self).frame(),
            final(self).staged() == old(self).staged(),
            final(self).display_stats() == old(self).display_stats(),
    {
        self.power_tracker.transition_to(PowerState::Initializing);
        self.init_sequence.start()
    }
}


impl Emulator {
    /// The visible effect of initialization step `step`: step 6 draws the
    /// checkerboard, step 7 clears to white; other steps draw nothing.
    pub fn show_init_step(&mut self, step: u8)
        requires
            old(self).wf(),
        ensures
            final(self).wf(),
            final(self).frame().width == old(self).frame().width,
            final(self).frame().height == old(self).frame().height,
            step == 6 ==> forall|x: u32, y: u32| x < final(self).frame().width && y < final(self).frame().height
                ==> #[trigger] final(self).frame().pixel_at(x, y) == Some(
                EinkColor::Gray(Gray4 { luma: checker_level(x, y) }),
            ),
            step == 7 ==> forall|i: int| 0 <= i < final(self).frame().pixels@.len()
                ==> #[trigger] final(self).frame().pixels@[i] == crate::eink::framebuffer::mode_white(old(self).frame().color_mode),
            step != 6 && step != 7 ==> final(self).frame() == old(self).frame(),
            final(self).staged() == old(self).staged(),
            final(self).init() == old(self).init(),
            final(self).init_total() == old(self).init_total(),
    {
        if step == 6 {
            fill_checkerboard(&mut self.framebuffer);
        } else if step == 7 {
            self.framebuffer.clear();
        }
    }

    /// Move initialization to its next step (see
    /// [`InitSequence::next_step`](crate::eink::initialization::InitSequence::next_step)).
    pub fn advance_initialization(&mut self) -> (r: Result<Option<u8>, String>)
        ensures
            step_taken(old(self).init_seq(), final(self).init_seq(), r),
            final(self).init() == final(self).init_seq().phase(),
            final(self).power_state() == old(self).power_state(),
            final(self).power() == old(self).power(),
            final(self).frame() == old(self).frame(),
            final(self).staged() == old(self).staged(),
            final(self).init_total() == old(self).init_total(),
            final(self).init_timeout() == old(self).init_timeout(),
            r matches Ok(Some(n)) ==> (old(self).init() matches InitializationState::Initializing { step, total_steps }
                && step < total_steps && n == step + 1
                && final(self).init() == (InitializationState::Initializing { step: n, total_steps })),
            r matches Ok(None) ==> final(self).init() == InitializationState::Initialized,
    {
        self.init_sequence.next_step()
    }

    /// End initialization: back to the idle power state.
    pub fn finish_initialize(&mut self)
        ensures
            final(self).frame() == old(self).frame(),
            final(self).staged() == old(self).staged(),
            final(self).init() == old(self).init(),
            final(self).init_total() == old(self).init_total(),
            final(self).display_stats() == old(self).display_stats(),
            old(self).powered_to(*final(self), PowerState::Idle),
    {
        self.power_tracker.transition_to(PowerState::Idle);
    }

    /// Enter deep sleep.
    pub fn sleep(&mut self)
        ensures
            final(self).frame() == old(self).frame(),
            final(self).staged() == old(self).staged(),
            final(self).init() == old(self).init(),
            final(self).display_stats() == old(self).display_stats(),
            old(self).powered_to(*final(self), PowerState::Sleeping),
    {
        self.power_tracker.transition_to(PowerState::Sleeping);
    }

    /// Wake from sleep to idle.
    pub fn wake(&mut self)
        ensures
            final(self).frame() == old(self).frame(),
            final(self).staged() == old(self).staged(),
            final(self).init() == old(self).init(),
            final(self).display_stats() == old(self).display_stats(),
            old(self).powered_to(*final(self), PowerState::Idle),
    {
        self.power_tracker.transition_to(PowerState::Idle);
    }
}

} // verus!
