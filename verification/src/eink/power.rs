//! Power consumption model for e-ink displays, after hardware datasheets and
//! measurements; lets battery life be estimated without the hardware.
//!
//! Energy is accounted at 3.3V: `E (µWh) = I (µA) × 33 × t (ms) / 36_000_000`.
use vstd::prelude::*;
use crate::eink::clock::{elapsed_since, now, Instant};

verus! {

/// Power consumption profile for a display. All currents in microamps (µA).
#[derive(Debug, Clone, Copy, PartialEq, Eq, Structural)]
pub struct PowerProfile {
    /// Idle current when display is static (no refresh)
    pub idle_current_ua: u32,
    /// Deep sleep current (display off, SRAM retained)
    pub sleep_current_ua: u32,
    /// Base refresh current (constant during any refresh)
    pub refresh_current_ua: u32,
    /// Additional current per flash during full refresh
    pub refresh_boost_ua: u32,
    /// Current during SRAM buffer transfer via SPI
    pub sram_transfer_current_ua: u32,
    /// Current during initialization sequence
    pub init_current_ua: u32,
}

/// The profile of [`PowerProfile::waveshare_2_13_v4`].
pub open spec fn waveshare_2_13_v4_profile() -> PowerProfile {
    PowerProfile {
        idle_current_ua: 150,
        sleep_current_ua: 2,
        refresh_current_ua: 54_000,
        refresh_boost_ua: 15_000,
        sram_transfer_current_ua: 8_000,
        init_current_ua: 70_000,
    }
}

/// The profile of [`PowerProfile::waveshare_2_9_v2`].
pub open spec fn waveshare_2_9_v2_profile() -> PowerProfile {
    PowerProfile {
        idle_current_ua: 200,
        sleep_current_ua: 2,
        refresh_current_ua: 60_000,
        refresh_boost_ua: 18_000,
        sram_transfer_current_ua: 9_000,
        init_current_ua: 75_000,
    }
}

/// The profile of [`PowerProfile::waveshare_4_2_v2`].
pub open spec fn waveshare_4_2_v2_profile() -> PowerProfile {
    PowerProfile {
        idle_current_ua: 300,
        sleep_current_ua: 3,
        refresh_current_ua: 100_000,
        refresh_boost_ua: 35_000,
        sram_transfer_current_ua: 15_000,
        init_current_ua: 120_000,
    }
}

/// The profile of [`PowerProfile::waveshare_7_5_v2`].
pub open spec fn waveshare_7_5_v2_profile() -> PowerProfile {
    PowerProfile {
        idle_current_ua: 400,
        sleep_current_ua: 3,
        refresh_current_ua: 173_000,
        refresh_boost_ua: 40_000,
        sram_transfer_current_ua: 30_000,
        init_current_ua: 200_000,
    }
}

/// The profile of [`PowerProfile::gdem0397t81p`].
pub open spec fn gdem0397t81p_profile() -> PowerProfile {
    PowerProfile {
        idle_current_ua: 350,
        sleep_current_ua: 1,
        refresh_current_ua: 25_000,
        refresh_boost_ua: 9_000,
        sram_transfer_current_ua: 10_000,
        init_current_ua: 35_000,
    }
}

impl PowerProfile {
    /// Waveshare 2.13" V4 (SSD1680 controller, 250×122 panel, ~6.5cm²).
    pub fn waveshare_2_13_v4() -> (r: Self)
        ensures
            r == waveshare_2_13_v4_profile(),
    {
        PowerProfile {
            idle_current_ua: 150,
            sleep_current_ua: 2,
            refresh_current_ua: 54_000,
            refresh_boost_ua: 15_000,
            sram_transfer_current_ua: 8_000,
            init_current_ua: 70_000,
        }
    }

    /// Waveshare 2.9" V2 (IL0373 controller, 296×128 panel, ~9.5cm²).
    pub fn waveshare_2_9_v2() -> (r: Self)
        ensures
            r == waveshare_2_9_v2_profile(),
    {
        PowerProfile {
            idle_current_ua: 200,
            sleep_current_ua: 2,
            refresh_current_ua: 60_000,
            refresh_boost_ua: 18_000,
            sram_transfer_current_ua: 9_000,
            init_current_ua: 75_000,
        }
    }

    /// Waveshare 4.2" V2 (SSD1619 controller, 400×300 panel, ~30cm²).
    pub fn waveshare_4_2_v2() -> (r: Self)
        ensures
            r == waveshare_4_2_v2_profile(),
    {
        PowerProfile {
            idle_current_ua: 300,
            sleep_current_ua: 3,
            refresh_current_ua: 100_000,
            refresh_boost_ua: 35_000,
            sram_transfer_current_ua: 15_000,
            init_current_ua: 120_000,
        }
    }

    /// Waveshare 7.5" V2 (ED075TC1 controller, 800×480 panel, ~75cm²).
    pub fn waveshare_7_5_v2() -> (r: Self)
        ensures
            r == waveshare_7_5_v2_profile(),
    {
        PowerProfile {
            idle_current_ua: 400,
            sleep_current_ua: 3,
            refresh_current_ua: 173_000,
            refresh_boost_ua: 40_000,
            sram_transfer_current_ua: 30_000,
            init_current_ua: 200_000,
        }
    }

    /// Good Display GDEM0397T81P (SSD1677 controller, 3.97" 800×480, ~45cm²).
    pub fn gdem0397t81p() -> (r: Self)
        ensures
            r == gdem0397t81p_profile(),
    {
        PowerProfile {
            idle_current_ua: 350,
            sleep_current_ua: 1,
            refresh_current_ua: 25_000,
            refresh_boost_ua: 9_000,
            sram_transfer_current_ua: 10_000,
            init_current_ua: 35_000,
        }
    }
}

/// Real-time power statistics
#[derive(Debug, Clone, Copy, PartialEq, Eq, Structural)]
pub struct PowerStats {
    /// Total energy consumed in microwatt-hours (µWh)
    pub total_energy_uwh: u64,
    /// Average current draw since start (µA)
    pub average_current_ua: u32,
    /// Peak current draw observed (µA)
    pub peak_current_ua: u32,
    /// Time spent in idle state (milliseconds)
    pub idle_time_ms: u64,
    /// Time spent actively refreshing (milliseconds)
    pub active_time_ms: u64,
    /// Time spent in sleep state (milliseconds)
    pub sleep_time_ms: u64,
}

/// All-zero statistics.
pub open spec fn zero_stats() -> PowerStats {
    PowerStats {
        total_energy_uwh: 0,
        average_current_ua: 0,
        peak_current_ua: 0,
        idle_time_ms: 0,
        active_time_ms: 0,
        sleep_time_ms: 0,
    }
}

impl Default for PowerStats {
    fn default() -> (r: Self)
        ensures
            r == zero_stats(),
    {
        PowerStats {
            total_energy_uwh: 0,
            average_current_ua: 0,
            peak_current_ua: 0,
            idle_time_ms: 0,
            active_time_ms: 0,
            sleep_time_ms: 0,
        }
    }
}

/// Total time over the three states.
pub open spec fn runtime(s: PowerStats) -> int {
    s.idle_time_ms + s.active_time_ms + s.sleep_time_ms
}

impl PowerStats {
    /// Get total runtime in milliseconds
    pub fn total_runtime_ms(&self) -> (r: u64)
        requires
            runtime(*self) <= u64::MAX,
        ensures
            r == runtime(*self),
    {
        self.idle_time_ms + self.active_time_ms + self.sleep_time_ms
    }
}

/// Current power state of the display
#[derive(Debug, Copy, Clone, PartialEq, Eq, Structural)]
pub enum PowerState {
    /// Display is idle (showing static image, no refresh)
    Idle,
    /// Display is refreshing with specified number of flashes
    Refreshing { flash_count: u8 },
    /// Display in deep sleep mode
    Sleeping,
    /// Display is initializing
    Initializing,
    /// Transferring buffer to display SRAM
    TransferringBuffer,
}

impl Default for PowerState {
    fn default() -> (r: Self)
        ensures
            r == PowerState::Idle,
    {
        PowerState::Idle
    }
}

/// Current drawn in `state` under `profile`, in µA.
pub open spec fn draw_ua(state: PowerState, profile: PowerProfile) -> int {
    match state {
        PowerState::Idle => profile.idle_current_ua as int,
        PowerState::Sleeping => profile.sleep_current_ua as int,
        PowerState::Refreshing { flash_count } => profile.refresh_current_ua + flash_count
            * profile.refresh_boost_ua,
        PowerState::Initializing => profile.init_current_ua as int,
        PowerState::TransferringBuffer => profile.sram_transfer_current_ua as int,
    }
}

/// Energy in µWh drawn by `current_ua` for `elapsed_ms` at 3.3V, rounded down.
pub open spec fn energy_uwh(current_ua: int, elapsed_ms: int) -> int {
    current_ua * 33 * elapsed_ms / 36_000_000
}

/// Average current over `total_ms` for `energy` µWh at 3.3V, rounded down
/// and capped at `u32::MAX`, computed exactly in integers. A computation in
/// binary floating point of `energy / (total_ms / 3600000) / 3.3` can fall
/// just below a whole number and round one lower: for 33 µWh over 9 ms it
/// gives 3999999 µA where this gives 4000000.
pub open spec fn average_ua(energy: int, total_ms: int) -> int {
    let a = energy * 36_000_000 / (33 * total_ms);
    if a > u32::MAX { u32::MAX as int } else { a }
}

/// Statistics after spending `elapsed_ms` in `state` drawing `current_ua`.
pub open spec fn stats_after(s: PowerStats, state: PowerState, current_ua: int, elapsed_ms: int) -> PowerStats {
    let energy = s.total_energy_uwh + energy_uwh(current_ua, elapsed_ms);
    let peak = if current_ua > s.peak_current_ua { current_ua } else { s.peak_current_ua as int };
    let idle = if state is Idle { s.idle_time_ms + elapsed_ms } else { s.idle_time_ms as int };
    let sleep = if state is Sleeping { s.sleep_time_ms + elapsed_ms } else { s.sleep_time_ms as int };
    let active = if !(state is Idle) && !(state is Sleeping) {
        s.active_time_ms + elapsed_ms
    } else {
        s.active_time_ms as int
    };
    let total = idle + active + sleep;
    PowerStats {
        total_energy_uwh: energy as u64,
        peak_current_ua: peak as u32,
        idle_time_ms: idle as u64,
        active_time_ms: active as u64,
        sleep_time_ms: sleep as u64,
        average_current_ua: if total > 0 { average_ua(energy, total) as u32 } else { s.average_current_ua },
    }
}

/// The tracker in `state` with `stats` and `profile` went to `st1` with
/// `s1` after `elapsed_ms` in `state`: when the counters can take that time,
/// it moved to `to` recording it; otherwise it kept its state and
/// statistics.
pub open spec fn power_step_after(
    state: PowerState,
    stats: PowerStats,
    profile: PowerProfile,
    to: PowerState,
    st1: PowerState,
    s1: PowerStats,
    elapsed_ms: u64,
) -> bool {
    if fits_after(stats, state, profile, elapsed_ms as int) {
        st1 == to && s1 == stats_after(stats, state, draw_ua(state, profile), elapsed_ms as int)
    } else {
        st1 == state && s1 == stats
    }
}

/// A transition of a tracker in `state` with `stats` to `to`, measured by
/// the clock: with tracking off nothing changes; with it on, the tracker
/// took a step (see [`power_step_after`]) after some time in `state`.
pub open spec fn power_transition(
    state: PowerState,
    stats: PowerStats,
    profile: PowerProfile,
    tracking: bool,
    to: PowerState,
    st1: PowerState,
    s1: PowerStats,
) -> bool {
    if tracking {
        exists|elapsed_ms: u64| #[trigger] power_step_after(state, stats, profile, to, st1, s1, elapsed_ms)
    } else {
        st1 == state && s1 == stats
    }
}

/// Spending `elapsed_ms` in `state` keeps every counter within 64 bits.
pub open spec fn fits_after(s: PowerStats, state: PowerState, profile: PowerProfile, elapsed_ms: int) -> bool {
    let current = draw_ua(state, profile);
    &&& current <= u32::MAX
    &&& current * 33 * elapsed_ms <= u64::MAX
    &&& s.total_energy_uwh + energy_uwh(current, elapsed_ms) <= u64::MAX
    &&& runtime(s) + elapsed_ms <= u64::MAX
}

/// Power consumption tracker: accounts the energy and time of each state.
pub struct PowerTracker {
    /// Current power state
    state: PowerState,
    /// Power statistics
    stats: PowerStats,
    /// Power profile for the display
    profile: PowerProfile,
    /// Last time power was updated
    last_update: Instant,
    /// Whether power tracking is enabled
    enabled: bool,
}

impl PowerTracker {
    /// The current state, as a contract sees it.
    pub closed spec fn current_state(&self) -> PowerState {
        self.state
    }

    /// The statistics, as a contract sees them.
    pub closed spec fn statistics(&self) -> PowerStats {
        self.stats
    }

    /// The profile, as a contract sees it.
    pub closed spec fn power_profile(&self) -> PowerProfile {
        self.profile
    }

    /// Whether tracking is on, as a contract sees it.
    pub closed spec fn tracking(&self) -> bool {
        self.enabled
    }

    /// Create new power tracker with specified profile: idle, all-zero
    /// statistics, tracking enabled.
    pub fn new(profile: PowerProfile) -> (r: Self)
        ensures
            r.current_state() == PowerState::Idle,
            r.statistics() == zero_stats(),
            r.power_profile() == profile,
            r.tracking(),
    {
        PowerTracker { state: PowerState::Idle, stats: PowerStats::default(), profile, last_update: now(), enabled: true }
    }

    /// Switch to `new_state` after `elapsed_ms` milliseconds in the current
    /// state, recording its energy and time. Does nothing when tracking is
    /// disabled.
    pub fn transition_after(&mut self, new_state: PowerState, elapsed_ms: u64)
        requires
            old(self).tracking() ==> fits_after(
                old(self).statistics(),
                old(self).current_state(),
                old(self).power_profile(),
                elapsed_ms as int,
            ),
        ensures
            !old(self).tracking() ==> final(self).current_state() == old(self).current_state()
                && final(self).statistics() == old(self).statistics(),
            old(self).tracking() ==> final(self).current_state() == new_state && final(self).statistics()
                == stats_after(
                old(self).statistics(),
                old(self).current_state(),
                draw_ua(old(self).current_state(), old(self).power_profile()),
                elapsed_ms as int,
            ),
            final(self).power_profile() == old(self).power_profile(),
            final(self).tracking() == old(self).tracking(),
    {
        if !self.enabled {
            return;
        }
        let current_ua = self.current_draw_ua();
        let energy_uwh = (current_ua as u64) * 33 * elapsed_ms / 36_000_000;
        self.stats.total_energy_uwh = self.stats.total_energy_uwh + energy_uwh;
        if current_ua > self.stats.peak_current_ua {
            self.stats.peak_current_ua = current_ua;
        }
        match self.state {
            PowerState::Idle => self.stats.idle_time_ms = self.stats.idle_time_ms + elapsed_ms,
            PowerState::Refreshing { .. } => self.stats.active_time_ms = self.stats.active_time_ms + elapsed_ms,
            PowerState::Sleeping => self.stats.sleep_time_ms = self.stats.sleep_time_ms + elapsed_ms,
            PowerState::Initializing => self.stats.active_time_ms = self.stats.active_time_ms + elapsed_ms,
            PowerState::TransferringBuffer => self.stats.active_time_ms = self.stats.active_time_ms + elapsed_ms,
        }
        self.state = new_state;
        self.last_update = now();
        let total_time_ms = self.stats.total_runtime_ms();
        if total_time_ms > 0 {
            let energy = self.stats.total_energy_uwh as u128;
            let avg = energy * 36_000_000 / (33 * (total_time_ms as u128));
            self.stats.average_current_ua = if avg > u32::MAX as u128 { u32::MAX } else { avg as u32 };
        }
    }

    /// Whether spending `elapsed_ms` more in the current state keeps every
    /// counter within 64 bits.
    pub fn fits_after_ms(&self, elapsed_ms: u64) -> (r: bool)
        ensures
            r == fits_after(self.statistics(), self.current_state(), self.power_profile(), elapsed_ms as int),
    {
        let current = self.draw_wide();
        if current > u32::MAX as u64 {
            return false;
        }
        assert(current * 33 * elapsed_ms <= 0x1_0000_0000u128 * 33 * 0x1_0000_0000_0000_0000u128) by (nonlinear_arith)
            requires
                current <= u32::MAX,
                elapsed_ms <= u64::MAX,
        ;
        let c = current as u128 * 33 * (elapsed_ms as u128);
        if c > u64::MAX as u128 {
            return false;
        }
        let e = self.stats.total_energy_uwh as u128 + c / 36_000_000;
        if e > u64::MAX as u128 {
            return false;
        }
        let rt = self.stats.idle_time_ms as u128 + self.stats.active_time_ms as u128
            + self.stats.sleep_time_ms as u128 + elapsed_ms as u128;
        rt <= u64::MAX as u128
    }

    /// Update to new power state, recording the energy and time spent in the
    /// current one since the last update (see [`Self::transition_after`] and
    /// [`power_transition`]). When that time would overflow a counter,
    /// nothing changes.
    pub fn transition_to(&mut self, new_state: PowerState)
        ensures
            final(self).power_profile() == old(self).power_profile(),
            final(self).tracking() == old(self).tracking(),
            power_transition(
                old(self).current_state(),
                old(self).statistics(),
                old(self).power_profile(),
                old(self).tracking(),
                new_state,
                final(self).current_state(),
                final(self).statistics(),
            ),
    {
        if !self.enabled {
            return;
        }
        let ms = elapsed_since(&self.last_update);
        #[verifier::truncate]
        let elapsed_ms = ms as u64;
        if self.fits_after_ms(elapsed_ms) {
            self.transition_after(new_state, elapsed_ms);
        }
        assert(power_step_after(
            old(self).current_state(),
            old(self).statistics(),
            old(self).power_profile(),
            new_state,
            self.current_state(),
            self.statistics(),
            elapsed_ms,
        ));
    }

    /// Current drawn in the current state, in µA, without overflow.
    fn draw_wide(&self) -> (r: u64)
        ensures
            r == draw_ua(self.state, self.profile),
    {
        match self.state {
            PowerState::Idle => self.profile.idle_current_ua as u64,
            PowerState::Sleeping => self.profile.sleep_current_ua as u64,
            PowerState::Refreshing { flash_count } => {
                assert(flash_count * self.profile.refresh_boost_ua <= 255 * u32::MAX) by (nonlinear_arith)
                    requires flash_count <= 255, self.profile.refresh_boost_ua <= u32::MAX;
                self.profile.refresh_current_ua as u64 + (flash_count as u64) * (self.profile.refresh_boost_ua as u64)
            },
            PowerState::Initializing => self.profile.init_current_ua as u64,
            PowerState::TransferringBuffer => self.profile.sram_transfer_current_ua as u64,
        }
    }

    /// Get current draw in microamps for current state
    fn current_draw_ua(&self) -> (r: u32)
        requires
            draw_ua(self.state, self.profile) <= u32::MAX,
        ensures
            r == draw_ua(self.state, self.profile),
    {
        let w = self.draw_wide();
        w as u32
    }

    /// Get current power statistics
    pub fn stats(&self) -> (r: &PowerStats)
        ensures
            *r == self.statistics(),
    {
        &self.stats
    }

    /// Reset all statistics and return to idle
    pub fn reset(&mut self)
        ensures
            final(self).statistics() == zero_stats(),
            final(self).current_state() == PowerState::Idle,
            final(self).power_profile() == old(self).power_profile(),
            final(self).tracking() == old(self).tracking(),
    {
        self.stats = PowerStats::default();
        self.last_update = now();
        self.state = PowerState::Idle;
    }

    /// Enable or disable power tracking
    pub fn set_enabled(&mut self, enabled: bool)
        ensures
            final(self).tracking() == enabled,
            final(self).statistics() == old(self).statistics(),
            final(self).current_state() == old(self).current_state(),
            final(self).power_profile() == old(self).power_profile(),
    {
        self.enabled = enabled;
    }

    /// Check if power tracking is enabled
    pub fn is_enabled(&self) -> (r: bool)
        ensures
            r == self.tracking(),
    {
        self.enabled
    }

    /// Get current power state
    pub fn state(&self) -> (r: PowerState)
        ensures
            r == self.current_state(),
    {
        self.state
    }
}

/// Time spent in a state is booked to that state's counter alone: deep
/// sleep to sleep time, idle to idle time, every other state to active
/// time; the runtime grows by exactly the time spent, the energy by the
/// whole µWh that the state's current drew over it, and the peak current
/// becomes the larger of the old peak and that current.
pub proof fn lemma_time_booked_to_state(s: PowerStats, state: PowerState, profile: PowerProfile, elapsed_ms: u64)
    requires
        fits_after(s, state, profile, elapsed_ms as int),
    ensures
        ({
            let c = draw_ua(state, profile);
            let r = stats_after(s, state, c, elapsed_ms as int);
            &&& state is Sleeping ==> r.sleep_time_ms == s.sleep_time_ms + elapsed_ms
                && r.idle_time_ms == s.idle_time_ms && r.active_time_ms == s.active_time_ms
            &&& state is Idle ==> r.idle_time_ms == s.idle_time_ms + elapsed_ms
                && r.sleep_time_ms == s.sleep_time_ms && r.active_time_ms == s.active_time_ms
            &&& !(state is Idle) && !(state is Sleeping) ==> r.active_time_ms == s.active_time_ms
                + elapsed_ms && r.idle_time_ms == s.idle_time_ms && r.sleep_time_ms == s.sleep_time_ms
            &&& runtime(r) == runtime(s) + elapsed_ms
            &&& (r.total_energy_uwh - s.total_energy_uwh) * 36_000_000 <= c * 33 * elapsed_ms
            &&& c * 33 * elapsed_ms < (r.total_energy_uwh - s.total_energy_uwh + 1) * 36_000_000
            &&& r.peak_current_ua >= s.peak_current_ua && r.peak_current_ua >= c
            &&& (r.peak_current_ua == s.peak_current_ua || r.peak_current_ua == c)
        }),
{
    let c = draw_ua(state, profile);
    let x = c * 33 * elapsed_ms;
    assert(c >= 0);
    assert(x >= 0) by (nonlinear_arith)
        requires
            x == c * 33 * elapsed_ms,
            c >= 0,
            elapsed_ms >= 0,
    ;
    let q = x / 36_000_000;
    assert(q * 36_000_000 <= x < (q + 1) * 36_000_000) by (nonlinear_arith)
        requires
            q == x / 36_000_000,
            x >= 0,
    ;
}

} // verus!
