use soul_listener::eink::display::select_power_profile;
use soul_listener::eink::power::{PowerProfile, PowerState, PowerStats, PowerTracker};
use std::time::{Duration, Instant};

/// Wait at least `d` on the wall clock.
fn wait(d: Duration) {
    let start = Instant::now();
    while start.elapsed() < d {
        std::hint::spin_loop();
    }
}

#[test]
fn test_power_tracker_idle() {
    let mut tracker = PowerTracker::new(PowerProfile::waveshare_2_13_v4());
    wait(Duration::from_millis(8000));
    tracker.transition_to(PowerState::Idle);
    let stats = tracker.stats();
    assert!(stats.total_energy_uwh > 0, "Idle should consume energy after 8s");
    assert!(stats.idle_time_ms >= 8000);
}

#[test]
fn test_power_tracker_refresh() {
    let mut tracker = PowerTracker::new(PowerProfile::waveshare_2_13_v4());
    tracker.transition_to(PowerState::Refreshing { flash_count: 3 });
    wait(Duration::from_millis(100));
    tracker.transition_to(PowerState::Idle);
    let stats = tracker.stats();
    assert!(stats.total_energy_uwh > 0, "Refresh should consume energy");
    assert!(stats.active_time_ms >= 100);
}

#[test]
fn test_power_tracker_disable() {
    let mut tracker = PowerTracker::new(PowerProfile::waveshare_2_13_v4());
    tracker.set_enabled(false);
    wait(Duration::from_millis(10));
    tracker.transition_to(PowerState::Idle);
    let stats = tracker.stats();
    assert_eq!(stats.total_energy_uwh, 0);
}

#[test]
fn test_peak_current_tracking() {
    let mut tracker = PowerTracker::new(PowerProfile::waveshare_2_13_v4());
    tracker.transition_to(PowerState::Idle);
    wait(Duration::from_millis(5));
    tracker.transition_to(PowerState::Refreshing { flash_count: 3 });
    wait(Duration::from_millis(5));
    tracker.transition_to(PowerState::Idle);
    let stats = tracker.stats();
    let expected_peak =
        PowerProfile::waveshare_2_13_v4().refresh_current_ua + 3 * PowerProfile::waveshare_2_13_v4().refresh_boost_ua;
    assert_eq!(stats.peak_current_ua, expected_peak);
}

#[test]
fn transition_after_accounts_energy_exactly() {
    let mut tracker = PowerTracker::new(PowerProfile::waveshare_2_13_v4());
    // 1 s idle at 150 µA: 150 × 1000 × 33 / 36_000_000 = 0 µWh (integer), time counted.
    tracker.transition_after(PowerState::Refreshing { flash_count: 2 }, 1000);
    assert_eq!(tracker.stats().idle_time_ms, 1000);
    assert_eq!(tracker.stats().total_energy_uwh, 0);
    // 10 s refreshing at 54_000 + 2 × 15_000 = 84_000 µA: 84_000 × 10_000 × 33 / 36_000_000 = 770 µWh.
    tracker.transition_after(PowerState::Idle, 10_000);
    assert_eq!(tracker.stats().active_time_ms, 10_000);
    assert_eq!(tracker.stats().total_energy_uwh, 770);
    assert_eq!(tracker.stats().peak_current_ua, 84_000);
    assert_eq!(tracker.state(), PowerState::Idle);
}

#[test]
fn reset_clears_stats() {
    let mut tracker = PowerTracker::new(PowerProfile::waveshare_2_13_v4());
    tracker.transition_after(PowerState::Sleeping, 5000);
    tracker.reset();
    assert_eq!(*tracker.stats(), PowerStats::default());
    assert!(tracker.is_enabled());
}

#[test]
fn profile_selected_by_name_then_size() {
    assert_eq!(select_power_profile("Waveshare 2.13\" V4", 0, 0), PowerProfile::waveshare_2_13_v4());
    assert_eq!(select_power_profile("Waveshare 2.9\" V2", 0, 0), PowerProfile::waveshare_2_9_v2());
    assert_eq!(select_power_profile("Waveshare 4.2\" V2", 0, 0), PowerProfile::waveshare_4_2_v2());
    assert_eq!(select_power_profile("Waveshare 7.5\" V2", 0, 0), PowerProfile::waveshare_7_5_v2());
    assert_eq!(select_power_profile("other", 250, 122), PowerProfile::waveshare_2_13_v4());
    assert_eq!(select_power_profile("other", 296, 200), PowerProfile::waveshare_2_9_v2());
    assert_eq!(select_power_profile("other", 400, 300), PowerProfile::waveshare_4_2_v2());
    assert_eq!(select_power_profile("other", 800, 480), PowerProfile::waveshare_7_5_v2());
    assert_eq!(select_power_profile("other", u32::MAX, u32::MAX), PowerProfile::waveshare_7_5_v2());
}
