use soul_listener::eink::display::{quantize_buffer, DisplayStats, RefreshCounter, RefreshMode};
use soul_listener::eink::pixel_color::{EinkColor, Gray4, SpectraColor};
use soul_listener::eink::power::PowerProfile;
use soul_listener::eink::waveform_mode::WaveformMode;

#[test]
fn test_grayscale_levels() {
    assert_eq!(WaveformMode::GC16.grayscale_levels(), 16);
    assert_eq!(WaveformMode::GL16.grayscale_levels(), 16);
    assert_eq!(WaveformMode::DU4.grayscale_levels(), 4);
    assert_eq!(WaveformMode::DU.grayscale_levels(), 2);
    assert_eq!(WaveformMode::A2.grayscale_levels(), 2);
}

#[test]
fn test_quantization_gc16() {
    let mode = WaveformMode::GC16;
    assert_eq!(mode.quantize_gray4(0), 0);
    assert_eq!(mode.quantize_gray4(7), 7);
    assert_eq!(mode.quantize_gray4(15), 15);
}

#[test]
fn test_quantization_du4() {
    let mode = WaveformMode::DU4;
    assert_eq!(mode.quantize_gray4(0), 0);
    assert_eq!(mode.quantize_gray4(3), 0);
    assert_eq!(mode.quantize_gray4(5), 5);
    assert_eq!(mode.quantize_gray4(8), 10);
    assert_eq!(mode.quantize_gray4(13), 15);
    assert_eq!(mode.quantize_gray4(15), 15);
}

#[test]
fn test_quantization_du() {
    let mode = WaveformMode::DU;
    assert_eq!(mode.quantize_gray4(0), 0);
    assert_eq!(mode.quantize_gray4(5), 0);
    assert_eq!(mode.quantize_gray4(7), 0);
    assert_eq!(mode.quantize_gray4(8), 15);
    assert_eq!(mode.quantize_gray4(10), 15);
    assert_eq!(mode.quantize_gray4(15), 15);
}

#[test]
fn test_mode_characteristics() {
    assert!(WaveformMode::GC16.is_high_quality());
    assert!(!WaveformMode::DU.is_high_quality());
    assert!(WaveformMode::A2.is_fast_mode());
    assert!(!WaveformMode::GC16.is_fast_mode());
    assert!(WaveformMode::A2.base_duration_ms() < WaveformMode::GC16.base_duration_ms());
}

#[test]
fn clears_ghosting_by_mode() {
    assert!(WaveformMode::GC16.clears_ghosting());
    assert!(WaveformMode::GL16.clears_ghosting());
    assert!(!WaveformMode::DU4.clears_ghosting());
    assert!(!WaveformMode::DU.clears_ghosting());
    assert!(!WaveformMode::A2.clears_ghosting());
}

#[test]
fn quantization_is_idempotent() {
    for mode in [
        WaveformMode::GC16,
        WaveformMode::GL16,
        WaveformMode::DU,
        WaveformMode::DU4,
        WaveformMode::A2,
        WaveformMode::GCC16,
        WaveformMode::GCU,
    ] {
        for v in 0u8..=255 {
            let q = mode.quantize_gray4(v);
            assert_eq!(mode.quantize_gray4(q), q);
        }
    }
}

#[test]
fn test_refresh_mode_properties() {
    assert!(RefreshMode::Partial.accumulates_ghosting());
    assert!(RefreshMode::Fast.accumulates_ghosting());
    assert!(!RefreshMode::Full.accumulates_ghosting());
    assert!(RefreshMode::Full.clears_ghosting());
    assert!(!RefreshMode::Partial.clears_ghosting());
}

#[test]
fn refresh_mode_names_and_default() {
    assert_eq!(RefreshMode::Full.name(), "Full");
    assert_eq!(RefreshMode::Partial.name(), "Partial");
    assert_eq!(RefreshMode::Fast.name(), "Fast");
    assert_eq!(RefreshMode::default(), RefreshMode::Full);
}

#[test]
fn test_power_profile_constants() {
    assert!(PowerProfile::waveshare_2_13_v4().idle_current_ua > 0);
    assert!(PowerProfile::waveshare_2_13_v4().refresh_current_ua > PowerProfile::waveshare_2_13_v4().idle_current_ua);
    assert!(PowerProfile::waveshare_7_5_v2().refresh_current_ua > PowerProfile::waveshare_2_13_v4().refresh_current_ua);
}

#[test]
fn test_display_stats() {
    let stats = DisplayStats::default();
    assert_eq!(stats.full_refresh_count, 0);
    assert_eq!(stats.partial_refresh_count, 0);
    assert_eq!(stats.fast_refresh_count, 0);
    assert_eq!(stats.total_refresh_time_ms, 0);
    assert_eq!(stats.dc_warnings, 0);
}

#[test]
fn display_stats_count_by_mode() {
    let mut stats = DisplayStats::default();
    stats.record_refresh(WaveformMode::GC16, 980);
    stats.record_refresh(WaveformMode::GCC16, 15000);
    stats.record_refresh(WaveformMode::DU4, 260);
    stats.record_refresh(WaveformMode::A2, 200);
    stats.record_refresh(WaveformMode::GCU, 500);
    assert_eq!(stats.full_refresh_count, 2);
    assert_eq!(stats.partial_refresh_count, 1);
    assert_eq!(stats.fast_refresh_count, 2);
    assert_eq!(stats.total_refresh_time_ms, 980 + 15000 + 260 + 200 + 500);
}

#[test]
fn quantize_buffer_by_mode() {
    let buffer = vec![
        EinkColor::Gray(Gray4::new(0)),
        EinkColor::Gray(Gray4::new(1)),
        EinkColor::Gray(Gray4::new(2)),
        EinkColor::Gray(Gray4::new(3)),
        EinkColor::Spectra6 { bw: Gray4::new(2), color: SpectraColor::Red },
        EinkColor::Kaleido3 { r: 15, g: 15, b: 15 },
    ];
    let du4: Vec<u8> = quantize_buffer(&buffer, WaveformMode::DU4).iter().map(|g| g.luma()).collect();
    // Gray 0..3 times five: 0, 5, 10, 15 are DU4 levels; Kaleido mean 15 → level 3.
    assert_eq!(du4, vec![0, 1, 2, 3, 2, 3]);
    let du: Vec<u8> = quantize_buffer(&buffer, WaveformMode::DU).iter().map(|g| g.luma()).collect();
    assert_eq!(du, vec![0, 0, 3, 3, 3, 3]);
    // A level above 3 quantizes to white (15 / 5 = 3).
    let hi = quantize_buffer(&vec![EinkColor::Gray(Gray4::new(9))], WaveformMode::GC16);
    assert_eq!(hi[0].luma(), 3);
}

#[test]
fn quantized_values_match_the_level_count() {
    for mode in [WaveformMode::GC16, WaveformMode::GL16, WaveformMode::DU4, WaveformMode::DU, WaveformMode::A2] {
        let mut seen: Vec<u8> = (0..=15u8).map(|v| mode.quantize_gray4(v)).collect();
        seen.sort();
        seen.dedup();
        assert_eq!(seen.len(), mode.grayscale_levels() as usize);
        assert_eq!(mode.grayscale_levels() as u32, 1u32 << mode.bit_depth());
    }
}

#[test]
fn refresh_counter_recommends_full_after_threshold() {
    let mut counter = RefreshCounter::with_threshold(3);
    assert!(!counter.record(RefreshMode::Partial));
    assert!(!counter.record(RefreshMode::Partial));
    assert!(counter.record(RefreshMode::Partial));
    assert!(counter.needs_full_refresh());
    assert_eq!(counter.partial_count(), 3);

    assert!(!counter.record(RefreshMode::Full));
    assert_eq!(counter.partial_count(), 0);
    assert!(!counter.needs_full_refresh());
}

#[test]
fn refresh_counter_default_threshold_and_reset() {
    let mut counter = RefreshCounter::default();
    for _ in 0..4 {
        assert!(!counter.record(RefreshMode::Fast));
    }
    assert!(counter.record(RefreshMode::Fast));
    assert_eq!(counter.partial_count(), 5);
    counter.reset();
    assert_eq!(counter.partial_count(), 0);
    assert_eq!(RefreshCounter::new(), RefreshCounter::with_threshold(5));
}
