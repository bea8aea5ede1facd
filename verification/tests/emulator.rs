use soul_listener::eink::display::RefreshMode;
use soul_listener::eink::emulator::{flash_plan, Emulator, FlashPlan};
use soul_listener::eink::geometry::{Point, Rectangle, Size};
use soul_listener::eink::initialization::InitializationState;
use soul_listener::eink::pixel_color::{EinkColor, Gray4};
use soul_listener::eink::power::PowerProfile;
use soul_listener::eink::quirks::Quirk;
use soul_listener::eink::waveform_mode::WaveformMode;

fn emulator() -> Emulator {
    Emulator::headless_with_panel(250, 122, PowerProfile::waveshare_2_13_v4())
}

#[test]
fn new_emulator_defaults() {
    let e = emulator();
    assert_eq!(e.framebuffer.width, 250);
    assert_eq!(e.framebuffer.height, 122);
    assert_eq!(e.waveform_mode(), WaveformMode::GC16);
    assert_eq!(e.temperature(), 25);
    assert_eq!(e.refresh_mode(), RefreshMode::Full);
    assert_eq!(e.init_state(), &InitializationState::Uninitialized);
    assert_eq!(e.stats().full_refresh_count, 0);
    assert!(e.quirks_enabled());
    assert!(e.active_quirk().is_none());
    assert!(e.is_power_tracking_enabled());
    assert!(!e.is_auto_dirty_tracking_enabled());
}

#[test]
fn refresh_requires_initialization_when_asked() {
    let mut e = emulator();
    e.set_requires_initialization(true);
    match e.begin_display(WaveformMode::GC16) {
        Err(m) => assert_eq!(m, "Display not initialized. Call initialize() first."),
        Ok(_) => panic!("refresh before initialization must fail"),
    }
    e.begin_initialize().unwrap();
    assert!(e.begin_initialize().is_err());
    for step in 1..=7u8 {
        e.show_init_step(step);
        let next = e.advance_initialization().unwrap();
        assert_eq!(next, if step < 7 { Some(step + 1) } else { None });
    }
    e.finish_initialize();
    assert!(e.init_state().is_ready());
    assert!(e.begin_display(WaveformMode::GC16).is_ok());
}

#[test]
fn initialization_draws_checkerboard_then_white() {
    let mut e = emulator();
    e.show_init_step(6);
    assert_eq!(e.framebuffer.get_pixel(0, 0), Some(EinkColor::Gray(Gray4::black())));
    assert_eq!(e.framebuffer.get_pixel(8, 0), Some(EinkColor::Gray(Gray4::white())));
    e.show_init_step(7);
    assert_eq!(e.framebuffer.get_pixel(0, 0), Some(EinkColor::Gray(Gray4::white())));
}

#[test]
fn update_buffer_then_display_quantizes_the_staged_pixels() {
    let mut e = emulator();
    e.framebuffer.set_pixel(0, 0, EinkColor::Gray(Gray4::black()));
    e.framebuffer.set_pixel(1, 0, EinkColor::Gray(Gray4::new(2)));
    // Not transferred yet: the staged buffer is still white.
    let q = e.begin_display(WaveformMode::DU4).unwrap();
    assert_eq!(q[0].luma(), 3);
    e.finish_display(WaveformMode::DU4, false);
    e.update_buffer();
    let q = e.begin_display(WaveformMode::DU4).unwrap();
    assert_eq!(q.len(), 250 * 122);
    assert_eq!(q[0].luma(), 0);
    assert_eq!(q[1].luma(), 2);
    assert_eq!(q[2].luma(), 3);
    e.finish_display(WaveformMode::DU4, true);
    assert_eq!(e.stats().partial_refresh_count, 2);
    assert_eq!(e.stats().total_refresh_time_ms, 520);
    assert_eq!(e.stats().dc_warnings, 1);
}

#[test]
fn dirty_regions_merge_to_aligned_bounds() {
    let mut e = emulator();
    assert_eq!(e.get_dirty_bounds(), None);
    e.mark_dirty(Rectangle::new(Point::new(5, 5), Size::new(10, 10)));
    e.mark_dirty(Rectangle::new(Point::new(20, 20), Size::new(15, 15)));
    assert_eq!(e.dirty_regions().len(), 2);
    assert_eq!(e.get_dirty_bounds(), Some(Rectangle::new(Point::new(0, 0), Size::new(40, 40))));
    e.clear_dirty();
    assert!(e.dirty_regions().is_empty());
    e.enable_auto_dirty_tracking(true);
    assert!(e.is_auto_dirty_tracking_enabled());
}

#[test]
fn quirks_and_settings() {
    let mut e = emulator();
    e.active_quirk = Some("rotation glitch".to_string());
    assert_eq!(e.active_quirk(), Some("rotation glitch"));
    e.disable_quirks();
    assert!(!e.quirks_enabled());
    assert!(e.active_quirk().is_none());
    e.enable_quirks();
    assert!(e.quirks_enabled());
    e.set_temperature(-5);
    assert_eq!(e.temperature(), -5);
    e.set_waveform_mode(WaveformMode::A2);
    assert_eq!(e.waveform_mode(), WaveformMode::A2);
    e.set_refresh_mode(RefreshMode::Fast);
    assert_eq!(e.refresh_mode(), RefreshMode::Fast);
    e.enable_power_tracking(false);
    assert!(!e.is_power_tracking_enabled());
    e.set_init_timeout(10);
    e.reset_power_stats();
    assert_eq!(e.power_stats().total_energy_uwh, 0);
}

#[test]
fn flash_plans() {
    assert_eq!(flash_plan(WaveformMode::GC16, 980), FlashPlan { flashes: 4, flash_ms: 81, settle_ms: 326 });
    assert_eq!(flash_plan(WaveformMode::DU, 260), FlashPlan { flashes: 0, flash_ms: 0, settle_ms: 86 });
    assert_eq!(flash_plan(WaveformMode::A2, 200), FlashPlan { flashes: 1, flash_ms: 66, settle_ms: 66 });
}

fn uc8151_like_quirks() -> Vec<Quirk> {
    vec![
        Quirk::RotationGlitch { description: "Rotation corrupts the frame".to_string() },
        Quirk::SpiWriteHang { description: "SPI write may hang".to_string() },
        Quirk::UncontrollableRefreshRate { description: "Refresh rate is fixed".to_string() },
    ]
}

#[test]
fn error_quirk_stops_the_check_with_its_message() {
    let mut emu = emulator();
    let quirks = uc8151_like_quirks();
    let (result, fired) = emu.check_quirks(Some(&quirks), "rotation");
    assert_eq!(result, Err("⚠️  QUIRK TRIGGERED: Rotation corrupts the frame".to_string()));
    assert_eq!(fired, vec![0]);
    assert_eq!(emu.active_quirk(), Some("Rotation corrupts the frame"));
    let (result, fired) = emu.check_quirks(Some(&quirks), "spi_write");
    assert_eq!(result, Err("⚠️  QUIRK TRIGGERED: SPI write may hang".to_string()));
    assert_eq!(fired, vec![1]);
    assert_eq!(emu.active_quirk(), Some("SPI write may hang"));
}

#[test]
fn warning_quirks_pass_and_become_active() {
    let mut emu = emulator();
    let quirks = vec![
        Quirk::UncontrollableRefreshRate { description: "Refresh rate is fixed".to_string() },
        Quirk::PanelSpecific { description: "VCOM must be set per panel".to_string() },
        Quirk::LimitedLibrarySupport { description: "Few drivers".to_string() },
    ];
    let (result, fired) = emu.check_quirks(Some(&quirks), "init");
    assert_eq!(result, Ok(()));
    assert_eq!(fired, vec![1, 2]);
    assert_eq!(emu.active_quirk(), Some("Few drivers"));
    let (result, fired) = emu.check_quirks(Some(&quirks), "full_refresh");
    assert_eq!(result, Ok(()));
    assert_eq!(fired, vec![0]);
    assert_eq!(emu.active_quirk(), Some("Refresh rate is fixed"));
    let (result, fired) = emu.check_quirks(Some(&quirks), "draw");
    assert_eq!(result, Ok(()));
    assert!(fired.is_empty());
    assert_eq!(emu.active_quirk(), Some("Refresh rate is fixed"));
}

#[test]
fn init_stops_at_the_spi_hang_after_earlier_warnings() {
    let mut emu = emulator();
    let quirks = vec![
        Quirk::PanelSpecific { description: "VCOM".to_string() },
        Quirk::SpiWriteHang { description: "hang".to_string() },
        Quirk::LimitedLibrarySupport { description: "never reached".to_string() },
    ];
    let (result, fired) = emu.check_quirks(Some(&quirks), "init");
    assert_eq!(result, Err("⚠️  QUIRK TRIGGERED: hang".to_string()));
    assert_eq!(fired, vec![0, 1]);
    assert_eq!(emu.active_quirk(), Some("hang"));
}

#[test]
fn quirks_disabled_or_absent_trigger_nothing() {
    let mut emu = emulator();
    let quirks = uc8151_like_quirks();
    emu.disable_quirks();
    let (result, fired) = emu.check_quirks(Some(&quirks), "rotation");
    assert_eq!(result, Ok(()));
    assert!(fired.is_empty());
    assert_eq!(emu.active_quirk(), None);
    emu.enable_quirks();
    let (result, fired) = emu.check_quirks(None, "rotation");
    assert_eq!(result, Ok(()));
    assert!(fired.is_empty());
    assert_eq!(emu.active_quirk(), None);
}

#[test]
fn test_emulator_creation() {
    let emulator = Emulator::headless_with_panel(250, 122, PowerProfile::waveshare_2_13_v4());
    assert_eq!(emulator.framebuffer.width, 250);
    assert_eq!(emulator.framebuffer.height, 122);
}

#[test]
fn test_draw_target() {
    let mut emulator = Emulator::headless_with_panel(100, 100, PowerProfile::waveshare_2_13_v4());
    // A filled 20 × 20 rectangle at (10, 10), pixel by pixel.
    for y in 10..30 {
        for x in 10..30 {
            emulator.draw_point(x, y, Gray4::black());
        }
    }
    assert_eq!(emulator.framebuffer.get_pixel(15, 15), Some(EinkColor::Gray(Gray4::black())));
    assert_eq!(emulator.framebuffer.get_pixel(0, 0), Some(EinkColor::Gray(Gray4::white())));
}

#[test]
fn draw_point_skips_positions_off_the_display() {
    let mut emulator = Emulator::headless_with_panel(4, 4, PowerProfile::waveshare_2_13_v4());
    let before = emulator.framebuffer.pixels.clone();
    emulator.draw_point(-1, 2, Gray4::black());
    emulator.draw_point(2, -1, Gray4::black());
    emulator.draw_point(4, 0, Gray4::black());
    assert_eq!(emulator.framebuffer.pixels, before);
    emulator.draw_point(3, 3, Gray4::new(5));
    assert_eq!(emulator.framebuffer.get_pixel(3, 3), Some(EinkColor::Gray(Gray4::new(5))));
}
