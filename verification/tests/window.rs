use soul_listener::eink::config::Rotation;
use soul_listener::eink::input::{Button, InputEvent, Key};
use soul_listener::eink::window_events::{display_extent, window_action, window_size, WindowAction, WindowEvent};
use soul_listener::eink::window::{
    apply_eink_appearance, compose_frame, darken, eink_pass, fit_to_window, pseudo_random_noise, rotate_180,
    rotate_270_cw, rotate_90_cw, scale_with_grid,
};

#[test]
fn pump_events_compiles_without_pump_event_handler() {
    // Compile-only: pumping events uses the window itself as the handler.
}

#[test]
fn pump_window_events_returns_false_without_event_loop() {
    // Compile-only: the runtime path requires a display.
    let _ = "pump_window_events returns false when event_loop is None";
}

/// The e-ink look computed with the floating-point contrast of 0.9.
fn float_look(pixel: u32, x: u32, y: u32) -> u32 {
    fn contrast(v: u8) -> u8 {
        ((v as f32 - 128.0) * 0.9f32 + 128.0).clamp(0.0, 255.0) as u8
    }
    let r = ((pixel >> 16) & 0xFF) as u8;
    let g = ((pixel >> 8) & 0xFF) as u8;
    let b = (pixel & 0xFF) as u8;
    let luma = r as u32;
    let g = (g as u32).saturating_sub(luma * 9 / 255) as u8;
    let b = (b as u32).saturating_sub(luma * 22 / 255) as u8;
    let noise = pseudo_random_noise(x, y);
    let r = contrast((r as i16 + noise).clamp(0, 255) as u8);
    let g = contrast((g as i16 + noise).clamp(0, 255) as u8);
    let b = contrast((b as i16 + noise).clamp(0, 255) as u8);
    0xFF000000 | ((r as u32) << 16) | ((g as u32) << 8) | (b as u32)
}

#[test]
fn integer_contrast_matches_float_contrast() {
    for v in 0u32..=255 {
        for (x, y) in [(0, 0), (1, 0), (0, 1), (17, 42), (1000, 3)] {
            let gray = 0xFF000000 | (v << 16) | (v << 8) | v;
            assert_eq!(apply_eink_appearance(gray, x, y), float_look(gray, x, y));
            let odd = 0xFF000000 | (v << 16) | ((255 - v) << 8) | (v / 2);
            assert_eq!(apply_eink_appearance(odd, x, y), float_look(odd, x, y));
        }
    }
}

#[test]
fn noise_range_and_known_value() {
    for x in 0..50 {
        for y in 0..50 {
            let n = pseudo_random_noise(x, y);
            assert!((-7..=8).contains(&n));
        }
    }
    // (0, 0) hashes to 0, so the noise is -7.
    assert_eq!(pseudo_random_noise(0, 0), -7);
}

#[test]
fn darken_saturates() {
    assert_eq!(darken(0xFF102030, 0x18), 0xFF000818);
    assert_eq!(darken(0x00FFFFFF, 0), 0xFFFFFFFF);
}

#[test]
fn rotations_move_pixels() {
    // 3 × 2 source: rows [1 2 3] [4 5 6].
    let src = [1u32, 2, 3, 4, 5, 6];
    assert_eq!(rotate_90_cw(&src, 3, 2), vec![4, 1, 5, 2, 6, 3]);
    assert_eq!(rotate_180(&src, 3, 2), vec![6, 5, 4, 3, 2, 1]);
    assert_eq!(rotate_270_cw(&src, 3, 2), vec![3, 6, 2, 5, 1, 4]);
    // Four quarter turns give the source back.
    let a = rotate_90_cw(&src, 3, 2);
    let b = rotate_90_cw(&a, 2, 3);
    let c = rotate_90_cw(&b, 3, 2);
    let d = rotate_90_cw(&c, 2, 3);
    assert_eq!(d, src.to_vec());
}

#[test]
fn scale_draws_a_grid() {
    let src = [0xFF808080u32; 4];
    let out = scale_with_grid(&src, 2, 2, 2);
    assert_eq!(out.len(), 16);
    // Source pixel (1, 1) ends at (3, 3): both edges, darkened by 12.
    assert_eq!(out[3 * 4 + 3], 0xFF747474);
    // (3, 0): right edge of an odd column, darkened by 8.
    assert_eq!(out[3], 0xFF787878);
    // (0, 0): inside, unchanged.
    assert_eq!(out[0], 0xFF808080);
    assert_eq!(scale_with_grid(&src, 2, 2, 1), src.to_vec());
}

#[test]
fn fit_pads_and_samples() {
    let src = [1u32, 2, 3, 4];
    // Wider window: rows copied, black on the right.
    assert_eq!(fit_to_window(&src, 2, 2, 3, 2), vec![1, 2, 0xFF000000, 3, 4, 0xFF000000]);
    // Smaller window: nearest neighbour.
    assert_eq!(fit_to_window(&src, 2, 2, 1, 1), vec![1]);
}

#[test]
fn compose_frame_runs_the_pipeline() {
    let rgba: Vec<u32> = (0..6).map(|i| 0xFF000000 | (i * 40) * 0x010101).collect();
    let look = eink_pass(&rgba, 3, 2);
    let frame = compose_frame(&rgba, 3, 2, Rotation::Degrees90, 1, 2, 3);
    assert_eq!(frame, rotate_90_cw(&look, 3, 2));
    let frame = compose_frame(&rgba, 3, 2, Rotation::Degrees0, 1, 3, 2);
    assert_eq!(frame, look);
}

#[test]
fn window_size_follows_rotation_and_scale() {
    assert_eq!(window_size(Rotation::Degrees0, 800, 600, 2), (1600, 1200));
    assert_eq!(window_size(Rotation::Degrees90, 800, 600, 2), (1200, 1600));
    assert_eq!(window_size(Rotation::Degrees270, 800, 600, 1), (600, 800));
    assert_eq!(window_size(Rotation::Degrees180, 0, 10, 3), (1, 30));
    assert_eq!(display_extent(Rotation::Degrees180, 0, 10, 3), (0, 30));
    assert_eq!(display_extent(Rotation::Degrees90, 250, 122, 2), (244, 500));
}

#[test]
fn window_keeps_its_size_and_refuses_fullscreen() {
    assert_eq!(window_action(WindowEvent::CloseRequested, 100, 50), WindowAction::Exit);
    assert_eq!(
        window_action(WindowEvent::ScaleFactorChanged, 100, 50),
        WindowAction::RequestSize { width: 100, height: 50 }
    );
    assert_eq!(
        window_action(WindowEvent::Resized { width: 100, height: 50, fullscreen: true }, 100, 50),
        WindowAction::LeaveFullscreen
    );
    assert_eq!(
        window_action(WindowEvent::Resized { width: 101, height: 50, fullscreen: false }, 100, 50),
        WindowAction::RequestSize { width: 100, height: 50 }
    );
    assert_eq!(
        window_action(WindowEvent::Resized { width: 80, height: 40, fullscreen: false }, 100, 50),
        WindowAction::ResizeSurface { width: 80, height: 40 }
    );
    assert_eq!(
        window_action(WindowEvent::Resized { width: 0, height: 40, fullscreen: false }, 100, 50),
        WindowAction::Ignore
    );
    assert_eq!(window_action(WindowEvent::Other, 100, 50), WindowAction::Ignore);
}

#[test]
fn window_turns_keys_into_input() {
    assert_eq!(window_action(WindowEvent::Key { code: Key::F11, pressed: true }, 10, 10), WindowAction::LeaveFullscreen);
    assert_eq!(window_action(WindowEvent::Key { code: Key::F11, pressed: false }, 10, 10), WindowAction::LeaveFullscreen);
    assert_eq!(
        window_action(WindowEvent::Key { code: Key::KeyM, pressed: true }, 10, 10),
        WindowAction::Input(InputEvent::ButtonPress(Button::Menu))
    );
    assert_eq!(
        window_action(WindowEvent::Key { code: Key::Enter, pressed: false }, 10, 10),
        WindowAction::Input(InputEvent::ButtonRelease(Button::Select))
    );
    assert_eq!(window_action(WindowEvent::Key { code: Key::Other, pressed: true }, 10, 10), WindowAction::Ignore);
}
