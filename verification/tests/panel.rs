use soul_listener::eink::debug::panel::{DebugPanel, PANEL_BG_COLOR};
use soul_listener::eink::debug::state::DebugState;

#[test]
fn test_panel_creation() {
    let panel = DebugPanel::new();
    assert_eq!(panel.width(), 200);
}

#[test]
fn test_panel_default() {
    let panel = DebugPanel::default();
    assert_eq!(panel.width(), 200);
}

#[test]
fn test_panel_not_visible_when_disabled() {
    let panel = DebugPanel::new();
    let mut buffer = vec![0xFFFFFFFFu32; 800 * 600];
    let mut state = DebugState::new();
    state.panel_visible = false;
    panel.render(&mut buffer, 800, 600, &state);
    assert_eq!(buffer[0], 0xFFFFFFFF);
    assert_eq!(buffer[buffer.len() - 1], 0xFFFFFFFF);
}

#[test]
fn test_panel_renders_background_when_visible() {
    let panel = DebugPanel::new();
    let mut buffer = vec![0xFFFFFFFFu32; 800 * 600];
    let mut state = DebugState::new();
    state.panel_visible = true;
    panel.render(&mut buffer, 800, 600, &state);
    let panel_pixel_idx = (0 * 800 + 700) as usize;
    assert_eq!(buffer[panel_pixel_idx], PANEL_BG_COLOR);
    let outside_pixel_idx = (0 * 800 + 400) as usize;
    assert_eq!(buffer[outside_pixel_idx], 0xFFFFFFFF);
}

#[test]
fn test_panel_background_fills_entire_height() {
    let panel = DebugPanel::new();
    let mut buffer = vec![0xFFFFFFFFu32; 800 * 600];
    let mut state = DebugState::new();
    state.panel_visible = true;
    panel.render(&mut buffer, 800, 600, &state);
    assert_eq!(buffer[(0 * 800 + 700) as usize], PANEL_BG_COLOR);
    assert_eq!(buffer[(300 * 800 + 700) as usize], PANEL_BG_COLOR);
    assert_eq!(buffer[(599 * 800 + 700) as usize], PANEL_BG_COLOR);
}

#[test]
fn test_panel_background_fills_entire_width() {
    let panel = DebugPanel::new();
    let mut buffer = vec![0xFFFFFFFFu32; 800 * 600];
    let mut state = DebugState::new();
    state.panel_visible = true;
    panel.render(&mut buffer, 800, 600, &state);
    assert_eq!(buffer[(100 * 800 + 600) as usize], PANEL_BG_COLOR);
    assert_eq!(buffer[(100 * 800 + 799) as usize], PANEL_BG_COLOR);
}

#[test]
fn test_panel_boundary_is_correct() {
    let panel = DebugPanel::new();
    let mut buffer = vec![0xFFFFFFFFu32; 800 * 600];
    let mut state = DebugState::new();
    state.panel_visible = true;
    panel.render(&mut buffer, 800, 600, &state);
    assert_eq!(buffer[(100 * 800 + 599) as usize], 0xFFFFFFFF);
    assert_eq!(buffer[(100 * 800 + 600) as usize], PANEL_BG_COLOR);
}

#[test]
fn test_panel_with_different_screen_sizes() {
    let panel = DebugPanel::new();
    let mut buffer = vec![0xFFFFFFFFu32; 1024 * 768];
    let mut state = DebugState::new();
    state.panel_visible = true;
    panel.render(&mut buffer, 1024, 768, &state);
    assert_eq!(buffer[(0 * 1024 + 900) as usize], PANEL_BG_COLOR);
    assert_eq!(buffer[(0 * 1024 + 700) as usize], 0xFFFFFFFF);
}

#[test]
fn test_panel_with_small_screen() {
    let panel = DebugPanel::new();
    let mut buffer = vec![0xFFFFFFFFu32; 400 * 300];
    let mut state = DebugState::new();
    state.panel_visible = true;
    panel.render(&mut buffer, 400, 300, &state);
    assert_eq!(buffer[(0 * 400 + 300) as usize], PANEL_BG_COLOR);
    assert_eq!(buffer[(0 * 400 + 100) as usize], 0xFFFFFFFF);
    assert_eq!(buffer[(0 * 400 + 250) as usize], PANEL_BG_COLOR);
}

#[test]
fn panel_strip_is_clipped_to_the_buffer() {
    let panel = DebugPanel::new();
    // One row short of the stated height: the last row is left out.
    let mut buffer = vec![0u32; 250 * 2];
    let mut state = DebugState::new();
    state.panel_visible = true;
    panel.render(&mut buffer, 250, 3, &state);
    assert_eq!(buffer[49], 0);
    assert_eq!(buffer[50], PANEL_BG_COLOR);
    assert_eq!(buffer[250 + 249], PANEL_BG_COLOR);
}

use soul_listener::eink::debug::panel::{
    render_into, PanelInfo, PanelLayout, PowerReadout, StatsReadout, COL_CYAN, COL_DIM, COL_ERR, COL_NORMAL,
    COL_WHITE, PANEL_BG, PANEL_BORDER, PANEL_SEP,
};
use soul_listener::eink::debug::state::{ComponentInfo, DebugTab};
use soul_listener::eink::text::{fmt_i64, fmt_u64, pad_to, repeat_str, take_chars};

fn make_info(state: &DebugState) -> PanelInfo<'_> {
    PanelInfo {
        state,
        disp_w: 480,
        disp_h: 800,
        rotation_deg: 90,
        scale: 1,
        temperature: 25,
        power_graph_enabled: false,
        power: None,
        power_stats: None,
    }
}

fn texts(layout: &PanelLayout) -> Vec<(i32, i32, String, u32)> {
    layout.texts.iter().map(|t| (t.x, t.y, t.text.clone(), t.color)).collect()
}

#[test]
fn test_panel_canvas_fills_background() {
    let panel_w = 200u32;
    let height = 400u32;
    let mut buf = vec![0u32; (panel_w * height) as usize];
    let state = DebugState::new();
    render_into(&mut buf, panel_w, height, &make_info(&state));
    let idx = (1 * panel_w + 5) as usize;
    assert_eq!(buf[idx], 0xFF1A1A2E, "Background pixel should be dark navy");
}

#[test]
fn test_panel_canvas_left_border() {
    let panel_w = 200u32;
    let height = 400u32;
    let mut buf = vec![0u32; (panel_w * height) as usize];
    let state = DebugState::new();
    render_into(&mut buf, panel_w, height, &make_info(&state));
    for y in 0..height {
        let idx = (y * panel_w) as usize;
        assert_eq!(buf[idx], 0xFF4A4A6A, "Left border pixel at y={y} wrong");
    }
}

#[test]
fn test_panel_canvas_separator_line() {
    let panel_w = 200u32;
    let height = 400u32;
    let mut buf = vec![0u32; (panel_w * height) as usize];
    let state = DebugState::new();
    render_into(&mut buf, panel_w, height, &make_info(&state));
    for y in 0..height {
        assert_eq!(buf[(y * panel_w) as usize], 0xFF4A4A6A, "Left border overwritten at y={y}");
    }
}

#[test]
fn test_render_into_does_not_panic_with_full_state() {
    let panel_w = 280u32;
    let height = 800u32;
    let mut buf = vec![0u32; (panel_w * height) as usize];
    let mut state = DebugState::new();
    state.panel_visible = true;
    state.borders_enabled = true;
    state.inspector_mode = false;
    state.record_full_refresh();
    state.record_full_refresh();
    state.record_partial_refresh();
    state.register_component(ComponentInfo {
        component_type: "Button".to_string(),
        position: (0, 0),
        size: (100, 40),
        test_id: Some("play-button".to_string()),
        ..Default::default()
    });
    state.register_component(ComponentInfo {
        component_type: "Container".to_string(),
        position: (0, 0),
        size: (480, 800),
        test_id: Some("display-root".to_string()),
        ..Default::default()
    });
    let info = PanelInfo {
        state: &state,
        disp_w: 480,
        disp_h: 800,
        rotation_deg: 90,
        scale: 1,
        temperature: -5,
        power_graph_enabled: true,
        power: Some(PowerReadout {
            now: "Now:   12.0 mW".to_string(),
            now_color: COL_NORMAL,
            avg: "Avg:   73.0 mW".to_string(),
            axis: Some(("210mW".to_string(), 4)),
        }),
        power_stats: None,
    };
    render_into(&mut buf, panel_w, height, &info);
    for y in 0..height {
        assert_eq!(buf[(y * panel_w) as usize], 0xFF4A4A6A, "Left border should be intact at y={y}");
    }
}

#[test]
fn test_render_into_temperature_warning() {
    let panel_w = 280u32;
    let height = 800u32;
    let mut buf = vec![0u32; (panel_w * height) as usize];
    let mut state = DebugState::new();
    state.panel_visible = true;
    let mut info = make_info(&state);
    info.temperature = -10;
    render_into(&mut buf, panel_w, height, &info);
    info.temperature = 45;
    render_into(&mut buf, panel_w, height, &info);
}

#[test]
fn test_render_into_many_components() {
    let panel_w = 280u32;
    let height = 800u32;
    let mut buf = vec![0u32; (panel_w * height) as usize];
    let mut state = DebugState::new();
    state.panel_visible = true;
    for i in 0..10 {
        state.register_component(ComponentInfo {
            component_type: "Button".to_string(),
            position: (0, i * 50),
            size: (100, 40),
            test_id: Some(format!("btn-{i}")),
            ..Default::default()
        });
    }
    render_into(&mut buf, panel_w, height, &make_info(&state));
    for y in 0..height {
        assert_eq!(buf[(y * panel_w) as usize], 0xFF4A4A6A);
    }
}

#[test]
fn test_render_into_portrait_rotation() {
    let panel_w = 280u32;
    let height = 800u32;
    let mut buf = vec![0u32; (panel_w * height) as usize];
    let state = DebugState::new();
    for &rot in &[0u32, 90, 180, 270] {
        let info = PanelInfo {
            state: &state,
            disp_w: 480,
            disp_h: 800,
            rotation_deg: rot,
            scale: 1,
            temperature: 20,
            power_graph_enabled: false,
            power: None,
            power_stats: None,
        };
        render_into(&mut buf, panel_w, height, &info);
    }
}

#[test]
fn text_helpers() {
    assert_eq!(fmt_u64(0), "0");
    assert_eq!(fmt_u64(1234567890), "1234567890");
    assert_eq!(fmt_u64(u64::MAX), "18446744073709551615");
    assert_eq!(fmt_i64(-7), "-7");
    assert_eq!(fmt_i64(i64::MIN), "-9223372036854775808");
    assert_eq!(pad_to(fmt_i64(5), 3), "  5");
    assert_eq!(pad_to(fmt_i64(-120), 3), "-120");
    assert_eq!(take_chars("héllo", 2), "hé");
    assert_eq!(take_chars("ab", 5), "ab");
    assert_eq!(repeat_str("  ", 3), "      ");
}

#[test]
fn scene_tab_empty_shows_the_hints() {
    let state = DebugState::new();
    let mut buf = vec![0u32; 200 * 300];
    let layout = render_into(&mut buf, 200, 300, &make_info(&state));
    let t = texts(&layout);
    assert_eq!(t[0], (5, 10, "E-INK DEBUG".to_string(), COL_WHITE));
    // Indicators right-aligned at 200 - 5 - 24 = 171, all off.
    assert_eq!(t[1], (171, 10, "B".to_string(), COL_DIM));
    // Tab cells are (200 - 1) / 3 = 66 wide; SCENE centred: 1 + (66 - 30) / 2 = 19.
    assert_eq!(t[4], (19, 27, "SCENE".to_string(), COL_WHITE));
    assert_eq!(t[5], (67 + (66 - 24) / 2, 27, "DISP".to_string(), COL_DIM));
    assert_eq!(t[7], (5, 44, "No nodes yet.".to_string(), COL_DIM));
    assert_eq!(t[12], (5, 117, "Ctrl+3: hover-inspect".to_string(), COL_DIM));
    assert_eq!(layout.seps, vec![23, 40, 87]);
    assert_eq!(layout.highlights.len(), 1);
    assert_eq!(layout.highlights[0].x, 1);
    assert_eq!(layout.highlights[0].w, 66);
    assert!(layout.graph_area.is_none());
    // Separator row: border then the separator colour.
    assert_eq!(buf[87 * 200], PANEL_BORDER);
    assert_eq!(buf[87 * 200 + 1], PANEL_SEP);
    // The active tab's background.
    assert_eq!(buf[18 * 200 + 1], 0xFF1E3D62);
    assert_eq!(buf[17 * 200 + 1], PANEL_BG);
}

#[test]
fn scene_tab_lists_rows_and_details() {
    let mut state = DebugState::new();
    state.register_component(ComponentInfo {
        component_type: "Container".to_string(),
        position: (0, 0),
        size: (480, 800),
        test_id: Some("root".to_string()),
        ..Default::default()
    });
    state.register_component(ComponentInfo {
        component_type: "Button".to_string(),
        position: (10, 20),
        size: (100, 40),
        test_id: None,
        ..Default::default()
    });
    state.scene_selected = Some(0);
    let mut buf = vec![0u32; 280 * 600];
    let layout = render_into(&mut buf, 280, 600, &make_info(&state));
    let t = texts(&layout);
    assert_eq!(t[7], (5, 44, "[ inspect ]  click to on".to_string(), COL_DIM));
    // "1/2": one visible row (the root is collapsed), two components.
    assert_eq!(t[8], (280 - 3 * 6 - 5, 44, "1/2".to_string(), COL_DIM));
    assert_eq!(t[9], (5, 57, "+ CTN root".to_string(), COL_WHITE));
    // Separator under the tree, details four pixels below it.
    assert_eq!(layout.seps, vec![23, 40, 70]);
    assert_eq!(t[10], (5, 74, "[CTN] root".to_string(), COL_WHITE));
    assert_eq!(t[11], (5, 87, "480x800  @0,0".to_string(), COL_NORMAL));
    assert_eq!(t[12], (5, 100, "^ (root)".to_string(), COL_DIM));
    assert_eq!(t[13], (5, 113, "v 1 children  384000px\u{00B2}".to_string(), COL_DIM));
    assert_eq!(t[14], (5, 126, "Arrows:nav  Enter:fold".to_string(), COL_DIM));
    // The selected row's highlight block.
    assert_eq!(layout.highlights[1].y, 48);
    assert_eq!(layout.highlights[1].color, 0xFF1E3D62);
}

#[test]
fn display_tab_lines() {
    let mut state = DebugState::new();
    state.active_tab = DebugTab::Display;
    state.record_full_refresh();
    let mut info = make_info(&state);
    info.scale = 2;
    info.temperature = -3;
    let mut buf = vec![0u32; 200 * 400];
    let layout = render_into(&mut buf, 200, 400, &info);
    let t = texts(&layout);
    assert_eq!(t[8], (5, 57, "480 x 800".to_string(), COL_NORMAL));
    assert_eq!(t[9], (5, 70, "Rot: 90deg  (portrait)".to_string(), COL_NORMAL));
    assert_eq!(t[10], (5, 83, "Scale: 2x  (1600x960)".to_string(), COL_NORMAL));
    assert_eq!(t[11], (5, 96, "Temp:  -3C  ".to_string(), COL_NORMAL));
    assert_eq!(t[12], (71, 96, "VERY COLD".to_string(), COL_ERR));
    assert_eq!(t[14], (5, 127, "Full:    1".to_string(), COL_NORMAL));
    assert_eq!(t[24], (5, 262, "F11     Block fullscreen".to_string(), COL_DIM));
    assert_eq!(layout.seps, vec![23, 40, 109, 153]);
}

#[test]
fn power_tab_lines_and_chart() {
    let mut state = DebugState::new();
    state.active_tab = DebugTab::Power;
    let mut info = make_info(&state);
    info.power = Some(PowerReadout {
        now: "Now:   12.0 mW".to_string(),
        now_color: COL_NORMAL,
        avg: "Avg:   10.5 mW".to_string(),
        axis: Some(("210mW".to_string(), 42)),
    });
    info.power_stats = Some(StatsReadout {
        peak: "Peak: 33 mW".to_string(),
        shares: "Idle:90% Act:10% Slp:0%".to_string(),
        battery: "~18.4hr @ 1000mAh".to_string(),
    });
    let mut buf = vec![0u32; 200 * 400];
    let layout = render_into(&mut buf, 200, 400, &info);
    let t = texts(&layout);
    assert_eq!(t[7], (5, 44, "POWER".to_string(), COL_DIM));
    assert_eq!(t[12], (5, 109, "~18.4hr @ 1000mAh".to_string(), COL_CYAN));
    // Separator at 122, title at 127, chart from 138, 120 high, legend at 262.
    assert_eq!(layout.seps, vec![23, 40, 122]);
    assert_eq!(t[13], (5, 127, "POWER HISTORY".to_string(), COL_DIM));
    assert_eq!(layout.graph_area, Some((1, 138, 199, 120)));
    assert_eq!(t[14], (5, 262, "Idle".to_string(), 0x205888));
    assert_eq!(t[17], (5, 275, "210mW".to_string(), COL_DIM));
    assert_eq!(t[18], (200 - 7 * 6 - 5, 275, "42 smpl".to_string(), COL_DIM));
    // Chart frame and grid.
    assert_eq!(buf[138 * 200 + 1], 0xFF3A3A5A);
    assert_eq!(buf[140 * 200 + 5], 0xFF0E0E1E);
    // Grid at 25%: 139 + 118 - 29 = 228.
    assert_eq!(buf[228 * 200 + 5], 0xFF1C1C32);
}

#[test]
fn narrow_panels_render() {
    for panel_w in [1u32, 2, 10, 29] {
        let height = 300u32;
        for tab in [DebugTab::Scene, DebugTab::Display, DebugTab::Power] {
            let mut state = DebugState::new();
            state.active_tab = tab;
            let mut buf = vec![0u32; (panel_w * height) as usize];
            render_into(&mut buf, panel_w, height, &make_info(&state));
            if panel_w >= 2 {
                for y in 0..height {
                    assert_eq!(buf[(y * panel_w) as usize], PANEL_BORDER);
                }
            }
        }
    }
}
