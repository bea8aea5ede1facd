use soul_listener::eink::debug::overlay::{fill_rect_blended, overlay_fits, OverlayRenderer};
use soul_listener::eink::debug::state::{ComponentInfo, Spacing};

#[test]
fn test_overlay_renderer_creation() {
    let renderer = OverlayRenderer::new();
    let _ = renderer;
}

#[test]
fn test_overlay_renderer_default() {
    let renderer = OverlayRenderer::new();
    let _ = renderer;
}

#[test]
fn test_border_color_selection() {
    let renderer = OverlayRenderer::new();
    assert_eq!(renderer.get_border_color("Container"), 0xFF0080FF);
    assert_eq!(renderer.get_border_color("Button"), 0xFF00FF80);
    assert_eq!(renderer.get_border_color("Label"), 0xFFFF4040);
    assert_eq!(renderer.get_border_color("ProgressBar"), 0xFFC040FF);
    assert_eq!(renderer.get_border_color("Unknown"), 0xFFFFCC00);
    assert_eq!(renderer.get_border_color("AnyOtherType"), 0xFFFFCC00);
}

#[test]
fn test_render_borders() {
    let renderer = OverlayRenderer::new();
    let mut buffer = vec![0u32; 100 * 100];
    let components = vec![ComponentInfo {
        component_type: "Button".to_string(),
        position: (10, 10),
        size: (50, 30),
        test_id: None,
        ..Default::default()
    }];
    renderer.render_borders(&mut buffer, 100, 100, &components);
    assert_eq!(buffer[10 * 100 + 10], 0xFF00FF80);
    assert_eq!(buffer[10 * 100 + 59], 0xFF00FF80);
    assert_eq!(buffer[39 * 100 + 10], 0xFF00FF80);
    assert_eq!(buffer[39 * 100 + 59], 0xFF00FF80);
    assert_eq!(buffer[20 * 100 + 30], 0);
}

#[test]
fn test_render_multiple_components() {
    let renderer = OverlayRenderer::new();
    let mut buffer = vec![0u32; 200 * 200];
    let components = vec![
        ComponentInfo {
            component_type: "Container".to_string(),
            position: (10, 10),
            size: (100, 150),
            test_id: None,
            ..Default::default()
        },
        ComponentInfo {
            component_type: "Label".to_string(),
            position: (20, 20),
            size: (80, 20),
            test_id: Some("title".to_string()),
            ..Default::default()
        },
        ComponentInfo {
            component_type: "ProgressBar".to_string(),
            position: (20, 50),
            size: (80, 10),
            test_id: None,
            ..Default::default()
        },
    ];
    renderer.render_borders(&mut buffer, 200, 200, &components);
    assert_eq!(buffer[10 * 200 + 10], 0xFF0080FF);
    assert_eq!(buffer[20 * 200 + 20], 0xFFFF4040);
    assert_eq!(buffer[50 * 200 + 20], 0xFFC040FF);
}

#[test]
fn test_bounds_checking_negative_coordinates() {
    let renderer = OverlayRenderer::new();
    let mut buffer = vec![0u32; 100 * 100];
    let components = vec![ComponentInfo {
        component_type: "Button".to_string(),
        position: (-10, -10),
        size: (30, 30),
        test_id: None,
        ..Default::default()
    }];
    renderer.render_borders(&mut buffer, 100, 100, &components);
    assert_eq!(buffer[19 * 100 + 19], 0xFF00FF80);
}

#[test]
fn test_bounds_checking_out_of_bounds() {
    let renderer = OverlayRenderer::new();
    let mut buffer = vec![0u32; 100 * 100];
    let components = vec![ComponentInfo {
        component_type: "Button".to_string(),
        position: (90, 90),
        size: (50, 50),
        test_id: None,
        ..Default::default()
    }];
    renderer.render_borders(&mut buffer, 100, 100, &components);
    assert_eq!(buffer[90 * 100 + 90], 0xFF00FF80);
}

#[test]
fn test_render_empty_components() {
    let renderer = OverlayRenderer::new();
    let mut buffer = vec![0u32; 100 * 100];
    renderer.render_borders(&mut buffer, 100, 100, &[]);
    assert!(buffer.iter().all(|&pixel| pixel == 0));
}

#[test]
fn test_small_component() {
    let renderer = OverlayRenderer::new();
    let mut buffer = vec![0u32; 100 * 100];
    let components = vec![ComponentInfo {
        component_type: "Button".to_string(),
        position: (50, 50),
        size: (1, 1),
        test_id: None,
        ..Default::default()
    }];
    renderer.render_borders(&mut buffer, 100, 100, &components);
    assert_eq!(buffer[50 * 100 + 50], 0xFF00FF80);
}

#[test]
fn test_two_pixel_component() {
    let renderer = OverlayRenderer::new();
    let mut buffer = vec![0u32; 100 * 100];
    let components = vec![ComponentInfo {
        component_type: "Label".to_string(),
        position: (50, 50),
        size: (2, 2),
        test_id: None,
        ..Default::default()
    }];
    renderer.render_borders(&mut buffer, 100, 100, &components);
    assert_eq!(buffer[50 * 100 + 50], 0xFFFF4040);
    assert_eq!(buffer[50 * 100 + 51], 0xFFFF4040);
    assert_eq!(buffer[51 * 100 + 50], 0xFFFF4040);
    assert_eq!(buffer[51 * 100 + 51], 0xFFFF4040);
}

fn comp(kind: &str, id: Option<&str>, x: i32, y: i32, w: u32, h: u32) -> ComponentInfo {
    ComponentInfo {
        component_type: kind.to_string(),
        position: (x, y),
        size: (w, h),
        test_id: id.map(|s| s.to_string()),
        ..Default::default()
    }
}

#[test]
fn blended_fill_mixes_channels_and_clips() {
    let mut buffer = vec![0xFF000000u32; 10 * 10];
    buffer[0] = 0xFFFFFFFF;
    fill_rect_blended(&mut buffer, 10, 10, -1, -1, 3, 3, 0x00FF0000, 128);
    // (255*127 + 255*128)/255 = 255 on red, (255*127)/255 = 127 elsewhere.
    assert_eq!(buffer[0], 0xFFFF7F7F);
    // Black under half-opaque red: 255*128/255 = 128.
    assert_eq!(buffer[1], 0xFF800000);
    assert_eq!(buffer[10 + 1], 0xFF800000);
    assert_eq!(buffer[2], 0xFF000000);
    assert_eq!(buffer[20], 0xFF000000);
    // Columns past the width do not wrap onto the next row.
    let mut buffer = vec![0u32; 4 * 2];
    fill_rect_blended(&mut buffer, 4, 2, 3, 0, 3, 1, 0x000000FF, 255);
    assert_eq!(buffer, vec![0, 0, 0, 0xFF0000FF, 0, 0, 0, 0]);
}

#[test]
fn border_past_the_right_edge_wraps_to_next_row() {
    let renderer = OverlayRenderer::new();
    let mut buffer = vec![0u32; 4 * 4];
    renderer.render_borders(&mut buffer, 4, 4, &[comp("Button", None, 3, 0, 2, 1)]);
    // The top row's second pixel (x = 4) lands on the next row, x = 0.
    assert_eq!(buffer[3], 0xFF00FF80);
    assert_eq!(buffer[4], 0xFF00FF80);
}

#[test]
fn hovered_and_selected_highlights() {
    let renderer = OverlayRenderer::new();
    let c = comp("Button", None, 2, 2, 12, 12);
    let mut buffer = vec![0xFF000000u32; 20 * 20];
    renderer.render_hovered_component(&mut buffer, 20, 20, &c);
    assert_eq!(buffer[2 * 20 + 2], 0xFFFF8C00);
    // Interior: amber at 18/255 over black.
    assert_eq!(buffer[5 * 20 + 5], 0xFF120900);
    assert_eq!(buffer[0], 0xFF000000);

    let mut buffer = vec![0xFF000000u32; 20 * 20];
    renderer.render_selected_component(&mut buffer, 20, 20, &c);
    assert_eq!(buffer[2 * 20 + 2], 0xFFFF6200);
    assert_eq!(buffer[3 * 20 + 3], 0xFFFF6200);
    assert_eq!(buffer[4 * 20 + 4], 0xFFFFAA00);
    // Orange at 45/255 over black inside the rings.
    assert_eq!(buffer[7 * 20 + 7], 0xFF2D1100);
}

#[test]
fn box_model_zones_stack() {
    let renderer = OverlayRenderer::new();
    let mut c = comp("Container", None, 4, 4, 10, 10);
    c.margin = Spacing::all(2);
    c.border = Spacing::all(1);
    c.padding = Spacing::all(2);
    let mut buffer = vec![0xFF000000u32; 20 * 20];
    renderer.render_hovered_box_model(&mut buffer, 20, 20, &c);
    // Margin only: orange 0xFFA040 at 100/255 over black.
    assert_eq!(buffer[2 * 20 + 2], 0xFF643E19);
    // Outside the margin box nothing changes.
    assert_eq!(buffer[1 * 20 + 1], 0xFF000000);
    assert_eq!(buffer[19 * 20 + 19], 0xFF000000);
}

#[test]
fn layout_overlay_fills_borders_and_labels() {
    let renderer = OverlayRenderer::new();
    let comps = vec![
        comp("Container", Some("root"), 0, 0, 40, 20),
        comp("Label", Some("title-pad"), 100, 100, 10, 10),
    ];
    let mut buffer = vec![0xFF000000u32; 60 * 30];
    let labels = renderer.render_layout(&mut buffer, 60, 30, &comps);
    assert_eq!(labels.len(), 1);
    assert_eq!(labels[0].x, 3);
    assert_eq!(labels[0].y, 11);
    assert_eq!(labels[0].text, "root");
    assert_eq!(labels[0].color, 0xFF4488FF);
    // Double border in the first palette colour.
    assert_eq!(buffer[0], 0xFF4488FF);
    assert_eq!(buffer[60 + 1], 0xFF4488FF);
    // The label pill: 4 bytes * 6 + 4 = 28 wide from x = 2, 12 high from y = 1.
    assert_eq!(buffer[5 * 60 + 2], 0xFF0A0A14);
    assert_eq!(buffer[5 * 60 + 29], 0xFF0A0A14);
    // Past the pill: the fill, blue at 64/255 over black.
    assert_eq!(buffer[5 * 60 + 30], 0xFF112240);
}

#[test]
fn overlay_bounds_check() {
    let c = comp("Button", None, 10, 10, 20, 20);
    assert!(overlay_fits(800, 600, &c));
    assert!(!overlay_fits(20000, 600, &c));
    assert!(!overlay_fits(800, 600, &comp("Button", None, -40000, 0, 1, 1)));
}

use soul_listener::eink::debug::overlay::apply_debug_overlays;
use soul_listener::eink::debug::state::DebugState;

#[test]
fn overlays_fall_back_to_auto_zones() {
    let mut state = DebugState::new();
    state.borders_enabled = true;
    let mut buffer = vec![0xFF000000u32; 70 * 70];
    let labels = apply_debug_overlays(&mut buffer, 70, 70, &state);
    // display-root (cut to (70 - 8) / 6 = 10 characters), header (10 high:
    // no label), content, footer (10 high: no label).
    let texts: Vec<&str> = labels.iter().map(|l| l.text.as_str()).collect();
    assert_eq!(texts, vec!["display-ro", "content"]);
    assert_eq!(labels[1].y, 10 + 11);
    // The header's border, drawn after the root's.
    assert_eq!(buffer[0], 0xFF44FF88);
}

#[test]
fn hovered_overlay_skipped_when_selected() {
    let mut state = DebugState::new();
    state.inspector_mode = true;
    let c = comp("Button", None, 2, 2, 12, 12);
    state.hovered_component = Some(c.clone());
    state.selected_component = Some(c.clone());
    let mut both = vec![0xFF000000u32; 20 * 20];
    let labels = apply_debug_overlays(&mut both, 20, 20, &state);
    assert!(labels.is_empty());
    let renderer = OverlayRenderer::new();
    let mut selected_only = vec![0xFF000000u32; 20 * 20];
    renderer.render_selected_component(&mut selected_only, 20, 20, &c);
    assert_eq!(both, selected_only);
    // Without the selection the hovered highlight shows.
    state.selected_component = None;
    let mut hovered = vec![0xFF000000u32; 20 * 20];
    apply_debug_overlays(&mut hovered, 20, 20, &state);
    assert_eq!(hovered[2 * 20 + 2], 0xFFFF8C00);
}
