use soul_listener::eink::debug::history::{History, MAX_SAMPLES};
use soul_listener::eink::debug::inspector::{
    blend_pixel, paint_tooltip_border, tooltip_x, Inspector, InspectorTab, TooltipText, TOOLTIP_BORDER,
};
use soul_listener::eink::debug::manager::{auto_zones, DebugEvent, DebugKey, DebugManager, EventResult};
use soul_listener::eink::debug::panel::compute_scene_hits;
use soul_listener::eink::debug::state::{ComponentInfo, DebugState, DebugTab, RefreshType, SceneRow, Spacing};

fn comp(kind: &str, x: i32, y: i32, w: u32, h: u32) -> ComponentInfo {
    ComponentInfo {
        component_type: kind.to_string(),
        position: (x, y),
        size: (w, h),
        test_id: None,
        margin: Spacing::default(),
        padding: Spacing::default(),
        border: Spacing::default(),
        attributes: Vec::new(),
    }
}

fn row(comp_idx: usize, depth: usize, has_children: bool, is_collapsed: bool) -> SceneRow {
    SceneRow { comp_idx, depth, has_children, is_collapsed, is_label_group: false, label_group_count: 0 }
}

#[test]
fn test_event_result_enum() {
    assert_eq!(EventResult::Consumed, EventResult::Consumed);
    assert_eq!(EventResult::NotHandled, EventResult::NotHandled);
    assert_ne!(EventResult::Consumed, EventResult::NotHandled);
}

#[test]
fn test_debug_manager_creation() {
    let manager = DebugManager::new();
    assert!(!manager.state().panel_visible);
    assert!(!manager.state().borders_enabled);
}

#[test]
fn test_toggle_panel() {
    let mut manager = DebugManager::new();
    manager.state_mut().toggle_panel();
    assert!(manager.state().panel_visible);
    manager.state_mut().toggle_panel();
    assert!(!manager.state().panel_visible);
}

#[test]
fn manager_test_default() {
    let manager = DebugManager::default();
    assert!(!manager.state().panel_visible);
}

#[test]
fn test_handle_event_non_keyboard() {
    let mut manager = DebugManager::new();
    let result = manager.handle_event(DebugEvent::Other);
    assert_eq!(result, EventResult::NotHandled);
}

#[test]
fn test_state_toggles_via_manager() {
    let mut manager = DebugManager::new();
    assert!(!manager.state().panel_visible);
    manager.state_mut().toggle_panel();
    assert!(manager.state().panel_visible);
    assert!(!manager.state().borders_enabled);
    manager.state_mut().toggle_borders();
    assert!(manager.state().borders_enabled);
    assert!(!manager.state().inspector_mode);
    manager.state_mut().toggle_inspector();
    assert!(manager.state().inspector_mode);
}

#[test]
fn test_debug_state_creation() {
    let state = DebugState::new();
    assert!(!state.panel_visible);
    assert!(!state.borders_enabled);
    assert!(!state.inspector_mode);
    assert!(state.hovered_component.is_none());
    assert!(state.selected_component.is_none());
}

#[test]
fn test_debug_state_toggles() {
    let mut state = DebugState::new();
    assert!(!state.panel_visible);
    state.toggle_panel();
    assert!(state.panel_visible);
    state.toggle_panel();
    assert!(!state.panel_visible);
    assert!(!state.borders_enabled);
    state.toggle_borders();
    assert!(state.borders_enabled);
    assert!(!state.inspector_mode);
    state.toggle_inspector();
    assert!(state.inspector_mode);
}

#[test]
fn test_component_info_creation() {
    let mut info = comp("Button", 10, 20, 100, 40);
    info.test_id = Some("play-button".to_string());
    assert_eq!(info.component_type, "Button");
    assert_eq!(info.position, (10, 20));
    assert_eq!(info.size, (100, 40));
    assert_eq!(info.test_id, Some("play-button".to_string()));
}

#[test]
fn test_refresh_type() {
    assert_ne!(RefreshType::Full, RefreshType::Partial);
    assert_ne!(RefreshType::Full, RefreshType::Fast);
    assert_eq!(RefreshType::Full, RefreshType::Full);
}

#[test]
fn test_inspector_creation() {
    let inspector = Inspector::new();
    assert_eq!(inspector.current_tab(), InspectorTab::Layout);
}

#[test]
fn test_inspector_default() {
    let inspector = Inspector::default();
    assert_eq!(inspector.current_tab(), InspectorTab::Layout);
}

#[test]
fn test_tab_switching() {
    let mut inspector = Inspector::new();
    assert_eq!(inspector.current_tab(), InspectorTab::Layout);
    inspector.set_tab(InspectorTab::Component);
    assert_eq!(inspector.current_tab(), InspectorTab::Component);
    inspector.set_tab(InspectorTab::Stats);
    assert_eq!(inspector.current_tab(), InspectorTab::Stats);
    inspector.set_tab(InspectorTab::Layout);
    assert_eq!(inspector.current_tab(), InspectorTab::Layout);
}

#[test]
fn test_inspector_tab_equality() {
    assert_eq!(InspectorTab::Layout, InspectorTab::Layout);
    assert_ne!(InspectorTab::Layout, InspectorTab::Component);
    assert_ne!(InspectorTab::Component, InspectorTab::Stats);
}

#[test]
fn test_inspector_tab_clone() {
    let tab = InspectorTab::Component;
    assert_eq!(tab, tab.clone());
}

#[test]
fn test_inspector_tab_copy() {
    let tab = InspectorTab::Stats;
    let copied = tab;
    assert_eq!(tab, copied);
}

#[test]
fn test_inspector_tab_debug() {
    let tab = InspectorTab::Layout;
    let s = format!("{:?}", tab);
    assert!(s.contains("Layout"));
}

#[test]
fn next_tab_cycles() {
    let mut inspector = Inspector::new();
    inspector.next_tab();
    assert_eq!(inspector.current_tab(), InspectorTab::Component);
    inspector.next_tab();
    assert_eq!(inspector.current_tab(), InspectorTab::Stats);
    inspector.next_tab();
    assert_eq!(inspector.current_tab(), InspectorTab::Layout);
}

#[test]
fn tooltip_stays_on_screen() {
    assert_eq!(tooltip_x(10, 800), 10);
    assert_eq!(tooltip_x(190, 200), 80);
    assert_eq!(tooltip_x(50, 100), 0);
}

#[test]
fn blend_pixel_values() {
    assert_eq!(blend_pixel(0xFF123456, 0xFFABCDEF), 0xFFABCDEF);
    // Alpha 0 keeps the destination colour, made opaque.
    assert_eq!(blend_pixel(0x00123456, 0x00ABCDEF), 0xFF123456);
    // Half over black and white channels.
    assert_eq!(blend_pixel(0xFF000000, 0x80FFFFFF), 0xFF808080);
    assert_eq!(blend_pixel(0xFFFFFFFF, 0x80000000), 0xFF7F7F7F);
}

/// A container with two rows of children, one of which holds three labels.
fn scene() -> DebugState {
    let mut s = DebugState::new();
    s.register_component(comp("Container", 0, 0, 200, 200)); // 0
    s.register_component(comp("Panel", 0, 100, 200, 100)); // 1
    s.register_component(comp("Panel", 0, 0, 200, 90)); // 2
    s.register_component(comp("Label", 10, 10, 20, 10)); // 3
    s.register_component(comp("Text", 40, 10, 20, 10)); // 4
    s.register_component(comp("Label", 70, 10, 20, 10)); // 5
    s.register_component(comp("Button", 10, 120, 50, 20)); // 6
    s
}

#[test]
fn parents_and_children() {
    let s = scene();
    let p = s.find_parent(&s.registered_components[3]).unwrap();
    assert_eq!(p.position, (0, 0));
    assert_eq!(p.size, (200, 90));
    assert!(s.find_parent(&s.registered_components[0]).is_none());
    let kids: Vec<(i32, i32)> = s.find_children(&s.registered_components[0]).iter().map(|c| c.position).collect();
    // Top to bottom: the upper panel first.
    assert_eq!(kids, vec![(0, 0), (0, 100)]);
    let labels: Vec<(i32, i32)> = s.find_children(&s.registered_components[2]).iter().map(|c| c.position).collect();
    assert_eq!(labels, vec![(10, 10), (40, 10), (70, 10)]);
}

#[test]
fn scene_rows_collapsed_by_default() {
    let s = scene();
    assert_eq!(s.build_scene_rows(), vec![row(0, 0, true, true)]);
}

#[test]
fn scene_rows_expanded_with_label_group() {
    let mut s = scene();
    let c0 = s.registered_components[0].clone();
    let c2 = s.registered_components[2].clone();
    s.toggle_node_collapsed(&c0);
    s.toggle_node_collapsed(&c2);
    let rows = s.build_scene_rows();
    // The three leaf labels are grouped; the group is collapsed (its first
    // label is not expanded), so they are hidden.
    assert_eq!(
        rows,
        vec![
            row(0, 0, true, false),
            row(2, 1, true, false),
            SceneRow { comp_idx: 3, depth: 2, has_children: false, is_collapsed: true, is_label_group: true, label_group_count: 3 },
            row(1, 1, true, true),
        ]
    );
    // Expanding the group's first label shows the run.
    let c3 = s.registered_components[3].clone();
    s.toggle_node_collapsed(&c3);
    let rows = s.build_scene_rows();
    assert_eq!(rows.len(), 7);
    assert!(rows[2].is_label_group && !rows[2].is_collapsed);
    assert_eq!(rows[3], row(3, 2, false, false));
    assert_eq!(rows[4], row(4, 2, false, true));
    assert_eq!(rows[5], row(5, 2, false, true));
    assert_eq!(rows[6], row(1, 1, true, true));
}

#[test]
fn toggle_twice_collapses_again() {
    let mut s = scene();
    let c0 = s.registered_components[0].clone();
    assert!(s.is_node_collapsed(&c0));
    s.toggle_node_collapsed(&c0);
    assert!(!s.is_node_collapsed(&c0));
    s.toggle_node_collapsed(&c0);
    assert!(s.is_node_collapsed(&c0));
    s.clear_registered_components();
    assert!(s.registered_components.is_empty());
    assert!(s.expanded_nodes.is_empty());
}

#[test]
fn arrow_keys_move_the_selection() {
    let mut m = DebugManager::new();
    for c in scene().registered_components {
        m.state_mut().register_component(c);
    }
    let c0 = m.state().registered_components[0].clone();
    m.state_mut().toggle_node_collapsed(&c0);
    // Panel hidden: arrows are not handled.
    assert_eq!(m.handle_event(DebugEvent::KeyPressed(DebugKey::ArrowDown)), EventResult::NotHandled);
    m.handle_event(DebugEvent::ModifiersChanged { control: true });
    assert_eq!(m.handle_event(DebugEvent::KeyPressed(DebugKey::Digit1)), EventResult::Consumed);
    assert!(m.state().panel_visible);
    m.handle_event(DebugEvent::ModifiersChanged { control: false });
    // Rows: container, upper panel, lower panel.
    assert_eq!(m.handle_event(DebugEvent::KeyPressed(DebugKey::ArrowDown)), EventResult::Consumed);
    assert_eq!(m.state().scene_selected, Some(1));
    m.handle_event(DebugEvent::KeyPressed(DebugKey::ArrowDown));
    m.handle_event(DebugEvent::KeyPressed(DebugKey::ArrowDown));
    assert_eq!(m.state().scene_selected, Some(2));
    m.handle_event(DebugEvent::KeyPressed(DebugKey::ArrowUp));
    assert_eq!(m.state().scene_selected, Some(1));
    // Enter expands the upper panel (row 1).
    assert_eq!(m.handle_event(DebugEvent::KeyPressed(DebugKey::Enter)), EventResult::Consumed);
    assert_eq!(m.state().build_scene_rows().len(), 4);
    // Tab cycles the panel's tab; in inspect mode it cycles the inspector's.
    m.handle_event(DebugEvent::KeyPressed(DebugKey::Tab));
    assert_eq!(m.state().active_tab, DebugTab::Display);
    m.state_mut().toggle_inspector();
    m.handle_event(DebugEvent::KeyPressed(DebugKey::Tab));
    assert_eq!(m.inspector().current_tab(), InspectorTab::Component);
    assert_eq!(m.state().active_tab, DebugTab::Display);
}

#[test]
fn hover_picks_the_innermost_component() {
    let mut m = DebugManager::new();
    for c in scene().registered_components {
        m.state_mut().register_component(c);
    }
    m.update_hovered_component(Some((15, 12)), 250, 250);
    let h = m.state().hovered_component.clone().unwrap();
    assert_eq!(h.position, (10, 10));
    m.update_hovered_component(Some((300, 12)), 250, 250);
    assert!(m.state().hovered_component.is_none());
    m.update_hovered_component(None, 250, 250);
    assert!(m.state().hovered_component.is_none());
}

#[test]
fn hover_syncs_selection_in_inspect_mode() {
    let mut m = DebugManager::new();
    for c in scene().registered_components {
        m.state_mut().register_component(c);
    }
    m.state_mut().toggle_panel();
    m.state_mut().toggle_inspector();
    let c0 = m.state().registered_components[0].clone();
    m.state_mut().toggle_node_collapsed(&c0);
    m.update_hovered_component(Some((100, 150)), 250, 250);
    // The lower panel is row 2 of [container, upper panel, lower panel].
    assert_eq!(m.state().scene_selected, Some(2));
}

#[test]
fn hover_uses_auto_zones_without_components() {
    let mut m = DebugManager::new();
    m.update_hovered_component(Some((5, 2)), 70, 70);
    let h = m.state().hovered_component.clone().unwrap();
    assert_eq!(h.component_type, "Label");
    assert_eq!(h.test_id, Some("header".to_string()));
    m.update_hovered_component(Some((5, 30)), 70, 70);
    assert_eq!(m.state().hovered_component.clone().unwrap().component_type, "Button");
    m.update_hovered_component(Some((5, 65)), 70, 70);
    assert_eq!(m.state().hovered_component.clone().unwrap().test_id, Some("footer".to_string()));
    let zones = auto_zones(70, 70);
    assert_eq!(zones[2].position, (0, 10));
    assert_eq!(zones[2].size, (70, 50));
    assert_eq!(zones[3].position, (0, 60));
}

#[test]
fn panel_clicks() {
    let mut m = DebugManager::new();
    for c in scene().registered_components {
        m.state_mut().register_component(c);
    }
    // Hidden panel: nothing consumed.
    assert!(!m.handle_panel_click(10, 50, 280, 400));
    m.state_mut().toggle_panel();
    let hits = compute_scene_hits(280, 400, m.state());
    assert_eq!(hits.len(), 1);
    assert_eq!(hits[0].y, 48);
    assert_eq!(hits[0].h, 13);
    // First click selects row 0; the second toggles it open.
    assert!(m.handle_panel_click(10, 50, 280, 400));
    assert_eq!(m.state().scene_selected, Some(0));
    assert_eq!(m.state().selected_component.clone().unwrap().size, (200, 200));
    assert!(m.handle_panel_click(10, 50, 280, 400));
    assert_eq!(m.state().build_scene_rows().len(), 3);
    // Inspect zone above the tree.
    assert!(m.handle_panel_click(10, 45, 280, 400));
    assert!(m.state().inspector_mode);
    // Tab bar: the third part switches to Power.
    assert!(m.handle_panel_click(250, 20, 280, 400));
    assert_eq!(m.state().active_tab, DebugTab::Power);
    // Below everything: not consumed.
    assert!(!m.handle_panel_click(10, 390, 280, 400));
}

#[test]
fn clicking_the_display_selects_the_hovered_component() {
    let mut m = DebugManager::new();
    m.state_mut().register_component(comp("Button", 0, 0, 10, 10));
    assert!(!m.select_hovered_component());
    m.update_hovered_component(Some((1, 1)), 20, 20);
    assert!(m.select_hovered_component());
    assert!(!m.select_hovered_component());
    m.update_hovered_component(Some((15, 15)), 20, 20);
    assert!(m.select_hovered_component());
    assert!(m.state().selected_component.is_none());
}

#[test]
fn component_builders() {
    let c = comp("Label", 1, 2, 3, 4)
        .with_margin(Spacing::all(2))
        .with_padding(Spacing::axes(1, 3))
        .with_border(Spacing::default())
        .with_attr("key", "value");
    assert_eq!(c.margin, Spacing { top: 2, right: 2, bottom: 2, left: 2 });
    assert_eq!(c.padding, Spacing { top: 1, right: 3, bottom: 1, left: 3 });
    assert!(c.border.is_zero());
    assert_eq!(c.attributes, vec![("key".to_string(), "value".to_string())]);
}

#[test]
fn refresh_counters_and_tabs() {
    let mut s = DebugState::new();
    s.record_full_refresh();
    s.record_partial_refresh();
    s.record_partial_refresh();
    assert_eq!(s.full_refresh_count, 1);
    assert_eq!(s.partial_refresh_count, 2);
    s.cycle_tab();
    assert_eq!(s.active_tab, DebugTab::Display);
    s.cycle_tab();
    assert_eq!(s.active_tab, DebugTab::Power);
    s.cycle_tab();
    assert_eq!(s.active_tab, DebugTab::Scene);
}

#[test]
fn tabs_cycle_back_after_three_steps() {
    let mut inspector = Inspector::new();
    for tab in [InspectorTab::Component, InspectorTab::Stats, InspectorTab::Layout] {
        inspector.next_tab();
        assert_eq!(inspector.current_tab(), tab);
    }
    let mut m = DebugManager::new();
    m.handle_event(DebugEvent::ModifiersChanged { control: true });
    m.handle_event(DebugEvent::KeyPressed(DebugKey::Digit1));
    m.handle_event(DebugEvent::ModifiersChanged { control: false });
    for tab in [DebugTab::Display, DebugTab::Power, DebugTab::Scene] {
        assert_eq!(m.handle_event(DebugEvent::KeyPressed(DebugKey::Tab)), EventResult::Consumed);
        assert_eq!(m.state().active_tab, tab);
    }
}

fn make_component() -> ComponentInfo {
    let mut c = comp("Button", 10, 20, 100, 40);
    c.test_id = Some("test-button".to_string());
    c
}

fn has_text(texts: &[TooltipText], text: &str) -> bool {
    texts.iter().any(|t| t.text == text)
}

#[test]
fn test_render_layout_tab() {
    let inspector = Inspector::new();
    let component = make_component();
    let mut buffer = vec![0u32; 800 * 600];
    inspector.render_details(&mut buffer, 800, 10, 10, &component);
    let written = buffer.iter().any(|&px| px != 0);
    assert!(written, "render_details should write pixels to the buffer");
}

#[test]
fn test_render_component_tab() {
    let mut inspector = Inspector::new();
    inspector.set_tab(InspectorTab::Component);
    let component = make_component();
    let mut buffer = vec![0u32; 800 * 600];
    inspector.render_details(&mut buffer, 800, 10, 10, &component);
    let written = buffer.iter().any(|&px| px != 0);
    assert!(written);
}

#[test]
fn test_render_stats_tab() {
    let mut inspector = Inspector::new();
    inspector.set_tab(InspectorTab::Stats);
    let component = make_component();
    let mut buffer = vec![0u32; 800 * 600];
    inspector.render_details(&mut buffer, 800, 10, 10, &component);
    let written = buffer.iter().any(|&px| px != 0);
    assert!(written);
}

#[test]
fn test_render_all_tabs() {
    let mut inspector = Inspector::new();
    let component = make_component();
    let mut buffer = vec![0u32; 800 * 600];
    for tab in [InspectorTab::Layout, InspectorTab::Component, InspectorTab::Stats] {
        inspector.set_tab(tab);
        inspector.render_details(&mut buffer, 800, 10, 10, &component);
    }
}

#[test]
fn test_component_without_test_id() {
    let inspector = Inspector::new();
    let component = comp("Text", 0, 0, 50, 20);
    let mut buffer = vec![0u32; 800 * 600];
    inspector.render_details(&mut buffer, 800, 0, 0, &component);
}

#[test]
fn test_tooltip_clamped_near_right_edge() {
    let inspector = Inspector::new();
    let component = make_component();
    let screen_w = 200u32;
    let mut buffer = vec![0u32; (screen_w * 200) as usize];
    inspector.render_details(&mut buffer, screen_w, screen_w - 10, 0, &component);
    let written = buffer.iter().any(|&px| px != 0);
    assert!(written);
}

#[test]
fn render_details_frame_pixels() {
    let inspector = Inspector::new();
    let component = make_component();
    let screen_w = 200u32;
    let mut buffer = vec![0u32; (screen_w * 200) as usize];
    inspector.render_details(&mut buffer, screen_w, screen_w - 10, 5, &component);
    // Clamped to x = 80: the top-left border corner is at (80, 5).
    assert_eq!(buffer[(5 * screen_w + 80) as usize], TOOLTIP_BORDER);
    assert_eq!(buffer[(5 * screen_w + 79) as usize], 0);
    assert_eq!(buffer[(84 * screen_w + 199) as usize], TOOLTIP_BORDER);
    // Nothing below the tooltip.
    assert_eq!(buffer[(85 * screen_w + 100) as usize], 0);
    // Background blended over black.
    assert_eq!(buffer[(30 * screen_w + 100) as usize], blend_pixel(0, 0xEE192434));
    // The border survives a fresh stamp.
    buffer[(5 * screen_w + 80) as usize] = 0x123456;
    paint_tooltip_border(&mut buffer, screen_w, 80, 5);
    assert_eq!(buffer[(5 * screen_w + 80) as usize], TOOLTIP_BORDER);
}

#[test]
fn render_details_layout_texts() {
    let inspector = Inspector::new();
    let component = make_component();
    let mut buffer = vec![0u32; 800 * 600];
    let texts = inspector.render_details(&mut buffer, 800, 10, 10, &component);
    assert_eq!(texts[0].text, "LYT");
    assert_eq!(texts[0].color, 0x55CCFF);
    assert_eq!(texts[1].text, "CMP");
    assert_eq!(texts[1].color, 0x445566);
    assert!(has_text(&texts, "LAYOUT"));
    assert!(has_text(&texts, "(10, 20)"));
    assert!(has_text(&texts, "100\u{00D7}40"));
    assert!(has_text(&texts, "(110, 60)"));
    assert!(has_text(&texts, "BTN"));
}

#[test]
fn render_details_component_and_stats_texts() {
    let mut inspector = Inspector::new();
    let mut buffer = vec![0u32; 800 * 600];
    inspector.set_tab(InspectorTab::Component);
    let texts = inspector.render_details(&mut buffer, 800, 10, 10, &make_component());
    assert!(has_text(&texts, "COMPONENT"));
    assert!(has_text(&texts, "test-button"));
    let texts = inspector.render_details(&mut buffer, 800, 10, 10, &comp("Text", 0, 0, 5, 5));
    assert!(has_text(&texts, "(none)"));
    inspector.set_tab(InspectorTab::Stats);
    let texts = inspector.render_details(&mut buffer, 800, 10, 10, &make_component());
    assert!(has_text(&texts, "STATS"));
    assert!(has_text(&texts, "(live stats TBD)"));
}

#[test]
fn clicks_go_to_the_panel_or_the_display() {
    let mut m = DebugManager::new();
    m.state_mut().register_component(comp("Button", 0, 0, 10, 10));
    // No cursor: nothing happens.
    assert!(!m.handle_click(None, 100, 280, 400));
    m.update_hovered_component(Some((1, 1)), 50, 50);
    // Panel closed: a click right of the display still selects.
    assert!(m.handle_click(Some((150, 20)), 100, 280, 400));
    assert!(m.state().selected_component.is_some());
    assert!(!m.handle_click(Some((5, 5)), 100, 280, 400));
    // Panel open: the click at window column 350 is panel column 250 in the tab bar.
    m.state_mut().toggle_panel();
    assert!(m.handle_click(Some((350, 20)), 100, 280, 400));
    assert_eq!(m.state().active_tab, DebugTab::Power);
    // Left of the panel: the hovered component again, unchanged.
    assert!(!m.handle_click(Some((99, 20)), 100, 280, 400));
}

#[test]
fn pointer_cursor_over_panel_or_inspected_component() {
    let mut m = DebugManager::new();
    assert!(!m.pointer_cursor(Some((150, 10)), 100));
    m.state_mut().toggle_panel();
    assert!(m.pointer_cursor(Some((150, 10)), 100));
    assert!(m.pointer_cursor(Some((100, 10)), 100));
    assert!(!m.pointer_cursor(Some((99, 10)), 100));
    assert!(!m.pointer_cursor(None, 100));
    assert!(m.pointer_cursor(None, 0));
    m.state_mut().toggle_panel();
    m.state_mut().toggle_inspector();
    m.state_mut().register_component(comp("Label", 0, 0, 10, 10));
    m.update_hovered_component(Some((2, 2)), 50, 50);
    assert!(m.pointer_cursor(Some((5, 5)), 100));
}

#[test]
fn collapsed_scene_lists_only_roots_in_order() {
    let mut s = DebugState::new();
    // Two roots, the lower one registered first, with children inside.
    s.register_component(comp("Container", 0, 100, 200, 100));
    s.register_component(comp("Button", 10, 110, 50, 20));
    s.register_component(comp("Container", 0, 0, 200, 90));
    s.register_component(comp("Label", 5, 5, 20, 10));
    // Four separate label roots in a row form one group.
    for x in 0..4 {
        s.register_component(comp("Label", 300 + 30 * x, 0, 20, 10));
    }
    let rows = s.build_scene_rows();
    assert!(rows.iter().all(|r| r.depth == 0));
    let weight: usize = rows.iter().map(|r| if r.is_label_group { r.label_group_count } else { 1 }).sum();
    let roots = (0..s.registered_components.len())
        .filter(|&i| s.find_parent(&s.registered_components[i]).is_none())
        .count();
    assert_eq!(weight, roots);
    assert_eq!(roots, 6);
    let keys: Vec<(i32, i32)> = rows
        .iter()
        .map(|r| (s.registered_components[r.comp_idx].position.1, s.registered_components[r.comp_idx].position.0))
        .collect();
    let mut sorted = keys.clone();
    sorted.sort();
    assert_eq!(keys, sorted);
    assert!(DebugState::new().build_scene_rows().is_empty());
}

#[test]
fn test_ring_buffer() {
    let mut history: History<u32> = History::new();

    // Add more than MAX_SAMPLES
    for i in 0..350 {
        history.push(i);
    }

    // Should only keep last 300
    assert_eq!(history.len(), 300);
    assert_eq!(history.items().back(), Some(&349));
    assert_eq!(history.items().front(), Some(&50));
    assert_eq!(MAX_SAMPLES, 300);
}

#[test]
fn history_small_bound_drops_oldest() {
    let mut history: History<u8> = History::with_cap(2);
    history.push(7);
    assert_eq!(history.len(), 1);
    history.push(8);
    history.push(9);
    let held: Vec<u8> = history.items().iter().copied().collect();
    assert_eq!(held, vec![8, 9]);
}
