//! Debug manager: hotkeys, scene-tree navigation, hover tracking and panel
//! clicks, on top of the debug state and the inspector.
use vstd::prelude::*;
use crate::eink::debug::inspector::{Inspector, InspectorTab, tab_after};
use crate::eink::debug::panel::{
    FONT_ASCENT, INSPECT_HIT_Y_END, INSPECT_HIT_Y_START, LINE_HEIGHT, TAB_HIT_Y_END, TAB_HIT_Y_START,
    TREE_BASELINE_CY, compute_scene_hits, hit_count,
};
use crate::eink::debug::state::{
    ComponentInfo, DebugState, DebugTab, SceneRow, Spacing, all_fit, area, box_key, same_info, scene_rows,
    toggled,
};

verus! {

/// The panel tab after `t`: Scene, Display, Power, then Scene again.
pub open spec fn panel_tab_after(t: DebugTab) -> DebugTab {
    match t {
        DebugTab::Scene => DebugTab::Display,
        DebugTab::Display => DebugTab::Power,
        DebugTab::Power => DebugTab::Scene,
    }
}

/// Pressing Tab three times on the panel comes back to the same tab.
pub proof fn lemma_panel_tab_cycle(t: DebugTab)
    ensures
        panel_tab_after(panel_tab_after(panel_tab_after(t))) == t,
{
}


/// Result of event handling: whether the debug system consumed the event
/// or whether it should be passed to other handlers.
#[derive(Debug, Clone, Copy, PartialEq, Eq, Structural)]
pub enum EventResult {
    /// The event was consumed by the debug system
    Consumed,
    /// The event was not handled and should be passed to other handlers
    NotHandled,
}

/// The keys the debug system reacts to.
#[derive(Debug, Clone, Copy, PartialEq, Eq, Structural)]
pub enum DebugKey {
    Digit1,
    Digit2,
    Digit3,
    Tab,
    ArrowUp,
    ArrowDown,
    ArrowLeft,
    ArrowRight,
    Enter,
    Other,
}

/// A window event, as far as the debug system reads it.
#[derive(Debug, Clone, Copy, PartialEq, Eq, Structural)]
pub enum DebugEvent {
    /// The modifier keys changed; `control` tells whether Ctrl is held.
    ModifiersChanged { control: bool },
    /// A key was pressed.
    KeyPressed(DebugKey),
    /// Anything else.
    Other,
}

/// Rows of the scene tree kept in view when the selection moves.
pub const SCENE_VISIBLE_ROWS: usize = 10;

/// New scroll offset that brings row `next` into a window of
/// [`SCENE_VISIBLE_ROWS`] rows starting at `scroll`.
pub open spec fn scroll_to_show(scroll: int, next: int) -> int {
    if next < scroll {
        next
    } else if next >= scroll + SCENE_VISIBLE_ROWS {
        next + 1 - SCENE_VISIBLE_ROWS
    } else {
        scroll
    }
}

/// Row selected by an arrow key among `n` rows, from the current selection
/// (row 0 when there is none).
pub open spec fn arrow_target(cur: Option<usize>, n: int, down: bool) -> int {
    let c = match cur {
        Some(v) => v as int,
        None => 0,
    };
    if down {
        if c + 1 < n - 1 { c + 1 } else { n - 1 }
    } else {
        if c >= 1 { c - 1 } else { 0 }
    }
}

/// `t` is `s` with only the selection and scroll possibly changed.
pub open spec fn same_but_selection(s: DebugState, t: DebugState) -> bool {
    &&& t.panel_visible == s.panel_visible
    &&& t.borders_enabled == s.borders_enabled
    &&& t.inspector_mode == s.inspector_mode
    &&& t.active_tab == s.active_tab
    &&& t.hovered_component == s.hovered_component
    &&& t.selected_component == s.selected_component
    &&& t.registered_components@ == s.registered_components@
    &&& t.full_refresh_count == s.full_refresh_count
    &&& t.partial_refresh_count == s.partial_refresh_count
    &&& t.expanded_nodes@ == s.expanded_nodes@
}

/// Central coordinator of the debug system: the debug state, the
/// inspector and whether Ctrl is held.
pub struct DebugManager {
    state: DebugState,
    inspector: Inspector,
    control_held: bool,
}

impl DebugManager {
    /// The debug state.
    pub closed spec fn debug_state(self) -> DebugState {
        self.state
    }

    /// The inspector's active tab.
    pub closed spec fn inspector_tab(self) -> InspectorTab {
        self.inspector.tab()
    }

    /// Whether Ctrl is held.
    pub closed spec fn control(self) -> bool {
        self.control_held
    }

    /// A manager with every debug feature off.
    pub fn new() -> (r: Self)
        ensures
            r.debug_state().is_initial(),
            r.inspector_tab() == InspectorTab::Layout,
            !r.control(),
    {
        DebugManager { state: DebugState::new(), inspector: Inspector::new(), control_held: false }
    }

    /// The debug state.
    pub fn state(&self) -> (r: &DebugState)
        ensures
            *r == self.debug_state(),
    {
        &self.state
    }

    /// The debug state, to change it.
    pub fn state_mut(&mut self) -> (r: &mut DebugState)
        ensures
            *r == old(self).debug_state(),
            final(self).debug_state() == *final(r),
            final(self).inspector_tab() == old(self).inspector_tab(),
            final(self).control() == old(self).control(),
    {
        &mut self.state
    }

    /// The persistent inspector.
    pub fn inspector(&self) -> (r: &Inspector)
        ensures
            r.tab() == self.inspector_tab(),
    {
        &self.inspector
    }

    /// The persistent inspector, to change it.
    pub fn inspector_mut(&mut self) -> (r: &mut Inspector)
        ensures
            r.tab() == old(self).inspector_tab(),
            final(self).inspector_tab() == final(r).tab(),
            final(self).debug_state() == old(self).debug_state(),
            final(self).control() == old(self).control(),
    {
        &mut self.inspector
    }
}

impl Default for DebugManager {
    fn default() -> (r: Self)
        ensures
            r.debug_state().is_initial(),
            r.inspector_tab() == InspectorTab::Layout,
            !r.control(),
    {
        DebugManager::new()
    }
}


/// What a key press does to the state `s` (giving `t`) and the inspector
/// tab `i` (giving `j`) with Ctrl `ctrl`, answering `r`.
///
/// Ctrl+1, Ctrl+2, Ctrl+3 toggle the panel, the borders and the inspector.
/// Tab cycles the inspector's tab in inspect mode, else the panel's tab when
/// the panel is open. With the panel open, Up/Down move the scene selection
/// (and scroll it into view) when there are rows, and Left/Right/Enter
/// toggle the selected node when it can be collapsed.
pub open spec fn key_step(
    s: DebugState,
    i: InspectorTab,
    ctrl: bool,
    key: DebugKey,
    t: DebugState,
    j: InspectorTab,
    r: EventResult,
) -> bool {
    let rows = scene_rows(s.registered_components@, s.expanded_nodes@);
    if ctrl && key == DebugKey::Digit1 {
        r == EventResult::Consumed && j == i && t.panel_visible == !s.panel_visible
            && t.borders_enabled == s.borders_enabled && t.inspector_mode == s.inspector_mode
            && t.active_tab == s.active_tab && t.same_but_flags(s)
    } else if ctrl && key == DebugKey::Digit2 {
        r == EventResult::Consumed && j == i && t.borders_enabled == !s.borders_enabled
            && t.panel_visible == s.panel_visible && t.inspector_mode == s.inspector_mode
            && t.active_tab == s.active_tab && t.same_but_flags(s)
    } else if ctrl && key == DebugKey::Digit3 {
        r == EventResult::Consumed && j == i && t.inspector_mode == !s.inspector_mode
            && t.panel_visible == s.panel_visible && t.borders_enabled == s.borders_enabled
            && t.active_tab == s.active_tab && t.same_but_flags(s)
    } else if s.inspector_mode && key == DebugKey::Tab {
        r == EventResult::Consumed && j == tab_after(i) && t == s
    } else if s.panel_visible && key == DebugKey::Tab {
        r == EventResult::Consumed && j == i && t.active_tab == panel_tab_after(s.active_tab)
            && t.panel_visible == s.panel_visible && t.borders_enabled == s.borders_enabled
            && t.inspector_mode == s.inspector_mode && t.same_but_flags(s)
    } else if s.panel_visible && (key == DebugKey::ArrowDown || key == DebugKey::ArrowUp) && rows.len() > 0 {
        let next = arrow_target(s.scene_selected, rows.len() as int, key == DebugKey::ArrowDown);
        r == EventResult::Consumed && j == i && t.scene_selected == Some(next as usize)
            && t.scene_scroll == scroll_to_show(s.scene_scroll as int, next) && same_but_selection(s, t)
    } else if s.panel_visible && (key == DebugKey::ArrowLeft || key == DebugKey::ArrowRight || key == DebugKey::Enter) {
        r == EventResult::Consumed && j == i && match s.scene_selected {
            Some(sel) if (sel as int) < rows.len() && (rows[sel as int].has_children || rows[sel as int].is_label_group) =>
                toggled(s.expanded_nodes@, t.expanded_nodes@, box_key(s.registered_components@[rows[sel as int].comp_idx as int]))
                && t.same_but_expanded(s),
            _ => t == s,
        }
    } else {
        r == EventResult::NotHandled && j == i && t == s
    }
}

impl DebugManager {
    /// Handle a window event: Ctrl state, hotkeys and scene-tree keys (see
    /// [`key_step`]).
    pub fn handle_event(&mut self, event: DebugEvent) -> (r: EventResult)
        requires
            event is KeyPressed && old(self).debug_state().panel_visible ==> all_fit(old(self).debug_state().registered_components@),
        ensures
            match event {
                DebugEvent::ModifiersChanged { control } => r == EventResult::NotHandled && final(self).control() == control
                    && final(self).debug_state() == old(self).debug_state()
                    && final(self).inspector_tab() == old(self).inspector_tab(),
                DebugEvent::KeyPressed(key) => final(self).control() == old(self).control() && key_step(
                    old(self).debug_state(),
                    old(self).inspector_tab(),
                    old(self).control(),
                    key,
                    final(self).debug_state(),
                    final(self).inspector_tab(),
                    r,
                ),
                DebugEvent::Other => r == EventResult::NotHandled && final(self).control() == old(self).control()
                    && final(self).debug_state() == old(self).debug_state()
                    && final(self).inspector_tab() == old(self).inspector_tab(),
            },
    {
        match event {
            DebugEvent::ModifiersChanged { control } => {
                self.control_held = control;
                EventResult::NotHandled
            },
            DebugEvent::Other => EventResult::NotHandled,
            DebugEvent::KeyPressed(key) => self.handle_key(key),
        }
    }

    fn handle_key(&mut self, key: DebugKey) -> (r: EventResult)
        requires
            old(self).debug_state().panel_visible ==> all_fit(old(self).debug_state().registered_components@),
        ensures
            final(self).control() == old(self).control(),
            key_step(
                old(self).debug_state(),
                old(self).inspector_tab(),
                old(self).control(),
                key,
                final(self).debug_state(),
                final(self).inspector_tab(),
                r,
            ),
    {
        if self.control_held {
            match key {
                DebugKey::Digit1 => {
                    self.state.toggle_panel();
                    return EventResult::Consumed;
                },
                DebugKey::Digit2 => {
                    self.state.toggle_borders();
                    return EventResult::Consumed;
                },
                DebugKey::Digit3 => {
                    self.state.toggle_inspector();
                    return EventResult::Consumed;
                },
                _ => {},
            }
        }
        if self.state.inspector_mode && key == DebugKey::Tab {
            self.inspector.next_tab();
            return EventResult::Consumed;
        }
        if self.state.panel_visible && key == DebugKey::Tab {
            self.state.cycle_tab();
            return EventResult::Consumed;
        }
        if self.state.panel_visible {
            if key == DebugKey::ArrowDown || key == DebugKey::ArrowUp {
                let rows = self.state.build_scene_rows();
                if rows.len() > 0 {
                    let n = rows.len();
                    let cur = match self.state.scene_selected {
                        Some(v) => v,
                        None => 0,
                    };
                    let next = if key == DebugKey::ArrowDown {
                        if cur < n - 1 { cur + 1 } else { n - 1 }
                    } else {
                        if cur >= 1 { cur - 1 } else { 0 }
                    };
                    self.state.scene_selected = Some(next);
                    if next < self.state.scene_scroll {
                        self.state.scene_scroll = next;
                    } else if next - self.state.scene_scroll >= SCENE_VISIBLE_ROWS {
                        self.state.scene_scroll = next + 1 - SCENE_VISIBLE_ROWS;
                    }
                    return EventResult::Consumed;
                }
            } else if key == DebugKey::ArrowLeft || key == DebugKey::ArrowRight || key == DebugKey::Enter {
                let rows = self.state.build_scene_rows();
                if let Some(sel) = self.state.scene_selected {
                    if sel < rows.len() {
                        let row = rows[sel];
                        if row.has_children || row.is_label_group {
                            let comp = self.state.registered_components[row.comp_idx].clone();
                            self.state.toggle_node_collapsed(&comp);
                        }
                    }
                }
                return EventResult::Consumed;
            }
        }
        EventResult::NotHandled
    }
}


/// A component box `(x, y, w, h)`.
pub type BoxKey = (i32, i32, u32, u32);

/// The box `b` holds the point `(dx, dy)` (edges computed in 32 bits).
pub open spec fn box_holds(b: BoxKey, dx: int, dy: int) -> bool {
    b.0 <= dx < b.0 + (b.2 as i32) && b.1 <= dy < b.1 + (b.3 as i32)
}

/// Area of a box.
pub open spec fn box_area(b: BoxKey) -> nat {
    b.2 as nat * b.3 as nat
}

/// Among the first `n` boxes, the first of the smallest that hold the point.
pub open spec fn innermost_upto(boxes: Seq<BoxKey>, dx: int, dy: int, n: int) -> Option<int>
    decreases n,
{
    if n <= 0 {
        None
    } else {
        let best = innermost_upto(boxes, dx, dy, n - 1);
        if box_holds(boxes[n - 1], dx, dy) && (best is None || box_area(boxes[n - 1]) < box_area(boxes[best.unwrap()])) {
            Some(n - 1)
        } else {
            best
        }
    }
}

/// The boxes of the components.
pub open spec fn boxes_of(comps: Seq<ComponentInfo>) -> Seq<BoxKey> {
    comps.map_values(|c: ComponentInfo| box_key(c))
}

/// Heights of the header, content and footer zones of a display `h` high.
pub open spec fn zone_heights(h: u32) -> (int, int, int) {
    let band: int = if h / 7 >= 1 { (h / 7) as int } else { 1 };
    let content: int = if h >= 2 * band { h - 2 * band } else { 0 };
    (band, content, band)
}

/// Box of auto-zone `k`: the whole display, the header, the content and
/// the footer.
pub open spec fn zone_box(k: int, w: u32, h: u32) -> BoxKey {
    let (hh, ch, fh) = zone_heights(h);
    if k == 0 {
        (0, 0, w, h)
    } else if k == 1 {
        (0, 0, w, hh as u32)
    } else if k == 2 {
        (0, hh as i32, w, ch as u32)
    } else {
        (0, (hh + ch) as i32, w, fh as u32)
    }
}

/// The four auto-zone boxes.
pub open spec fn zone_boxes(w: u32, h: u32) -> Seq<BoxKey> {
    seq![zone_box(0, w, h), zone_box(1, w, h), zone_box(2, w, h), zone_box(3, w, h)]
}

/// Component type shown for auto-zone `k`.
pub open spec fn zone_type(k: int) -> Seq<char> {
    if k == 0 { "Container"@ } else if k == 1 { "Label"@ } else if k == 2 { "Button"@ } else { "ProgressBar"@ }
}

/// Test id of auto-zone `k`.
pub open spec fn zone_id(k: int) -> Seq<char> {
    if k == 0 { "display-root"@ } else if k == 1 { "header"@ } else if k == 2 { "content"@ } else { "footer"@ }
}

/// `c` is auto-zone `k` of a `w` × `h` display.
pub open spec fn is_zone(c: ComponentInfo, k: int, w: u32, h: u32) -> bool {
    &&& box_key(c) == zone_box(k, w, h)
    &&& c.component_type@ == zone_type(k)
    &&& c.test_id matches Some(t) && t@ == zone_id(k)
    &&& c.margin == (Spacing { top: 0, right: 0, bottom: 0, left: 0 })
    &&& c.padding == (Spacing { top: 0, right: 0, bottom: 0, left: 0 })
    &&& c.border == (Spacing { top: 0, right: 0, bottom: 0, left: 0 })
    &&& c.attributes@.len() == 0
}

/// The component under a cursor at display point `cursor`: none outside the
/// display; else the first of the smallest registered components holding
/// it, or, with nothing registered, of the auto-zones.
pub open spec fn hover_ok(s: DebugState, h: Option<ComponentInfo>, cursor: Option<(i32, i32)>, w: u32, hh: u32) -> bool {
    match cursor {
        None => h is None,
        Some((dx, dy)) => if dx < 0 || dy < 0 || dx >= (w as i32) || dy >= (hh as i32) {
            h is None
        } else if s.registered_components@.len() > 0 {
            match innermost_upto(boxes_of(s.registered_components@), dx as int, dy as int, s.registered_components@.len() as int) {
                None => h is None,
                Some(i) => h matches Some(c) && same_info(c, s.registered_components@[i]),
            }
        } else {
            match innermost_upto(zone_boxes(w, hh), dx as int, dy as int, 4) {
                None => h is None,
                Some(k) => h matches Some(c) && is_zone(c, k, w, hh),
            }
        },
    }
}

/// First row, from `j` on, whose component has box `b`.
pub open spec fn row_with_box(comps: Seq<ComponentInfo>, rows: Seq<SceneRow>, b: BoxKey, j: int) -> Option<int>
    decreases rows.len() - j,
{
    if j < 0 || j >= rows.len() {
        None
    } else if box_key(comps[rows[j].comp_idx as int]) == b {
        Some(j)
    } else {
        row_with_box(comps, rows, b, j + 1)
    }
}

/// The auto-zones used for hovering when no component is registered: the
/// whole display, then a header and a footer of a seventh of its height
/// each (at least one pixel) and the content between them.
pub fn auto_zones(disp_w: u32, disp_h: u32) -> (r: Vec<ComponentInfo>)
    ensures
        r@.len() == 4,
        forall|k: int| 0 <= k < 4 ==> is_zone(#[trigger] r@[k], k, disp_w, disp_h),
{
    let header_h: u32 = if disp_h / 7 >= 1 { disp_h / 7 } else { 1 };
    let footer_h: u32 = header_h;
    let content_h: u32 = if disp_h >= header_h + footer_h { disp_h - (header_h + footer_h) } else { 0 };
    let content_y = header_h as i32;
    let footer_y = (header_h + content_h) as i32;
    let mut zones: Vec<ComponentInfo> = Vec::new();
    zones.push(ComponentInfo {
        component_type: "Container".to_owned(),
        position: (0, 0),
        size: (disp_w, disp_h),
        test_id: Some("display-root".to_owned()),
        margin: Spacing::default(),
        padding: Spacing::default(),
        border: Spacing::default(),
        attributes: Vec::new(),
    });
    zones.push(ComponentInfo {
        component_type: "Label".to_owned(),
        position: (0, 0),
        size: (disp_w, header_h),
        test_id: Some("header".to_owned()),
        margin: Spacing::default(),
        padding: Spacing::default(),
        border: Spacing::default(),
        attributes: Vec::new(),
    });
    zones.push(ComponentInfo {
        component_type: "Button".to_owned(),
        position: (0, content_y),
        size: (disp_w, content_h),
        test_id: Some("content".to_owned()),
        margin: Spacing::default(),
        padding: Spacing::default(),
        border: Spacing::default(),
        attributes: Vec::new(),
    });
    zones.push(ComponentInfo {
        component_type: "ProgressBar".to_owned(),
        position: (0, footer_y),
        size: (disp_w, footer_h),
        test_id: Some("footer".to_owned()),
        margin: Spacing::default(),
        padding: Spacing::default(),
        border: Spacing::default(),
        attributes: Vec::new(),
    });
    zones
}

/// Index of the first of the smallest components holding `(dx, dy)`.
fn innermost_index(cands: &Vec<ComponentInfo>, dx: i32, dy: i32) -> (r: Option<usize>)
    requires
        all_fit(cands@),
    ensures
        match r {
            Some(i) => innermost_upto(boxes_of(cands@), dx as int, dy as int, cands@.len() as int) == Some(i as int)
                && (i as int) < cands@.len(),
            None => innermost_upto(boxes_of(cands@), dx as int, dy as int, cands@.len() as int) is None,
        },
{
    let ghost boxes = boxes_of(cands@);
    let mut best: Option<usize> = None;
    let mut best_area: u64 = u64::MAX;
    let mut i: usize = 0;
    while i < cands.len()
        invariant
            i <= cands@.len(),
            all_fit(cands@),
            boxes == boxes_of(cands@),
            match best {
                Some(b) => innermost_upto(boxes, dx as int, dy as int, i as int) == Some(b as int) && best_area == box_area(boxes[b as int])
                    && b < i,
                None => innermost_upto(boxes, dx as int, dy as int, i as int) is None && best_area == u64::MAX,
            },
        decreases cands@.len() - i,
    {
        let comp = &cands[i];
        assert(crate::eink::debug::state::edges_fit(cands@[i as int]));
        assert(boxes[i as int] == box_key(cands@[i as int]));
        let x0 = comp.position.0;
        let y0 = comp.position.1;
        let x1 = x0 + comp.size.0 as i32;
        let y1 = y0 + comp.size.1 as i32;
        assert(comp.size.0 as u64 * comp.size.1 as u64 <= 0xffff_ffffu64 * 0xffff_ffffu64) by (nonlinear_arith)
            requires comp.size.0 <= 0xffff_ffffu32, comp.size.1 <= 0xffff_ffffu32;
        if dx >= x0 && dx < x1 && dy >= y0 && dy < y1 {
            let a = comp.size.0 as u64 * comp.size.1 as u64;
            if a < best_area {
                best_area = a;
                best = Some(i);
            }
        }
        i = i + 1;
    }
    best
}


/// `t` is `s` with only the hovered component, the selection and the
/// scroll possibly changed.
pub open spec fn same_but_hover(s: DebugState, t: DebugState) -> bool {
    &&& t.panel_visible == s.panel_visible
    &&& t.borders_enabled == s.borders_enabled
    &&& t.inspector_mode == s.inspector_mode
    &&& t.active_tab == s.active_tab
    &&& t.selected_component == s.selected_component
    &&& t.registered_components@ == s.registered_components@
    &&& t.full_refresh_count == s.full_refresh_count
    &&& t.partial_refresh_count == s.partial_refresh_count
    &&& t.expanded_nodes@ == s.expanded_nodes@
}

/// After hovering: in inspect mode with the panel open, the first scene row
/// with the hovered component's box becomes the selection and is scrolled
/// into view; otherwise the selection and scroll stay.
pub open spec fn hover_selection_ok(s: DebugState, t: DebugState) -> bool {
    let rows = scene_rows(s.registered_components@, s.expanded_nodes@);
    if s.inspector_mode && s.panel_visible && t.hovered_component is Some {
        match row_with_box(s.registered_components@, rows, box_key(t.hovered_component.unwrap()), 0) {
            Some(k) => t.scene_selected == Some(k as usize) && t.scene_scroll == scroll_to_show(s.scene_scroll as int, k),
            None => t.scene_selected == s.scene_selected && t.scene_scroll == s.scene_scroll,
        }
    } else {
        t.scene_selected == s.scene_selected && t.scene_scroll == s.scene_scroll
    }
}

/// Top pixel row of the first scene-tree row.
pub open spec fn tree_top() -> int {
    TREE_BASELINE_CY - FONT_ASCENT
}

/// Panel height `y` falls in tree row `j`.
pub open spec fn in_tree_row(y: int, j: int) -> bool {
    tree_top() + j * LINE_HEIGHT <= y < tree_top() + j * LINE_HEIGHT + LINE_HEIGHT
}

/// The visible tree row (of `count`) at panel height `y`, if any.
pub open spec fn click_row(y: int, count: int) -> Option<int> {
    if y >= tree_top() && (y - tree_top()) / (LINE_HEIGHT as int) < count {
        Some((y - tree_top()) / (LINE_HEIGHT as int))
    } else {
        None
    }
}

/// The tab under panel column `x` of the tab bar, the bar being split in
/// three equal parts after a one-pixel border; none when the panel is too
/// narrow.
pub open spec fn tab_at(x: u32, panel_w: u32) -> Option<DebugTab> {
    let tab_w: int = (if panel_w >= 1 { panel_w - 1 } else { 0 }) / 3;
    if tab_w > 0 {
        let tx: int = if x >= 1 { x - 1 } else { 0 };
        let idx = tx / tab_w;
        Some(if idx == 0 { DebugTab::Scene } else if idx == 1 { DebugTab::Display } else { DebugTab::Power })
    } else {
        None
    }
}

/// `t` is `s` after a click that selected scene row `abs`.
pub open spec fn row_click_ok(s: DebugState, t: DebugState, abs: int) -> bool {
    let rows = scene_rows(s.registered_components@, s.expanded_nodes@);
    let row = rows[abs];
    let c = s.registered_components@[row.comp_idx as int];
    &&& 0 <= abs < rows.len()
    &&& t.scene_selected == Some(abs as usize)
    &&& t.selected_component matches Some(sc) && same_info(sc, c)
    &&& if s.scene_selected == Some(abs as usize) && (row.has_children || row.is_label_group) {
        toggled(s.expanded_nodes@, t.expanded_nodes@, box_key(c))
    } else {
        t.expanded_nodes@ == s.expanded_nodes@
    }
    &&& t.panel_visible == s.panel_visible
    &&& t.borders_enabled == s.borders_enabled
    &&& t.inspector_mode == s.inspector_mode
    &&& t.active_tab == s.active_tab
    &&& t.hovered_component == s.hovered_component
    &&& t.registered_components@ == s.registered_components@
    &&& t.full_refresh_count == s.full_refresh_count
    &&& t.partial_refresh_count == s.partial_refresh_count
    &&& t.scene_scroll == s.scene_scroll
}

/// What a click at panel point `(x, y)` does to `s`, giving `t`, answering
/// `r` (whether the panel consumed it).
///
/// Nothing when the panel is hidden. On the Scene tab a click on a visible
/// tree row selects it and its component, and a second click on a node that
/// can be collapsed toggles it; below the tab bar and above the tree it
/// toggles inspect mode. A click on the tab bar switches tabs.
pub open spec fn click_ok(s: DebugState, t: DebugState, x: u32, y: u32, panel_w: u32, panel_h: u32, r: bool) -> bool {
    let count = hit_count(panel_h as int, s);
    if !s.panel_visible {
        !r && t == s
    } else if s.active_tab == DebugTab::Scene && click_row(y as int, count) is Some {
        r && row_click_ok(s, t, s.scene_scroll + click_row(y as int, count).unwrap())
    } else if s.active_tab == DebugTab::Scene && INSPECT_HIT_Y_START <= y < INSPECT_HIT_Y_END {
        r && t.inspector_mode == !s.inspector_mode && t.panel_visible == s.panel_visible
            && t.borders_enabled == s.borders_enabled && t.active_tab == s.active_tab && t.same_but_flags(s)
    } else if TAB_HIT_Y_START <= y < TAB_HIT_Y_END {
        r && match tab_at(x, panel_w) {
            Some(tb) => t.active_tab == tb,
            None => t.active_tab == s.active_tab,
        } && t.panel_visible == s.panel_visible && t.borders_enabled == s.borders_enabled
            && t.inspector_mode == s.inspector_mode && t.same_but_flags(s)
    } else {
        !r && t == s
    }
}

impl DebugManager {
    /// Track the component under the cursor, given in display pixels (the
    /// window position divided by the pixel scale); see [`hover_ok`] and
    /// [`hover_selection_ok`].
    pub fn update_hovered_component(&mut self, cursor: Option<(i32, i32)>, disp_w: u32, disp_h: u32)
        requires
            cursor is Some ==> all_fit(old(self).debug_state().registered_components@),
        ensures
            hover_ok(old(self).debug_state(), final(self).debug_state().hovered_component, cursor, disp_w, disp_h),
            hover_selection_ok(old(self).debug_state(), final(self).debug_state()),
            same_but_hover(old(self).debug_state(), final(self).debug_state()),
            final(self).inspector_tab() == old(self).inspector_tab(),
            final(self).control() == old(self).control(),
    {
        let (dx, dy) = match cursor {
            Some(p) => p,
            None => {
                self.state.hovered_component = None;
                return;
            },
        };
        if dx < 0 || dy < 0 || dx >= disp_w as i32 || dy >= disp_h as i32 {
            self.state.hovered_component = None;
            return;
        }
        let hovered = if self.state.registered_components.len() > 0 {
            match innermost_index(&self.state.registered_components, dx, dy) {
                Some(i) => Some(self.state.registered_components[i].clone()),
                None => None,
            }
        } else {
            assert(0 <= dx < (disp_w as i32) ==> disp_w <= 0x7fff_ffff) by (bit_vector);
            assert(0 <= dy < (disp_h as i32) ==> disp_h <= 0x7fff_ffff) by (bit_vector);
            let zones = auto_zones(disp_w, disp_h);
            assert forall|k: int| 0 <= k < zones@.len() implies crate::eink::debug::state::edges_fit(#[trigger] zones@[k]) by {
                assert(is_zone(zones@[k], k, disp_w, disp_h));
            }
            assert(boxes_of(zones@) =~= zone_boxes(disp_w, disp_h)) by {
                assert forall|k: int| 0 <= k < 4 implies boxes_of(zones@)[k] == zone_boxes(disp_w, disp_h)[k] by {
                    assert(is_zone(zones@[k], k, disp_w, disp_h));
                }
            }
            match innermost_index(&zones, dx, dy) {
                Some(k) => {
                    assert(is_zone(zones@[k as int], k as int, disp_w, disp_h));
                    Some(zones[k].clone())
                },
                None => None,
            }
        };
        self.state.hovered_component = hovered;
        if self.state.inspector_mode && self.state.panel_visible {
            match &self.state.hovered_component {
                Some(hov) => {
                    let hx = hov.position.0;
                    let hy = hov.position.1;
                    let hw = hov.size.0;
                    let hh = hov.size.1;
                    let rows = self.state.build_scene_rows();
                    let ghost comps = self.state.registered_components@;
                    let ghost b = box_key(*hov);
                    let mut k: usize = 0;
                    let mut found: Option<usize> = None;
                    while k < rows.len() && found.is_none()
                        invariant
                            k <= rows@.len(),
                            comps == self.state.registered_components@,
                            b == (hx, hy, hw, hh),
                            forall|j: int| 0 <= j < rows@.len() ==> (#[trigger] rows@[j].comp_idx as int) < comps.len(),
                            match found {
                                Some(f) => row_with_box(comps, rows@, b, 0) == Some(f as int) && (f as int) < rows@.len(),
                                None => row_with_box(comps, rows@, b, 0) == row_with_box(comps, rows@, b, k as int),
                            },
                        decreases rows@.len() - k + if found is Some { 0int } else { 1int },
                    {
                        let c = &self.state.registered_components[rows[k].comp_idx];
                        if c.position.0 == hx && c.position.1 == hy && c.size.0 == hw && c.size.1 == hh {
                            found = Some(k);
                        } else {
                            k = k + 1;
                        }
                    }
                    if let Some(row_idx) = found {
                        self.state.scene_selected = Some(row_idx);
                        if row_idx < self.state.scene_scroll {
                            self.state.scene_scroll = row_idx;
                        } else if row_idx - self.state.scene_scroll >= SCENE_VISIBLE_ROWS {
                            self.state.scene_scroll = row_idx + 1 - SCENE_VISIBLE_ROWS;
                        }
                    }
                },
                None => {},
            }
        }
    }

    /// Handle a click at panel-local pixel `(x, y)`; see [`click_ok`].
    /// Returns whether the panel consumed the click.
    pub fn handle_panel_click(&mut self, x: u32, y: u32, panel_w: u32, panel_h: u32) -> (r: bool)
        requires
            old(self).debug_state().panel_visible && old(self).debug_state().active_tab == DebugTab::Scene ==> all_fit(
                old(self).debug_state().registered_components@,
            ) && panel_h <= i32::MAX,
        ensures
            click_ok(old(self).debug_state(), final(self).debug_state(), x, y, panel_w, panel_h, r),
            final(self).inspector_tab() == old(self).inspector_tab(),
            final(self).control() == old(self).control(),
    {
        if !self.state.panel_visible {
            return false;
        }
        let ghost s0 = self.state;
        if self.state.active_tab == DebugTab::Scene {
            let hits = compute_scene_hits(panel_w, panel_h, &self.state);
            let ghost count = hits@.len() as int;
            let mut k: usize = 0;
            while k < hits.len()
                invariant
                    self.state == s0,
                    s0 == old(self).state,
                    self.inspector == old(self).inspector,
                    self.control_held == old(self).control_held,
                    s0.panel_visible,
                    s0.active_tab == DebugTab::Scene,
                    all_fit(s0.registered_components@),
                    count == hit_count(panel_h as int, s0),
                    k <= hits@.len(),
                    count == hits@.len(),
                    forall|j: int| #![trigger hits@[j]] 0 <= j < hits@.len() ==> hits@[j] == (crate::eink::debug::panel::SceneHitRect {
                        y: (TREE_BASELINE_CY - FONT_ASCENT + j * LINE_HEIGHT) as u32,
                        h: LINE_HEIGHT as u32,
                        abs_idx: (self.state.scene_scroll + j) as usize,
                    }),
                    hits@.len() <= 0x7fff_ffffint / 13 + 2,
                    forall|j: int| 0 <= j < k ==> !#[trigger] in_tree_row(y as int, j),
                decreases hits@.len() - k,
            {
                let hit = hits[k];
                if y >= hit.y && y < hit.y + hit.h {
                    assert(click_row(y as int, count) == Some(k as int));
                    let abs = hit.abs_idx;
                    assert(hit == hits@[k as int]);
                    assert(abs == (s0.scene_scroll + k) as usize);
                    let already_selected = match self.state.scene_selected {
                        Some(v) => v == abs,
                        None => false,
                    };
                    self.state.scene_selected = Some(abs);
                    let rows = self.state.build_scene_rows();
                    let nrows = rows.len();
                    assert(s0.scene_scroll + k < nrows);
                    assert(abs as int == s0.scene_scroll + k);
                    assert(abs < rows@.len());
                    let row = rows[abs];
                    let comp = self.state.registered_components[row.comp_idx].clone();
                    self.state.selected_component = Some(comp.clone());
                    if already_selected && (row.has_children || row.is_label_group) {
                        self.state.toggle_node_collapsed(&comp);
                    }
                    assert(rows@ == scene_rows(s0.registered_components@, s0.expanded_nodes@));
                    assert(row_click_ok(s0, self.state, abs as int));
                    return true;
                }
                k = k + 1;
            }
            proof {
                if click_row(y as int, count) is Some {
                    let q = click_row(y as int, count).unwrap();
                    assert(in_tree_row(y as int, q));
                }
            }
            if INSPECT_HIT_Y_START <= y && y < INSPECT_HIT_Y_END {
                self.state.toggle_inspector();
                return true;
            }
        }
        if TAB_HIT_Y_START <= y && y < TAB_HIT_Y_END {
            let tab_w = (if panel_w >= 1 { panel_w - 1 } else { 0 }) / 3;
            if tab_w > 0 {
                let tab_x = if x >= 1 { x - 1 } else { 0 };
                let idx = tab_x / tab_w;
                self.state.active_tab = if idx == 0 {
                    DebugTab::Scene
                } else if idx == 1 {
                    DebugTab::Display
                } else {
                    DebugTab::Power
                };
            }
            return true;
        }
        false
    }
}


/// `t` is `s` after a click on the display area: the hovered component
/// becomes the selected one, and nothing is selected when nothing is
/// hovered; `changed` tells whether that changed the selection (a hovered
/// component with another box than the selected one, or a selection
/// cleared). Nothing else changes.
pub open spec fn select_ok(s: DebugState, t: DebugState, changed: bool) -> bool {
    &&& match s.hovered_component {
        Some(h) => (t.selected_component matches Some(sel) && same_info(sel, h)) && changed == !(
        s.selected_component matches Some(x) && x.position == h.position && x.size == h.size),
        None => t.selected_component is None && changed == s.selected_component is Some,
    }
    &&& t == (DebugState { selected_component: t.selected_component, ..s })
}

/// The panel-local row of a window row `y`: rows above the window count
/// as row 0.
pub open spec fn panel_row(y: i32) -> u32 {
    if y < 0 { 0 } else { y as u32 }
}

impl DebugManager {
    /// A click on the display area; see [`select_ok`]. Returns whether the
    /// selection changed.
    pub fn select_hovered_component(&mut self) -> (changed: bool)
        ensures
            select_ok(old(self).debug_state(), final(self).debug_state(), changed),
            final(self).inspector_tab() == old(self).inspector_tab(),
            final(self).control() == old(self).control(),
    {
        match &self.state.hovered_component {
            Some(comp) => {
                let already = match &self.state.selected_component {
                    Some(s) => s.position.0 == comp.position.0 && s.position.1 == comp.position.1
                        && s.size.0 == comp.size.0 && s.size.1 == comp.size.1,
                    None => false,
                };
                let c = comp.clone();
                self.state.selected_component = Some(c);
                !already
            },
            None => {
                if self.state.selected_component.is_some() {
                    self.state.selected_component = None;
                    true
                } else {
                    false
                }
            },
        }
    }

    /// A left click at window pixel `cursor` (rounded down), with the
    /// debug panel starting at column `panel_start`: inside the open panel
    /// it is a panel click at panel-local coordinates (see [`click_ok`]),
    /// elsewhere it selects the hovered component (see [`select_ok`]).
    /// Without a known cursor nothing happens. Returns whether the window
    /// needs repainting.
    pub fn handle_click(&mut self, cursor: Option<(i32, i32)>, panel_start: u32, panel_w: u32, panel_h: u32) -> (repaint: bool)
        requires
            old(self).debug_state().panel_visible && old(self).debug_state().active_tab == DebugTab::Scene ==> all_fit(
                old(self).debug_state().registered_components@,
            ) && panel_h <= i32::MAX,
        ensures
            match cursor {
                None => final(self).debug_state() == old(self).debug_state() && !repaint,
                Some((cx, cy)) => if cx >= panel_start && old(self).debug_state().panel_visible {
                    click_ok(
                        old(self).debug_state(),
                        final(self).debug_state(),
                        (cx - panel_start) as u32,
                        panel_row(cy),
                        panel_w,
                        panel_h,
                        repaint,
                    )
                } else {
                    select_ok(old(self).debug_state(), final(self).debug_state(), repaint)
                },
            },
            final(self).inspector_tab() == old(self).inspector_tab(),
            final(self).control() == old(self).control(),
    {
        let (cx, cy) = match cursor {
            Some(p) => p,
            None => return false,
        };
        if cx >= 0 && cx as u32 >= panel_start && self.state.panel_visible {
            let y: u32 = if cy < 0 { 0 } else { cy as u32 };
            self.handle_panel_click(cx as u32 - panel_start, y, panel_w, panel_h)
        } else {
            self.select_hovered_component()
        }
    }

    /// Whether the pointer cursor is shown at window pixel `cursor`
    /// (column 0 when unknown): over the open panel, or over a hovered
    /// component in inspector mode.
    pub fn pointer_cursor(&self, cursor: Option<(i32, i32)>, panel_start: u32) -> (r: bool)
        ensures
            r == ((self.debug_state().panel_visible && match cursor {
                Some((x, _)) => x,
                None => 0,
            } >= panel_start) || (self.debug_state().inspector_mode && self.debug_state().hovered_component is Some)),
    {
        let x: i32 = match cursor {
            Some((x, _)) => x,
            None => 0,
        };
        if self.state.panel_visible && x >= 0 && x as u32 >= panel_start {
            return true;
        }
        self.state.inspector_mode && self.state.hovered_component.is_some()
    }
}

} // verus!
