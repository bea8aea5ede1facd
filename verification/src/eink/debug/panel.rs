//! Hit-testing of the debug side panel: which rows of the scene tree are
//! visible and where each one sits.
//!
//! Panel layout, top to bottom (`cy` is a text baseline; a glyph's top is
//! [`FONT_ASCENT`] above it): title at 10, first separator at 23, tab bar at
//! 27, second separator at 40, inspect hint at 44, first tree row at 57.
use vstd::prelude::*;
use crate::eink::debug::state::{DebugState, DebugTab, all_fit, scene_rows};
use crate::eink::debug::overlay::{fill_rect_solid, rect_filled, same_text, solid_fits};
use crate::eink::debug::state::{children_of, edges_fit, parent_index, ComponentInfo, SceneRow};
use crate::eink::text::{
    decimal, fmt_i64, fmt_u64, lemma_u64_digits, pad_left, pad_to, prefix, repeat, repeat_str, signed_decimal,
    take_chars,
};
use vstd::string::StringExecFns;
use vstd::arithmetic::mul::lemma_mul_inequality;

verus! {

/// Width of the legacy overlay panel.
pub const PANEL_WIDTH: u32 = 200;
/// Background of the legacy overlay panel: semi-transparent dark gray.
pub const PANEL_BG_COLOR: u32 = 0xDC282828;

/// The legacy overlay panel: a dark strip down the right of the screen.
pub struct DebugPanel {
    width: u32,
}

impl DebugPanel {
    /// The panel's width.
    pub closed spec fn panel_w(&self) -> u32 {
        self.width
    }

    /// A panel [`PANEL_WIDTH`] wide.
    pub fn new() -> (r: Self)
        ensures
            r.panel_w() == PANEL_WIDTH,
    {
        DebugPanel { width: PANEL_WIDTH }
    }

    /// The panel's width.
    pub fn width(&self) -> (r: u32)
        ensures
            r == self.panel_w(),
    {
        self.width
    }

    /// Paint the panel's strip, the rightmost columns of a
    /// `screen_width × screen_height` buffer, when the panel is visible.
    pub fn render(&self, buffer: &mut [u32], screen_width: u32, screen_height: u32, state: &DebugState)
        requires
            state.panel_visible ==> screen_width >= self.panel_w() && solid_fits(
                screen_width,
                screen_height,
                screen_width - self.panel_w(),
                0,
                self.panel_w() as int,
                screen_height as int,
            ),
        ensures
            !state.panel_visible ==> final(buffer)@ == old(buffer)@,
            state.panel_visible ==> final(buffer)@ == rect_filled(
                old(buffer)@,
                screen_width,
                screen_height,
                screen_width - self.panel_w(),
                0,
                self.panel_w() as int,
                screen_height as int,
                PANEL_BG_COLOR,
            ),
    {
        if !state.panel_visible {
            return;
        }
        let panel_x = screen_width - self.width;
        fill_rect_solid(buffer, screen_width, screen_height, panel_x, 0, self.width, screen_height, PANEL_BG_COLOR);
    }
}

impl Default for DebugPanel {
    fn default() -> (r: Self)
        ensures
            r.panel_w() == PANEL_WIDTH,
    {
        DebugPanel::new()
    }
}

/// Tab bar clickable zone: y in `[TAB_HIT_Y_START, TAB_HIT_Y_END)`.
pub const TAB_HIT_Y_START: u32 = 18;
pub const TAB_HIT_Y_END: u32 = 40;

/// Inspect-mode toggle clickable zone: y in
/// `[INSPECT_HIT_Y_START, INSPECT_HIT_Y_END)`, between the second separator
/// and the first tree row.
pub const INSPECT_HIT_Y_START: u32 = 40;
pub const INSPECT_HIT_Y_END: u32 = 57;

/// Baseline `cy` of the first tree row.
pub const TREE_BASELINE_CY: i32 = 57;
/// Ascent of the 6x10 font: baseline-to-top distance.
pub const FONT_ASCENT: i32 = 9;
/// Line height of a tree row.
pub const LINE_HEIGHT: i32 = 13;

/// A hit-testable rectangle covering one visible scene tree row.
#[derive(Debug, Clone, Copy, PartialEq, Eq, Structural)]
pub struct SceneHitRect {
    /// Top pixel row in panel-local coordinates.
    pub y: u32,
    /// Height of the row in pixels.
    pub h: u32,
    /// Absolute index into the scene rows.
    pub abs_idx: usize,
}

/// Height of the metadata block under the tree: separator, padding and five
/// data lines when a row is selected, two hint lines otherwise.
pub open spec fn meta_height(selected: bool) -> int {
    if selected { 2 + 3 + 5 * LINE_HEIGHT } else { 2 + 3 + 2 * LINE_HEIGHT }
}

/// Number of tree rows that fit in a panel of `height` (at least two),
/// capped at `total`.
pub open spec fn rows_that_fit(height: int, selected: bool, total: int) -> int {
    let budget = height - TREE_BASELINE_CY - meta_height(selected) - 4;
    let per = if budget < 2 * LINE_HEIGHT { 2 } else { budget / (LINE_HEIGHT as int) };
    if per < total { per } else { total }
}

/// Number of visible tree rows: from the scroll offset to the end of the
/// window that fits, and none off the Scene tab or with nothing registered.
pub open spec fn hit_count(height: int, state: DebugState) -> int {
    let total = scene_rows(state.registered_components@, state.expanded_nodes@).len() as int;
    if state.active_tab != DebugTab::Scene || state.registered_components@.len() == 0 {
        0
    } else {
        let vis = rows_that_fit(height, state.scene_selected is Some, total);
        let end = if state.scene_scroll + vis < total { state.scene_scroll + vis } else { total };
        if end > state.scene_scroll { end - state.scene_scroll } else { 0 }
    }
}

/// Hit-test rectangles of the visible scene-tree rows: row `k` on screen is
/// scene row `scroll + k`, its top at `TREE_BASELINE_CY - FONT_ASCENT + k *
/// LINE_HEIGHT`.
pub fn compute_scene_hits(panel_w: u32, height: u32, state: &DebugState) -> (r: Vec<SceneHitRect>)
    requires
        all_fit(state.registered_components@),
        height <= i32::MAX,
    ensures
        r@.len() == hit_count(height as int, *state),
        forall|k: int| #![trigger r@[k]] 0 <= k < r@.len() ==> r@[k] == (SceneHitRect {
            y: (TREE_BASELINE_CY - FONT_ASCENT + k * LINE_HEIGHT) as u32,
            h: LINE_HEIGHT as u32,
            abs_idx: (state.scene_scroll + k) as usize,
        }),
{
    let mut hits: Vec<SceneHitRect> = Vec::new();
    if state.active_tab != DebugTab::Scene || state.registered_components.len() == 0 {
        return hits;
    }
    let rows = state.build_scene_rows();
    let total = rows.len();
    let meta_h: i32 = if state.scene_selected.is_some() { 2 + 3 + 5 * LINE_HEIGHT } else { 2 + 3 + 2 * LINE_HEIGHT };
    let budget: i32 = height as i32 - TREE_BASELINE_CY - meta_h - 4;
    let per: usize = if budget < 2 * LINE_HEIGHT { 2 } else { (budget as u32 / LINE_HEIGHT as u32) as usize };
    let vis: usize = if per < total { per } else { total };
    let scroll = state.scene_scroll;
    let count: usize = if scroll >= total { 0 } else if vis < total - scroll { vis } else { total - scroll };
    assert(count as int == hit_count(height as int, *state));
    assert(per <= 0x7fff_ffffint / 13 + 2);
    let mut k: usize = 0;
    while k < count
        invariant
            k <= count,
            count <= per,
            per <= 0x7fff_ffffint / 13 + 2,
            count <= total - scroll || count == 0,
            hits@.len() == k,
            forall|j: int| #![trigger hits@[j]] 0 <= j < k ==> hits@[j] == (SceneHitRect {
                y: (TREE_BASELINE_CY - FONT_ASCENT + j * LINE_HEIGHT) as u32,
                h: LINE_HEIGHT as u32,
                abs_idx: (scroll + j) as usize,
            }),
        decreases count - k,
    {
        assert(k * 13 <= 0x7fff_ffffint + 26) by (nonlinear_arith)
            requires
                k <= 0x7fff_ffffint / 13 + 2,
        ;
        let y: u32 = (TREE_BASELINE_CY - FONT_ASCENT) as u32 + k as u32 * LINE_HEIGHT as u32;
        hits.push(SceneHitRect { y, h: LINE_HEIGHT as u32, abs_idx: scroll + k });
        k = k + 1;
    }
    hits
}


/// Panel text colours (`0xRRGGBB`).
pub const COL_NORMAL: u32 = 0xC3C3D7;
pub const COL_DIM: u32 = 0x55556E;
pub const COL_WHITE: u32 = 0xDCDCFF;
pub const COL_GREEN: u32 = 0x50C878;
pub const COL_WARN: u32 = 0xFFA03C;
pub const COL_ERR: u32 = 0xFF5050;
pub const COL_CYAN: u32 = 0x50D2D2;

/// A piece of panel text, drawn with the 6 × 10 font by the caller: its
/// left edge, its baseline, the text and its colour (`0xRRGGBB`).
pub struct PanelText {
    pub x: i32,
    pub y: i32,
    pub text: String,
    pub color: u32,
}

/// A panel text by its values.
pub type TextV = (int, int, Seq<char>, u32);

pub open spec fn text_view(t: PanelText) -> TextV {
    (t.x as int, t.y as int, t.text@, t.color)
}

pub open spec fn texts_view(v: Seq<PanelText>) -> Seq<TextV> {
    v.map_values(|t: PanelText| text_view(t))
}

/// A block drawn behind text (tab backgrounds, selected and hovered rows).
#[derive(Debug, Clone, Copy, PartialEq, Eq, Structural)]
pub struct PanelHighlight {
    pub x: u32,
    pub y: u32,
    pub w: u32,
    pub h: u32,
    /// ARGB colour.
    pub color: u32,
}

/// The power graph's readings, formatted by the caller: the current draw
/// and its colour, the average, and the chart's peak label with its sample
/// count when it has samples.
pub struct PowerReadout {
    pub now: String,
    pub now_color: u32,
    pub avg: String,
    pub axis: Option<(String, usize)>,
}

/// The power statistics, formatted by the caller: peak draw, time shares
/// and battery estimate.
pub struct StatsReadout {
    pub peak: String,
    pub shares: String,
    pub battery: String,
}

/// What the side panel shows.
pub struct PanelInfo<'a> {
    /// Current debug toggle states.
    pub state: &'a DebugState,
    /// Display width before rotation, in physical pixels.
    pub disp_w: u32,
    /// Display height before rotation, in physical pixels.
    pub disp_h: u32,
    /// Rotation of the display output: 0, 90, 180 or 270 degrees.
    pub rotation_deg: u32,
    /// Integer pixel scale.
    pub scale: u32,
    /// Operating temperature in °C.
    pub temperature: i8,
    /// Whether the power graph overlay is shown.
    pub power_graph_enabled: bool,
    /// The power graph's readings, where there is a graph.
    pub power: Option<PowerReadout>,
    /// The power statistics, where they are tracked.
    pub power_stats: Option<StatsReadout>,
}

/// The panel's content: texts, separator rows, highlight blocks and, on
/// the Power tab, the chart's area `(x, y, w, h)`.
pub struct PanelLayout {
    pub texts: Vec<PanelText>,
    pub seps: Vec<u32>,
    pub highlights: Vec<PanelHighlight>,
    pub graph_area: Option<(u32, u32, u32, u32)>,
}

/// `a / b` rounded toward zero, as `i32` division does (`b > 0`).
pub open spec fn trunc_div(a: int, b: int) -> int {
    if a >= 0 {
        a / b
    } else {
        -((-a) / b)
    }
}

/// `on` shows in colour `c`, off in the dim colour.
pub open spec fn on_off(on: bool, c: u32) -> u32 {
    if on {
        c
    } else {
        COL_DIM
    }
}

/// The position of a tab in the tab bar.
pub open spec fn tab_index(t: DebugTab) -> int {
    match t {
        DebugTab::Scene => 0,
        DebugTab::Display => 1,
        DebugTab::Power => 2,
    }
}

/// The width of a tab cell: a third of the panel right of its border.
pub open spec fn tab_cell_w(pw: u32) -> int {
    (pw - 1) / 3
}

pub open spec fn tab_cell_x(pw: u32, i: int) -> int {
    1 + i * tab_cell_w(pw)
}

pub open spec fn tab_label(i: int) -> Seq<char> {
    if i == 0 {
        "SCENE"@
    } else if i == 1 {
        "DISP"@
    } else {
        "PWR"@
    }
}

pub open spec fn tab_label_len(i: int) -> int {
    if i == 0 {
        5
    } else if i == 1 {
        4
    } else {
        3
    }
}

/// The label of tab `i`, centred in its cell but at least two pixels in.
pub open spec fn tab_label_x(pw: u32, i: int) -> int {
    let tx = tab_cell_x(pw, i);
    let lx = tx + trunc_div(tab_cell_w(pw) - tab_label_len(i) * 6, 2);
    if lx > tx + 2 {
        lx
    } else {
        tx + 2
    }
}

pub open spec fn tab_text(pw: u32, st: DebugState, i: int) -> TextV {
    (tab_label_x(pw, i), 27, tab_label(i), if tab_index(st.active_tab) == i { COL_WHITE } else { COL_DIM })
}

/// The title bar and the tab bar: the title, the B / I / P indicators
/// right-aligned, and the three tab labels.
pub open spec fn header_texts(pw: u32, st: DebugState, power_on: bool) -> Seq<TextV> {
    let ix = pw - 29;
    seq![
        (5, 10, "E-INK DEBUG"@, COL_WHITE),
        (ix, 10, "B"@, on_off(st.borders_enabled, COL_GREEN)),
        (ix + 8, 10, "I"@, on_off(st.inspector_mode, COL_CYAN)),
        (ix + 16, 10, "P"@, on_off(power_on, COL_WARN)),
        tab_text(pw, st, 0),
        tab_text(pw, st, 1),
        tab_text(pw, st, 2),
    ]
}

/// The background of the active tab.
pub open spec fn tab_highlight(pw: u32, st: DebugState) -> PanelHighlight {
    PanelHighlight {
        x: tab_cell_x(pw, tab_index(st.active_tab)) as u32,
        y: 18,
        w: tab_cell_w(pw) as u32,
        h: 13,
        color: 0xFF1E3D62,
    }
}

pub open spec fn rotation_name(r: u32) -> Seq<char> {
    if r == 0 {
        "landscape"@
    } else if r == 90 {
        "portrait"@
    } else if r == 180 {
        "inverted"@
    } else if r == 270 {
        "portrait-R"@
    } else {
        "custom"@
    }
}

/// The window's size: the scaled display, turned for 90 and 270 degrees.
pub open spec fn window_size(disp_w: u32, disp_h: u32, rot: u32, scale: u32) -> (int, int) {
    if rot == 90 || rot == 270 {
        (disp_h * scale, disp_w * scale)
    } else {
        (disp_w * scale, disp_h * scale)
    }
}

pub open spec fn scale_text(disp_w: u32, disp_h: u32, rot: u32, scale: u32) -> Seq<char> {
    let (ww, wh) = window_size(disp_w, disp_h, rot, scale);
    if scale == 1 {
        "Scale: 1x  (native)"@
    } else {
        "Scale: "@ + decimal(scale as nat) + "x  ("@ + decimal(ww as nat) + "x"@ + decimal(wh as nat) + ")"@
    }
}

/// The temperature's status and its colour.
pub open spec fn temp_status(t: i8) -> (Seq<char>, u32) {
    if t < 0 {
        ("VERY COLD"@, COL_ERR)
    } else if t < 5 {
        ("COLD"@, COL_WARN)
    } else if t > 40 {
        ("VERY HOT"@, COL_ERR)
    } else if t > 35 {
        ("HOT"@, COL_WARN)
    } else {
        ("OK"@, COL_GREEN)
    }
}

/// Line `k` of the hotkey list.
pub open spec fn hotkey(k: int) -> Seq<char> {
    if k == 0 {
        "Ctrl+1  Toggle panel"@
    } else if k == 1 {
        "Ctrl+2  Layout overlay"@
    } else if k == 2 {
        "Ctrl+3  Hover inspect"@
    } else if k == 3 {
        "Ctrl+4  Power graph"@
    } else if k == 4 {
        "Tab     Next tab"@
    } else if k == 5 {
        "Arrows  Navigate scene"@
    } else if k == 6 {
        "Enter   Expand/collapse"@
    } else {
        "F11     Block fullscreen"@
    }
}

/// The Display tab: size, rotation, scale and temperature, then the
/// refresh counts under a separator, then the hotkeys under another.
pub open spec fn display_texts(info: PanelInfo) -> Seq<TextV> {
    let st = *info.state;
    let status = temp_status(info.temperature);
    seq![
        (5, 44, "DISPLAY"@, COL_DIM),
        (5, 57, decimal(info.disp_w as nat) + " x "@ + decimal(info.disp_h as nat), COL_NORMAL),
        (5, 70, "Rot: "@ + decimal(info.rotation_deg as nat) + "deg  ("@ + rotation_name(info.rotation_deg) + ")"@, COL_NORMAL),
        (5, 83, scale_text(info.disp_w, info.disp_h, info.rotation_deg, info.scale), COL_NORMAL),
        (5, 96, "Temp: "@ + pad_left(signed_decimal(info.temperature as int), 3) + "C  "@, COL_NORMAL),
        (71, 96, status.0, status.1),
        (5, 114, "REFRESH"@, COL_DIM),
        (5, 127, "Full:    "@ + decimal(st.full_refresh_count as nat), COL_NORMAL),
        (5, 140, "Partial: "@ + decimal(st.partial_refresh_count as nat), COL_NORMAL),
        (5, 158, "HOTKEYS"@, COL_DIM),
    ] + Seq::new(8, |k: int| (5, 171 + 13 * k, hotkey(k), COL_DIM))
}

/// The baseline after the Power tab's readings: under the title, two
/// lines of graph readings (or one saying there are none), then three of
/// statistics where there are any.
pub open spec fn power_readings_end(info: PanelInfo) -> int {
    57 + 13 * (if info.power is Some { 2int } else { 1int }) + 13 * (if info.power_stats is Some { 3int } else { 0int })
}

/// The top of the power chart: under the separator and the chart title.
pub open spec fn chart_top(info: PanelInfo) -> int {
    power_readings_end(info) + 5 + 11
}

/// The chart's height: what is left above a 24-pixel legend, at most 120.
pub open spec fn chart_h(height: u32, info: PanelInfo) -> int {
    let left = height - (chart_top(info) + 24);
    if left <= 0 {
        0
    } else if left < 120 {
        left
    } else {
        120
    }
}

/// The right-aligned sample count under the chart.
pub open spec fn samples_text(n: usize) -> Seq<char> {
    decimal(n as nat) + " smpl"@
}

pub open spec fn right_aligned_x(pw: u32, len: int, floor: int) -> int {
    let x = pw - len * 6 - 5;
    if x > floor {
        x
    } else {
        floor
    }
}

/// The Power tab: readings, statistics, then under a separator the chart
/// title, the chart, its legend and its axis labels.
pub open spec fn power_texts(pw: u32, height: u32, info: PanelInfo) -> Seq<TextV> {
    let readings = match info.power {
        Some(p) => seq![(5, 57, p.now@, p.now_color), (5, 70, p.avg@, COL_NORMAL)],
        None => seq![(5, 57, "No data"@, COL_DIM)],
    };
    let y = 57 + 13 * (if info.power is Some { 2int } else { 1int });
    let stats = match info.power_stats {
        Some(s) => seq![(5, y, s.peak@, COL_NORMAL), (5, y + 13, s.shares@, COL_DIM), (5, y + 26, s.battery@, COL_CYAN)],
        None => Seq::empty(),
    };
    let title_y = power_readings_end(info) + 5;
    let legend_y = chart_top(info) + chart_h(height, info) + 4;
    let axis = match info.power {
        Some(p) => match p.axis {
            Some((peak, n)) => seq![
                (5, legend_y + 13, peak@, COL_DIM),
                (right_aligned_x(pw, samples_text(n).len() as int, 45), legend_y + 13, samples_text(n), COL_DIM),
            ],
            None => Seq::empty(),
        },
        None => Seq::empty(),
    };
    seq![(5, 44, "POWER"@, COL_DIM)] + readings + stats + seq![
        (5, title_y, "POWER HISTORY"@, COL_DIM),
        (5, legend_y, "Idle"@, 0x205888),
        (29, legend_y, "Part"@, 0xB07020),
        (53, legend_y, "Full"@, 0xCC3030),
    ] + axis
}

/// Where the pieces of the panel fit: its width is at least 1 and fits
/// `i32`, its height leaves room for the last lines' baselines in `i32`,
/// on the Display tab the window size fits `u32`, and on the Scene tab the
/// components and scroll offset are in range (see [`scene_fits`]).
pub open spec fn layout_fits(pw: u32, height: u32, info: PanelInfo) -> bool {
    &&& 1 <= pw <= i32::MAX
    &&& height <= i32::MAX - 256
    &&& info.state.active_tab == DebugTab::Display ==> info.disp_w * info.scale <= u32::MAX && info.disp_h
        * info.scale <= u32::MAX
    &&& info.state.active_tab == DebugTab::Scene ==> scene_fits(*info.state)
}

/// Push a text.
fn push_text(v: &mut Vec<PanelText>, x: i32, y: i32, text: String, color: u32)
    ensures
        texts_view(final(v)@) == texts_view(old(v)@).push((x as int, y as int, text@, color)),
{
    let ghost before = v@;
    let ghost t = text@;
    v.push(PanelText { x, y, text, color });
    assert(texts_view(v@) =~= texts_view(before).push((x as int, y as int, t, color)));
}

/// Push a text given as a literal.
fn push_lit(v: &mut Vec<PanelText>, x: i32, y: i32, text: &str, color: u32)
    ensures
        texts_view(final(v)@) == texts_view(old(v)@).push((x as int, y as int, text@, color)),
{
    push_text(v, x, y, String::from_str(text), color);
}

/// The title bar and tab bar texts and the active tab's background.
fn header(pw: u32, st: &DebugState, power_on: bool, texts: &mut Vec<PanelText>) -> (r: PanelHighlight)
    requires
        1 <= pw <= i32::MAX,
    ensures
        texts_view(final(texts)@) == texts_view(old(texts)@) + header_texts(pw, *st, power_on),
        r == tab_highlight(pw, *st),
{
    let ghost start = texts_view(texts@);
    push_lit(texts, 5, 10, "E-INK DEBUG", COL_WHITE);
    let ix: i32 = pw as i32 - 5 - 3 * 8;
    push_lit(texts, ix, 10, "B", if st.borders_enabled { COL_GREEN } else { COL_DIM });
    push_lit(texts, ix + 8, 10, "I", if st.inspector_mode { COL_CYAN } else { COL_DIM });
    push_lit(texts, ix + 16, 10, "P", if power_on { COL_WARN } else { COL_DIM });
    let tab_w = (pw - 1) / 3;
    let active: u32 = match st.active_tab {
        DebugTab::Scene => 0,
        DebugTab::Display => 1,
        DebugTab::Power => 2,
    };
    let mut i: u32 = 0;
    while i < 3
        invariant
            1 <= pw <= i32::MAX,
            tab_w == tab_cell_w(pw),
            active == tab_index(st.active_tab),
            i <= 3,
            texts_view(texts@) == start + header_texts(pw, *st, power_on).take(4 + i),
        decreases 3 - i,
    {
        let tx = 1 + i * tab_w;
        let len: i32 = if i == 0 { 5 } else if i == 1 { 4 } else { 3 };
        let lx = tx as i32 + (tab_w as i32 - len * 6) / 2;
        let x = if lx > tx as i32 + 2 { lx } else { tx as i32 + 2 };
        let color = if i == active { COL_WHITE } else { COL_DIM };
        if i == 0 {
            push_lit(texts, x, 27, "SCENE", color);
        } else if i == 1 {
            push_lit(texts, x, 27, "DISP", color);
        } else {
            push_lit(texts, x, 27, "PWR", color);
        }
        assert(header_texts(pw, *st, power_on).take(5 + i) =~= header_texts(pw, *st, power_on).take(4 + i).push(
            tab_text(pw, *st, i as int),
        ));
        i = i + 1;
    }
    assert(header_texts(pw, *st, power_on).take(7) =~= header_texts(pw, *st, power_on));
    PanelHighlight { x: 1 + active * tab_w, y: 18, w: tab_w, h: 13, color: 0xFF1E3D62 }
}

/// The name of a rotation.
fn rotation_name_str(r: u32) -> (n: &'static str)
    ensures
        n@ == rotation_name(r),
{
    if r == 0 {
        "landscape"
    } else if r == 90 {
        "portrait"
    } else if r == 180 {
        "inverted"
    } else if r == 270 {
        "portrait-R"
    } else {
        "custom"
    }
}

/// Line `k` of the hotkey list.
fn hotkey_str(k: u32) -> (h: &'static str)
    ensures
        h@ == hotkey(k as int),
{
    if k == 0 {
        "Ctrl+1  Toggle panel"
    } else if k == 1 {
        "Ctrl+2  Layout overlay"
    } else if k == 2 {
        "Ctrl+3  Hover inspect"
    } else if k == 3 {
        "Ctrl+4  Power graph"
    } else if k == 4 {
        "Tab     Next tab"
    } else if k == 5 {
        "Arrows  Navigate scene"
    } else if k == 6 {
        "Enter   Expand/collapse"
    } else {
        "F11     Block fullscreen"
    }
}

/// The Display tab's texts and separators.
fn display_tab(info: &PanelInfo, texts: &mut Vec<PanelText>, seps: &mut Vec<u32>)
    requires
        info.disp_w * info.scale <= u32::MAX,
        info.disp_h * info.scale <= u32::MAX,
    ensures
        texts_view(final(texts)@) == texts_view(old(texts)@) + display_texts(*info),
        final(seps)@ == old(seps)@ + seq![109u32, 153u32],
{
    let ghost start = texts_view(texts@);
    let st = info.state;
    push_lit(texts, 5, 44, "DISPLAY", COL_DIM);
    let size = fmt_u64(info.disp_w as u64).concat(" x ").concat(fmt_u64(info.disp_h as u64).as_str());
    push_text(texts, 5, 57, size, COL_NORMAL);
    let rot = String::from_str("Rot: ").concat(fmt_u64(info.rotation_deg as u64).as_str()).concat("deg  (").concat(
        rotation_name_str(info.rotation_deg),
    ).concat(")");
    push_text(texts, 5, 70, rot, COL_NORMAL);
    let (win_w, win_h) = if info.rotation_deg == 90 || info.rotation_deg == 270 {
        (info.disp_h * info.scale, info.disp_w * info.scale)
    } else {
        (info.disp_w * info.scale, info.disp_h * info.scale)
    };
    let scale = if info.scale == 1 {
        String::from_str("Scale: 1x  (native)")
    } else {
        String::from_str("Scale: ").concat(fmt_u64(info.scale as u64).as_str()).concat("x  (").concat(
            fmt_u64(win_w as u64).as_str(),
        ).concat("x").concat(fmt_u64(win_h as u64).as_str()).concat(")")
    };
    push_text(texts, 5, 83, scale, COL_NORMAL);
    let temp = String::from_str("Temp: ").concat(pad_to(fmt_i64(info.temperature as i64), 3).as_str()).concat("C  ");
    push_text(texts, 5, 96, temp, COL_NORMAL);
    let t = info.temperature;
    if t < 0 {
        push_lit(texts, 71, 96, "VERY COLD", COL_ERR);
    } else if t < 5 {
        push_lit(texts, 71, 96, "COLD", COL_WARN);
    } else if t > 40 {
        push_lit(texts, 71, 96, "VERY HOT", COL_ERR);
    } else if t > 35 {
        push_lit(texts, 71, 96, "HOT", COL_WARN);
    } else {
        push_lit(texts, 71, 96, "OK", COL_GREEN);
    }
    seps.push(109);
    push_lit(texts, 5, 114, "REFRESH", COL_DIM);
    push_text(texts, 5, 127, String::from_str("Full:    ").concat(fmt_u64(st.full_refresh_count).as_str()), COL_NORMAL);
    push_text(
        texts,
        5,
        140,
        String::from_str("Partial: ").concat(fmt_u64(st.partial_refresh_count).as_str()),
        COL_NORMAL,
    );
    seps.push(153);
    push_lit(texts, 5, 158, "HOTKEYS", COL_DIM);
    let ghost before_keys = texts_view(texts@);
    assert(before_keys == start + display_texts(*info).take(10));
    let mut k: u32 = 0;
    while k < 8
        invariant
            k <= 8,
            texts_view(texts@) == start + display_texts(*info).take(10 + k),
        decreases 8 - k,
    {
        push_lit(texts, 5, 171 + 13 * k as i32, hotkey_str(k), COL_DIM);
        assert(display_texts(*info).take(11 + k) =~= display_texts(*info).take(10 + k).push(
            (5, 171 + 13 * k, hotkey(k as int), COL_DIM),
        ));
        k = k + 1;
    }
    assert(display_texts(*info).take(18) =~= display_texts(*info));
}

/// The Power tab's texts and separator; returns the chart's area.
fn power_tab(pw: u32, height: u32, info: &PanelInfo, texts: &mut Vec<PanelText>, seps: &mut Vec<u32>) -> (r: (
    u32,
    u32,
    u32,
    u32,
))
    requires
        1 <= pw <= i32::MAX,
    ensures
        texts_view(final(texts)@) == texts_view(old(texts)@) + power_texts(pw, height, *info),
        final(seps)@ == old(seps)@.push(power_readings_end(*info) as u32),
        r == (1u32, chart_top(*info) as u32, (pw - 1) as u32, chart_h(height, *info) as u32),
{
    let ghost start = texts_view(texts@);
    push_lit(texts, 5, 44, "POWER", COL_DIM);
    let mut cy: i32 = 57;
    match &info.power {
        Some(p) => {
            push_text(texts, 5, 57, p.now.clone(), p.now_color);
            push_text(texts, 5, 70, p.avg.clone(), COL_NORMAL);
            cy = 83;
        },
        None => {
            push_lit(texts, 5, 57, "No data", COL_DIM);
            cy = 70;
        },
    }
    match &info.power_stats {
        Some(s) => {
            push_text(texts, 5, cy, s.peak.clone(), COL_NORMAL);
            push_text(texts, 5, cy + 13, s.shares.clone(), COL_DIM);
            push_text(texts, 5, cy + 26, s.battery.clone(), COL_CYAN);
            cy = cy + 39;
        },
        None => {},
    }
    seps.push(cy as u32);
    cy = cy + 5;
    push_lit(texts, 5, cy, "POWER HISTORY", COL_DIM);
    cy = cy + 11;
    let gy = cy as u32;
    let gw = pw - 1;
    let left = height.saturating_sub(gy + 24);
    let gh = if left < 120 { left } else { 120 };
    cy = cy + gh as i32 + 4;
    push_lit(texts, 5, cy, "Idle", 0x205888);
    push_lit(texts, 29, cy, "Part", 0xB07020);
    push_lit(texts, 53, cy, "Full", 0xCC3030);
    cy = cy + 13;
    match &info.power {
        Some(p) => match &p.axis {
            Some((peak, n)) => {
                push_text(texts, 5, cy, peak.clone(), COL_DIM);
                let cnt = fmt_u64(*n as u64).concat(" smpl");
                proof {
                    lemma_u64_digits(*n as u64);
                    reveal_strlit(" smpl");
                }
                let len = cnt.as_str().unicode_len();
                let sx = pw as i32 - len as i32 * 6 - 5;
                push_text(texts, if sx > 45 { sx } else { 45 }, cy, cnt, COL_DIM);
            },
            None => {},
        },
        None => {},
    }
    assert(texts_view(texts@) =~= start + power_texts(pw, height, *info));
    (1, gy, gw, gh)
}

/// The three-letter abbreviation of a component type.
pub open spec fn abbrev(t: Seq<char>) -> Seq<char> {
    if t == "Container"@ {
        "CTN"@
    } else if t == "Label"@ {
        "LBL"@
    } else if t == "Button"@ {
        "BTN"@
    } else if t == "ProgressBar"@ {
        "PBR"@
    } else if t == "Text"@ {
        "TXT"@
    } else if t == "Image"@ {
        "IMG"@
    } else if t == "Stack"@ {
        "STK"@
    } else {
        "???"@
    }
}

/// How many characters of text fit a line of the panel.
pub open spec fn max_chars(pw: u32) -> int {
    let m = trunc_div(pw - 6, 6);
    if m > 1 {
        m
    } else {
        1
    }
}

/// The fold marker of a tree row.
pub open spec fn toggle_of(r: SceneRow) -> Seq<char> {
    if r.has_children || r.is_label_group {
        if r.is_collapsed {
            "+ "@
        } else {
            "- "@
        }
    } else {
        "  "@
    }
}

/// A component's test id, empty where it has none.
pub open spec fn test_name(c: ComponentInfo) -> Seq<char> {
    match c.test_id {
        Some(s) => s@,
        None => Seq::empty(),
    }
}

/// `WxH@X,Y` of a component.
pub open spec fn box_text(c: ComponentInfo) -> Seq<char> {
    decimal(c.size.0 as nat) + "x"@ + decimal(c.size.1 as nat) + "@"@ + signed_decimal(c.position.0 as int) + ","@
        + signed_decimal(c.position.1 as int)
}

/// The label of a tree row: a label group's count, else the type and
/// test id (its first 18 characters), or the type and box when unnamed.
pub open spec fn row_label(c: ComponentInfo, r: SceneRow) -> Seq<char> {
    if r.is_label_group {
        "LBL x"@ + decimal(r.label_group_count as nat)
    } else if test_name(c).len() == 0 {
        abbrev(c.component_type@) + " "@ + box_text(c)
    } else {
        abbrev(c.component_type@) + " "@ + prefix(test_name(c), 18)
    }
}

/// The text of a tree row: indented two spaces per level (at most four),
/// its fold marker and its label, cut to the panel's width.
pub open spec fn row_line(pw: u32, c: ComponentInfo, r: SceneRow) -> Seq<char> {
    prefix(
        repeat("  "@, if r.depth < 4 { r.depth as nat } else { 4 }) + toggle_of(r) + row_label(c, r),
        max_chars(pw),
    )
}

/// The hovered component, in inspect mode, is at `c`'s place and size.
pub open spec fn row_hovered(st: DebugState, abs: int, c: ComponentInfo) -> bool {
    &&& st.scene_selected != Some(abs as usize)
    &&& st.inspector_mode
    &&& st.hovered_component matches Some(h) && h.position == c.position && h.size == c.size
}

/// The colour of tree row `abs`: white when selected, amber when hovered,
/// else by depth (white, normal, dim).
pub open spec fn row_color(st: DebugState, abs: int, r: SceneRow, c: ComponentInfo) -> u32 {
    if st.scene_selected == Some(abs as usize) {
        COL_WHITE
    } else if row_hovered(st, abs, c) {
        COL_WARN
    } else if r.depth == 0 {
        COL_WHITE
    } else if r.depth == 1 {
        COL_NORMAL
    } else {
        COL_DIM
    }
}

/// The scene rows of the state.
pub open spec fn rows_of(st: DebugState) -> Seq<SceneRow> {
    scene_rows(st.registered_components@, st.expanded_nodes@)
}

/// How many tree rows show: from the scroll offset, as many as fit.
pub open spec fn tree_count(height: u32, st: DebugState) -> int {
    let total = rows_of(st).len() as int;
    let vis = rows_that_fit(height as int, st.scene_selected is Some, total);
    let end = if st.scene_scroll + vis < total { st.scene_scroll + vis } else { total };
    end - st.scene_scroll
}

/// The text of visible tree row `k`.
pub open spec fn tree_text(pw: u32, st: DebugState, k: int) -> TextV {
    let abs = st.scene_scroll + k;
    let r = rows_of(st)[abs];
    let c = st.registered_components@[r.comp_idx as int];
    (5, 57 + 13 * k, row_line(pw, c, r), row_color(st, abs, r, c))
}

/// The highlight blocks of the first `n` visible tree rows: blue behind
/// the selected row, dark amber behind the hovered one.
pub open spec fn tree_highlights(pw: u32, st: DebugState, n: int) -> Seq<PanelHighlight>
    decreases n,
{
    if n <= 0 {
        Seq::empty()
    } else {
        let k = n - 1;
        let abs = st.scene_scroll + k;
        let c = st.registered_components@[rows_of(st)[abs].comp_idx as int];
        let prev = tree_highlights(pw, st, k);
        let block = |color: u32| PanelHighlight { x: 1, y: (57 + 13 * k - 9) as u32, w: (pw - 1) as u32, h: 12, color };
        if st.scene_selected == Some(abs as usize) {
            prev.push(block(0xFF1E3D62))
        } else if row_hovered(st, abs, c) {
            prev.push(block(0xFF3A2800))
        } else {
            prev
        }
    }
}

/// The baseline under the tree: its rows, then the line counting the rows
/// below the window when there are any.
pub open spec fn tree_end(height: u32, st: DebugState) -> int {
    let total = rows_of(st).len() as int;
    57 + 13 * tree_count(height, st) + if st.scene_scroll + tree_count(height, st) < total { 13int } else { 0int }
}

/// The first line of the selected row's details: its abbreviation and
/// test id.
pub open spec fn meta_title(pw: u32, r: SceneRow, c: ComponentInfo) -> Seq<char> {
    let abbr = if r.is_label_group { "LBL"@ } else { abbrev(c.component_type@) };
    let tid = match c.test_id {
        Some(s) => s@,
        None => "(unnamed)"@,
    };
    let room = if max_chars(pw) > 7 { max_chars(pw) - 7 } else { 0 };
    "["@ + abbr + "] "@ + prefix(tid, room)
}

/// The parent line of the selected row's details.
pub open spec fn meta_parent(comps: Seq<ComponentInfo>, c: ComponentInfo) -> Seq<char> {
    match parent_index(comps, c) {
        Some(i) => {
            let p = comps[i];
            let pid = match p.test_id {
                Some(s) => s@,
                None => "?"@,
            };
            "^ ["@ + abbrev(p.component_type@) + "] "@ + prefix(pid, 14)
        },
        None => "^ (root)"@,
    }
}

/// The details under the tree: five lines on the selected row, none when
/// the selection is past the rows, two hint lines without a selection.
pub open spec fn meta_texts(pw: u32, st: DebugState, y: int) -> Seq<TextV> {
    let comps = st.registered_components@;
    match st.scene_selected {
        Some(sel) => if sel < rows_of(st).len() {
            let r = rows_of(st)[sel as int];
            let c = comps[r.comp_idx as int];
            seq![
                (5, y, meta_title(pw, r, c), COL_WHITE),
                (5, y + 13, decimal(c.size.0 as nat) + "x"@ + decimal(c.size.1 as nat) + "  @"@ + signed_decimal(
                    c.position.0 as int,
                ) + ","@ + signed_decimal(c.position.1 as int), COL_NORMAL),
                (5, y + 26, meta_parent(comps, c), COL_DIM),
                (5, y + 39, "v "@ + decimal(children_of(comps, c).len()) + " children  "@ + decimal(
                    (c.size.0 * c.size.1) as nat,
                ) + "px\u{00B2}"@, COL_DIM),
                (5, y + 52, "Arrows:nav  Enter:fold"@, COL_DIM),
            ]
        } else {
            Seq::empty()
        },
        None => seq![(5, y, "Arrows: navigate tree"@, COL_DIM), (5, y + 13, "Enter/L/R: expand/fold"@, COL_DIM)],
    }
}

/// The component count of the inspect line: visible rows over components.
pub open spec fn count_text(st: DebugState) -> Seq<char> {
    decimal(rows_of(st).len()) + "/"@ + decimal(st.registered_components@.len())
}

/// The Scene tab: a hint to refresh when nothing is registered; else the
/// inspect toggle and the counts, the visible tree rows, the count of
/// those below, and under a separator the details.
pub open spec fn scene_texts(pw: u32, height: u32, st: DebugState) -> Seq<TextV> {
    if st.registered_components@.len() == 0 {
        seq![
            (5, 44, "No nodes yet."@, COL_DIM),
            (5, 57, "Trigger a display refresh"@, COL_DIM),
            (5, 70, "to scan components."@, COL_DIM),
            (5, 91, "Arrows: navigate tree"@, COL_DIM),
            (5, 104, "Enter:  expand/collapse"@, COL_DIM),
            (5, 117, "Ctrl+3: hover-inspect"@, COL_DIM),
        ]
    } else {
        let total = rows_of(st).len() as int;
        let n = tree_count(height, st);
        let inspect = if st.inspector_mode {
            (5, 44, "[ INSPECT ]  hover=select"@, COL_CYAN)
        } else {
            (5, 44, "[ inspect ]  click to on"@, COL_DIM)
        };
        let more = if st.scene_scroll + n < total {
            seq![(5, 57 + 13 * n, "  +"@ + decimal((total - st.scene_scroll - n) as nat) + " more (Arrow-Down)"@, COL_DIM)]
        } else {
            Seq::empty()
        };
        seq![inspect, (right_aligned_x(pw, count_text(st).len() as int, 65), 44, count_text(st), COL_DIM)] + Seq::new(
            n as nat,
            |k: int| tree_text(pw, st, k),
        ) + more + meta_texts(pw, st, tree_end(height, st) + 4)
    }
}

/// The Scene tab's separator: under the hint, or under the tree.
pub open spec fn scene_seps(height: u32, st: DebugState) -> Seq<u32> {
    if st.registered_components@.len() == 0 {
        seq![87u32]
    } else {
        seq![tree_end(height, st) as u32]
    }
}

/// The Scene tab's highlight blocks: the inspect toggle when on, then the
/// selected and hovered tree rows.
pub open spec fn scene_highlights(pw: u32, height: u32, st: DebugState) -> Seq<PanelHighlight> {
    if st.registered_components@.len() == 0 {
        Seq::empty()
    } else {
        let inspect = if st.inspector_mode {
            seq![PanelHighlight { x: 1, y: 35, w: (pw - 1) as u32, h: 12, color: 0xFF0A2535 }]
        } else {
            Seq::empty()
        };
        inspect + tree_highlights(pw, st, tree_count(height, st))
    }
}

/// The Scene tab can be laid out: every component's edges fit `i32`, and
/// the scroll offset is within the rows.
pub open spec fn scene_fits(st: DebugState) -> bool {
    &&& all_fit(st.registered_components@)
    &&& st.registered_components@.len() > 0 ==> st.scene_scroll <= rows_of(st).len()
}

/// The abbreviation of a component type.
fn abbrev_str(t: &str) -> (r: &'static str)
    ensures
        r@ == abbrev(t@),
{
    if same_text(t, "Container") {
        "CTN"
    } else if same_text(t, "Label") {
        "LBL"
    } else if same_text(t, "Button") {
        "BTN"
    } else if same_text(t, "ProgressBar") {
        "PBR"
    } else if same_text(t, "Text") {
        "TXT"
    } else if same_text(t, "Image") {
        "IMG"
    } else if same_text(t, "Stack") {
        "STK"
    } else {
        "???"
    }
}

/// `WxH@X,Y` of a component.
fn box_text_str(c: &ComponentInfo) -> (s: String)
    ensures
        s@ == box_text(*c),
{
    fmt_u64(c.size.0 as u64).concat("x").concat(fmt_u64(c.size.1 as u64).as_str()).concat("@").concat(
        fmt_i64(c.position.0 as i64).as_str(),
    ).concat(",").concat(fmt_i64(c.position.1 as i64).as_str())
}

/// The label of a tree row.
fn row_label_text(c: &ComponentInfo, r: &SceneRow) -> (s: String)
    ensures
        s@ == row_label(*c, *r),
{
    if r.is_label_group {
        return String::from_str("LBL x").concat(fmt_u64(r.label_group_count as u64).as_str());
    }
    let abbr = abbrev_str(c.component_type.as_str());
    match &c.test_id {
        Some(name) => {
            if name.as_str().is_empty() {
                String::from_str(abbr).concat(" ").concat(box_text_str(c).as_str())
            } else {
                String::from_str(abbr).concat(" ").concat(take_chars(name.as_str(), 18).as_str())
            }
        },
        None => String::from_str(abbr).concat(" ").concat(box_text_str(c).as_str()),
    }
}

/// The text of a tree row.
fn row_line_text(pw: u32, c: &ComponentInfo, r: &SceneRow) -> (s: String)
    requires
        1 <= pw <= i32::MAX,
    ensures
        s@ == row_line(pw, *c, *r),
{
    let depth = if r.depth < 4 { r.depth } else { 4 };
    let indent = repeat_str("  ", depth);
    let toggle: &str = if r.has_children || r.is_label_group {
        if r.is_collapsed {
            "+ "
        } else {
            "- "
        }
    } else {
        "  "
    };
    let line = indent.concat(toggle).concat(row_label_text(c, r).as_str());
    let m = (pw as i32 - 5 - 1) / 6;
    let max: usize = if m > 1 { m as usize } else { 1 };
    take_chars(line.as_str(), max)
}

/// The details of the selected row, or the hints without a selection.
fn meta_lines(pw: u32, st: &DebugState, rows: &Vec<SceneRow>, y: i32, texts: &mut Vec<PanelText>)
    requires
        1 <= pw <= i32::MAX,
        all_fit(st.registered_components@),
        rows@ == rows_of(*st),
        forall|k: int| 0 <= k < rows@.len() ==> (#[trigger] rows@[k].comp_idx as int) < st.registered_components@.len(),
        0 <= y <= i32::MAX - 52,
    ensures
        texts_view(final(texts)@) == texts_view(old(texts)@) + meta_texts(pw, *st, y as int),
{
    let ghost start = texts_view(texts@);
    match st.scene_selected {
        Some(sel) => {
            if sel < rows.len() {
                let row = &rows[sel];
                let c = &st.registered_components[row.comp_idx];
                assert(edges_fit(st.registered_components@[row.comp_idx as int]));
                let abbr: &str = if row.is_label_group { "LBL" } else { abbrev_str(c.component_type.as_str()) };
                let tid: &str = match &c.test_id {
                    Some(s) => s.as_str(),
                    None => "(unnamed)",
                };
                let m = (pw as i32 - 5 - 1) / 6;
                let max: usize = if m > 1 { m as usize } else { 1 };
                let room: usize = if max > 7 { max - 7 } else { 0 };
                let title = String::from_str("[").concat(abbr).concat("] ").concat(take_chars(tid, room).as_str());
                push_text(texts, 5, y, title, COL_WHITE);
                let place = fmt_u64(c.size.0 as u64).concat("x").concat(fmt_u64(c.size.1 as u64).as_str()).concat(
                    "  @",
                ).concat(fmt_i64(c.position.0 as i64).as_str()).concat(",").concat(
                    fmt_i64(c.position.1 as i64).as_str(),
                );
                push_text(texts, 5, y + 13, place, COL_NORMAL);
                let parent = match st.find_parent(c) {
                    Some(p) => {
                        let pid: &str = match &p.test_id {
                            Some(s) => s.as_str(),
                            None => "?",
                        };
                        String::from_str("^ [").concat(abbrev_str(p.component_type.as_str())).concat("] ").concat(
                            take_chars(pid, 14).as_str(),
                        )
                    },
                    None => String::from_str("^ (root)"),
                };
                push_text(texts, 5, y + 26, parent, COL_DIM);
                let children = st.find_children(c);
                let w = c.size.0 as u64;
                let h = c.size.1 as u64;
                assert(w * h <= u64::MAX) by (nonlinear_arith)
                    requires
                        w <= u32::MAX,
                        h <= u32::MAX,
                ;
                let area = w * h;
                let kids = String::from_str("v ").concat(fmt_u64(children.len() as u64).as_str()).concat(
                    " children  ",
                ).concat(fmt_u64(area).as_str()).concat("px\u{00B2}");
                push_text(texts, 5, y + 39, kids, COL_DIM);
                push_lit(texts, 5, y + 52, "Arrows:nav  Enter:fold", COL_DIM);
            }
        },
        None => {
            push_lit(texts, 5, y, "Arrows: navigate tree", COL_DIM);
            push_lit(texts, 5, y + 13, "Enter/L/R: expand/fold", COL_DIM);
        },
    }
    assert(texts_view(texts@) =~= start + meta_texts(pw, *st, y as int));
}

/// The visible tree rows: `count` rows from the scroll offset, with the
/// selected and hovered rows' highlight blocks.
fn tree_rows(
    pw: u32,
    height: u32,
    st: &DebugState,
    rows: &Vec<SceneRow>,
    count: usize,
    texts: &mut Vec<PanelText>,
    highlights: &mut Vec<PanelHighlight>,
)
    requires
        1 <= pw <= i32::MAX,
        rows@ == rows_of(*st),
        forall|k: int| 0 <= k < rows@.len() ==> (#[trigger] rows@[k].comp_idx as int) < st.registered_components@.len(),
        count == tree_count(height, *st),
        st.scene_scroll + count <= rows@.len() <= usize::MAX,
        57 + 13 * count <= i32::MAX,
    ensures
        texts_view(final(texts)@) == texts_view(old(texts)@) + Seq::new(
            count as nat,
            |k: int| tree_text(pw, *st, k),
        ),
        final(highlights)@ == old(highlights)@ + tree_highlights(pw, *st, count as int),
{
    let ghost tstart = texts_view(texts@);
    let ghost hstart = highlights@;
    let scroll = st.scene_scroll;
    let mut k: usize = 0;
    while k < count
        invariant
            1 <= pw <= i32::MAX,
            rows@ == rows_of(*st),
            forall|j: int| 0 <= j < rows@.len() ==> (#[trigger] rows@[j].comp_idx as int) < st.registered_components@.len(),
            count == tree_count(height, *st),
            scroll == st.scene_scroll,
            scroll + count <= rows@.len() <= usize::MAX,
            57 + 13 * count <= i32::MAX,
            k <= count,
            texts_view(texts@) == tstart + Seq::new(k as nat, |j: int| tree_text(pw, *st, j)),
            highlights@ == hstart + tree_highlights(pw, *st, k as int),
        decreases count - k,
    {
        let abs = scroll + k;
        let row = &rows[abs];
        let c = &st.registered_components[row.comp_idx];
        let is_sel = match st.scene_selected {
            Some(sel) => sel == abs,
            None => false,
        };
        let is_hov = !is_sel && st.inspector_mode && match &st.hovered_component {
            Some(h) => h.position.0 == c.position.0 && h.position.1 == c.position.1 && h.size.0 == c.size.0
                && h.size.1 == c.size.1,
            None => false,
        };
        let y: i32 = 57 + 13 * k as i32;
        if is_sel {
            highlights.push(PanelHighlight { x: 1, y: (y - 9) as u32, w: pw - 1, h: 12, color: 0xFF1E3D62 });
        } else if is_hov {
            highlights.push(PanelHighlight { x: 1, y: (y - 9) as u32, w: pw - 1, h: 12, color: 0xFF3A2800 });
        }
        let color = if is_sel {
            COL_WHITE
        } else if is_hov {
            COL_WARN
        } else if row.depth == 0 {
            COL_WHITE
        } else if row.depth == 1 {
            COL_NORMAL
        } else {
            COL_DIM
        };
        push_text(texts, 5, y, row_line_text(pw, c, row), color);
        assert(Seq::new((k + 1) as nat, |j: int| tree_text(pw, *st, j)) =~= Seq::new(
            k as nat,
            |j: int| tree_text(pw, *st, j),
        ).push(tree_text(pw, *st, k as int)));
        assert(hstart + tree_highlights(pw, *st, k + 1) =~= highlights@);
        k = k + 1;
    }
}

/// The inspect toggle line and the row / component counts.
fn inspect_line(
    pw: u32,
    st: &DebugState,
    total: usize,
    texts: &mut Vec<PanelText>,
    highlights: &mut Vec<PanelHighlight>,
)
    requires
        1 <= pw <= i32::MAX,
        total == rows_of(*st).len(),
    ensures
        texts_view(final(texts)@) == texts_view(old(texts)@) + seq![
            if st.inspector_mode {
                (5int, 44int, "[ INSPECT ]  hover=select"@, COL_CYAN)
            } else {
                (5int, 44int, "[ inspect ]  click to on"@, COL_DIM)
            },
            (right_aligned_x(pw, count_text(*st).len() as int, 65), 44int, count_text(*st), COL_DIM),
        ],
        final(highlights)@ == old(highlights)@ + if st.inspector_mode {
            seq![PanelHighlight { x: 1, y: 35, w: (pw - 1) as u32, h: 12, color: 0xFF0A2535 }]
        } else {
            Seq::empty()
        },
{
    let ghost tstart = texts_view(texts@);
    let ghost hstart = highlights@;
    if st.inspector_mode {
        highlights.push(PanelHighlight { x: 1, y: 35, w: pw - 1, h: 12, color: 0xFF0A2535 });
        push_lit(texts, 5, 44, "[ INSPECT ]  hover=select", COL_CYAN);
    } else {
        push_lit(texts, 5, 44, "[ inspect ]  click to on", COL_DIM);
    }
    let cnt = fmt_u64(total as u64).concat("/").concat(fmt_u64(st.registered_components.len() as u64).as_str());
    proof {
        lemma_u64_digits(total as u64);
        lemma_u64_digits(st.registered_components@.len() as u64);
        reveal_strlit("/");
    }
    let len = cnt.as_str().unicode_len();
    let cx = pw as i32 - len as i32 * 6 - 5;
    push_text(texts, if cx > 65 { cx } else { 65 }, 44, cnt, COL_DIM);
    assert(highlights@ =~= hstart + if st.inspector_mode {
        seq![PanelHighlight { x: 1, y: 35, w: (pw - 1) as u32, h: 12, color: 0xFF0A2535 }]
    } else {
        Seq::empty()
    });
}

/// How many tree rows show.
fn visible_count(height: u32, st: &DebugState, total: usize) -> (count: usize)
    requires
        height <= i32::MAX - 256,
        total == rows_of(*st).len(),
        st.scene_scroll <= total,
    ensures
        count == tree_count(height, *st),
        st.scene_scroll + count <= total,
        57 + 13 * count <= height + 83,
{
    let meta_h: i32 = if st.scene_selected.is_some() { 2 + 3 + 5 * 13 } else { 2 + 3 + 2 * 13 };
    let budget: i32 = height as i32 - 57 - meta_h - 4;
    let per: usize = if budget < 26 { 2 } else { (budget / 13) as usize };
    let vis: usize = if per < total { per } else { total };
    let scroll = st.scene_scroll;
    let end: usize = if vis < total - scroll { scroll + vis } else { total };
    end - scroll
}

/// The Scene tab's texts, separator and highlight blocks.
fn scene_tab(
    pw: u32,
    height: u32,
    st: &DebugState,
    texts: &mut Vec<PanelText>,
    seps: &mut Vec<u32>,
    highlights: &mut Vec<PanelHighlight>,
)
    requires
        1 <= pw <= i32::MAX,
        height <= i32::MAX - 256,
        scene_fits(*st),
    ensures
        texts_view(final(texts)@) == texts_view(old(texts)@) + scene_texts(pw, height, *st),
        final(seps)@ == old(seps)@ + scene_seps(height, *st),
        final(highlights)@ == old(highlights)@ + scene_highlights(pw, height, *st),
{
    let ghost tstart = texts_view(texts@);
    let ghost sstart = seps@;
    let ghost hstart = highlights@;
    if st.registered_components.len() == 0 {
        push_lit(texts, 5, 44, "No nodes yet.", COL_DIM);
        push_lit(texts, 5, 57, "Trigger a display refresh", COL_DIM);
        push_lit(texts, 5, 70, "to scan components.", COL_DIM);
        seps.push(87);
        push_lit(texts, 5, 91, "Arrows: navigate tree", COL_DIM);
        push_lit(texts, 5, 104, "Enter:  expand/collapse", COL_DIM);
        push_lit(texts, 5, 117, "Ctrl+3: hover-inspect", COL_DIM);
        assert(texts_view(texts@) =~= tstart + scene_texts(pw, height, *st));
        assert(seps@ =~= sstart + scene_seps(height, *st));
        assert(highlights@ =~= hstart + scene_highlights(pw, height, *st));
        return;
    }
    let rows = st.build_scene_rows();
    let total = rows.len();
    inspect_line(pw, st, total, texts, highlights);
    let count = visible_count(height, st, total);
    let end = st.scene_scroll + count;
    tree_rows(pw, height, st, &rows, count, texts, highlights);
    let mut cy: i32 = 57 + 13 * count as i32;
    if end < total {
        let more = String::from_str("  +").concat(fmt_u64((total - end) as u64).as_str()).concat(" more (Arrow-Down)");
        push_text(texts, 5, cy, more, COL_DIM);
        cy = cy + 13;
    }
    seps.push(cy as u32);
    meta_lines(pw, st, &rows, cy + 4, texts);
    assert(texts_view(texts@) =~= tstart + scene_texts(pw, height, *st));
    assert(seps@ =~= sstart + scene_seps(height, *st));
    assert(highlights@ =~= hstart + scene_highlights(pw, height, *st));
}

/// The texts of the whole panel: title and tab bar, then the active tab.
pub open spec fn panel_texts(pw: u32, height: u32, info: PanelInfo) -> Seq<TextV> {
    header_texts(pw, *info.state, info.power_graph_enabled) + match info.state.active_tab {
        DebugTab::Scene => scene_texts(pw, height, *info.state),
        DebugTab::Display => display_texts(info),
        DebugTab::Power => power_texts(pw, height, info),
    }
}

/// The separator rows: under the title and under the tab bar, then the
/// active tab's.
pub open spec fn panel_seps(height: u32, info: PanelInfo) -> Seq<u32> {
    seq![23u32, 40u32] + match info.state.active_tab {
        DebugTab::Scene => scene_seps(height, *info.state),
        DebugTab::Display => seq![109u32, 153u32],
        DebugTab::Power => seq![power_readings_end(info) as u32],
    }
}

/// The highlight blocks: the active tab's background, then the Scene
/// tab's.
pub open spec fn panel_highlights(pw: u32, height: u32, info: PanelInfo) -> Seq<PanelHighlight> {
    seq![tab_highlight(pw, *info.state)] + if info.state.active_tab == DebugTab::Scene {
        scene_highlights(pw, height, *info.state)
    } else {
        Seq::empty()
    }
}

/// The power chart's area, on the Power tab.
pub open spec fn panel_chart(pw: u32, height: u32, info: PanelInfo) -> Option<(u32, u32, u32, u32)> {
    if info.state.active_tab == DebugTab::Power {
        Some((1u32, chart_top(info) as u32, (pw - 1) as u32, chart_h(height, info) as u32))
    } else {
        None
    }
}

/// Lay out the side panel, `panel_w` wide and `height` high: what text
/// goes where, the separator rows, the highlight blocks and the chart
/// area.
pub fn panel_layout(panel_w: u32, height: u32, info: &PanelInfo) -> (r: PanelLayout)
    requires
        layout_fits(panel_w, height, *info),
    ensures
        texts_view(r.texts@) == panel_texts(panel_w, height, *info),
        r.seps@ == panel_seps(height, *info),
        r.highlights@ == panel_highlights(panel_w, height, *info),
        r.graph_area == panel_chart(panel_w, height, *info),
{
    let mut texts: Vec<PanelText> = Vec::new();
    let mut seps: Vec<u32> = Vec::new();
    let mut highlights: Vec<PanelHighlight> = Vec::new();
    let tab = header(panel_w, info.state, info.power_graph_enabled, &mut texts);
    highlights.push(tab);
    seps.push(23);
    seps.push(40);
    let ghost t0 = texts_view(texts@);
    let ghost s0 = seps@;
    let ghost h0 = highlights@;
    let mut graph_area: Option<(u32, u32, u32, u32)> = None;
    match info.state.active_tab {
        DebugTab::Scene => {
            scene_tab(panel_w, height, info.state, &mut texts, &mut seps, &mut highlights);
        },
        DebugTab::Display => {
            display_tab(info, &mut texts, &mut seps);
        },
        DebugTab::Power => {
            graph_area = Some(power_tab(panel_w, height, info, &mut texts, &mut seps));
        },
    }
    assert(texts_view(texts@) =~= panel_texts(panel_w, height, *info));
    assert(seps@ =~= panel_seps(height, *info));
    assert(highlights@ =~= panel_highlights(panel_w, height, *info));
    PanelLayout { texts, seps, highlights, graph_area }
}

/// Panel pixel colours (ARGB).
pub const PANEL_BG: u32 = 0xFF1A1A2E;
pub const PANEL_BORDER: u32 = 0xFF4A4A6A;
pub const PANEL_SEP: u32 = 0xFF252540;
pub const CHART_BG: u32 = 0xFF0E0E1E;
pub const CHART_BORDER: u32 = 0xFF3A3A5A;
pub const CHART_GRID: u32 = 0xFF1C1C32;

/// The dark background, with the left border in column 0 of each of the
/// `height` rows.
pub open spec fn panel_base(len: nat, pw: u32, height: u32) -> Seq<u32> {
    Seq::new(
        len,
        |i: int| if i % (pw as int) == 0 && i / (pw as int) < height { PANEL_BORDER } else { PANEL_BG },
    )
}

/// `buf` with the first `n` highlight blocks filled in turn.
pub open spec fn highlights_painted(buf: Seq<u32>, pw: u32, height: u32, hls: Seq<PanelHighlight>, n: int) -> Seq<
    u32,
>
    decreases n,
{
    if n <= 0 {
        buf
    } else {
        let h = hls[n - 1];
        rect_filled(
            highlights_painted(buf, pw, height, hls, n - 1),
            pw,
            height,
            h.x as int,
            h.y as int,
            h.w as int,
            h.h as int,
            h.color,
        )
    }
}

/// `buf` with the first `n` separators drawn: those above `height`, each a
/// row of the separator colour keeping the left border.
pub open spec fn seps_painted(buf: Seq<u32>, pw: u32, height: u32, seps: Seq<u32>, n: int) -> Seq<u32>
    decreases n,
{
    if n <= 0 {
        buf
    } else {
        let y = seps[n - 1];
        let prev = seps_painted(buf, pw, height, seps, n - 1);
        if y < height {
            rect_filled(
                rect_filled(prev, pw, height, 0, y as int, 1, 1, PANEL_BORDER),
                pw,
                height,
                1,
                y as int,
                pw - 1,
                1,
                PANEL_SEP,
            )
        } else {
            prev
        }
    }
}

/// The row of the chart's grid line at `pct` percent of its inner height.
pub open spec fn grid_row(gy: int, gh: int, pct: int) -> int {
    gy + 1 + (gh - 2) - pct * (gh - 2) / 100
}

/// `buf` with the chart in `area` when it fits the panel's height: its
/// background; with a graph, a one-pixel frame; with samples and room
/// inside the frame, grid lines at 25, 50 and 75 percent. Without a graph
/// the area is only filled.
pub open spec fn chart_painted(
    buf: Seq<u32>,
    pw: u32,
    height: u32,
    area: (u32, u32, u32, u32),
    framed: bool,
    grid: bool,
) -> Seq<u32> {
    let (gx, gy, gw, gh) = (area.0 as int, area.1 as int, area.2 as int, area.3 as int);
    if gy + gh > height {
        buf
    } else {
        let b1 = rect_filled(buf, pw, height, gx, gy, gw, gh, CHART_BG);
        if !framed {
            b1
        } else {
            let b2 = rect_filled(b1, pw, height, gx, gy, gw, 1, CHART_BORDER);
            let b3 = rect_filled(b2, pw, height, gx, gy + gh - 1, gw, 1, CHART_BORDER);
            let b4 = rect_filled(b3, pw, height, gx, gy, 1, gh, CHART_BORDER);
            let b5 = rect_filled(b4, pw, height, gx + gw - 1, gy, 1, gh, CHART_BORDER);
            if grid && gw > 2 && gh > 2 {
                let g1 = rect_filled(b5, pw, height, gx + 1, grid_row(gy, gh, 25), gw - 2, 1, CHART_GRID);
                let g2 = rect_filled(g1, pw, height, gx + 1, grid_row(gy, gh, 50), gw - 2, 1, CHART_GRID);
                rect_filled(g2, pw, height, gx + 1, grid_row(gy, gh, 75), gw - 2, 1, CHART_GRID)
            } else {
                b5
            }
        }
    }
}

/// The panel's pixels: the background and border, the highlight blocks,
/// the separators and, on the Power tab, the chart (framed where there is
/// a graph, with grid lines where it has samples).
pub open spec fn panel_painted(len: nat, pw: u32, height: u32, info: PanelInfo) -> Seq<u32> {
    let hls = panel_highlights(pw, height, info);
    let seps = panel_seps(height, info);
    let b = seps_painted(
        highlights_painted(panel_base(len, pw, height), pw, height, hls, hls.len() as int),
        pw,
        height,
        seps,
        seps.len() as int,
    );
    match panel_chart(pw, height, info) {
        Some(area) => chart_painted(
            b,
            pw,
            height,
            area,
            info.power is Some,
            info.power matches Some(p) && p.axis is Some,
        ),
        None => b,
    }
}

/// A rectangle of a panel whose pixel count fits `u32` can be filled.
proof fn lemma_rect_fits(pw: u32, height: u32, x: int, y: int, w: int, h: int)
    requires
        pw * height <= u32::MAX,
        0 <= x,
        0 <= y,
        0 <= w,
        0 <= h,
        x + w <= u32::MAX,
        y + h <= u32::MAX,
    ensures
        solid_fits(pw, height, x, y, w, h),
{
    assert forall|px: int, py: int|
        0 <= py < height && y <= py < y + h && 0 <= px < pw && x <= px < x + w implies #[trigger] crate::eink::debug::overlay::pixel_index(
        pw,
        px,
        py,
    ) <= u32::MAX by {
        lemma_mul_inequality(py + 1, height as int, pw as int);
        assert((py + 1) * pw == py * pw + pw) by (nonlinear_arith);
        assert(height * pw == pw * height) by (nonlinear_arith);
    }
}

/// Fill a rectangle of the panel.
fn paint_rect(buf: &mut [u32], pw: u32, height: u32, x: u32, y: u32, w: u32, h: u32, color: u32)
    requires
        pw * height <= u32::MAX,
        x + w <= u32::MAX,
        y + h <= u32::MAX,
    ensures
        final(buf)@ == rect_filled(old(buf)@, pw, height, x as int, y as int, w as int, h as int, color),
{
    proof {
        lemma_rect_fits(pw, height, x as int, y as int, w as int, h as int);
    }
    fill_rect_solid(buf, pw, height, x, y, w, h, color);
}

/// Paint the background and the left border.
fn paint_base(buf: &mut [u32], pw: u32, height: u32)
    requires
        pw > 0,
    ensures
        final(buf)@ == panel_base(old(buf)@.len(), pw, height),
{
    let ghost len = buf@.len();
    let mut i: usize = 0;
    while i < buf.len()
        invariant
            pw > 0,
            buf@.len() == len,
            i <= len,
            forall|j: int| 0 <= j < i ==> buf@[j] == panel_base(len, pw, height)[j],
        decreases len - i,
    {
        let border = i % (pw as usize) == 0 && i / (pw as usize) < height as usize;
        buf[i] = if border { PANEL_BORDER } else { PANEL_BG };
        i = i + 1;
    }
    assert(buf@ =~= panel_base(len, pw, height));
}

/// A highlight block lies within `u32` coordinates.
pub open spec fn highlight_small(pw: u32, h: PanelHighlight) -> bool {
    h.x <= pw && h.w <= pw && h.y <= i32::MAX && h.h <= 13
}

proof fn lemma_tree_highlights_small(pw: u32, st: DebugState, n: int)
    requires
        1 <= pw,
        57 + 13 * n <= i32::MAX,
    ensures
        forall|j: int|
            0 <= j < tree_highlights(pw, st, n).len() ==> highlight_small(pw, #[trigger] tree_highlights(pw, st, n)[j]),
    decreases n,
{
    if n > 0 {
        lemma_tree_highlights_small(pw, st, n - 1);
        let prev = tree_highlights(pw, st, n - 1);
        assert forall|j: int| 0 <= j < tree_highlights(pw, st, n).len() implies highlight_small(
            pw,
            #[trigger] tree_highlights(pw, st, n)[j],
        ) by {
            if j < prev.len() {
                assert(tree_highlights(pw, st, n)[j] == prev[j]);
            }
        }
    }
}

/// The visible tree rows' baselines stay under `height + 83`.
proof fn lemma_tree_count_bound(height: u32, st: DebugState)
    requires
        height <= i32::MAX - 256,
        st.scene_scroll <= rows_of(st).len(),
    ensures
        0 <= tree_count(height, st),
        57 + 13 * tree_count(height, st) <= height + 83,
{
}

/// Every highlight block of the panel lies within `u32` coordinates.
proof fn lemma_panel_highlights_small(pw: u32, height: u32, info: PanelInfo)
    requires
        layout_fits(pw, height, info),
    ensures
        forall|j: int|
            0 <= j < panel_highlights(pw, height, info).len() ==> highlight_small(
                pw,
                #[trigger] panel_highlights(pw, height, info)[j],
            ),
{
    let st = *info.state;
    let hls = panel_highlights(pw, height, info);
    if st.active_tab == DebugTab::Scene && st.registered_components@.len() > 0 {
        lemma_tree_count_bound(height, st);
        lemma_tree_highlights_small(pw, st, tree_count(height, st));
        let inspect: Seq<PanelHighlight> = if st.inspector_mode {
            seq![PanelHighlight { x: 1, y: 35, w: (pw - 1) as u32, h: 12, color: 0xFF0A2535 }]
        } else {
            Seq::empty()
        };
        let tree = tree_highlights(pw, st, tree_count(height, st));
        assert(hls == seq![tab_highlight(pw, st)] + inspect + tree);
        assert forall|j: int| 0 <= j < hls.len() implies highlight_small(pw, #[trigger] hls[j]) by {
            if j >= 1 + inspect.len() {
                assert(hls[j] == tree[j - 1 - inspect.len()]);
            }
        }
    }
}

/// Fill the highlight blocks in turn.
fn paint_highlights(buf: &mut [u32], pw: u32, height: u32, hls: &Vec<PanelHighlight>)
    requires
        pw <= i32::MAX,
        pw * height <= u32::MAX,
        forall|j: int| 0 <= j < hls@.len() ==> highlight_small(pw, #[trigger] hls@[j]),
    ensures
        final(buf)@ == highlights_painted(old(buf)@, pw, height, hls@, hls@.len() as int),
{
    let ghost start = buf@;
    let mut k: usize = 0;
    while k < hls.len()
        invariant
            pw <= i32::MAX,
            pw * height <= u32::MAX,
            forall|j: int| 0 <= j < hls@.len() ==> highlight_small(pw, #[trigger] hls@[j]),
            k <= hls@.len(),
            buf@ == highlights_painted(start, pw, height, hls@, k as int),
        decreases hls@.len() - k,
    {
        let h = hls[k];
        assert(highlight_small(pw, hls@[k as int]));
        paint_rect(buf, pw, height, h.x, h.y, h.w, h.h, h.color);
        k = k + 1;
    }
}

/// Draw the separators in turn.
fn paint_seps(buf: &mut [u32], pw: u32, height: u32, seps: &Vec<u32>)
    requires
        pw * height <= u32::MAX,
        pw >= 1,
    ensures
        final(buf)@ == seps_painted(old(buf)@, pw, height, seps@, seps@.len() as int),
{
    let ghost start = buf@;
    let mut k: usize = 0;
    while k < seps.len()
        invariant
            pw * height <= u32::MAX,
            pw >= 1,
            k <= seps@.len(),
            buf@ == seps_painted(start, pw, height, seps@, k as int),
        decreases seps@.len() - k,
    {
        let y = seps[k];
        if y < height {
            paint_rect(buf, pw, height, 0, y, 1, 1, PANEL_BORDER);
            paint_rect(buf, pw, height, 1, y, pw - 1, 1, PANEL_SEP);
        }
        k = k + 1;
    }
}

/// Draw the chart in `area`.
fn paint_chart(buf: &mut [u32], pw: u32, height: u32, area: (u32, u32, u32, u32), framed: bool, grid: bool)
    requires
        pw <= i32::MAX,
        pw * height <= u32::MAX,
        1 <= area.1 <= i32::MAX,
        area.0 + area.2 >= 1,
        area.0 + area.2 <= pw,
        area.3 <= 120,
    ensures
        final(buf)@ == chart_painted(old(buf)@, pw, height, area, framed, grid),
{
    let (gx, gy, gw, gh) = area;
    if gy + gh > height {
        return;
    }
    paint_rect(buf, pw, height, gx, gy, gw, gh, CHART_BG);
    if !framed {
        return;
    }
    paint_rect(buf, pw, height, gx, gy, gw, 1, CHART_BORDER);
    paint_rect(buf, pw, height, gx, gy + gh - 1, gw, 1, CHART_BORDER);
    paint_rect(buf, pw, height, gx, gy, 1, gh, CHART_BORDER);
    paint_rect(buf, pw, height, gx + gw - 1, gy, 1, gh, CHART_BORDER);
    if grid && gw > 2 && gh > 2 {
        let inner_h = gh - 2;
        paint_rect(buf, pw, height, gx + 1, gy + 1 + inner_h - 25 * inner_h / 100, gw - 2, 1, CHART_GRID);
        paint_rect(buf, pw, height, gx + 1, gy + 1 + inner_h - 50 * inner_h / 100, gw - 2, 1, CHART_GRID);
        paint_rect(buf, pw, height, gx + 1, gy + 1 + inner_h - 75 * inner_h / 100, gw - 2, 1, CHART_GRID);
    }
}

/// Render the side panel into `buf`, whose rows are `panel_w` pixels wide
/// and which is `height` rows high: the background, the left border, the
/// highlight blocks, the separators and the chart's frame and grid. Returns
/// the layout: its texts for the caller to draw with the 6 × 10 font, and
/// the chart's area for the caller's bars.
pub fn render_into(buf: &mut [u32], panel_w: u32, height: u32, info: &PanelInfo) -> (r: PanelLayout)
    requires
        layout_fits(panel_w, height, *info),
        panel_w * height <= u32::MAX,
    ensures
        texts_view(r.texts@) == panel_texts(panel_w, height, *info),
        r.seps@ == panel_seps(height, *info),
        r.highlights@ == panel_highlights(panel_w, height, *info),
        r.graph_area == panel_chart(panel_w, height, *info),
        final(buf)@ == panel_painted(old(buf)@.len(), panel_w, height, *info),
{
    let layout = panel_layout(panel_w, height, info);
    paint_base(buf, panel_w, height);
    proof {
        lemma_panel_highlights_small(panel_w, height, *info);
    }
    paint_highlights(buf, panel_w, height, &layout.highlights);
    paint_seps(buf, panel_w, height, &layout.seps);
    match layout.graph_area {
        Some(area) => {
            let framed = info.power.is_some();
            let grid = match &info.power {
                Some(p) => p.axis.is_some(),
                None => false,
            };
            paint_chart(buf, panel_w, height, area, framed, grid);
        },
        None => {},
    }
    layout
}

/// Pixel `i` is in column 0 of one of the `height` rows.
pub open spec fn on_left_border(pw: u32, height: u32, i: int) -> bool {
    i >= 0 && i % (pw as int) == 0 && i / (pw as int) < height
}

proof fn lemma_highlights_keep_border(buf: Seq<u32>, pw: u32, height: u32, hls: Seq<PanelHighlight>, n: int, i: int)
    requires
        pw >= 1,
        0 <= n <= hls.len(),
        forall|j: int| 0 <= j < hls.len() ==> (#[trigger] hls[j]).x >= 1,
        0 <= i < buf.len(),
        on_left_border(pw, height, i),
    ensures
        highlights_painted(buf, pw, height, hls, n).len() == buf.len(),
        highlights_painted(buf, pw, height, hls, n)[i] == buf[i],
    decreases n,
{
    if n > 0 {
        lemma_highlights_keep_border(buf, pw, height, hls, n - 1, i);
        assert(hls[n - 1].x >= 1);
    }
}

proof fn lemma_seps_keep_border(buf: Seq<u32>, pw: u32, height: u32, seps: Seq<u32>, n: int, i: int)
    requires
        pw >= 1,
        0 <= n <= seps.len(),
        0 <= i < buf.len(),
        on_left_border(pw, height, i),
        buf[i] == PANEL_BORDER,
    ensures
        seps_painted(buf, pw, height, seps, n).len() == buf.len(),
        seps_painted(buf, pw, height, seps, n)[i] == PANEL_BORDER,
    decreases n,
{
    if n > 0 {
        lemma_seps_keep_border(buf, pw, height, seps, n - 1, i);
    }
}

/// Every highlight block starts right of the left border.
proof fn lemma_highlights_right_of_border(pw: u32, height: u32, info: PanelInfo)
    requires
        layout_fits(pw, height, info),
    ensures
        forall|j: int|
            0 <= j < panel_highlights(pw, height, info).len() ==> (#[trigger] panel_highlights(pw, height, info)[j]).x
                >= 1,
{
    let st = *info.state;
    let hls = panel_highlights(pw, height, info);
    assert(tab_highlight(pw, st).x >= 1) by {
        assert(tab_cell_x(pw, tab_index(st.active_tab)) >= 1) by (nonlinear_arith)
            requires
                pw >= 1,
                0 <= tab_index(st.active_tab) <= 2,
                tab_cell_w(pw) == (pw - 1) / 3,
                tab_cell_x(pw, tab_index(st.active_tab)) == 1 + tab_index(st.active_tab) * tab_cell_w(pw),
        ;
        assert(tab_cell_x(pw, tab_index(st.active_tab)) <= u32::MAX) by (nonlinear_arith)
            requires
                pw <= i32::MAX,
                0 <= tab_index(st.active_tab) <= 2,
                tab_cell_w(pw) == (pw - 1) / 3,
                tab_cell_x(pw, tab_index(st.active_tab)) == 1 + tab_index(st.active_tab) * tab_cell_w(pw),
        ;
    }
    if st.active_tab == DebugTab::Scene && st.registered_components@.len() > 0 {
        lemma_tree_count_bound(height, st);
        lemma_tree_highlights_small(pw, st, tree_count(height, st));
        let inspect: Seq<PanelHighlight> = if st.inspector_mode {
            seq![PanelHighlight { x: 1, y: 35, w: (pw - 1) as u32, h: 12, color: 0xFF0A2535 }]
        } else {
            Seq::empty()
        };
        let tree = tree_highlights(pw, st, tree_count(height, st));
        lemma_tree_highlights_left(pw, st, tree_count(height, st));
        assert(hls == seq![tab_highlight(pw, st)] + inspect + tree);
        assert forall|j: int| 0 <= j < hls.len() implies (#[trigger] hls[j]).x >= 1 by {
            if j >= 1 + inspect.len() {
                assert(hls[j] == tree[j - 1 - inspect.len()]);
            }
        }
    }
}

proof fn lemma_tree_highlights_left(pw: u32, st: DebugState, n: int)
    ensures
        forall|j: int| 0 <= j < tree_highlights(pw, st, n).len() ==> (#[trigger] tree_highlights(pw, st, n)[j]).x == 1,
    decreases n,
{
    if n > 0 {
        lemma_tree_highlights_left(pw, st, n - 1);
        let prev = tree_highlights(pw, st, n - 1);
        assert forall|j: int| 0 <= j < tree_highlights(pw, st, n).len() implies (#[trigger] tree_highlights(
            pw,
            st,
            n,
        )[j]).x == 1 by {
            if j < prev.len() {
                assert(tree_highlights(pw, st, n)[j] == prev[j]);
            }
        }
    }
}

/// The panel's left border survives everything drawn over it: column 0
/// of each of the `height` rows holds the border colour, whatever the
/// state shows, on a panel at least two pixels wide (on a one-pixel panel
/// the power chart's right edge falls on the border column).
pub proof fn lemma_left_border_intact(len: nat, pw: u32, height: u32, info: PanelInfo, i: int)
    requires
        layout_fits(pw, height, info),
        pw >= 2,
        0 <= i < len,
        on_left_border(pw, height, i),
    ensures
        panel_painted(len, pw, height, info)[i] == PANEL_BORDER,
{
    let base = panel_base(len, pw, height);
    let hls = panel_highlights(pw, height, info);
    let seps = panel_seps(height, info);
    lemma_highlights_right_of_border(pw, height, info);
    lemma_highlights_keep_border(base, pw, height, hls, hls.len() as int, i);
    let b1 = highlights_painted(base, pw, height, hls, hls.len() as int);
    lemma_seps_keep_border(b1, pw, height, seps, seps.len() as int, i);
}

} // verus!
