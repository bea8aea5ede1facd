//! Component inspector: the tooltip's active tab and its pixel blending.
//!
//! The tooltip shows three tabs, cycled with Tab: Layout (position, size,
//! right/bottom bounds), Component (type name, test id) and Stats.
use vstd::prelude::*;
use vstd::string::StringExecFns;
use vstd::string::StringSliceAdditionalSpecFns;
use vstd::utf8::{decode_utf8, encode_utf8, encode_utf8_decode_utf8, is_char_boundary};
use crate::eink::debug::overlay::same_text;
use crate::eink::debug::state::ComponentInfo;
use crate::eink::text::{decimal, fmt_i64, fmt_u64, signed_decimal};

verus! {

/// Inspector tab types
#[derive(Debug, Clone, Copy, PartialEq, Eq, Structural)]
pub enum InspectorTab {
    /// Layout properties (position, size, bounds)
    Layout,
    /// Component metadata (type, test ID)
    Component,
    /// Performance statistics
    Stats,
}

/// The tab after `t`: Layout → Component → Stats → Layout.
pub open spec fn tab_after(t: InspectorTab) -> InspectorTab {
    match t {
        InspectorTab::Layout => InspectorTab::Component,
        InspectorTab::Component => InspectorTab::Stats,
        InspectorTab::Stats => InspectorTab::Layout,
    }
}

/// Going to the next tab three times comes back to the same tab.
pub proof fn lemma_tab_cycle(t: InspectorTab)
    ensures
        tab_after(tab_after(tab_after(t))) == t,
{
}

/// Component inspector: remembers the active tooltip tab.
#[derive(Debug, PartialEq, Eq, Structural)]
pub struct Inspector {
    current_tab: InspectorTab,
}

impl Inspector {
    /// The active tab.
    pub closed spec fn tab(self) -> InspectorTab {
        self.current_tab
    }

    /// A new inspector on the Layout tab.
    pub fn new() -> (r: Self)
        ensures
            r.tab() == InspectorTab::Layout,
    {
        Inspector { current_tab: InspectorTab::Layout }
    }

    /// Switch to a different tab.
    pub fn set_tab(&mut self, tab: InspectorTab)
        ensures
            final(self).tab() == tab,
    {
        self.current_tab = tab;
    }

    /// Return the currently active tab.
    pub fn current_tab(&self) -> (r: InspectorTab)
        ensures
            r == self.tab(),
    {
        self.current_tab
    }

    /// Move on to the next tab, wrapping around.
    pub fn next_tab(&mut self)
        ensures
            final(self).tab() == tab_after(old(self).tab()),
    {
        self.current_tab = match self.current_tab {
            InspectorTab::Layout => InspectorTab::Component,
            InspectorTab::Component => InspectorTab::Stats,
            InspectorTab::Stats => InspectorTab::Layout,
        };
    }
}

impl Default for Inspector {
    fn default() -> (r: Self)
        ensures
            r.tab() == InspectorTab::Layout,
    {
        Inspector::new()
    }
}

/// Width and height of the tooltip in pixels.
pub const TOOLTIP_W: u32 = 120;
pub const TOOLTIP_H: u32 = 80;

/// Left edge of a tooltip asked for at `x`, moved left so that it stays
/// within `screen_width` where it can.
pub open spec fn tooltip_left(x: u32, screen_width: u32) -> u32 {
    if screen_width >= TOOLTIP_W {
        if x < screen_width - TOOLTIP_W { x } else { (screen_width - TOOLTIP_W) as u32 }
    } else {
        0
    }
}

/// Left edge of a tooltip asked for at `x`, moved left so that it stays
/// within `screen_width` where it can.
pub fn tooltip_x(x: u32, screen_width: u32) -> (r: u32)
    ensures
        r == tooltip_left(x, screen_width),
{
    let limit = if screen_width >= TOOLTIP_W { screen_width - TOOLTIP_W } else { 0 };
    if x < limit { x } else { limit }
}

/// The 8-bit channel of `c` at bit `shift`.
pub open spec fn channel(c: u32, shift: u32) -> u32 {
    (c >> shift) & 0xFF
}

/// `s` over `d` with opacity `a` out of 255.
pub open spec fn mix(s: u32, d: u32, a: u32) -> u32 {
    ((s * a + d * (255 - a)) / 255) as u32
}

/// ARGB `color` painted over the pixel `dst`.
pub open spec fn painted_over(dst: u32, color: u32) -> u32 {
    if channel(color, 24) == 0xFF {
        color
    } else {
        0xFF00_0000u32 | (mix(channel(color, 16), channel(dst, 16), channel(color, 24)) << 16u32) | (mix(
            channel(color, 8),
            channel(dst, 8),
            channel(color, 24),
        ) << 8u32) | mix(channel(color, 0), channel(dst, 0), channel(color, 24))
    }
}

/// Paint ARGB `color` over the pixel `dst`: opaque colours replace it,
/// others are blended channel by channel with the colour's alpha, and the
/// result is opaque.
pub fn blend_pixel(dst: u32, color: u32) -> (r: u32)
    ensures
        r == painted_over(dst, color),
{
    let a = (color >> 24u32) & 0xFF;
    assert(a <= 0xFF) by (bit_vector)
        requires a == (color >> 24u32) & 0xFF;
    if a == 0xFF {
        return color;
    }
    let src = color & 0x00FF_FFFF;
    let d = dst & 0x00FF_FFFF;
    let inv = 255 - a;
    let sr = (src >> 16u32) & 0xFF;
    let sg = (src >> 8u32) & 0xFF;
    let sb = src & 0xFF;
    let dr = (d >> 16u32) & 0xFF;
    let dg = (d >> 8u32) & 0xFF;
    let db = d & 0xFF;
    assert(sr == channel(color, 16) && sg == channel(color, 8) && sb == channel(color, 0)) by (bit_vector)
        requires src == color & 0x00FF_FFFF, sr == (src >> 16u32) & 0xFF, sg == (src >> 8u32) & 0xFF, sb == src & 0xFF;
    assert(dr == channel(dst, 16) && dg == channel(dst, 8) && db == channel(dst, 0)) by (bit_vector)
        requires d == dst & 0x00FF_FFFF, dr == (d >> 16u32) & 0xFF, dg == (d >> 8u32) & 0xFF, db == d & 0xFF;
    assert(a <= 0xFF && sr <= 0xFF && sg <= 0xFF && sb <= 0xFF && dr <= 0xFF && dg <= 0xFF && db <= 0xFF) by (bit_vector)
        requires a == (color >> 24u32) & 0xFF, sr == (src >> 16u32) & 0xFF, sg == (src >> 8u32) & 0xFF, sb == src & 0xFF,
            dr == (d >> 16u32) & 0xFF, dg == (d >> 8u32) & 0xFF, db == d & 0xFF;
    assert(sr * a <= 255 * 255 && dr * inv <= 255 * 255) by (nonlinear_arith)
        requires sr <= 255, a <= 255, dr <= 255, inv <= 255;
    assert(sg * a <= 255 * 255 && dg * inv <= 255 * 255) by (nonlinear_arith)
        requires sg <= 255, a <= 255, dg <= 255, inv <= 255;
    assert(sb * a <= 255 * 255 && db * inv <= 255 * 255) by (nonlinear_arith)
        requires sb <= 255, a <= 255, db <= 255, inv <= 255;
    let r = (sr * a + dr * inv) / 255;
    let g = (sg * a + dg * inv) / 255;
    let b = (sb * a + db * inv) / 255;
    0xFF00_0000u32 | (r << 16u32) | (g << 8u32) | b
}

/// Tooltip pixel colours (ARGB): a slightly translucent dark navy
/// background, a blue border and dark dividers.
pub const TOOLTIP_BG: u32 = 0xEE192434;
pub const TOOLTIP_BORDER: u32 = 0xFF4488CC;
pub const TOOLTIP_DIVIDER: u32 = 0xFF2A3D55;

/// Tooltip text colours (`0xRRGGBB`).
pub const COL_TITLE: u32 = 0xCCDDFF;
pub const COL_KEY: u32 = 0x88AABB;
pub const COL_VALUE: u32 = 0xFFFFFF;
pub const COL_TAB_ON: u32 = 0x55CCFF;
pub const COL_TAB_OFF: u32 = 0x445566;

/// A piece of tooltip text in tooltip coordinates (left edge, baseline),
/// drawn with the 6 × 10 font by the caller, clipped to the tooltip.
pub struct TooltipText {
    pub x: i32,
    pub y: i32,
    pub text: String,
    /// `0xRRGGBB`.
    pub color: u32,
}

/// A tooltip text by its values.
pub open spec fn tooltip_text_view(t: TooltipText) -> (int, int, Seq<char>, u32) {
    (t.x as int, t.y as int, t.text@, t.color)
}

pub open spec fn tooltip_texts_view(v: Seq<TooltipText>) -> Seq<(int, int, Seq<char>, u32)> {
    v.map_values(|t: TooltipText| tooltip_text_view(t))
}

/// The buffer index of tooltip pixel (`x`, `y`) for a tooltip at (`tx`,
/// `ty`) in rows `sw` wide.
pub open spec fn tooltip_index(sw: u32, tx: u32, ty: u32, x: int, y: int) -> int {
    (ty + y) * sw + tx + x
}

/// The tooltip at (`tx`, `ty`) in rows `sw` wide: its rows and every
/// pixel index fit `u32`.
pub open spec fn tooltip_fits(sw: u32, tx: u32, ty: u32) -> bool {
    &&& ty + TOOLTIP_H - 1 <= u32::MAX
    &&& tooltip_index(sw, tx, ty, TOOLTIP_W - 1, TOOLTIP_H - 1) <= u32::MAX
}

/// Paint `color` over tooltip pixel (`x`, `y`): only inside the tooltip
/// and the buffer.
pub open spec fn tooltip_set(buf: Seq<u32>, sw: u32, tx: u32, ty: u32, x: int, y: int, color: u32) -> Seq<u32> {
    let i = tooltip_index(sw, tx, ty, x, y);
    if 0 <= x < TOOLTIP_W && 0 <= y < TOOLTIP_H && i < buf.len() {
        buf.update(i, painted_over(buf[i], color))
    } else {
        buf
    }
}

/// Paint the first `k` pixels of row `y` from column `x`, left to right.
pub open spec fn tooltip_row(buf: Seq<u32>, sw: u32, tx: u32, ty: u32, x: int, y: int, k: int, color: u32) -> Seq<
    u32,
>
    decreases k,
{
    if k <= 0 {
        buf
    } else {
        tooltip_set(tooltip_row(buf, sw, tx, ty, x, y, k - 1, color), sw, tx, ty, x + k - 1, y, color)
    }
}

/// Paint the `w × h` rectangle at (`x`, `y`), row by row.
pub open spec fn tooltip_rect(
    buf: Seq<u32>,
    sw: u32,
    tx: u32,
    ty: u32,
    x: int,
    y: int,
    w: int,
    h: int,
    color: u32,
) -> Seq<u32>
    decreases h,
{
    if h <= 0 {
        buf
    } else {
        tooltip_row(tooltip_rect(buf, sw, tx, ty, x, y, w, h - 1, color), sw, tx, ty, x, y + h - 1, w, color)
    }
}

/// Paint the top and bottom rows' first `k` columns, column by column.
pub open spec fn tooltip_edges_h(buf: Seq<u32>, sw: u32, tx: u32, ty: u32, k: int, color: u32) -> Seq<u32>
    decreases k,
{
    if k <= 0 {
        buf
    } else {
        let prev = tooltip_edges_h(buf, sw, tx, ty, k - 1, color);
        tooltip_set(tooltip_set(prev, sw, tx, ty, k - 1, 0, color), sw, tx, ty, k - 1, TOOLTIP_H - 1, color)
    }
}

/// Paint the left and right columns' first `k` rows, row by row.
pub open spec fn tooltip_edges_v(buf: Seq<u32>, sw: u32, tx: u32, ty: u32, k: int, color: u32) -> Seq<u32>
    decreases k,
{
    if k <= 0 {
        buf
    } else {
        let prev = tooltip_edges_v(buf, sw, tx, ty, k - 1, color);
        tooltip_set(tooltip_set(prev, sw, tx, ty, 0, k - 1, color), sw, tx, ty, TOOLTIP_W - 1, k - 1, color)
    }
}

/// The tooltip's one-pixel border.
pub open spec fn tooltip_border(buf: Seq<u32>, sw: u32, tx: u32, ty: u32) -> Seq<u32> {
    tooltip_edges_v(
        tooltip_edges_h(buf, sw, tx, ty, TOOLTIP_W as int, TOOLTIP_BORDER),
        sw,
        tx,
        ty,
        TOOLTIP_H as int,
        TOOLTIP_BORDER,
    )
}

/// The width of a tab of the tooltip's tab bar.
pub open spec fn tooltip_tab_w() -> int {
    (TOOLTIP_W - 2) / 3
}

/// The position of a tab in the tooltip's tab bar.
pub open spec fn tooltip_tab_index(t: InspectorTab) -> int {
    match t {
        InspectorTab::Layout => 0,
        InspectorTab::Component => 1,
        InspectorTab::Stats => 2,
    }
}

/// The background of tab `i`: blue when active.
pub open spec fn tab_bg(tab: InspectorTab, i: int) -> u32 {
    if tooltip_tab_index(tab) == i {
        0xFF1B3E6A
    } else {
        0xFF111820
    }
}

/// The first `n` tab backgrounds painted, left to right.
pub open spec fn tabs_painted(buf: Seq<u32>, sw: u32, tx: u32, ty: u32, tab: InspectorTab, n: int) -> Seq<u32>
    decreases n,
{
    if n <= 0 {
        buf
    } else {
        let tw = tooltip_tab_w();
        tooltip_rect(tabs_painted(buf, sw, tx, ty, tab, n - 1), sw, tx, ty, 1 + (n - 1) * tw, 1, tw, 9, tab_bg(tab, n - 1))
    }
}

/// The tooltip's background, translucent dark navy, and its border.
pub open spec fn tooltip_base(buf: Seq<u32>, sw: u32, tx: u32, ty: u32) -> Seq<u32> {
    tooltip_border(tooltip_rect(buf, sw, tx, ty, 0, 0, TOOLTIP_W as int, TOOLTIP_H as int, TOOLTIP_BG), sw, tx, ty)
}

/// The tooltip's frame: the translucent background, the border, the tab
/// backgrounds, and the dividers under the tab bar and above the type
/// badge.
pub open spec fn tooltip_frame(buf: Seq<u32>, sw: u32, tx: u32, ty: u32, tab: InspectorTab) -> Seq<u32> {
    let b4 = tabs_painted(tooltip_base(buf, sw, tx, ty), sw, tx, ty, tab, 3);
    let b5 = tooltip_rect(b4, sw, tx, ty, 0, 10, TOOLTIP_W as int, 1, TOOLTIP_DIVIDER);
    tooltip_rect(b5, sw, tx, ty, 0, TOOLTIP_H - 12, TOOLTIP_W as int, 1, TOOLTIP_DIVIDER)
}

/// The test id shown on the Component tab: cut to its first 17 bytes and
/// `..` when longer than 19 bytes, `(none)` when there is none.
pub open spec fn shown_id(c: ComponentInfo) -> Seq<char> {
    match c.test_id {
        Some(s) => if encode_utf8(s@).len() > 19 {
            decode_utf8(encode_utf8(s@).subrange(0, 17)) + ".."@
        } else {
            s@
        },
        None => "(none)"@,
    }
}

/// The type badge: the known types' abbreviations, else the first three
/// bytes of the type.
pub open spec fn badge(t: Seq<char>) -> Seq<char> {
    if t == "Container"@ {
        "CTN"@
    } else if t == "Button"@ {
        "BTN"@
    } else if t == "Label"@ {
        "LBL"@
    } else if t == "ProgressBar"@ {
        "PBR"@
    } else {
        let n = if encode_utf8(t).len() < 3 { encode_utf8(t).len() as int } else { 3 };
        decode_utf8(encode_utf8(t).subrange(0, n))
    }
}

/// The right or bottom edge of a component, as `i32` arithmetic gives it.
pub open spec fn far_edge(pos: i32, size: u32) -> int {
    pos + (size as i32)
}

/// The texts of the tooltip on tab `tab` for component `c`: the tab labels,
/// the tab's lines, and the type badge.
pub open spec fn tooltip_texts(tab: InspectorTab, c: ComponentInfo) -> Seq<(int, int, Seq<char>, u32)> {
    let on = |i: int| if tooltip_tab_index(tab) == i { COL_TAB_ON } else { COL_TAB_OFF };
    let tabs = seq![(3int, 9int, "LYT"@, on(0)), (42int, 9int, "CMP"@, on(1)), (81int, 9int, "STS"@, on(2))];
    let content = match tab {
        InspectorTab::Layout => seq![
            (3int, 12int, "LAYOUT"@, COL_TITLE),
            (3int, 23int, "pos "@, COL_KEY),
            (27int, 23int, "("@ + signed_decimal(c.position.0 as int) + ", "@ + signed_decimal(c.position.1 as int) + ")"@, COL_VALUE),
            (3int, 34int, "sz  "@, COL_KEY),
            (27int, 34int, decimal(c.size.0 as nat) + "\u{00D7}"@ + decimal(c.size.1 as nat), COL_VALUE),
            (3int, 45int, "br  "@, COL_KEY),
            (27int, 45int, "("@ + signed_decimal(far_edge(c.position.0, c.size.0)) + ", "@ + signed_decimal(
                far_edge(c.position.1, c.size.1),
            ) + ")"@, COL_VALUE),
        ],
        InspectorTab::Component => seq![
            (3int, 12int, "COMPONENT"@, COL_TITLE),
            (3int, 23int, c.component_type@, COL_VALUE),
            (3int, 34int, "id  "@, COL_KEY),
            (27int, 34int, shown_id(c), COL_VALUE),
        ],
        InspectorTab::Stats => seq![
            (3int, 12int, "STATS"@, COL_TITLE),
            (3int, 23int, "full  "@, COL_KEY),
            (39int, 23int, "0"@, COL_VALUE),
            (3int, 34int, "partial "@, COL_KEY),
            (51int, 34int, "0"@, COL_VALUE),
            (3int, 45int, "(live stats TBD)"@, COL_KEY),
        ],
    };
    tabs + content + seq![(3int, 78int, badge(c.component_type@), COL_TAB_ON), (3int, 78int, "  "@ + c.component_type@, COL_KEY)]
}

/// The tooltip for `c` on tab `tab` can be drawn: its pixel indices fit
/// `u32`, the right and bottom edges fit `i32` on the Layout tab, and the
/// cuts of the test id and of an unknown type's badge fall on character
/// boundaries.
pub open spec fn details_ok(sw: u32, tx: u32, ty: u32, tab: InspectorTab, c: ComponentInfo) -> bool {
    let t = encode_utf8(c.component_type@);
    &&& tooltip_fits(sw, tx, ty)
    &&& tab == InspectorTab::Layout ==> i32::MIN <= far_edge(c.position.0, c.size.0) <= i32::MAX && i32::MIN <= far_edge(
        c.position.1,
        c.size.1,
    ) <= i32::MAX
    &&& tab == InspectorTab::Component && c.test_id is Some && encode_utf8(c.test_id->0@).len() > 19
        ==> is_char_boundary(encode_utf8(c.test_id->0@), 17)
    &&& is_char_boundary(t, if t.len() < 3 { t.len() as int } else { 3 })
}

/// Paint `color` over tooltip pixel (`x`, `y`).
fn paint_tooltip_px(buf: &mut [u32], sw: u32, tx: u32, ty: u32, x: u32, y: u32, color: u32)
    requires
        tooltip_fits(sw, tx, ty),
    ensures
        final(buf)@ == tooltip_set(old(buf)@, sw, tx, ty, x as int, y as int, color),
{
    if x < TOOLTIP_W && y < TOOLTIP_H {
        assert((ty + y) * sw <= (ty + TOOLTIP_H - 1) * sw) by (nonlinear_arith)
            requires
                y <= TOOLTIP_H - 1,
        ;
        let i = ((ty + y) * sw + tx + x) as usize;
        if i < buf.len() {
            buf[i] = blend_pixel(buf[i], color);
        }
    }
}

/// Paint the `w × h` tooltip rectangle at (`x`, `y`), row by row.
fn paint_tooltip_rect(buf: &mut [u32], sw: u32, tx: u32, ty: u32, x: u32, y: u32, w: u32, h: u32, color: u32)
    requires
        tooltip_fits(sw, tx, ty),
        x + w <= TOOLTIP_W,
        y + h <= TOOLTIP_H,
    ensures
        final(buf)@ == tooltip_rect(old(buf)@, sw, tx, ty, x as int, y as int, w as int, h as int, color),
{
    let ghost start = buf@;
    let mut dy: u32 = 0;
    while dy < h
        invariant
            tooltip_fits(sw, tx, ty),
            x + w <= TOOLTIP_W,
            y + h <= TOOLTIP_H,
            dy <= h,
            buf@ == tooltip_rect(start, sw, tx, ty, x as int, y as int, w as int, dy as int, color),
        decreases h - dy,
    {
        let ghost row_start = buf@;
        let mut dx: u32 = 0;
        while dx < w
            invariant
                tooltip_fits(sw, tx, ty),
                x + w <= TOOLTIP_W,
                y + h <= TOOLTIP_H,
                dy < h,
                dx <= w,
                buf@ == tooltip_row(row_start, sw, tx, ty, x as int, y + dy, dx as int, color),
            decreases w - dx,
        {
            paint_tooltip_px(buf, sw, tx, ty, x + dx, y + dy, color);
            dx = dx + 1;
        }
        dy = dy + 1;
    }
}

/// Paint the tooltip's border.
pub fn paint_tooltip_border(buf: &mut [u32], sw: u32, tx: u32, ty: u32)
    requires
        tooltip_fits(sw, tx, ty),
    ensures
        final(buf)@ == tooltip_border(old(buf)@, sw, tx, ty),
{
    let ghost start = buf@;
    let mut k: u32 = 0;
    while k < TOOLTIP_W
        invariant
            tooltip_fits(sw, tx, ty),
            k <= TOOLTIP_W,
            buf@ == tooltip_edges_h(start, sw, tx, ty, k as int, TOOLTIP_BORDER),
        decreases TOOLTIP_W - k,
    {
        paint_tooltip_px(buf, sw, tx, ty, k, 0, TOOLTIP_BORDER);
        paint_tooltip_px(buf, sw, tx, ty, k, TOOLTIP_H - 1, TOOLTIP_BORDER);
        k = k + 1;
    }
    let ghost mid = buf@;
    let mut k: u32 = 0;
    while k < TOOLTIP_H
        invariant
            tooltip_fits(sw, tx, ty),
            k <= TOOLTIP_H,
            buf@ == tooltip_edges_v(mid, sw, tx, ty, k as int, TOOLTIP_BORDER),
        decreases TOOLTIP_H - k,
    {
        paint_tooltip_px(buf, sw, tx, ty, 0, k, TOOLTIP_BORDER);
        paint_tooltip_px(buf, sw, tx, ty, TOOLTIP_W - 1, k, TOOLTIP_BORDER);
        k = k + 1;
    }
}

/// Push a tooltip text.
fn push_tooltip_text(v: &mut Vec<TooltipText>, x: i32, y: i32, text: String, color: u32)
    ensures
        tooltip_texts_view(final(v)@) == tooltip_texts_view(old(v)@).push((x as int, y as int, text@, color)),
{
    let ghost before = v@;
    let ghost t = text@;
    v.push(TooltipText { x, y, text, color });
    assert(tooltip_texts_view(v@) =~= tooltip_texts_view(before).push((x as int, y as int, t, color)));
}

/// The test id shown on the Component tab.
fn shown_id_text(c: &ComponentInfo) -> (r: String)
    requires
        c.test_id is Some && encode_utf8(c.test_id->0@).len() > 19 ==> is_char_boundary(encode_utf8(c.test_id->0@), 17),
    ensures
        r@ == shown_id(*c),
{
    match &c.test_id {
        Some(s) => {
            let id = s.as_str();
            if id.as_bytes().len() > 19 {
                let (head, _) = id.split_at(17);
                proof {
                    encode_utf8_decode_utf8(head@);
                }
                String::from_str(head).concat("..")
            } else {
                String::from_str(id)
            }
        },
        None => String::from_str("(none)"),
    }
}

/// The type badge.
fn badge_text(t: &str) -> (r: String)
    requires
        is_char_boundary(
            encode_utf8(t@),
            if encode_utf8(t@).len() < 3 { encode_utf8(t@).len() as int } else { 3 },
        ),
    ensures
        r@ == badge(t@),
{
    if same_text(t, "Container") {
        String::from_str("CTN")
    } else if same_text(t, "Button") {
        String::from_str("BTN")
    } else if same_text(t, "Label") {
        String::from_str("LBL")
    } else if same_text(t, "ProgressBar") {
        String::from_str("PBR")
    } else {
        let len = t.as_bytes().len();
        let n = if len < 3 { len } else { 3 };
        let (head, _) = t.split_at(n);
        proof {
            encode_utf8_decode_utf8(head@);
        }
        String::from_str(head)
    }
}

/// The Layout tab's lines.
fn layout_lines(c: &ComponentInfo, v: &mut Vec<TooltipText>)
    requires
        i32::MIN <= far_edge(c.position.0, c.size.0) <= i32::MAX,
        i32::MIN <= far_edge(c.position.1, c.size.1) <= i32::MAX,
    ensures
        tooltip_texts_view(final(v)@) == tooltip_texts_view(old(v)@) + seq![
            (3int, 12int, "LAYOUT"@, COL_TITLE),
            (3int, 23int, "pos "@, COL_KEY),
            (27int, 23int, "("@ + signed_decimal(c.position.0 as int) + ", "@ + signed_decimal(c.position.1 as int) + ")"@, COL_VALUE),
            (3int, 34int, "sz  "@, COL_KEY),
            (27int, 34int, decimal(c.size.0 as nat) + "\u{00D7}"@ + decimal(c.size.1 as nat), COL_VALUE),
            (3int, 45int, "br  "@, COL_KEY),
            (27int, 45int, "("@ + signed_decimal(far_edge(c.position.0, c.size.0)) + ", "@ + signed_decimal(
                far_edge(c.position.1, c.size.1),
            ) + ")"@, COL_VALUE),
        ],
{
    let ghost start = tooltip_texts_view(v@);
    push_tooltip_text(v, 3, 12, String::from_str("LAYOUT"), COL_TITLE);
    push_tooltip_text(v, 3, 23, String::from_str("pos "), COL_KEY);
    let pos = String::from_str("(").concat(fmt_i64(c.position.0 as i64).as_str()).concat(", ").concat(
        fmt_i64(c.position.1 as i64).as_str(),
    ).concat(")");
    push_tooltip_text(v, 27, 23, pos, COL_VALUE);
    push_tooltip_text(v, 3, 34, String::from_str("sz  "), COL_KEY);
    let size = fmt_u64(c.size.0 as u64).concat("\u{00D7}").concat(fmt_u64(c.size.1 as u64).as_str());
    push_tooltip_text(v, 27, 34, size, COL_VALUE);
    push_tooltip_text(v, 3, 45, String::from_str("br  "), COL_KEY);
    let right = c.position.0 + c.size.0 as i32;
    let bottom = c.position.1 + c.size.1 as i32;
    let br = String::from_str("(").concat(fmt_i64(right as i64).as_str()).concat(", ").concat(
        fmt_i64(bottom as i64).as_str(),
    ).concat(")");
    push_tooltip_text(v, 27, 45, br, COL_VALUE);
    assert(tooltip_texts_view(v@) =~= start + seq![
        (3int, 12int, "LAYOUT"@, COL_TITLE),
        (3int, 23int, "pos "@, COL_KEY),
        (27int, 23int, "("@ + signed_decimal(c.position.0 as int) + ", "@ + signed_decimal(c.position.1 as int) + ")"@, COL_VALUE),
        (3int, 34int, "sz  "@, COL_KEY),
        (27int, 34int, decimal(c.size.0 as nat) + "\u{00D7}"@ + decimal(c.size.1 as nat), COL_VALUE),
        (3int, 45int, "br  "@, COL_KEY),
        (27int, 45int, "("@ + signed_decimal(far_edge(c.position.0, c.size.0)) + ", "@ + signed_decimal(
            far_edge(c.position.1, c.size.1),
        ) + ")"@, COL_VALUE),
    ]);
}

impl Inspector {
    /// Draw the tooltip for `component` asked for at (`x`, `y`) in a
    /// buffer `screen_width` wide: its frame is painted, moved left to stay
    /// on screen where it can; its texts are returned, in tooltip
    /// coordinates, for the caller to draw with the 6 × 10 font and then
    /// stamp the border again with [`paint_tooltip_border`].
    pub fn render_details(
        &self,
        buffer: &mut [u32],
        screen_width: u32,
        x: u32,
        y: u32,
        component: &ComponentInfo,
    ) -> (r: Vec<TooltipText>)
        requires
            details_ok(screen_width, tooltip_left(x, screen_width), y, self.tab(), *component),
        ensures
            final(buffer)@ == tooltip_frame(old(buffer)@, screen_width, tooltip_left(x, screen_width), y, self.tab()),
            tooltip_texts_view(r@) == tooltip_texts(self.tab(), *component),
    {
        let tx = tooltip_x(x, screen_width);
        let ty = y;
        let tab = self.current_tab;
        paint_tooltip_rect(buffer, screen_width, tx, ty, 0, 0, TOOLTIP_W, TOOLTIP_H, TOOLTIP_BG);
        paint_tooltip_border(buffer, screen_width, tx, ty);
        let tab_w = (TOOLTIP_W - 2) / 3;
        let active: u32 = match tab {
            InspectorTab::Layout => 0,
            InspectorTab::Component => 1,
            InspectorTab::Stats => 2,
        };
        let mut texts: Vec<TooltipText> = Vec::new();
        let mut i: u32 = 0;
        while i < 3
            invariant
                tooltip_fits(screen_width, tx, ty),
                tab_w == tooltip_tab_w(),
                active == tooltip_tab_index(tab),
                tab == self.tab(),
                tx == tooltip_left(x, screen_width),
                ty == y,
                i <= 3,
                tooltip_texts_view(texts@) == tooltip_texts(tab, *component).take(i as int),
                buffer@ == tabs_painted(tooltip_base(old(buffer)@, screen_width, tx, ty), screen_width, tx, ty, tab, i as int),
            decreases 3 - i,
        {
            let tab_x = 1 + i * tab_w;
            let bg = if i == active { 0xFF1B3E6Au32 } else { 0xFF111820u32 };
            paint_tooltip_rect(buffer, screen_width, tx, ty, tab_x, 1, tab_w, 9, bg);
            let color = if i == active { COL_TAB_ON } else { COL_TAB_OFF };
            let label = if i == 0 { "LYT" } else if i == 1 { "CMP" } else { "STS" };
            push_tooltip_text(&mut texts, tab_x as i32 + 2, 9, String::from_str(label), color);
            assert(tooltip_texts(tab, *component).take(i + 1) =~= tooltip_texts(tab, *component).take(i as int).push(
                tooltip_texts(tab, *component)[i as int],
            ));
            i = i + 1;
        }
        paint_tooltip_rect(buffer, screen_width, tx, ty, 0, 10, TOOLTIP_W, 1, TOOLTIP_DIVIDER);
        let ghost before_content = tooltip_texts_view(texts@);
        match tab {
            InspectorTab::Layout => {
                layout_lines(component, &mut texts);
            },
            InspectorTab::Component => {
                push_tooltip_text(&mut texts, 3, 12, String::from_str("COMPONENT"), COL_TITLE);
                push_tooltip_text(&mut texts, 3, 23, component.component_type.clone(), COL_VALUE);
                push_tooltip_text(&mut texts, 3, 34, String::from_str("id  "), COL_KEY);
                push_tooltip_text(&mut texts, 27, 34, shown_id_text(component), COL_VALUE);
            },
            InspectorTab::Stats => {
                push_tooltip_text(&mut texts, 3, 12, String::from_str("STATS"), COL_TITLE);
                push_tooltip_text(&mut texts, 3, 23, String::from_str("full  "), COL_KEY);
                push_tooltip_text(&mut texts, 39, 23, String::from_str("0"), COL_VALUE);
                push_tooltip_text(&mut texts, 3, 34, String::from_str("partial "), COL_KEY);
                push_tooltip_text(&mut texts, 51, 34, String::from_str("0"), COL_VALUE);
                push_tooltip_text(&mut texts, 3, 45, String::from_str("(live stats TBD)"), COL_KEY);
            },
        }
        paint_tooltip_rect(buffer, screen_width, tx, ty, 0, TOOLTIP_H - 12, TOOLTIP_W, 1, TOOLTIP_DIVIDER);
        push_tooltip_text(&mut texts, 3, 78, badge_text(component.component_type.as_str()), COL_TAB_ON);
        push_tooltip_text(
            &mut texts,
            3,
            78,
            String::from_str("  ").concat(component.component_type.as_str()),
            COL_KEY,
        );
        assert(tooltip_texts_view(texts@) =~= tooltip_texts(tab, *component));
        texts
    }
}

} // verus!
