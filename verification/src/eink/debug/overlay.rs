//! Debug overlays drawn over the display image: semi-transparent fills and
//! one-pixel borders around components, in an ARGB buffer of rows `stride`
//! (or `width`) pixels wide.
//!
//! The labels of the layout overlay are drawn with a font by the caller:
//! [`OverlayRenderer::render_layout`] returns them with their places.
use vstd::prelude::*;
use vstd::arithmetic::div_mod::{lemma_fundamental_div_mod, lemma_fundamental_div_mod_converse};
use crate::eink::debug::inspector::{channel, mix};
use crate::eink::debug::state::{ComponentInfo, DebugState};
use crate::eink::debug::manager::{auto_zones, is_zone, zone_heights};
use vstd::arithmetic::mul::lemma_mul_inequality;
use crate::eink::quirks::{contains_bytes, has_sub};
use vstd::string::StringSliceAdditionalSpecFns;
use vstd::utf8::encode_utf8;

verus! {

/// `rgb` (`0x00RRGGBB`) over the pixel `ex` at opacity `alpha` out of 255,
/// channel by channel; the result is opaque.
pub open spec fn blended(ex: u32, rgb: u32, alpha: u8) -> u32 {
    0xFF00_0000u32 | (mix(channel(rgb, 16), channel(ex, 16), alpha as u32) << 16u32) | (mix(
        channel(rgb, 8),
        channel(ex, 8),
        alpha as u32,
    ) << 8u32) | mix(channel(rgb, 0), channel(ex, 0), alpha as u32)
}

/// The index of pixel (`px`, `py`) in rows `stride` wide.
pub open spec fn pixel_index(stride: u32, px: int, py: int) -> int {
    py * stride + px
}

/// Pixel `i` of a buffer `stride` wide and `height` high lies in the
/// `bw × bh` rectangle at (`bx`, `by`).
pub open spec fn in_rect(stride: u32, height: u32, bx: int, by: int, bw: int, bh: int, i: int) -> bool {
    let px = i % (stride as int);
    let py = i / (stride as int);
    &&& stride > 0
    &&& 0 <= i
    &&& py < height
    &&& by <= py < by + bh
    &&& bx <= px < bx + bw
}

/// The coordinates of a fill stay in range: the sizes fit `i32`, the last
/// row and, where a row is visible, the last column do not overflow, and
/// every visible pixel's index fits `u32`.
pub open spec fn fill_fits(stride: u32, height: u32, bx: i32, by: i32, bw: u32, bh: u32) -> bool {
    &&& stride <= i32::MAX && height <= i32::MAX && bw <= i32::MAX && bh <= i32::MAX
    &&& bh == 0 || by + bh - 1 <= i32::MAX
    &&& bw == 0 || bx + bw - 1 <= i32::MAX || !(bh > 0 && by < height && by + bh > 0)
    &&& forall|px: int, py: int|
        0 <= py < height && by <= py < by + bh && 0 <= px < stride && bx <= px < bx + bw ==> #[trigger] pixel_index(
            stride,
            px,
            py,
        ) <= u32::MAX
}

/// The buffer `buf` after [`fill_rect_blended`].
pub open spec fn rect_blended(
    buf: Seq<u32>,
    stride: u32,
    height: u32,
    bx: int,
    by: int,
    bw: int,
    bh: int,
    rgb: u32,
    alpha: u8,
) -> Seq<u32> {
    Seq::new(
        buf.len(),
        |i: int|
            if in_rect(stride, height, bx, by, bw, bh, i) {
                blended(buf[i], rgb, alpha)
            } else {
                buf[i]
            },
    )
}

/// Point `d` of the line of length from (`x0`, `y0`), going right or down.
pub open spec fn line_point(x0: int, y0: int, horizontal: bool, d: int) -> (int, int) {
    if horizontal {
        (x0 + d, y0)
    } else {
        (x0, y0 + d)
    }
}

/// Point `d` of the line is drawn, at pixel `i`: a point with negative
/// coordinates is skipped, and the width is not checked, so a point past
/// the end of a row lands on the next.
pub open spec fn line_at(width: u32, x0: int, y0: int, horizontal: bool, d: int, i: int) -> bool {
    let p = line_point(x0, y0, horizontal, d);
    p.0 >= 0 && p.1 >= 0 && pixel_index(width, p.0, p.1) == i
}

/// The index of point `d` of the line fits `u32`, or the point is skipped.
pub open spec fn line_fits(width: u32, x0: int, y0: int, horizontal: bool, d: int) -> bool {
    let p = line_point(x0, y0, horizontal, d);
    p.0 < 0 || p.1 < 0 || pixel_index(width, p.0, p.1) <= u32::MAX
}

/// Pixel `i` is drawn by the line of `n` points.
pub open spec fn on_line(width: u32, x0: int, y0: int, horizontal: bool, n: int, i: int) -> bool {
    exists|d: int| 0 <= d < n && #[trigger] line_at(width, x0, y0, horizontal, d, i)
}

/// A line of `n` points from (`x0`, `y0`) can be drawn: its coordinates
/// and indices stay in range.
pub open spec fn line_ok(width: u32, x0: i32, y0: i32, horizontal: bool, n: u32) -> bool {
    &&& n <= i32::MAX
    &&& n == 0 || (if horizontal {
        x0 + n - 1
    } else {
        y0 + n - 1
    }) <= i32::MAX
    &&& forall|d: int| 0 <= d < n ==> #[trigger] line_fits(width, x0 as int, y0 as int, horizontal, d)
}

/// Pixel `i` is drawn by the one-pixel border of the `w × h` rectangle at
/// (`x`, `y`): its top row, its bottom row `y + h - 1` (when `w > 0`), its
/// left column and its right column `x + w - 1` (when `h > 0`).
pub open spec fn on_border(width: u32, x: int, y: int, w: int, h: int, i: int) -> bool {
    ||| on_line(width, x, y, true, w, i)
    ||| w > 0 && on_line(width, x, y + h - 1, true, w, i)
    ||| on_line(width, x, y, false, h, i)
    ||| h > 0 && on_line(width, x + w - 1, y, false, h, i)
}

/// The border of the `w × h` rectangle at (`x`, `y`) can be drawn: its
/// coordinates and indices stay in range.
pub open spec fn border_ok(width: u32, x: i32, y: i32, w: u32, h: u32) -> bool {
    &&& line_ok(width, x, y, true, w)
    &&& line_ok(width, x, y, false, h)
    &&& w > 0 ==> i32::MIN <= y + h - 1 && y + h <= i32::MAX && line_ok(width, x, (y + h - 1) as i32, true, w)
    &&& h > 0 ==> i32::MIN <= x + w - 1 && x + w <= i32::MAX && line_ok(width, (x + w - 1) as i32, y, false, h)
}

/// The buffer `buf` with the border of the `w × h` rectangle at (`x`, `y`)
/// drawn in `color`.
pub open spec fn border_painted(buf: Seq<u32>, width: u32, x: int, y: int, w: int, h: int, color: u32) -> Seq<u32> {
    Seq::new(buf.len(), |i: int| if on_border(width, x, y, w, h, i) { color } else { buf[i] })
}

/// `rgb` over `ex` at opacity `alpha`.
fn blend(ex: u32, rgb: u32, alpha: u8) -> (r: u32)
    ensures
        r == blended(ex, rgb, alpha),
{
    let r_ov = (rgb >> 16u32) & 0xFF;
    let g_ov = (rgb >> 8u32) & 0xFF;
    let b_ov = rgb & 0xFF;
    let a = alpha as u32;
    let a_inv = 255 - a;
    let r_ex = (ex >> 16u32) & 0xFF;
    let g_ex = (ex >> 8u32) & 0xFF;
    let b_ex = ex & 0xFF;
    assert(r_ov == channel(rgb, 16) && g_ov == channel(rgb, 8) && b_ov == channel(rgb, 0) && r_ex == channel(ex, 16)
        && g_ex == channel(ex, 8) && b_ex == channel(ex, 0)) by (bit_vector)
        requires
            r_ov == (rgb >> 16u32) & 0xFF,
            g_ov == (rgb >> 8u32) & 0xFF,
            b_ov == rgb & 0xFF,
            r_ex == (ex >> 16u32) & 0xFF,
            g_ex == (ex >> 8u32) & 0xFF,
            b_ex == ex & 0xFF,
    ;
    assert(r_ov <= 0xFF && g_ov <= 0xFF && b_ov <= 0xFF && r_ex <= 0xFF && g_ex <= 0xFF && b_ex <= 0xFF)
        by (bit_vector)
        requires
            r_ov == (rgb >> 16u32) & 0xFF,
            g_ov == (rgb >> 8u32) & 0xFF,
            b_ov == rgb & 0xFF,
            r_ex == (ex >> 16u32) & 0xFF,
            g_ex == (ex >> 8u32) & 0xFF,
            b_ex == ex & 0xFF,
    ;
    assert(r_ex * a_inv <= 255 * 255 && r_ov * a <= 255 * 255) by (nonlinear_arith)
        requires
            r_ex <= 255,
            a_inv <= 255,
            r_ov <= 255,
            a <= 255,
    ;
    assert(g_ex * a_inv <= 255 * 255 && g_ov * a <= 255 * 255) by (nonlinear_arith)
        requires
            g_ex <= 255,
            a_inv <= 255,
            g_ov <= 255,
            a <= 255,
    ;
    assert(b_ex * a_inv <= 255 * 255 && b_ov * a <= 255 * 255) by (nonlinear_arith)
        requires
            b_ex <= 255,
            a_inv <= 255,
            b_ov <= 255,
            a <= 255,
    ;
    let r = (r_ex * a_inv + r_ov * a) / 255;
    let g = (g_ex * a_inv + g_ov * a) / 255;
    let b = (b_ex * a_inv + b_ov * a) / 255;
    0xFF00_0000u32 | (r << 16u32) | (g << 8u32) | b
}

/// A pixel index determines its column and row.
proof fn lemma_pixel_at(stride: u32, px: int, py: int, i: int)
    requires
        stride > 0,
        0 <= px < stride,
        0 <= py,
    ensures
        i == pixel_index(stride, px, py) <==> (0 <= i && i % (stride as int) == px && i / (stride as int) == py),
{
    if i == pixel_index(stride, px, py) {
        lemma_fundamental_div_mod_converse(i, stride as int, py, px);
    }
    if 0 <= i && i % (stride as int) == px && i / (stride as int) == py {
        lemma_fundamental_div_mod(i, stride as int);
    }
}

/// Blend `rgb` at opacity `alpha` into the `bw × bh` rectangle at (`bx`,
/// `by`) of `buffer`, whose rows are `stride` pixels wide and which is
/// `height` rows high; what falls outside is left alone.
pub fn fill_rect_blended(
    buffer: &mut [u32],
    stride: u32,
    height: u32,
    bx: i32,
    by: i32,
    bw: u32,
    bh: u32,
    rgb: u32,
    alpha: u8,
)
    requires
        fill_fits(stride, height, bx, by, bw, bh),
    ensures
        final(buffer)@.len() == old(buffer)@.len(),
        final(buffer)@ == rect_blended(old(buffer)@, stride, height, bx as int, by as int, bw as int, bh as int, rgb, alpha),
{
    let ghost orig = buffer@;
    let mut dy: u32 = 0;
    while dy < bh
        invariant
            fill_fits(stride, height, bx, by, bw, bh),
            orig == old(buffer)@,
            dy <= bh,
            buffer@.len() == orig.len(),
            forall|i: int|
                0 <= i < orig.len() ==> #[trigger] buffer@[i] == if in_rect(
                    stride,
                    height,
                    bx as int,
                    by as int,
                    bw as int,
                    dy as int,
                    i,
                ) {
                    blended(orig[i], rgb, alpha)
                } else {
                    orig[i]
                },
        decreases bh - dy,
    {
        let py: i32 = by + dy as i32;
        if py >= 0 && py < height as i32 {
            let ghost row = buffer@;
            let mut dx: u32 = 0;
            while dx < bw
                invariant
                    fill_fits(stride, height, bx, by, bw, bh),
                    dy < bh,
                    py == by + dy,
                    0 <= py < height,
                    dx <= bw,
                    buffer@.len() == orig.len(),
                    forall|i: int|
                        0 <= i < orig.len() ==> #[trigger] buffer@[i] == if in_rect(
                            stride,
                            height,
                            bx as int,
                            by as int,
                            bw as int,
                            dy as int,
                            i,
                        ) || in_rect(stride, height, bx as int, py as int, dx as int, 1, i) {
                            blended(orig[i], rgb, alpha)
                        } else {
                            orig[i]
                        },
                decreases bw - dx,
            {
                let px: i32 = bx + dx as i32;
                if px >= 0 && px < stride as i32 {
                    assert(pixel_index(stride, px as int, py as int) <= u32::MAX);
                    let idx = (py as u32 * stride + px as u32) as usize;
                    proof {
                        assert forall|i: int| #![trigger in_rect(stride, height, bx as int, py as int, dx + 1, 1, i)]
                            0 <= i implies (in_rect(stride, height, bx as int, py as int, dx + 1, 1, i) <==> (
                            in_rect(stride, height, bx as int, py as int, dx as int, 1, i) || i == idx)) by {
                            lemma_pixel_at(stride, px as int, py as int, i);
                        }
                        assert(!in_rect(stride, height, bx as int, by as int, bw as int, dy as int, idx as int)
                            && !in_rect(stride, height, bx as int, py as int, dx as int, 1, idx as int)) by {
                            lemma_pixel_at(stride, px as int, py as int, idx as int);
                        }
                    }
                    if idx < buffer.len() {
                        let ex = buffer[idx];
                        buffer[idx] = blend(ex, rgb, alpha);
                    }
                } else {
                    proof {
                        assert forall|i: int| #![trigger in_rect(stride, height, bx as int, py as int, dx + 1, 1, i)]
                            0 <= i implies (in_rect(stride, height, bx as int, py as int, dx + 1, 1, i) <==> in_rect(
                            stride,
                            height,
                            bx as int,
                            py as int,
                            dx as int,
                            1,
                            i,
                        )) by {}
                    }
                }
                dx = dx + 1;
            }
            assert forall|i: int| 0 <= i < orig.len() implies #[trigger] buffer@[i] == if in_rect(
                stride,
                height,
                bx as int,
                by as int,
                bw as int,
                dy + 1,
                i,
            ) {
                blended(orig[i], rgb, alpha)
            } else {
                orig[i]
            } by {
                assert(in_rect(stride, height, bx as int, by as int, bw as int, dy + 1, i) == (in_rect(
                    stride,
                    height,
                    bx as int,
                    by as int,
                    bw as int,
                    dy as int,
                    i,
                ) || in_rect(stride, height, bx as int, py as int, bw as int, 1, i)));
            }
        } else {
            assert forall|i: int| 0 <= i < orig.len() implies #[trigger] buffer@[i] == if in_rect(
                stride,
                height,
                bx as int,
                by as int,
                bw as int,
                dy + 1,
                i,
            ) {
                blended(orig[i], rgb, alpha)
            } else {
                orig[i]
            } by {
                assert(in_rect(stride, height, bx as int, by as int, bw as int, dy + 1, i) == in_rect(
                    stride,
                    height,
                    bx as int,
                    by as int,
                    bw as int,
                    dy as int,
                    i,
                ));
            }
        }
        dy = dy + 1;
    }
    assert(buffer@ =~= rect_blended(orig, stride, height, bx as int, by as int, bw as int, bh as int, rgb, alpha));
}

/// Set pixel (`x`, `y`) to `color` where both are non-negative and the
/// index falls inside the buffer.
fn set_pixel(buffer: &mut [u32], width: u32, x: i32, y: i32, color: u32)
    requires
        x < 0 || y < 0 || pixel_index(width, x as int, y as int) <= u32::MAX,
    ensures
        final(buffer)@.len() == old(buffer)@.len(),
        forall|i: int|
            0 <= i < old(buffer)@.len() ==> #[trigger] final(buffer)@[i] == if x >= 0 && y >= 0 && pixel_index(
                width,
                x as int,
                y as int,
            ) == i {
                color
            } else {
                old(buffer)@[i]
            },
{
    if x >= 0 && y >= 0 {
        let idx = (y as u32 * width + x as u32) as usize;
        if idx < buffer.len() {
            buffer[idx] = color;
        }
    }
}

/// Draw the `n` points of a line from (`x0`, `y0`), going right or down.
fn paint_line(buffer: &mut [u32], width: u32, x0: i32, y0: i32, horizontal: bool, n: u32, color: u32)
    requires
        line_ok(width, x0, y0, horizontal, n),
    ensures
        final(buffer)@.len() == old(buffer)@.len(),
        forall|i: int|
            0 <= i < old(buffer)@.len() ==> #[trigger] final(buffer)@[i] == if on_line(
                width,
                x0 as int,
                y0 as int,
                horizontal,
                n as int,
                i,
            ) {
                color
            } else {
                old(buffer)@[i]
            },
{
    let ghost orig = buffer@;
    let mut d: u32 = 0;
    while d < n
        invariant
            line_ok(width, x0, y0, horizontal, n),
            d <= n,
            buffer@.len() == orig.len(),
            forall|i: int|
                0 <= i < orig.len() ==> #[trigger] buffer@[i] == if on_line(
                    width,
                    x0 as int,
                    y0 as int,
                    horizontal,
                    d as int,
                    i,
                ) {
                    color
                } else {
                    orig[i]
                },
        decreases n - d,
    {
        assert(line_fits(width, x0 as int, y0 as int, horizontal, d as int));
        let (px, py) = if horizontal {
            (x0 + d as i32, y0)
        } else {
            (x0, y0 + d as i32)
        };
        set_pixel(buffer, width, px, py, color);
        assert forall|i: int| 0 <= i < orig.len() implies #[trigger] buffer@[i] == if on_line(
            width,
            x0 as int,
            y0 as int,
            horizontal,
            d + 1,
            i,
        ) {
            color
        } else {
            orig[i]
        } by {
            if line_at(width, x0 as int, y0 as int, horizontal, d as int, i) {
                assert(on_line(width, x0 as int, y0 as int, horizontal, d + 1, i));
            } else if on_line(width, x0 as int, y0 as int, horizontal, d + 1, i) {
                let e = choose|e: int| 0 <= e < d + 1 && #[trigger] line_at(width, x0 as int, y0 as int, horizontal, e, i);
                assert(on_line(width, x0 as int, y0 as int, horizontal, d as int, i));
            }
        }
        d = d + 1;
    }
}

/// Draw the one-pixel border of the `size` rectangle at `pos` in `color`.
fn draw_rect_border(buffer: &mut [u32], width: u32, pos: (i32, i32), size: (u32, u32), color: u32)
    requires
        border_ok(width, pos.0, pos.1, size.0, size.1),
    ensures
        final(buffer)@ == border_painted(
            old(buffer)@,
            width,
            pos.0 as int,
            pos.1 as int,
            size.0 as int,
            size.1 as int,
            color,
        ),
{
    let ghost orig = buffer@;
    let (x, y) = pos;
    let (w, h) = size;
    paint_line(buffer, width, x, y, true, w, color);
    if w > 0 {
        paint_line(buffer, width, x, y + h as i32 - 1, true, w, color);
    }
    paint_line(buffer, width, x, y, false, h, color);
    if h > 0 {
        paint_line(buffer, width, x + w as i32 - 1, y, false, h, color);
    }
    assert(buffer@ =~= border_painted(orig, width, x as int, y as int, w as int, h as int, color));
}

/// The border colour of a component type: blue containers, green
/// buttons, red labels, purple progress bars, yellow otherwise.
pub open spec fn border_color(t: Seq<char>) -> u32 {
    if t == "Container"@ {
        0xFF0080FF
    } else if t == "Button"@ {
        0xFF00FF80
    } else if t == "Label"@ {
        0xFFFF4040
    } else if t == "ProgressBar"@ {
        0xFFC040FF
    } else {
        0xFFFFCC00
    }
}

/// Whether `a` reads `b`.
pub(crate) fn same_text(a: &str, b: &str) -> (r: bool)
    ensures
        r == (a@ == b@),
{
    a.to_owned() == b.to_owned()
}

/// The border of component `c` can be drawn in rows `width` wide.
pub open spec fn comp_border_ok(width: u32, c: ComponentInfo) -> bool {
    border_ok(width, c.position.0, c.position.1, c.size.0, c.size.1)
}

/// `buf` with the borders of the first `n` of `comps` drawn in turn, each
/// in the colour of its type.
pub open spec fn borders_drawn(buf: Seq<u32>, width: u32, comps: Seq<ComponentInfo>, n: int) -> Seq<u32>
    decreases n,
{
    if n <= 0 {
        buf
    } else {
        let c = comps[n - 1];
        border_painted(
            borders_drawn(buf, width, comps, n - 1),
            width,
            c.position.0 as int,
            c.position.1 as int,
            c.size.0 as int,
            c.size.1 as int,
            border_color(c.component_type@),
        )
    }
}

/// The fill and border of the hovered-component highlight can be drawn.
pub open spec fn highlight_ok(width: u32, height: u32, c: ComponentInfo) -> bool {
    &&& fill_fits(width, height, c.position.0, c.position.1, c.size.0, c.size.1)
    &&& comp_border_ok(width, c)
}

/// `buf` with component `c` highlighted as hovered: an amber fill at
/// opacity 18 out of 255 and a one-pixel amber border.
pub open spec fn hovered_drawn(buf: Seq<u32>, width: u32, height: u32, c: ComponentInfo) -> Seq<u32> {
    let (x, y, w, h) = (c.position.0 as int, c.position.1 as int, c.size.0 as int, c.size.1 as int);
    border_painted(rect_blended(buf, width, height, x, y, w, h, 0x00FF8C00, 18), width, x, y, w, h, 0xFFFF8C00)
}

/// The fill and the up to three borders of the selected-component
/// highlight can be drawn.
pub open spec fn selected_ok(width: u32, height: u32, c: ComponentInfo) -> bool {
    let (x, y, w, h) = (c.position.0, c.position.1, c.size.0, c.size.1);
    &&& highlight_ok(width, height, c)
    &&& w > 4 && h > 4 ==> x + 1 <= i32::MAX && y + 1 <= i32::MAX && border_ok(
        width,
        (x + 1) as i32,
        (y + 1) as i32,
        (w - 2) as u32,
        (h - 2) as u32,
    )
    &&& w > 8 && h > 8 ==> x + 2 <= i32::MAX && y + 2 <= i32::MAX && border_ok(
        width,
        (x + 2) as i32,
        (y + 2) as i32,
        (w - 4) as u32,
        (h - 4) as u32,
    )
}

/// `buf` with component `c` highlighted as selected: an orange fill at
/// opacity 45 out of 255, an orange border, a second one inside it when
/// the component is wider and higher than 4, and a lighter third inside
/// that when it is wider and higher than 8.
pub open spec fn selected_drawn(buf: Seq<u32>, width: u32, height: u32, c: ComponentInfo) -> Seq<u32> {
    let (x, y, w, h) = (c.position.0 as int, c.position.1 as int, c.size.0 as int, c.size.1 as int);
    let b1 = border_painted(rect_blended(buf, width, height, x, y, w, h, 0x00FF6200, 45), width, x, y, w, h, 0xFFFF6200);
    let b2 = if w > 4 && h > 4 {
        border_painted(b1, width, x + 1, y + 1, w - 2, h - 2, 0xFFFF6200)
    } else {
        b1
    };
    if w > 8 && h > 8 {
        border_painted(b2, width, x + 2, y + 2, w - 4, h - 4, 0xFFFFAA00)
    } else {
        b2
    }
}

/// `a - b`, or 0 where `b` is larger.
pub open spec fn sat_sub(a: int, b: int) -> int {
    if a >= b {
        a - b
    } else {
        0
    }
}

/// A zone of the box model: x, y, width, height.
pub type Zone = (int, int, int, int);

/// The margin box of `c`: its rectangle grown by its margins.
pub open spec fn margin_box(c: ComponentInfo) -> Zone {
    (
        c.position.0 - c.margin.left,
        c.position.1 - c.margin.top,
        c.size.0 + c.margin.left + c.margin.right,
        c.size.1 + c.margin.top + c.margin.bottom,
    )
}

/// The border box of `c`: its rectangle.
pub open spec fn border_box(c: ComponentInfo) -> Zone {
    (c.position.0 as int, c.position.1 as int, c.size.0 as int, c.size.1 as int)
}

/// The padding box of `c`: its rectangle inside its borders.
pub open spec fn padding_box(c: ComponentInfo) -> Zone {
    (
        c.position.0 + c.border.left,
        c.position.1 + c.border.top,
        sat_sub(c.size.0 as int, c.border.left + c.border.right),
        sat_sub(c.size.1 as int, c.border.top + c.border.bottom),
    )
}

/// The content box of `c`: its padding box inside its padding.
pub open spec fn content_box(c: ComponentInfo) -> Zone {
    let p = padding_box(c);
    (
        p.0 + c.padding.left,
        p.1 + c.padding.top,
        sat_sub(p.2, c.padding.left + c.padding.right),
        sat_sub(p.3, c.padding.top + c.padding.bottom),
    )
}

/// Zone `z` has `i32` coordinates and `u32` sizes and can be filled.
pub open spec fn zone_fits(sw: u32, sh: u32, z: Zone) -> bool {
    &&& i32::MIN <= z.0 <= i32::MAX && i32::MIN <= z.1 <= i32::MAX
    &&& 0 <= z.2 <= u32::MAX && 0 <= z.3 <= u32::MAX
    &&& fill_fits(sw, sh, z.0 as i32, z.1 as i32, z.2 as u32, z.3 as u32)
}

/// The four zones of `c`'s box model can be filled.
pub open spec fn box_model_ok(sw: u32, sh: u32, c: ComponentInfo) -> bool {
    &&& zone_fits(sw, sh, margin_box(c))
    &&& zone_fits(sw, sh, border_box(c))
    &&& zone_fits(sw, sh, padding_box(c))
    &&& zone_fits(sw, sh, content_box(c))
}

/// `buf` with zone `z` blended with `rgb` at opacity 100 out of 255.
pub open spec fn zone_blended(buf: Seq<u32>, sw: u32, sh: u32, z: Zone, rgb: u32) -> Seq<u32> {
    rect_blended(buf, sw, sh, z.0, z.1, z.2, z.3, rgb, 100)
}

/// `buf` with the box model of `c` drawn: the margin box orange, the
/// border box yellow, the padding box green and the content box blue, each
/// over the last.
pub open spec fn box_model_drawn(buf: Seq<u32>, sw: u32, sh: u32, c: ComponentInfo) -> Seq<u32> {
    zone_blended(
        zone_blended(
            zone_blended(zone_blended(buf, sw, sh, margin_box(c), 0xFFA040), sw, sh, border_box(c), 0xFFD040),
            sw,
            sh,
            padding_box(c),
            0x50CC50,
        ),
        sw,
        sh,
        content_box(c),
        0x4090E0,
    )
}

/// The buffer `buf` with the `w × h` rectangle at (`x0`, `y0`) set to
/// `color`, clipped to `width × height`.
pub open spec fn rect_filled(buf: Seq<u32>, width: u32, height: u32, x0: int, y0: int, w: int, h: int, color: u32) -> Seq<u32> {
    Seq::new(buf.len(), |i: int| if in_rect(width, height, x0, y0, w, h, i) { color } else { buf[i] })
}

/// A solid fill of the `w × h` rectangle at (`x0`, `y0`) stays in range:
/// its coordinates fit `u32` and so does every visible pixel's index.
pub open spec fn solid_fits(width: u32, height: u32, x0: int, y0: int, w: int, h: int) -> bool {
    &&& 0 <= x0 && 0 <= y0 && 0 <= w <= u32::MAX && 0 <= h <= u32::MAX
    &&& w > 0 && h > 0 ==> x0 + w - 1 <= u32::MAX && y0 + h - 1 <= u32::MAX
    &&& forall|px: int, py: int|
        0 <= py < height && y0 <= py < y0 + h && 0 <= px < width && x0 <= px < x0 + w ==> #[trigger] pixel_index(
            width,
            px,
            py,
        ) <= u32::MAX
}

/// The per-instance colours of the layout overlay, used in turn.
pub open spec fn palette(k: int) -> u32 {
    if k == 0 {
        0xFF4488FF
    } else if k == 1 {
        0xFF44FF88
    } else if k == 2 {
        0xFFFF6644
    } else if k == 3 {
        0xFFFF44FF
    } else if k == 4 {
        0xFF44FFFF
    } else if k == 5 {
        0xFFFFDD44
    } else if k == 6 {
        0xFFFF8844
    } else {
        0xFFBB44FF
    }
}

/// Whether `c` is a padding or margin zone: its test id contains `pad` or
/// `margin`.
pub open spec fn is_secondary(c: ComponentInfo) -> bool {
    match c.test_id {
        Some(id) => has_sub(encode_utf8(id@), "pad".spec_bytes()) || has_sub(encode_utf8(id@), "margin".spec_bytes()),
        None => false,
    }
}

/// The layout fill opacity of `c`: lighter for padding and margin zones.
pub open spec fn fill_alpha(c: ComponentInfo) -> u8 {
    if is_secondary(c) {
        38
    } else {
        64
    }
}

/// The text a layout label is taken from: the test id, else the type.
pub open spec fn label_source(c: ComponentInfo) -> Seq<char> {
    match c.test_id {
        Some(id) => id@,
        None => c.component_type@,
    }
}

/// How many characters of its label fit `c`: six pixels each, with eight
/// of margin, at most 32.
pub open spec fn label_room(c: ComponentInfo) -> int {
    let n = sat_sub(c.size.0 as int, 8) / 6;
    if n < 32 {
        n
    } else {
        32
    }
}

/// The layout label of `c`: as many characters of its source as fit.
pub open spec fn label_short(c: ComponentInfo) -> Seq<char> {
    let s = label_source(c);
    s.take(if label_room(c) < s.len() { label_room(c) } else { s.len() as int })
}

/// Whether `c` gets a layout label: it is at least 20 × 14 and some of its
/// label fits.
pub open spec fn has_label(c: ComponentInfo) -> bool {
    c.size.0 >= 20 && c.size.1 >= 14 && label_short(c).len() > 0
}

/// The width of the dark pill behind the label of `c`: six pixels per
/// byte of the label and four more, but at most the component's width
/// less four.
pub open spec fn pill_w(c: ComponentInfo) -> int {
    let n = encode_utf8(label_short(c)).len() as int * 6 + 4;
    let room = sat_sub(c.size.0 as int, 4);
    if n < room {
        n
    } else {
        room
    }
}

/// The left edge of the pill behind the label of `c`.
pub open spec fn pill_x(c: ComponentInfo) -> int {
    if c.position.0 + 2 > 0 {
        c.position.0 + 2
    } else {
        0
    }
}

/// The top of the pill behind the label of `c`.
pub open spec fn pill_y(c: ComponentInfo) -> int {
    if c.position.1 + 1 > 0 {
        c.position.1 + 1
    } else {
        0
    }
}

/// The layout overlay of `c` can be drawn: its fill, its two borders and
/// its label pill stay in range.
pub open spec fn layout_ok(width: u32, height: u32, c: ComponentInfo) -> bool {
    let (x, y, w, h) = (c.position.0, c.position.1, c.size.0, c.size.1);
    &&& highlight_ok(width, height, c)
    &&& w > 4 && h > 4 ==> x + 1 <= i32::MAX && y + 1 <= i32::MAX && border_ok(
        width,
        (x + 1) as i32,
        (y + 1) as i32,
        (w - 2) as u32,
        (h - 2) as u32,
    )
    &&& has_label(c) ==> x + 3 <= i32::MAX && y + 11 <= i32::MAX && solid_fits(
        width,
        height,
        pill_x(c),
        pill_y(c),
        pill_w(c),
        12,
    )
}

/// Pass one of the layout overlay over the first `n` components: each
/// filled with its palette colour at its opacity.
pub open spec fn layout_filled(buf: Seq<u32>, width: u32, height: u32, comps: Seq<ComponentInfo>, n: int) -> Seq<
    u32,
>
    decreases n,
{
    if n <= 0 {
        buf
    } else {
        let c = comps[n - 1];
        rect_blended(
            layout_filled(buf, width, height, comps, n - 1),
            width,
            height,
            c.position.0 as int,
            c.position.1 as int,
            c.size.0 as int,
            c.size.1 as int,
            palette((n - 1) % 8) & 0x00FF_FFFF,
            fill_alpha(c),
        )
    }
}

/// Pass two of the layout overlay over the first `n` components: a border
/// in the palette colour, and a second inside it where the component is
/// wider and higher than 4.
pub open spec fn layout_bordered(buf: Seq<u32>, width: u32, comps: Seq<ComponentInfo>, n: int) -> Seq<u32>
    decreases n,
{
    if n <= 0 {
        buf
    } else {
        let c = comps[n - 1];
        let (x, y, w, h) = (c.position.0 as int, c.position.1 as int, c.size.0 as int, c.size.1 as int);
        let color = palette((n - 1) % 8);
        let b = border_painted(layout_bordered(buf, width, comps, n - 1), width, x, y, w, h, color);
        if w > 4 && h > 4 {
            border_painted(b, width, x + 1, y + 1, w - 2, h - 2, color)
        } else {
            b
        }
    }
}

/// Pass three of the layout overlay over the first `n` components: the
/// dark pill behind each label.
pub open spec fn layout_pilled(buf: Seq<u32>, width: u32, height: u32, comps: Seq<ComponentInfo>, n: int) -> Seq<
    u32,
>
    decreases n,
{
    if n <= 0 {
        buf
    } else {
        let c = comps[n - 1];
        let prev = layout_pilled(buf, width, height, comps, n - 1);
        if has_label(c) {
            rect_filled(prev, width, height, pill_x(c), pill_y(c), pill_w(c), 12, 0xFF0A0A14)
        } else {
            prev
        }
    }
}

/// The labels of the first `n` components, in order: where to draw each
/// (its baseline three pixels right of and eleven below the corner), its
/// text and its palette colour.
pub open spec fn layout_labels(comps: Seq<ComponentInfo>, n: int) -> Seq<(int, int, Seq<char>, u32)>
    decreases n,
{
    if n <= 0 {
        Seq::empty()
    } else {
        let c = comps[n - 1];
        let prev = layout_labels(comps, n - 1);
        if has_label(c) {
            prev.push((c.position.0 + 3, c.position.1 + 11, label_short(c), palette((n - 1) % 8)))
        } else {
            prev
        }
    }
}

/// A label of the layout overlay, drawn with a 6 × 10 font by the caller.
pub struct LayoutLabel {
    /// Left edge of the text.
    pub x: i32,
    /// Baseline of the text.
    pub y: i32,
    pub text: String,
    /// ARGB colour.
    pub color: u32,
}

/// The values of a label.
pub open spec fn label_view(l: LayoutLabel) -> (int, int, Seq<char>, u32) {
    (l.x as int, l.y as int, l.text@, l.color)
}

/// Set the `w × h` rectangle at (`x0`, `y0`) to `color`, clipped to
/// `width × height`.
pub(crate) fn fill_rect_solid(buffer: &mut [u32], width: u32, height: u32, x0: u32, y0: u32, w: u32, h: u32, color: u32)
    requires
        solid_fits(width, height, x0 as int, y0 as int, w as int, h as int),
    ensures
        final(buffer)@ == rect_filled(old(buffer)@, width, height, x0 as int, y0 as int, w as int, h as int, color),
{
    let ghost orig = buffer@;
    let mut dy: u32 = 0;
    while dy < h
        invariant
            solid_fits(width, height, x0 as int, y0 as int, w as int, h as int),
            dy <= h,
            buffer@.len() == orig.len(),
            forall|i: int|
                0 <= i < orig.len() ==> #[trigger] buffer@[i] == if in_rect(
                    width,
                    height,
                    x0 as int,
                    y0 as int,
                    w as int,
                    dy as int,
                    i,
                ) {
                    color
                } else {
                    orig[i]
                },
        decreases h - dy,
    {
        let mut dx: u32 = 0;
        while dx < w
            invariant
                solid_fits(width, height, x0 as int, y0 as int, w as int, h as int),
                dy < h,
                dx <= w,
                buffer@.len() == orig.len(),
                forall|i: int|
                    0 <= i < orig.len() ==> #[trigger] buffer@[i] == if in_rect(
                        width,
                        height,
                        x0 as int,
                        y0 as int,
                        w as int,
                        dy as int,
                        i,
                    ) || in_rect(width, height, x0 as int, y0 + dy, dx as int, 1, i) {
                        color
                    } else {
                        orig[i]
                    },
            decreases w - dx,
        {
            let px = x0 + dx;
            let py = y0 + dy;
            if px < width && py < height {
                assert(pixel_index(width, px as int, py as int) <= u32::MAX);
                let idx = (py * width + px) as usize;
                proof {
                    assert forall|i: int| #![trigger in_rect(width, height, x0 as int, py as int, dx + 1, 1, i)]
                        0 <= i implies (in_rect(width, height, x0 as int, py as int, dx + 1, 1, i) <==> (in_rect(
                        width,
                        height,
                        x0 as int,
                        py as int,
                        dx as int,
                        1,
                        i,
                    ) || i == idx)) by {
                        lemma_pixel_at(width, px as int, py as int, i);
                    }
                }
                if idx < buffer.len() {
                    buffer[idx] = color;
                }
            } else {
                proof {
                    assert forall|i: int| #![trigger in_rect(width, height, x0 as int, py as int, dx + 1, 1, i)]
                        0 <= i implies (in_rect(width, height, x0 as int, py as int, dx + 1, 1, i) <==> in_rect(
                        width,
                        height,
                        x0 as int,
                        py as int,
                        dx as int,
                        1,
                        i,
                    )) by {}
                }
            }
            dx = dx + 1;
        }
        assert forall|i: int| 0 <= i < orig.len() implies #[trigger] buffer@[i] == if in_rect(
            width,
            height,
            x0 as int,
            y0 as int,
            w as int,
            dy + 1,
            i,
        ) {
            color
        } else {
            orig[i]
        } by {
            assert(in_rect(width, height, x0 as int, y0 as int, w as int, dy + 1, i) == (in_rect(
                width,
                height,
                x0 as int,
                y0 as int,
                w as int,
                dy as int,
                i,
            ) || in_rect(width, height, x0 as int, y0 + dy, w as int, 1, i)));
        }
        dy = dy + 1;
    }
    assert(buffer@ =~= rect_filled(orig, width, height, x0 as int, y0 as int, w as int, h as int, color));
}

/// A character takes at most four bytes of UTF-8.
proof fn lemma_utf8_len(s: Seq<char>)
    ensures
        encode_utf8(s).len() <= 4 * s.len(),
    decreases s.len(),
{
    if s.len() > 0 {
        lemma_utf8_len(s.drop_first());
    }
}

/// The palette colour of component `i`.
fn palette_color(i: usize) -> (r: u32)
    ensures
        r == palette((i % 8) as int),
{
    let k = i % 8;
    if k == 0 {
        0xFF4488FF
    } else if k == 1 {
        0xFF44FF88
    } else if k == 2 {
        0xFFFF6644
    } else if k == 3 {
        0xFFFF44FF
    } else if k == 4 {
        0xFF44FFFF
    } else if k == 5 {
        0xFFFFDD44
    } else if k == 6 {
        0xFFFF8844
    } else {
        0xFFBB44FF
    }
}

/// Whether `c` is a padding or margin zone.
fn secondary(c: &ComponentInfo) -> (r: bool)
    ensures
        r == is_secondary(*c),
{
    match &c.test_id {
        Some(id) => {
            let b = id.as_str().as_bytes();
            contains_bytes(b, "pad".as_bytes()) || contains_bytes(b, "margin".as_bytes())
        },
        None => false,
    }
}

/// The layout label of `c`, where it gets one.
fn layout_label(c: &ComponentInfo) -> (r: Option<String>)
    ensures
        has_label(*c) ==> (r matches Some(s) && s@ == label_short(*c)),
        !has_label(*c) ==> r is None,
{
    if c.size.0 < 20 || c.size.1 < 14 {
        return None;
    }
    let label: &str = match &c.test_id {
        Some(id) => id.as_str(),
        None => c.component_type.as_str(),
    };
    let room = c.size.0.saturating_sub(8) / 6;
    let max_chars: usize = if room < 32 { room as usize } else { 32 };
    let total = label.unicode_len();
    let n = if max_chars < total { max_chars } else { total };
    if n == 0 {
        return None;
    }
    Some(label.substring_char(0, n).to_owned())
}

/// Renders debug overlays on the framebuffer.
pub struct OverlayRenderer;

impl OverlayRenderer {
    /// Create a new overlay renderer.
    pub fn new() -> (r: Self)
        ensures
            r == OverlayRenderer,
    {
        OverlayRenderer
    }

    /// The border colour of a component type.
    pub fn get_border_color(&self, component_type: &str) -> (r: u32)
        ensures
            r == border_color(component_type@),
    {
        if same_text(component_type, "Container") {
            0xFF0080FF
        } else if same_text(component_type, "Button") {
            0xFF00FF80
        } else if same_text(component_type, "Label") {
            0xFFFF4040
        } else if same_text(component_type, "ProgressBar") {
            0xFFC040FF
        } else {
            0xFFFFCC00
        }
    }

    /// Draw a one-pixel border around each component, in the colour of its
    /// type.
    pub fn render_borders(&self, buffer: &mut [u32], width: u32, _height: u32, components: &[ComponentInfo])
        requires
            forall|k: int| 0 <= k < components@.len() ==> comp_border_ok(width, #[trigger] components@[k]),
        ensures
            final(buffer)@ == borders_drawn(old(buffer)@, width, components@, components@.len() as int),
    {
        let ghost orig = buffer@;
        let mut k: usize = 0;
        while k < components.len()
            invariant
                k <= components@.len(),
                forall|j: int| 0 <= j < components@.len() ==> comp_border_ok(width, #[trigger] components@[j]),
                buffer@ == borders_drawn(orig, width, components@, k as int),
            decreases components@.len() - k,
        {
            let c = &components[k];
            assert(comp_border_ok(width, components@[k as int]));
            let color = self.get_border_color(c.component_type.as_str());
            draw_rect_border(buffer, width, c.position, c.size, color);
            k = k + 1;
        }
    }

    /// Draw the box model of the hovered component: its margin box orange,
    /// its border box yellow, its padding box green and its content box
    /// blue, each at opacity 100 out of 255.
    pub fn render_hovered_box_model(&self, buffer: &mut [u32], screen_width: u32, screen_height: u32, comp: &ComponentInfo)
        requires
            box_model_ok(screen_width, screen_height, *comp),
        ensures
            final(buffer)@ == box_model_drawn(old(buffer)@, screen_width, screen_height, *comp),
    {
        let mx = comp.position.0 - comp.margin.left as i32;
        let my = comp.position.1 - comp.margin.top as i32;
        let mw = comp.size.0 + comp.margin.left as u32 + comp.margin.right as u32;
        let mh = comp.size.1 + comp.margin.top as u32 + comp.margin.bottom as u32;
        fill_rect_blended(buffer, screen_width, screen_height, mx, my, mw, mh, 0xFFA040, 100);
        fill_rect_blended(
            buffer,
            screen_width,
            screen_height,
            comp.position.0,
            comp.position.1,
            comp.size.0,
            comp.size.1,
            0xFFD040,
            100,
        );
        let px = comp.position.0 + comp.border.left as i32;
        let py = comp.position.1 + comp.border.top as i32;
        let pw = comp.size.0.saturating_sub(comp.border.left as u32 + comp.border.right as u32);
        let ph = comp.size.1.saturating_sub(comp.border.top as u32 + comp.border.bottom as u32);
        fill_rect_blended(buffer, screen_width, screen_height, px, py, pw, ph, 0x50CC50, 100);
        let cx = px + comp.padding.left as i32;
        let cy = py + comp.padding.top as i32;
        let cw = pw.saturating_sub(comp.padding.left as u32 + comp.padding.right as u32);
        let ch = ph.saturating_sub(comp.padding.top as u32 + comp.padding.bottom as u32);
        fill_rect_blended(buffer, screen_width, screen_height, cx, cy, cw, ch, 0x4090E0, 100);
    }

    /// Draw the layout overlay: each component filled with its palette
    /// colour (lighter for padding and margin zones), then bordered twice
    /// in it, then a dark pill for each label. Returns the labels, in
    /// order, for the caller to draw with a 6 × 10 font.
    pub fn render_layout(&self, buffer: &mut [u32], width: u32, height: u32, components: &[ComponentInfo]) -> (r: Vec<
        LayoutLabel,
    >)
        requires
            forall|k: int| 0 <= k < components@.len() ==> layout_ok(width, height, #[trigger] components@[k]),
        ensures
            final(buffer)@ == layout_pilled(
                layout_bordered(
                    layout_filled(old(buffer)@, width, height, components@, components@.len() as int),
                    width,
                    components@,
                    components@.len() as int,
                ),
                width,
                height,
                components@,
                components@.len() as int,
            ),
            r@.map_values(|l: LayoutLabel| label_view(l)) == layout_labels(components@, components@.len() as int),
    {
        let ghost orig = buffer@;
        let ghost comps = components@;
        let mut i: usize = 0;
        while i < components.len()
            invariant
                comps == components@,
                i <= comps.len(),
                forall|k: int| 0 <= k < comps.len() ==> layout_ok(width, height, #[trigger] comps[k]),
                buffer@ == layout_filled(orig, width, height, comps, i as int),
            decreases comps.len() - i,
        {
            let c = &components[i];
            assert(layout_ok(width, height, comps[i as int]));
            let rgb = palette_color(i) & 0x00FF_FFFF;
            let alpha: u8 = if secondary(c) { 38 } else { 64 };
            fill_rect_blended(buffer, width, height, c.position.0, c.position.1, c.size.0, c.size.1, rgb, alpha);
            i = i + 1;
        }
        let ghost filled = buffer@;
        let mut i: usize = 0;
        while i < components.len()
            invariant
                comps == components@,
                i <= comps.len(),
                forall|k: int| 0 <= k < comps.len() ==> layout_ok(width, height, #[trigger] comps[k]),
                buffer@ == layout_bordered(filled, width, comps, i as int),
            decreases comps.len() - i,
        {
            let c = &components[i];
            assert(layout_ok(width, height, comps[i as int]));
            let color = palette_color(i);
            draw_rect_border(buffer, width, c.position, c.size, color);
            if c.size.0 > 4 && c.size.1 > 4 {
                draw_rect_border(
                    buffer,
                    width,
                    (c.position.0 + 1, c.position.1 + 1),
                    (c.size.0 - 2, c.size.1 - 2),
                    color,
                );
            }
            i = i + 1;
        }
        let ghost bordered = buffer@;
        let mut labels: Vec<LayoutLabel> = Vec::new();
        let mut i: usize = 0;
        while i < components.len()
            invariant
                comps == components@,
                i <= comps.len(),
                forall|k: int| 0 <= k < comps.len() ==> layout_ok(width, height, #[trigger] comps[k]),
                buffer@ == layout_pilled(bordered, width, height, comps, i as int),
                labels@.map_values(|l: LayoutLabel| label_view(l)) == layout_labels(comps, i as int),
            decreases comps.len() - i,
        {
            let c = &components[i];
            assert(layout_ok(width, height, comps[i as int]));
            match layout_label(c) {
                Some(text) => {
                    proof {
                        lemma_utf8_len(text@);
                    }
                    let bw = c.size.0;
                    let n = text.as_str().len() as u32;
                    let room = bw.saturating_sub(4);
                    let bg_w = if n * 6 + 4 < room { n * 6 + 4 } else { room };
                    let bg_x: u32 = if c.position.0 + 2 > 0 { (c.position.0 + 2) as u32 } else { 0 };
                    let bg_y: u32 = if c.position.1 + 1 > 0 { (c.position.1 + 1) as u32 } else { 0 };
                    fill_rect_solid(buffer, width, height, bg_x, bg_y, bg_w, 12, 0xFF0A0A14);
                    let color = palette_color(i);
                    let ghost before = labels@;
                    labels.push(LayoutLabel { x: c.position.0 + 3, y: c.position.1 + 11, text, color });
                    assert(labels@.map_values(|l: LayoutLabel| label_view(l)) =~= before.map_values(
                        |l: LayoutLabel| label_view(l),
                    ).push(label_view(labels@.last())));
                },
                None => {},
            }
            i = i + 1;
        }
        labels
    }

    /// Highlight the component under the cursor: an amber fill at opacity
    /// 18 out of 255 and a one-pixel amber border.
    pub fn render_hovered_component(&self, buffer: &mut [u32], width: u32, height: u32, comp: &ComponentInfo)
        requires
            highlight_ok(width, height, *comp),
        ensures
            final(buffer)@ == hovered_drawn(old(buffer)@, width, height, *comp),
    {
        let hov_color: u32 = 0xFFFF8C00;
        fill_rect_blended(
            buffer,
            width,
            height,
            comp.position.0,
            comp.position.1,
            comp.size.0,
            comp.size.1,
            hov_color & 0x00FFFFFF,
            18,
        );
        assert(hov_color & 0x00FFFFFF == 0x00FF8C00u32) by (bit_vector)
            requires
                hov_color == 0xFFFF8C00u32,
        ;
        draw_rect_border(buffer, width, comp.position, comp.size, hov_color);
    }

    /// Highlight the selected component: an orange fill at opacity 45 out
    /// of 255 and up to three concentric borders.
    pub fn render_selected_component(&self, buffer: &mut [u32], width: u32, height: u32, comp: &ComponentInfo)
        requires
            selected_ok(width, height, *comp),
        ensures
            final(buffer)@ == selected_drawn(old(buffer)@, width, height, *comp),
    {
        let sel_color: u32 = 0xFFFF6200;
        fill_rect_blended(
            buffer,
            width,
            height,
            comp.position.0,
            comp.position.1,
            comp.size.0,
            comp.size.1,
            sel_color & 0x00FFFFFF,
            45,
        );
        assert(sel_color & 0x00FFFFFF == 0x00FF6200u32) by (bit_vector)
            requires
                sel_color == 0xFFFF6200u32,
        ;
        draw_rect_border(buffer, width, comp.position, comp.size, sel_color);
        if comp.size.0 > 4 && comp.size.1 > 4 {
            draw_rect_border(
                buffer,
                width,
                (comp.position.0 + 1, comp.position.1 + 1),
                (comp.size.0 - 2, comp.size.1 - 2),
                sel_color,
            );
        }
        if comp.size.0 > 8 && comp.size.1 > 8 {
            draw_rect_border(
                buffer,
                width,
                (comp.position.0 + 2, comp.position.1 + 2),
                (comp.size.0 - 4, comp.size.1 - 4),
                0xFFFFAA00,
            );
        }
    }
}

impl Default for OverlayRenderer {
    fn default() -> (r: Self)
        ensures
            r == OverlayRenderer,
    {
        OverlayRenderer
    }
}

/// Sizes small enough for every overlay of `c` on a `width × height`
/// buffer: both at most 16384, the component's corner within 30000 of the
/// origin and its sides at most 30000.
pub open spec fn overlay_bounds(width: u32, height: u32, c: ComponentInfo) -> bool {
    &&& width <= 16384 && height <= 16384
    &&& -30000 <= c.position.0 <= 30000 && -30000 <= c.position.1 <= 30000
    &&& c.size.0 <= 30000 && c.size.1 <= 30000
}

proof fn lemma_index_small(width: u32, px: int, py: int)
    requires
        width <= 16384,
        0 <= px <= 200000,
        0 <= py <= 200000,
    ensures
        pixel_index(width, px, py) <= u32::MAX,
{
    assert(py * width <= 200000 * 16384) by (nonlinear_arith)
        requires
            0 <= py <= 200000,
            width <= 16384,
    ;
}

proof fn lemma_fill_small(width: u32, height: u32, x: int, y: int, w: int, h: int)
    requires
        width <= 16384,
        height <= 16384,
        -200000 <= x <= 200000,
        -200000 <= y <= 200000,
        0 <= w <= 200000,
        0 <= h <= 200000,
    ensures
        fill_fits(width, height, x as i32, y as i32, w as u32, h as u32),
{
    assert forall|px: int, py: int|
        0 <= py < height && y <= py < y + h && 0 <= px < width && x <= px < x + w implies #[trigger] pixel_index(
        width,
        px,
        py,
    ) <= u32::MAX by {
        lemma_index_small(width, px, py);
    }
}

proof fn lemma_line_small(width: u32, x0: int, y0: int, horizontal: bool, n: int)
    requires
        width <= 16384,
        -100000 <= x0 <= 100000,
        -100000 <= y0 <= 100000,
        0 <= n <= 100000,
    ensures
        line_ok(width, x0 as i32, y0 as i32, horizontal, n as u32),
{
    assert forall|d: int| 0 <= d < n implies #[trigger] line_fits(width, x0, y0, horizontal, d) by {
        let p = line_point(x0, y0, horizontal, d);
        if p.0 >= 0 && p.1 >= 0 {
            lemma_index_small(width, p.0, p.1);
        }
    }
}

proof fn lemma_border_small(width: u32, x: int, y: int, w: int, h: int)
    requires
        width <= 16384,
        -50000 <= x <= 50000,
        -50000 <= y <= 50000,
        0 <= w <= 50000,
        0 <= h <= 50000,
    ensures
        border_ok(width, x as i32, y as i32, w as u32, h as u32),
{
    lemma_line_small(width, x, y, true, w);
    lemma_line_small(width, x, y, false, h);
    lemma_line_small(width, x, y + h - 1, true, w);
    lemma_line_small(width, x + w - 1, y, false, h);
}

/// Within [`overlay_bounds`] every overlay of `c` can be drawn.
pub proof fn lemma_overlay_bounds(width: u32, height: u32, c: ComponentInfo)
    requires
        overlay_bounds(width, height, c),
    ensures
        comp_border_ok(width, c),
        highlight_ok(width, height, c),
        selected_ok(width, height, c),
        box_model_ok(width, height, c),
        layout_ok(width, height, c),
{
    let (x, y, w, h) = (c.position.0 as int, c.position.1 as int, c.size.0 as int, c.size.1 as int);
    lemma_fill_small(width, height, x, y, w, h);
    lemma_border_small(width, x, y, w, h);
    if w > 4 && h > 4 {
        lemma_border_small(width, x + 1, y + 1, w - 2, h - 2);
    }
    if w > 8 && h > 8 {
        lemma_border_small(width, x + 2, y + 2, w - 4, h - 4);
    }
    let m = margin_box(c);
    lemma_fill_small(width, height, m.0, m.1, m.2, m.3);
    let p = padding_box(c);
    lemma_fill_small(width, height, p.0, p.1, p.2, p.3);
    let q = content_box(c);
    lemma_fill_small(width, height, q.0, q.1, q.2, q.3);
    if has_label(c) {
        assert forall|px: int, py: int|
            0 <= py < height && pill_y(c) <= py < pill_y(c) + 12 && 0 <= px < width && pill_x(c) <= px < pill_x(c)
                + pill_w(c) implies #[trigger] pixel_index(width, px, py) <= u32::MAX by {
            lemma_index_small(width, px, py);
        }
    }
}

/// Whether `c` is within [`overlay_bounds`] of a `width × height` buffer,
/// where every overlay of it can be drawn.
pub fn overlay_fits(width: u32, height: u32, c: &ComponentInfo) -> (r: bool)
    ensures
        r == overlay_bounds(width, height, *c),
        r ==> comp_border_ok(width, *c) && highlight_ok(width, height, *c) && selected_ok(width, height, *c)
            && box_model_ok(width, height, *c) && layout_ok(width, height, *c),
{
    let r = width <= 16384 && height <= 16384 && -30000 <= c.position.0 && c.position.0 <= 30000 && -30000
        <= c.position.1 && c.position.1 <= 30000 && c.size.0 <= 30000 && c.size.1 <= 30000;
    if r {
        proof {
            lemma_overlay_bounds(width, height, *c);
        }
    }
    r
}

/// A pixel in a column left of `w` and a row above `rows` has an index
/// that fits `u32` when `w × rows` does.
proof fn lemma_index_under(w: u32, px: int, py: int, rows: int)
    requires
        0 <= px <= w,
        0 <= py < rows,
        w * rows <= u32::MAX,
    ensures
        pixel_index(w, px, py) <= u32::MAX,
{
    lemma_mul_inequality(py + 1, rows, w as int);
    assert((py + 1) * w == py * w + w) by (nonlinear_arith);
    assert(rows * w == w * rows) by (nonlinear_arith);
}

/// A line inside the columns left of `w` and the rows above `rows`.
proof fn lemma_line_inside(w: u32, x0: int, y0: int, horizontal: bool, n: int, rows: int)
    requires
        w <= i32::MAX,
        0 <= y0,
        -1 <= x0,
        0 <= n <= i32::MAX,
        horizontal ==> x0 + n <= w && y0 < rows,
        !horizontal ==> x0 <= w && y0 + n <= rows,
        rows <= i32::MAX,
        w * rows <= u32::MAX,
    ensures
        line_ok(w, x0 as i32, y0 as i32, horizontal, n as u32),
{
    assert forall|d: int| 0 <= d < n implies #[trigger] line_fits(w, x0, y0, horizontal, d) by {
        let p = line_point(x0, y0, horizontal, d);
        if p.0 >= 0 && p.1 >= 0 {
            lemma_index_under(w, p.0, p.1, rows);
        }
    }
}

/// The border of a rectangle inside the columns left of `w` and the rows
/// above `rows` can be drawn.
proof fn lemma_border_inside(w: u32, x: int, y: int, rw: int, rh: int, rows: int)
    requires
        w <= i32::MAX,
        0 <= x,
        0 <= y,
        0 <= rw,
        0 <= rh,
        x + rw <= w,
        y < rows,
        y + rh <= rows,
        1 <= rows <= i32::MAX,
        w * rows <= u32::MAX,
    ensures
        border_ok(w, x as i32, y as i32, rw as u32, rh as u32),
{
    if rw > 0 {
        lemma_line_inside(w, x, y, true, rw, rows);
        if rh > 0 {
            lemma_line_inside(w, x, y + rh - 1, true, rw, rows);
        }
    }
    if rh > 0 {
        lemma_line_inside(w, x, y, false, rh, rows);
        lemma_line_inside(w, x + rw - 1, y, false, rh, rows);
    }
    if rw > 0 && rh == 0 {
        if y > 0 {
            lemma_line_inside(w, x, y - 1, true, rw, rows);
        } else {
            assert forall|d: int| 0 <= d < rw implies #[trigger] line_fits(w, x, y + rh - 1, true, d) by {}
        }
    }
    if rw == 0 {
        assert forall|d: int| 0 <= d < 0 implies #[trigger] line_fits(w, x, y, true, d) by {}
    }
}

/// The layout overlay of a component inside the columns left of `w` and
/// the rows above `h + 2` can be drawn.
proof fn lemma_layout_inside(w: u32, h: u32, c: ComponentInfo)
    requires
        w <= i32::MAX,
        h <= i32::MAX - 16,
        w * (h + 2) <= u32::MAX,
        c.position.0 == 0,
        0 <= c.position.1 <= h + 1,
        c.size.0 <= w,
        c.position.1 + c.size.1 <= h + 2,
    ensures
        layout_ok(w, h, c),
{
    let (x, y, rw, rh) = (c.position.0 as int, c.position.1 as int, c.size.0 as int, c.size.1 as int);
    let rows = h + 2;
    assert forall|px: int, py: int|
        0 <= py < h && y <= py < y + rh && 0 <= px < w && x <= px < x + rw implies #[trigger] pixel_index(
        w,
        px,
        py,
    ) <= u32::MAX by {
        lemma_index_under(w, px, py, rows);
    }
    lemma_border_inside(w, x, y, rw, rh, rows);
    if rw > 4 && rh > 4 {
        lemma_border_inside(w, x + 1, y + 1, rw - 2, rh - 2, rows);
    }
    if has_label(c) {
        assert forall|px: int, py: int|
            0 <= py < h && pill_y(c) <= py < pill_y(c) + 12 && 0 <= px < w && pill_x(c) <= px < pill_x(c)
                + pill_w(c) implies #[trigger] pixel_index(w, px, py) <= u32::MAX by {
            lemma_index_under(w, px, py, rows);
        }
    }
}

/// Whether the hovered component gets an overlay: inspect mode is on and
/// it is not also the selected component (same place and size).
pub open spec fn hover_shown(st: DebugState) -> bool {
    &&& st.inspector_mode
    &&& st.hovered_component is Some
    &&& !(st.selected_component matches Some(s) && s.position == st.hovered_component->0.position && s.size
        == st.hovered_component->0.size)
}

/// Whether `c` has no margin, padding or border.
pub open spec fn no_spacing(c: ComponentInfo) -> bool {
    c.margin == (crate::eink::debug::state::Spacing { top: 0, right: 0, bottom: 0, left: 0 }) && c.padding == (
    crate::eink::debug::state::Spacing { top: 0, right: 0, bottom: 0, left: 0 }) && c.border == (
    crate::eink::debug::state::Spacing { top: 0, right: 0, bottom: 0, left: 0 })
}

/// `buf` with the layout overlay of `comps` drawn.
pub open spec fn layout_drawn(buf: Seq<u32>, w: u32, h: u32, comps: Seq<ComponentInfo>) -> Seq<u32> {
    let n = comps.len() as int;
    layout_pilled(layout_bordered(layout_filled(buf, w, h, comps, n), w, comps, n), w, h, comps, n)
}

/// `buf` with the inspection overlays drawn: the hovered component (its
/// box model where it has spacing) when shown, then the selected one.
pub open spec fn inspection_drawn(buf: Seq<u32>, w: u32, h: u32, st: DebugState) -> Seq<u32> {
    let b = if hover_shown(st) {
        let hov = st.hovered_component->0;
        if no_spacing(hov) {
            hovered_drawn(buf, w, h, hov)
        } else {
            box_model_drawn(buf, w, h, hov)
        }
    } else {
        buf
    };
    match st.selected_component {
        Some(sel) => selected_drawn(b, w, h, sel),
        None => b,
    }
}

/// The overlays of `st` can be drawn on a `w × h` display: the layout
/// overlay of the registered components (or, with none, of the auto-zones,
/// which needs `w × (h + 2)` to fit `u32`), the hovered component's and
/// the selected one's.
pub open spec fn overlays_ok(w: u32, h: u32, st: DebugState) -> bool {
    &&& st.borders_enabled && st.registered_components@.len() > 0 ==> forall|k: int|
        0 <= k < st.registered_components@.len() ==> layout_ok(w, h, #[trigger] st.registered_components@[k])
    &&& st.borders_enabled && st.registered_components@.len() == 0 ==> w <= i32::MAX && h <= i32::MAX - 16 && w * (h
        + 2) <= u32::MAX
    &&& hover_shown(st) ==> if no_spacing(st.hovered_component->0) {
        highlight_ok(w, h, st.hovered_component->0)
    } else {
        box_model_ok(w, h, st.hovered_component->0)
    }
    &&& st.selected_component matches Some(sel) ==> selected_ok(w, h, sel)
}

/// Draw the debug overlays of `st` on the `w × h` display image `rgba`:
/// with borders on, the layout overlay of the registered components (or
/// of the auto-zones when none is registered); in inspect mode the hovered
/// component, unless it is the selected one; and the selected component.
/// Returns the layout overlay's labels for the caller to draw.
pub fn apply_debug_overlays(rgba: &mut [u32], w: u32, h: u32, st: &DebugState) -> (r: Vec<LayoutLabel>)
    requires
        overlays_ok(w, h, *st),
    ensures
        !st.borders_enabled ==> final(rgba)@ == inspection_drawn(old(rgba)@, w, h, *st) && r@.len() == 0,
        st.borders_enabled && st.registered_components@.len() > 0 ==> final(rgba)@ == inspection_drawn(
            layout_drawn(old(rgba)@, w, h, st.registered_components@),
            w,
            h,
            *st,
        ) && r@.map_values(|l: LayoutLabel| label_view(l)) == layout_labels(
            st.registered_components@,
            st.registered_components@.len() as int,
        ),
        st.borders_enabled && st.registered_components@.len() == 0 ==> exists|z: Seq<ComponentInfo>|
            {
                &&& z.len() == 4
                &&& forall|k: int| 0 <= k < 4 ==> is_zone(#[trigger] z[k], k, w, h)
                &&& final(rgba)@ == inspection_drawn(layout_drawn(old(rgba)@, w, h, z), w, h, *st)
                &&& r@.map_values(|l: LayoutLabel| label_view(l)) == layout_labels(z, 4)
            },
{
    let renderer = OverlayRenderer::new();
    let labels = if st.borders_enabled {
        if st.registered_components.len() > 0 {
            renderer.render_layout(rgba, w, h, st.registered_components.as_slice())
        } else {
            let zones = auto_zones(w, h);
            proof {
                let (hh, ch, fh) = zone_heights(h);
                assert forall|k: int| 0 <= k < zones@.len() implies layout_ok(w, h, #[trigger] zones@[k]) by {
                    assert(is_zone(zones@[k], k, w, h));
                    lemma_layout_inside(w, h, zones@[k]);
                }
            }
            let labels = renderer.render_layout(rgba, w, h, zones.as_slice());
            assert(zones@.len() == 4 && forall|k: int| 0 <= k < 4 ==> is_zone(#[trigger] zones@[k], k, w, h));
            labels
        }
    } else {
        Vec::new()
    };
    let ghost after_layout = rgba@;
    if st.inspector_mode {
        match &st.hovered_component {
            Some(hov) => {
                let also_selected = match &st.selected_component {
                    Some(sel) => sel.position.0 == hov.position.0 && sel.position.1 == hov.position.1
                        && sel.size.0 == hov.size.0 && sel.size.1 == hov.size.1,
                    None => false,
                };
                if !also_selected {
                    if hov.margin.is_zero() && hov.padding.is_zero() && hov.border.is_zero() {
                        renderer.render_hovered_component(rgba, w, h, hov);
                    } else {
                        renderer.render_hovered_box_model(rgba, w, h, hov);
                    }
                }
            },
            None => {},
        }
    }
    match &st.selected_component {
        Some(sel) => {
            renderer.render_selected_component(rgba, w, h, sel);
        },
        None => {},
    }
    labels
}

} // verus!
