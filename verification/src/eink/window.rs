//! The window's render pipeline: e-ink appearance, rotation, emulator scale
//! with a pixel-grid effect, and fitting into the physical window buffer.
//!
//! All buffers are ARGB words (0xAARRGGBB) in row-major order.
use vstd::prelude::*;
use crate::eink::config::Rotation;

verus! {

/// Width of the debug side panel in physical pixels, appended to the right
/// of the display when it is open.
pub const PANEL_W: u32 = 280;

/// `(a * b) mod 2^32`.
pub open spec fn wmul(a: u32, b: u32) -> u32 {
    ((a as nat * b as nat) % 0x1_0000_0000) as u32
}

/// `(a + b) mod 2^32`.
pub open spec fn wadd(a: u32, b: u32) -> u32 {
    ((a as nat + b as nat) % 0x1_0000_0000) as u32
}

/// The murmur3-style hash of a pixel position.
pub open spec fn noise_hash(x: u32, y: u32) -> u32 {
    let h0 = wadd(wmul(x, 0x9e3779b9), wmul(y, 0x517cc1b7));
    let h1 = h0 ^ (h0 >> 16u32);
    let h2 = wmul(h1, 0x85ebca6b);
    let h3 = h2 ^ (h2 >> 13u32);
    let h4 = wmul(h3, 0xc2b2ae35);
    h4 ^ (h4 >> 16u32)
}

/// The paper-grain noise added at a pixel position: the low four bits of
/// its hash, minus 7.
pub open spec fn noise_at(x: u32, y: u32) -> int {
    (noise_hash(x, y) & 0xFu32) - 7
}

/// Position-dependent noise in -7..=8, without cross-term patterns.
pub fn pseudo_random_noise(x: u32, y: u32) -> (r: i16)
    ensures
        r == noise_at(x, y),
        -7 <= r <= 8,
{
    let mut h = x.wrapping_mul(0x9e3779b9).wrapping_add(y.wrapping_mul(0x517cc1b7));
    h = h ^ (h >> 16);
    h = h.wrapping_mul(0x85ebca6b);
    h = h ^ (h >> 13);
    h = h.wrapping_mul(0xc2b2ae35);
    h = h ^ (h >> 16);
    let low = h & 0xF;
    assert(h & 0xFu32 <= 15) by (bit_vector);
    low as i16 - 7
}

/// `v` with contrast reduced to 90% around mid-gray 128, rounded down.
pub open spec fn contrast90(v: int) -> int {
    (9 * v + 128) / 10
}

/// Contrast reduced to 90% around mid-gray 128.
fn adjust_contrast(value: u8) -> (r: u8)
    ensures
        r == contrast90(value as int),
{
    ((9 * (value as u32) + 128) / 10) as u8
}

/// `x - y`, or 0 when `y > x`.
pub open spec fn sat_sub(x: int, y: int) -> int {
    if x > y { x - y } else { 0 }
}

/// `v` clamped to 0..=255.
pub open spec fn clamp255(v: int) -> int {
    if v < 0 { 0 } else if v > 255 { 255 } else { v }
}

/// Byte `k` (0 = lowest) of `p`.
pub open spec fn byte_of(p: u32, k: u32) -> int {
    ((p >> (8 * k)) & 0xFFu32) as int
}

/// An opaque ARGB word with the given channels (each in 0..=255).
pub open spec fn rgb_word(r: int, g: int, b: int) -> u32 {
    (0xFF000000u32 | ((r as u32) << 16u32) | ((g as u32) << 8u32) | (b as u32))
}

/// The e-ink look of pixel `p` at `(x, y)`: a warm paper tint that grows
/// with brightness, paper-grain noise, and 90% contrast.
#[verifier::opaque]
pub open spec fn eink_look(p: u32, x: u32, y: u32) -> u32 {
    let r = byte_of(p, 2);
    let g = byte_of(p, 1);
    let b = byte_of(p, 0);
    let g2 = sat_sub(g, r * 9 / 255);
    let b2 = sat_sub(b, r * 22 / 255);
    let n = noise_at(x, y);
    rgb_word(
        contrast90(clamp255(r + n)),
        contrast90(clamp255(g2 + n)),
        contrast90(clamp255(b2 + n)),
    )
}

/// Apply the e-ink look to one pixel (see [`eink_look`]).
pub fn apply_eink_appearance(pixel: u32, x: u32, y: u32) -> (r: u32)
    ensures
        r == eink_look(pixel, x, y),
{
    let r = ((pixel >> 16) & 0xFF) as u8;
    let g = ((pixel >> 8) & 0xFF) as u8;
    let b = (pixel & 0xFF) as u8;
    assert(((pixel >> 16u32) & 0xFFu32) <= 255 && ((pixel >> 8u32) & 0xFFu32) <= 255 && (pixel
        & 0xFFu32) <= 255) by (bit_vector);
    assert(pixel >> (8 * 2u32) == pixel >> 16u32 && pixel >> (8 * 1u32) == pixel >> 8u32 && pixel
        >> (8 * 0u32) == pixel) by (bit_vector);
    let luma = r as u32;
    let g = (g as u32).saturating_sub(luma * 9 / 255) as u8;
    let b = (b as u32).saturating_sub(luma * 22 / 255) as u8;
    let noise = pseudo_random_noise(x, y);
    let r = adjust_contrast(clamp_byte(r as i16 + noise));
    let g = adjust_contrast(clamp_byte(g as i16 + noise));
    let b = adjust_contrast(clamp_byte(b as i16 + noise));
    proof {
        reveal(eink_look);
    }
    0xFF000000 | ((r as u32) << 16) | ((g as u32) << 8) | (b as u32)
}

/// `v` clamped to 0..=255.
fn clamp_byte(v: i16) -> (r: u8)
    ensures
        r == clamp255(v as int),
{
    if v < 0 {
        0
    } else if v > 255 {
        255
    } else {
        v as u8
    }
}

/// Pixel `p` with every color channel darkened by `amount`, floored at 0.
pub open spec fn darkened(p: u32, amount: u8) -> u32 {
    rgb_word(
        sat_sub(byte_of(p, 2), amount as int),
        sat_sub(byte_of(p, 1), amount as int),
        sat_sub(byte_of(p, 0), amount as int),
    )
}

/// Darken a pixel's color channels by `amount`; the result is opaque.
pub fn darken(pixel: u32, amount: u8) -> (r: u32)
    ensures
        r == darkened(pixel, amount),
{
    assert(((pixel >> 16u32) & 0xFFu32) <= 255 && ((pixel >> 8u32) & 0xFFu32) <= 255 && (pixel
        & 0xFFu32) <= 255) by (bit_vector);
    assert(pixel >> (8 * 2u32) == pixel >> 16u32 && pixel >> (8 * 1u32) == pixel >> 8u32 && pixel
        >> (8 * 0u32) == pixel) by (bit_vector);
    let r = (((pixel >> 16) & 0xFF) as u8).saturating_sub(amount);
    let g = (((pixel >> 8) & 0xFF) as u8).saturating_sub(amount);
    let b = ((pixel & 0xFF) as u8).saturating_sub(amount);
    0xFF000000 | ((r as u32) << 16) | ((g as u32) << 8) | (b as u32)
}

/// Row-major positions before `(i, j)` come first.
proof fn lemma_rm_lt(i: int, j: int, ii: int, jj: int, w: int)
    requires
        0 <= i,
        0 <= j < w,
        0 <= jj,
        i < ii || (i == ii && j < jj),
    ensures
        0 <= i * w + j < ii * w + jj,
{
    assert(0 <= i * w + j < ii * w + jj) by (nonlinear_arith)
        requires
            0 <= i,
            0 <= j < w,
            0 <= jj,
            i < ii || (i == ii && j < jj),
    ;
}

/// The next row starts one width later.
proof fn lemma_rm_next(i: int, w: int)
    ensures
        (i + 1) * w == i * w + w,
{
    assert((i + 1) * w == i * w + w) by (nonlinear_arith);
}

/// Positions of a `w × h` grid stay below `w * h`.
proof fn lemma_rm_bound(i: int, j: int, w: int, h: int)
    requires
        0 <= i < h,
        0 <= j < w,
    ensures
        0 <= i * w + j < h * w,
        h * w == w * h,
{
    lemma_rm_lt(i, j, h, 0, w);
    assert(h * w == w * h) by (nonlinear_arith);
}

/// Apply the e-ink look to a `w × h` buffer.
pub fn eink_pass(src: &[u32], w: u32, h: u32) -> (r: Vec<u32>)
    requires
        w * h <= u32::MAX,
        src@.len() >= w * h,
    ensures
        r@.len() == w * h,
        forall|y: int, x: int|
            0 <= y < h && 0 <= x < w ==> #[trigger] r@[y * w + x] == eink_look(src@[y * w + x], x as u32, y as u32),
{
    let mut out: Vec<u32> = Vec::new();
    let mut y: u32 = 0;
    while y < h
        invariant
            y <= h,
            w * h <= u32::MAX,
            src@.len() >= w * h,
            out@.len() == y * w,
            forall|yy: int, xx: int|
                0 <= yy < y && 0 <= xx < w ==> #[trigger] out@[yy * w + xx] == eink_look(src@[yy * w + xx], xx as u32, yy as u32),
        decreases h - y,
    {
        let mut x: u32 = 0;
        while x < w
            invariant
                y < h,
                x <= w,
                w * h <= u32::MAX,
                src@.len() >= w * h,
                out@.len() == y * w + x,
                forall|yy: int, xx: int|
                    0 <= yy < y && 0 <= xx < w ==> #[trigger] out@[yy * w + xx] == eink_look(src@[yy * w + xx], xx as u32, yy as u32),
                forall|xx: int| 0 <= xx < x ==> #[trigger] out@[y * w + xx] == eink_look(src@[y * w + xx], xx as u32, y as u32),
            decreases w - x,
        {
            proof {
                lemma_rm_bound(y as int, x as int, w as int, h as int);
            }
            let idx = y * w + x;
            out.push(apply_eink_appearance(src[idx as usize], x, y));
            proof {
                assert forall|yy: int, xx: int| 0 <= yy < y && 0 <= xx < w implies #[trigger] out@[yy * w + xx] == eink_look(src@[yy * w + xx], xx as u32, yy as u32) by {
                    lemma_rm_lt(yy, xx, y as int, x as int, w as int);
                }
                assert forall|xx: int| 0 <= xx < x + 1 implies #[trigger] out@[y * w + xx] == eink_look(src@[y * w + xx], xx as u32, y as u32) by {
                    lemma_rm_lt(y as int, xx, y as int, x + 1, w as int);
                }
            }
            x = x + 1;
        }
        proof {
            lemma_rm_next(y as int, w as int);
        }
        y = y + 1;
    }
    proof {
        assert(h * w == w * h) by (nonlinear_arith);
    }
    out
}

/// Rotate a `width × height` buffer 90° clockwise; the result is
/// `height × width`, pixel `(x, y)` moving to `(height - 1 - y, x)`.
pub fn rotate_90_cw(src: &[u32], width: u32, height: u32) -> (r: Vec<u32>)
    requires
        width * height <= u32::MAX,
        src@.len() >= width * height,
    ensures
        r@.len() == width * height,
        forall|x: int, y: int|
            0 <= x < width && 0 <= y < height ==> #[trigger] r@[x * height + (height - 1 - y)] == src@[y * width + x],
        forall|a: int, b: int|
            0 <= a < width && 0 <= b < height ==> #[trigger] r@[a * height + b] == src@[(height - 1 - b) * width + a],
{
    let mut out: Vec<u32> = Vec::new();
    let mut a: u32 = 0;
    while a < width
        invariant
            a <= width,
            width * height <= u32::MAX,
            src@.len() >= width * height,
            out@.len() == a * height,
            forall|aa: int, bb: int|
                0 <= aa < a && 0 <= bb < height ==> #[trigger] out@[aa * height + bb] == src@[(height - 1 - bb) * width + aa],
        decreases width - a,
    {
        let mut b: u32 = 0;
        while b < height
            invariant
                a < width,
                b <= height,
                width * height <= u32::MAX,
                src@.len() >= width * height,
                out@.len() == a * height + b,
                forall|aa: int, bb: int|
                    0 <= aa < a && 0 <= bb < height ==> #[trigger] out@[aa * height + bb] == src@[(height - 1 - bb) * width + aa],
                forall|bb: int| 0 <= bb < b ==> #[trigger] out@[a * height + bb] == src@[(height - 1 - bb) * width + a],
            decreases height - b,
        {
            proof {
                lemma_rm_bound((height - 1 - b) as int, a as int, width as int, height as int);
            }
            let idx = (height - 1 - b) * width + a;
            out.push(src[idx as usize]);
            proof {
                assert forall|aa: int, bb: int| 0 <= aa < a && 0 <= bb < height implies #[trigger] out@[aa * height + bb] == src@[(height - 1 - bb) * width + aa] by {
                    lemma_rm_lt(aa, bb, a as int, b as int, height as int);
                }
                assert forall|bb: int| 0 <= bb < b + 1 implies #[trigger] out@[a * height + bb] == src@[(height - 1 - bb) * width + a] by {
                    lemma_rm_lt(a as int, bb, a as int, b + 1, height as int);
                }
            }
            b = b + 1;
        }
        proof {
            lemma_rm_next(a as int, height as int);
        }
        a = a + 1;
    }
    proof {
        assert(width * height == height * width) by (nonlinear_arith);
        assert forall|x: int, y: int| 0 <= x < width && 0 <= y < height implies #[trigger] out@[x * height + (height - 1 - y)] == src@[y * width + x] by {
            let bb = height - 1 - y;
            assert(out@[x * height + bb] == src@[(height - 1 - bb) * width + x]);
        }
    }
    out
}

/// Rotate a `width × height` buffer by 180°; pixel `(x, y)` moves to
/// `(width - 1 - x, height - 1 - y)`.
pub fn rotate_180(src: &[u32], width: u32, height: u32) -> (r: Vec<u32>)
    requires
        width * height <= u32::MAX,
        src@.len() >= width * height,
    ensures
        r@.len() == width * height,
        forall|x: int, y: int|
            0 <= x < width && 0 <= y < height ==> #[trigger] r@[(height - 1 - y) * width + (width - 1 - x)] == src@[y * width + x],
        forall|a: int, b: int|
            0 <= a < height && 0 <= b < width ==> #[trigger] r@[a * width + b] == src@[(height - 1 - a) * width + (width - 1 - b)],
{
    let mut out: Vec<u32> = Vec::new();
    let mut a: u32 = 0;
    while a < height
        invariant
            a <= height,
            width * height <= u32::MAX,
            src@.len() >= width * height,
            out@.len() == a * width,
            forall|aa: int, bb: int|
                0 <= aa < a && 0 <= bb < width ==> #[trigger] out@[aa * width + bb] == src@[(height - 1 - aa) * width + (width - 1 - bb)],
        decreases height - a,
    {
        let mut b: u32 = 0;
        while b < width
            invariant
                a < height,
                b <= width,
                width * height <= u32::MAX,
                src@.len() >= width * height,
                out@.len() == a * width + b,
                forall|aa: int, bb: int|
                    0 <= aa < a && 0 <= bb < width ==> #[trigger] out@[aa * width + bb] == src@[(height - 1 - aa) * width + (width - 1 - bb)],
                forall|bb: int| 0 <= bb < b ==> #[trigger] out@[a * width + bb] == src@[(height - 1 - a) * width + (width - 1 - bb)],
            decreases width - b,
        {
            proof {
                lemma_rm_bound((height - 1 - a) as int, (width - 1 - b) as int, width as int, height as int);
            }
            let idx = (height - 1 - a) * width + (width - 1 - b);
            out.push(src[idx as usize]);
            proof {
                assert forall|aa: int, bb: int| 0 <= aa < a && 0 <= bb < width implies #[trigger] out@[aa * width + bb] == src@[(height - 1 - aa) * width + (width - 1 - bb)] by {
                    lemma_rm_lt(aa, bb, a as int, b as int, width as int);
                }
                assert forall|bb: int| 0 <= bb < b + 1 implies #[trigger] out@[a * width + bb] == src@[(height - 1 - a) * width + (width - 1 - bb)] by {
                    lemma_rm_lt(a as int, bb, a as int, b + 1, width as int);
                }
            }
            b = b + 1;
        }
        proof {
            lemma_rm_next(a as int, width as int);
        }
        a = a + 1;
    }
    proof {
        assert(height * width == width * height) by (nonlinear_arith);
        assert forall|x: int, y: int| 0 <= x < width && 0 <= y < height implies #[trigger] out@[(height - 1 - y) * width + (width - 1 - x)] == src@[y * width + x] by {
            let aa = height - 1 - y;
            let bb = width - 1 - x;
            assert(out@[aa * width + bb] == src@[(height - 1 - aa) * width + (width - 1 - bb)]);
        }
    }
    out
}

/// Rotate a `width × height` buffer 270° clockwise; the result is
/// `height × width`, pixel `(x, y)` moving to `(y, width - 1 - x)`.
pub fn rotate_270_cw(src: &[u32], width: u32, height: u32) -> (r: Vec<u32>)
    requires
        width * height <= u32::MAX,
        src@.len() >= width * height,
    ensures
        r@.len() == width * height,
        forall|x: int, y: int|
            0 <= x < width && 0 <= y < height ==> #[trigger] r@[(width - 1 - x) * height + y] == src@[y * width + x],
        forall|a: int, b: int|
            0 <= a < width && 0 <= b < height ==> #[trigger] r@[a * height + b] == src@[b * width + (width - 1 - a)],
{
    let mut out: Vec<u32> = Vec::new();
    let mut a: u32 = 0;
    while a < width
        invariant
            a <= width,
            width * height <= u32::MAX,
            src@.len() >= width * height,
            out@.len() == a * height,
            forall|aa: int, bb: int|
                0 <= aa < a && 0 <= bb < height ==> #[trigger] out@[aa * height + bb] == src@[bb * width + (width - 1 - aa)],
        decreases width - a,
    {
        let mut b: u32 = 0;
        while b < height
            invariant
                a < width,
                b <= height,
                width * height <= u32::MAX,
                src@.len() >= width * height,
                out@.len() == a * height + b,
                forall|aa: int, bb: int|
                    0 <= aa < a && 0 <= bb < height ==> #[trigger] out@[aa * height + bb] == src@[bb * width + (width - 1 - aa)],
                forall|bb: int| 0 <= bb < b ==> #[trigger] out@[a * height + bb] == src@[bb * width + (width - 1 - a)],
            decreases height - b,
        {
            proof {
                lemma_rm_bound(b as int, (width - 1 - a) as int, width as int, height as int);
            }
            let idx = b * width + (width - 1 - a);
            out.push(src[idx as usize]);
            proof {
                assert forall|aa: int, bb: int| 0 <= aa < a && 0 <= bb < height implies #[trigger] out@[aa * height + bb] == src@[bb * width + (width - 1 - aa)] by {
                    lemma_rm_lt(aa, bb, a as int, b as int, height as int);
                }
                assert forall|bb: int| 0 <= bb < b + 1 implies #[trigger] out@[a * height + bb] == src@[bb * width + (width - 1 - a)] by {
                    lemma_rm_lt(a as int, bb, a as int, b + 1, height as int);
                }
            }
            b = b + 1;
        }
        proof {
            lemma_rm_next(a as int, height as int);
        }
        a = a + 1;
    }
    proof {
        assert(width * height == height * width) by (nonlinear_arith);
        assert forall|x: int, y: int| 0 <= x < width && 0 <= y < height implies #[trigger] out@[(width - 1 - x) * height + y] == src@[y * width + x] by {
            let aa = width - 1 - x;
            assert(out@[aa * height + y] == src@[y * width + (width - 1 - aa)]);
        }
    }
    out
}

/// Pixel `p` of source pixel `(x, y)` drawn at offset `(dx, dy)` of its
/// `scale × scale` block: the last column of odd source columns and the
/// last row of odd source rows are darkened, by 12 where both meet and by 8
/// elsewhere, giving a pixel-grid look.
pub open spec fn grid_pixel(p: u32, dx: int, dy: int, x: int, y: int, scale: int) -> u32 {
    let is_ex = dx == scale - 1 && x % 2 == 1;
    let is_ey = dy == scale - 1 && y % 2 == 1;
    if is_ex && is_ey {
        darkened(p, 12)
    } else if is_ex || is_ey {
        darkened(p, 8)
    } else {
        p
    }
}

/// The pixel at row `yy`, column `xx` of a `rw × rh` buffer scaled by
/// `scale` (the buffer itself when `scale` is 1).
pub open spec fn scaled_at(rot: Seq<u32>, rw: int, scale: int, yy: int, xx: int) -> u32 {
    if scale == 1 {
        rot[yy * rw + xx]
    } else {
        grid_pixel(rot[(yy / scale) * rw + xx / scale], xx % scale, yy % scale, xx / scale, yy / scale, scale)
    }
}

proof fn lemma_div_bound(v: int, scale: int, n: int)
    requires
        0 <= v < n * scale,
        scale > 0,
        n >= 0,
    ensures
        0 <= v / scale < n,
        0 <= v % scale < scale,
{
    assert(0 <= v / scale < n) by (nonlinear_arith)
        requires
            0 <= v < n * scale,
            scale > 0,
    ;
}

/// Scale a `rw × rh` buffer by `scale` with the pixel-grid effect (see
/// [`grid_pixel`]); a scale of 1 keeps the buffer.
pub fn scale_with_grid(rot: &[u32], rw: u32, rh: u32, scale: u32) -> (r: Vec<u32>)
    requires
        rot@.len() == rw * rh,
        rw * rh <= u32::MAX,
        rw * scale <= u32::MAX,
        rh * scale <= u32::MAX,
        (rw * scale) * (rh * scale) <= u32::MAX,
    ensures
        r@.len() == (rw * scale) * (rh * scale),
        forall|yy: int, xx: int|
            0 <= yy < rh * scale && 0 <= xx < rw * scale ==> #[trigger] r@[yy * (rw * scale) + xx]
                == scaled_at(rot@, rw as int, scale as int, yy, xx),
{
    let sw = rw * scale;
    let sh = rh * scale;
    if scale == 1 {
        let v = vstd::slice::slice_to_vec(rot);
        proof {
            assert forall|yy: int, xx: int| 0 <= yy < rh * scale && 0 <= xx < rw * scale implies #[trigger] v@[yy * (rw * scale) + xx] == scaled_at(rot@, rw as int, scale as int, yy, xx) by {
                lemma_rm_bound(yy, xx, rw as int, rh as int);
            }
        }
        return v;
    }
    let mut out: Vec<u32> = Vec::new();
    let mut yy: u32 = 0;
    while yy < sh
        invariant
            scale != 1,
            yy <= sh,
            sw == rw * scale,
            sh == rh * scale,
            rot@.len() == rw * rh,
            rw * rh <= u32::MAX,
            sw * sh <= u32::MAX,
            out@.len() == yy * sw,
            forall|y2: int, x2: int|
                0 <= y2 < yy && 0 <= x2 < sw ==> #[trigger] out@[y2 * sw + x2] == scaled_at(rot@, rw as int, scale as int, y2, x2),
        decreases sh - yy,
    {
        let mut xx: u32 = 0;
        while xx < sw
            invariant
                scale != 1,
                yy < sh,
                xx <= sw,
                sw == rw * scale,
                sh == rh * scale,
                rot@.len() == rw * rh,
                rw * rh <= u32::MAX,
                sw * sh <= u32::MAX,
                out@.len() == yy * sw + xx,
                forall|y2: int, x2: int|
                    0 <= y2 < yy && 0 <= x2 < sw ==> #[trigger] out@[y2 * sw + x2] == scaled_at(rot@, rw as int, scale as int, y2, x2),
                forall|x2: int| 0 <= x2 < xx ==> #[trigger] out@[yy * sw + x2] == scaled_at(rot@, rw as int, scale as int, yy as int, x2),
            decreases sw - xx,
        {
            proof {
                lemma_div_bound(yy as int, scale as int, rh as int);
                lemma_div_bound(xx as int, scale as int, rw as int);
                lemma_rm_bound((yy / scale) as int, (xx / scale) as int, rw as int, rh as int);
            }
            let y = yy / scale;
            let x = xx / scale;
            let dy = yy % scale;
            let dx = xx % scale;
            let pixel = rot[(y * rw + x) as usize];
            let is_ex = dx == scale - 1 && x % 2 == 1;
            let is_ey = dy == scale - 1 && y % 2 == 1;
            let v = if is_ex && is_ey {
                darken(pixel, 12)
            } else if is_ex || is_ey {
                darken(pixel, 8)
            } else {
                pixel
            };
            out.push(v);
            proof {
                assert forall|y2: int, x2: int| 0 <= y2 < yy && 0 <= x2 < sw implies #[trigger] out@[y2 * sw + x2] == scaled_at(rot@, rw as int, scale as int, y2, x2) by {
                    lemma_rm_lt(y2, x2, yy as int, xx as int, sw as int);
                }
                assert forall|x2: int| 0 <= x2 < xx + 1 implies #[trigger] out@[yy * sw + x2] == scaled_at(rot@, rw as int, scale as int, yy as int, x2) by {
                    lemma_rm_lt(yy as int, x2, yy as int, xx + 1, sw as int);
                }
            }
            xx = xx + 1;
        }
        proof {
            lemma_rm_next(yy as int, sw as int);
        }
        yy = yy + 1;
    }
    proof {
        assert(sh * sw == sw * sh) by (nonlinear_arith);
    }
    out
}

/// `a` if it is smaller than `b`, else `b`.
pub open spec fn min_int(a: int, b: int) -> int {
    if a < b { a } else { b }
}

/// The pixel at row `yy`, column `xx` of a `pw × ph` window showing a
/// `sw × sh` source: the columns left of `min(sw, pw)` show the
/// nearest-neighbour source pixel, the rest is opaque black.
pub open spec fn fitted_at(src: Seq<u32>, sw: int, sh: int, pw: int, ph: int, yy: int, xx: int) -> u32 {
    let m = min_int(sw, pw);
    if xx < m {
        let sx = min_int(xx * sw / m, sw - 1);
        let sy = min_int(yy * sh / ph, sh - 1);
        src[sy * sw + sx]
    } else {
        0xFF000000u32
    }
}

proof fn lemma_nn_bound(v: int, n: int, d: int)
    requires
        0 <= v < d,
        n > 0,
    ensures
        0 <= min_int(v * n / d, n - 1) < n,
{
    assert(0 <= v * n / d) by (nonlinear_arith)
        requires
            0 <= v,
            n > 0,
            d > 0,
    ;
}

/// Fit a `sw × sh` source into a `pw × ph` window (see [`fitted_at`]): an
/// exact copy of the rows when the source is no wider and equally tall,
/// nearest-neighbour sampling otherwise.
pub fn fit_to_window(src: &[u32], sw: u32, sh: u32, pw: u32, ph: u32) -> (r: Vec<u32>)
    requires
        src@.len() == sw * sh,
        sw * sh <= u32::MAX,
        pw * ph <= u32::MAX,
        !(sh == 0 && ph > 0 && sw > 0 && pw > 0),
    ensures
        r@.len() == pw * ph,
        forall|yy: int, xx: int|
            0 <= yy < ph && 0 <= xx < pw ==> #[trigger] r@[yy * pw + xx] == fitted_at(src@, sw as int, sh as int, pw as int, ph as int, yy, xx),
{
    let m = if sw < pw { sw } else { pw };
    let mut out: Vec<u32> = Vec::new();
    let mut yy: u32 = 0;
    while yy < ph
        invariant
            yy <= ph,
            m == min_int(sw as int, pw as int),
            src@.len() == sw * sh,
            sw * sh <= u32::MAX,
            pw * ph <= u32::MAX,
            !(sh == 0 && ph > 0 && sw > 0 && pw > 0),
            out@.len() == yy * pw,
            forall|y2: int, x2: int|
                0 <= y2 < yy && 0 <= x2 < pw ==> #[trigger] out@[y2 * pw + x2] == fitted_at(src@, sw as int, sh as int, pw as int, ph as int, y2, x2),
        decreases ph - yy,
    {
        let mut xx: u32 = 0;
        while xx < pw
            invariant
                yy < ph,
                xx <= pw,
                m == min_int(sw as int, pw as int),
                src@.len() == sw * sh,
                sw * sh <= u32::MAX,
                pw * ph <= u32::MAX,
                !(sh == 0 && ph > 0 && sw > 0 && pw > 0),
                out@.len() == yy * pw + xx,
                forall|y2: int, x2: int|
                    0 <= y2 < yy && 0 <= x2 < pw ==> #[trigger] out@[y2 * pw + x2] == fitted_at(src@, sw as int, sh as int, pw as int, ph as int, y2, x2),
                forall|x2: int| 0 <= x2 < xx ==> #[trigger] out@[yy * pw + x2] == fitted_at(src@, sw as int, sh as int, pw as int, ph as int, yy as int, x2),
            decreases pw - xx,
        {
            let v = if xx < m {
                proof {
                    lemma_nn_bound(xx as int, sw as int, m as int);
                    lemma_nn_bound(yy as int, sh as int, ph as int);
                }
                assert(xx * sw <= u64::MAX && yy * sh <= u64::MAX) by (nonlinear_arith)
                    requires
                        xx <= u32::MAX,
                        sw <= u32::MAX,
                        yy <= u32::MAX,
                        sh <= u32::MAX,
                ;
                let sx64 = xx as u64 * sw as u64 / m as u64;
                let sx = if sx64 < sw as u64 - 1 { sx64 } else { sw as u64 - 1 } as u32;
                let sy64 = yy as u64 * sh as u64 / ph as u64;
                let sy = if sy64 < sh as u64 - 1 { sy64 } else { sh as u64 - 1 } as u32;
                proof {
                    lemma_rm_bound(sy as int, sx as int, sw as int, sh as int);
                }
                src[(sy * sw + sx) as usize]
            } else {
                0xFF000000u32
            };
            out.push(v);
            proof {
                assert forall|y2: int, x2: int| 0 <= y2 < yy && 0 <= x2 < pw implies #[trigger] out@[y2 * pw + x2] == fitted_at(src@, sw as int, sh as int, pw as int, ph as int, y2, x2) by {
                    lemma_rm_lt(y2, x2, yy as int, xx as int, pw as int);
                }
                assert forall|x2: int| 0 <= x2 < xx + 1 implies #[trigger] out@[yy * pw + x2] == fitted_at(src@, sw as int, sh as int, pw as int, ph as int, yy as int, x2) by {
                    lemma_rm_lt(yy as int, x2, yy as int, xx + 1, pw as int);
                }
            }
            xx = xx + 1;
        }
        proof {
            lemma_rm_next(yy as int, pw as int);
        }
        yy = yy + 1;
    }
    proof {
        assert(ph * pw == pw * ph) by (nonlinear_arith);
    }
    out
}

/// Width and height of a `w × h` display after rotation `rot`.
pub open spec fn rotated_dims(rot: Rotation, w: int, h: int) -> (int, int) {
    match rot {
        Rotation::Degrees0 | Rotation::Degrees180 => (w, h),
        Rotation::Degrees90 | Rotation::Degrees270 => (h, w),
    }
}

/// The display position `(x, y)` that row `a`, column `b` of the rotated
/// buffer shows.
pub open spec fn display_pos(rot: Rotation, w: int, h: int, a: int, b: int) -> (int, int) {
    match rot {
        Rotation::Degrees0 => (b, a),
        Rotation::Degrees90 => (a, h - 1 - b),
        Rotation::Degrees180 => (w - 1 - b, h - 1 - a),
        Rotation::Degrees270 => (w - 1 - a, b),
    }
}

/// The e-ink-looking pixel at row `a`, column `b` of the rotated buffer.
pub open spec fn rotated_at(rgba: Seq<u32>, w: int, h: int, rot: Rotation, a: int, b: int) -> u32 {
    let (x, y) = display_pos(rot, w, h, a, b);
    eink_look(rgba[y * w + x], x as u32, y as u32)
}

/// The pixel at row `yy`, column `xx` of the window: the display content
/// with the e-ink look, rotated, scaled with the pixel grid, and fitted
/// into the `pw × ph` window (see [`fitted_at`]).
pub open spec fn frame_at(
    rgba: Seq<u32>,
    w: int,
    h: int,
    rot: Rotation,
    scale: int,
    pw: int,
    ph: int,
    yy: int,
    xx: int,
) -> u32 {
    let (rw, rh) = rotated_dims(rot, w, h);
    let sw = rw * scale;
    let sh = rh * scale;
    let m = min_int(sw, pw);
    if xx < m {
        let sx = min_int(xx * sw / m, sw - 1);
        let sy = min_int(yy * sh / ph, sh - 1);
        if scale == 1 {
            rotated_at(rgba, w, h, rot, sy, sx)
        } else {
            grid_pixel(
                rotated_at(rgba, w, h, rot, sy / scale, sx / scale),
                sx % scale,
                sy % scale,
                sx / scale,
                sy / scale,
                scale,
            )
        }
    } else {
        0xFF000000u32
    }
}

/// The sizes of every stage of the pipeline fit in 32 bits, and a window
/// with columns to fill has source rows to sample.
pub open spec fn frame_fits(w: int, h: int, rot: Rotation, scale: int, pw: int, ph: int) -> bool {
    let (rw, rh) = rotated_dims(rot, w, h);
    &&& 0 <= w <= u32::MAX
    &&& 0 <= h <= u32::MAX
    &&& 0 <= scale <= u32::MAX
    &&& w * h <= u32::MAX
    &&& rw * scale <= u32::MAX
    &&& rh * scale <= u32::MAX
    &&& (rw * scale) * (rh * scale) <= u32::MAX
    &&& pw * ph <= u32::MAX
    &&& !(rh * scale == 0 && ph > 0 && rw * scale > 0 && pw > 0)
}

/// `a * b` computed without overflow, for two `u32` values.
fn wide_mul(a: u32, b: u32) -> (r: u64)
    ensures
        r == a * b,
{
    assert((a as int) * (b as int) <= 0xFFFF_FFFFint * 0xFFFF_FFFFint) by (nonlinear_arith)
        requires
            a <= 0xFFFF_FFFFint,
            b <= 0xFFFF_FFFFint,
    ;
    (a as u64) * (b as u64)
}

/// Whether [`compose_frame`] can render a `disp_w × disp_h` display with
/// `rotation` and `scale` into a `phys_w × phys_h` window; see
/// [`frame_fits`].
pub fn frame_fits_exec(disp_w: u32, disp_h: u32, rotation: Rotation, scale: u32, phys_w: u32, phys_h: u32) -> (r: bool)
    ensures
        r == frame_fits(disp_w as int, disp_h as int, rotation, scale as int, phys_w as int, phys_h as int),
{
    let max = u32::MAX as u64;
    let (rw, rh) = match rotation {
        Rotation::Degrees0 | Rotation::Degrees180 => (disp_w, disp_h),
        Rotation::Degrees90 | Rotation::Degrees270 => (disp_h, disp_w),
    };
    if wide_mul(disp_w, disp_h) > max || wide_mul(phys_w, phys_h) > max {
        return false;
    }
    let sw = wide_mul(rw, scale);
    let sh = wide_mul(rh, scale);
    if sw > max || sh > max {
        return false;
    }
    if wide_mul(sw as u32, sh as u32) > max {
        return false;
    }
    !(sh == 0 && phys_h > 0 && sw > 0 && phys_w > 0)
}

/// Render a `disp_w × disp_h` frame into a `phys_w × phys_h` window buffer:
/// e-ink look, rotation, scale with pixel grid, fit into the window (see
/// [`frame_at`]). The debug side panel, when open, is drawn over the
/// columns right of the display afterwards.
pub fn compose_frame(
    rgba: &[u32],
    disp_w: u32,
    disp_h: u32,
    rotation: Rotation,
    scale: u32,
    phys_w: u32,
    phys_h: u32,
) -> (r: Vec<u32>)
    requires
        rgba@.len() >= disp_w * disp_h,
        frame_fits(disp_w as int, disp_h as int, rotation, scale as int, phys_w as int, phys_h as int),
    ensures
        r@.len() == phys_w * phys_h,
        forall|yy: int, xx: int|
            0 <= yy < phys_h && 0 <= xx < phys_w ==> #[trigger] r@[yy * phys_w + xx] == frame_at(
                rgba@,
                disp_w as int,
                disp_h as int,
                rotation,
                scale as int,
                phys_w as int,
                phys_h as int,
                yy,
                xx,
            ),
{
    let w = disp_w;
    let h = disp_h;
    let eink = eink_pass(rgba, w, h);
    let ghost e = eink@;
    let (rotated, rot_w, rot_h) = match rotation {
        Rotation::Degrees0 => (eink, w, h),
        Rotation::Degrees90 => (rotate_90_cw(eink.as_slice(), w, h), h, w),
        Rotation::Degrees180 => (rotate_180(eink.as_slice(), w, h), w, h),
        Rotation::Degrees270 => (rotate_270_cw(eink.as_slice(), w, h), h, w),
    };
    proof {
        assert(w * h == h * w) by (nonlinear_arith);
        assert forall|a: int, b: int| 0 <= a < rot_h && 0 <= b < rot_w implies #[trigger] rotated@[a * rot_w + b]
            == rotated_at(rgba@, w as int, h as int, rotation, a, b) by {
            match rotation {
                Rotation::Degrees0 => {
                    assert(e[a * w + b] == eink_look(rgba@[a * w + b], b as u32, a as u32));
                },
                Rotation::Degrees90 => {
                    let y = h - 1 - b;
                    assert(rotated@[a * h + b] == e[(h - 1 - b) * w + a]);
                    assert(e[y * w + a] == eink_look(rgba@[y * w + a], a as u32, y as u32));
                },
                Rotation::Degrees180 => {
                    let y = h - 1 - a;
                    let x = w - 1 - b;
                    assert(rotated@[a * w + b] == e[(h - 1 - a) * w + (w - 1 - b)]);
                    assert(e[y * w + x] == eink_look(rgba@[y * w + x], x as u32, y as u32));
                },
                Rotation::Degrees270 => {
                    let x = w - 1 - a;
                    assert(rotated@[a * h + b] == e[b * w + (w - 1 - a)]);
                    assert(e[b * w + x] == eink_look(rgba@[b * w + x], x as u32, b as u32));
                },
            }
        }
    }
    let src_w = rot_w * scale;
    let src_h = rot_h * scale;
    let source = scale_with_grid(rotated.as_slice(), rot_w, rot_h, scale);
    let full = fit_to_window(source.as_slice(), src_w, src_h, phys_w, phys_h);
    proof {
        assert forall|yy: int, xx: int| 0 <= yy < phys_h && 0 <= xx < phys_w implies #[trigger] full@[yy * phys_w + xx]
            == frame_at(rgba@, w as int, h as int, rotation, scale as int, phys_w as int, phys_h as int, yy, xx) by {
            let m = min_int(src_w as int, phys_w as int);
            let sc = scale as int;
            if xx < m {
                let sx = min_int(xx * src_w / m, src_w - 1);
                let sy = min_int(yy * src_h / (phys_h as int), src_h - 1);
                lemma_nn_bound(xx, src_w as int, m);
                lemma_nn_bound(yy, src_h as int, phys_h as int);
                assert(source@[sy * src_w + sx] == scaled_at(rotated@, rot_w as int, scale as int, sy, sx));
                if scale == 1 {
                    assert(src_w == rot_w && src_h == rot_h);
                    assert(rotated@[sy * rot_w + sx] == rotated_at(rgba@, w as int, h as int, rotation, sy, sx));
                } else {
                    lemma_div_bound(sy, sc, rot_h as int);
                    lemma_div_bound(sx, sc, rot_w as int);
                    assert(rotated@[(sy / sc) * rot_w + sx / sc] == rotated_at(
                        rgba@,
                        w as int,
                        h as int,
                        rotation,
                        sy / sc,
                        sx / sc,
                    ));
                }
            }
        }
    }
    full
}

} // verus!
