//! Broadcast-grade visual analysis overlays for camera diagnostics.
//!
//! All overlays operate on the ARGB framebuffer (one `u32` per pixel,
//! `0x00RRGGBB`) and are composited directly onto the video frame or drawn
//! in dedicated panel areas. A pixel at column `x` and row `y` of a buffer
//! `w` pixels wide lives at index `y * w + x`; writes to indices past the
//! end of the buffer are skipped.
use vstd::prelude::*;

verus! {

/// Red channel of a pixel.
pub open spec fn red(p: u32) -> u32 {
    (p / 65536) % 256
}

/// Green channel of a pixel.
pub open spec fn green(p: u32) -> u32 {
    (p / 256) % 256
}

/// Blue channel of a pixel.
pub open spec fn blue(p: u32) -> u32 {
    p % 256
}

/// A pixel built from three channel values below 256.
pub open spec fn rgb(r: u32, g: u32, b: u32) -> u32 {
    (r * 65536 + g * 256 + b) as u32
}

pub open spec fn min_u32(a: u32, b: u32) -> u32 {
    if a < b { a } else { b }
}

/// `base` with each channel scaled by `intensity / 255`, capped at 255.
pub open spec fn blend(base: u32, intensity: u32) -> u32 {
    rgb(
        min_u32((red(base) * intensity / 255) as u32, 255),
        min_u32((green(base) * intensity / 255) as u32, 255),
        min_u32((blue(base) * intensity / 255) as u32, 255),
    )
}

/// Channel extraction with shifts and masks, as the drawing code does it.
proof fn lemma_channels(p: u32)
    ensures
        (p >> 16u32) & 0xFFu32 == red(p),
        (p >> 8u32) & 0xFFu32 == green(p),
        p & 0xFFu32 == blue(p),
        red(p) < 256,
        green(p) < 256,
        blue(p) < 256,
{
    assert((p >> 16u32) & 0xFFu32 == (p / 65536) % 256) by (bit_vector);
    assert((p >> 8u32) & 0xFFu32 == (p / 256) % 256) by (bit_vector);
    assert(p & 0xFFu32 == p % 256) by (bit_vector);
}

/// Packing three channel values with shifts and ors.
proof fn lemma_pack(r: u32, g: u32, b: u32)
    requires
        r < 256,
        g < 256,
        b < 256,
    ensures
        (r << 16u32) | (g << 8u32) | b == rgb(r, g, b),
        red(rgb(r, g, b)) == r,
        green(rgb(r, g, b)) == g,
        blue(rgb(r, g, b)) == b,
{
    assert((r << 16u32) | (g << 8u32) | b == r * 65536 + g * 256 + b) by (bit_vector)
        requires
            r < 256,
            g < 256,
            b < 256,
    ;
    let p = r * 65536 + g * 256 + b;
    assert(p / 65536 == r) by (nonlinear_arith)
        requires
            p == r * 65536 + g * 256 + b,
            g < 256,
            b < 256,
    ;
    assert(p / 256 == r * 256 + g) by (nonlinear_arith)
        requires
            p == r * 65536 + g * 256 + b,
            b < 256,
    ;
    assert((r * 256 + g) % 256 == g) by (nonlinear_arith)
        requires
            g < 256,
    ;
    assert(p % 256 == b) by (nonlinear_arith)
        requires
            p == r * 65536 + g * 256 + b,
            b < 256,
    ;
}

proof fn lemma_channel_scale(c: u32, intensity: u32)
    requires
        c < 256,
        intensity <= 255,
    ensures
        c * intensity <= 255 * 255,
{
    assert(c * intensity <= 255 * 255) by (nonlinear_arith)
        requires
            c < 256,
            intensity <= 255,
    ;
}

/// The low 24 bits of a pixel are its three channels.
proof fn lemma_rgb_of_channels(p: u32)
    ensures
        rgb(red(p), green(p), blue(p)) == p % 0x100_0000,
        p & 0xFF_FFFFu32 == p % 0x100_0000,
{
    let q = p % 0x100_0000;
    assert(q == red(p) * 65536 + green(p) * 256 + blue(p)) by (nonlinear_arith)
        requires
            q == p % 0x100_0000,
    {
        assert(p == (p / 0x100_0000) * 0x100_0000 + q);
        assert(p / 65536 == (p / 0x100_0000) * 256 + q / 65536);
        assert(p / 256 == (p / 0x100_0000) * 65536 + q / 256);
        assert(red(p) == q / 65536);
        assert(green(p) == (q / 256) % 256);
        assert(blue(p) == q % 256);
        assert(q == (q / 65536) * 65536 + ((q / 256) % 256) * 256 + q % 256);
    }
    assert(p & 0xFF_FFFFu32 == p % 0x100_0000) by (bit_vector);
}

/// Blending scales each byte lane of the color on its own: with an
/// intensity of at most 255, each channel of the result is the base
/// channel times `intensity / 255` (never above the base channel), and the
/// top byte of the result is zero.
pub proof fn lemma_blend_lanes(base: u32, intensity: u32)
    requires
        intensity <= 255,
    ensures
        red(blend(base, intensity)) == red(base) * intensity / 255,
        green(blend(base, intensity)) == green(base) * intensity / 255,
        blue(blend(base, intensity)) == blue(base) * intensity / 255,
        red(blend(base, intensity)) <= red(base),
        green(blend(base, intensity)) <= green(base),
        blue(blend(base, intensity)) <= blue(base),
        blend(base, intensity) >> 24u32 == 0,
{
    lemma_channels(base);
    let (r, g, b) = (red(base), green(base), blue(base));
    assert(r * intensity / 255 <= r && g * intensity / 255 <= g && b * intensity / 255 <= b) by (nonlinear_arith)
        requires
            r < 256,
            g < 256,
            b < 256,
            intensity <= 255,
    ;
    lemma_pack((r * intensity / 255) as u32, (g * intensity / 255) as u32, (b * intensity / 255) as u32);
    let out = blend(base, intensity);
    assert(out < 0x100_0000);
    assert(out < 0x100_0000 ==> out >> 24u32 == 0) by (bit_vector);
}

/// Blending at full intensity keeps the color's three channels (and
/// clears the top byte); at zero intensity it gives black.
pub proof fn lemma_blend_extremes(base: u32)
    ensures
        blend(base, 255) == base & 0xFF_FFFFu32,
        blend(base, 0) == 0,
{
    lemma_channels(base);
    lemma_rgb_of_channels(base);
    assert(red(base) * 255 / 255 == red(base));
    assert(green(base) * 255 / 255 == green(base));
    assert(blue(base) * 255 / 255 == blue(base));
}

/// A brighter intensity never darkens a channel of the blend.
pub proof fn lemma_blend_monotone(base: u32, i: u32, j: u32)
    requires
        i <= j <= 255,
    ensures
        red(blend(base, i)) <= red(blend(base, j)),
        green(blend(base, i)) <= green(blend(base, j)),
        blue(blend(base, i)) <= blue(blend(base, j)),
{
    lemma_blend_lanes(base, i);
    lemma_blend_lanes(base, j);
    let (r, g, b) = (red(base) as int, green(base) as int, blue(base) as int);
    assert(r * i / 255 <= r * j / 255 && g * i / 255 <= g * j / 255 && b * i / 255 <= b * j / 255) by (nonlinear_arith)
        requires
            r >= 0,
            g >= 0,
            b >= 0,
            i <= j,
    {
        assert(r * i <= r * j);
        assert(g * i <= g * j);
        assert(b * i <= b * j);
    }
}

/// Scales each channel of `base_color` by `intensity / 255`.
fn blend_color(base_color: u32, intensity: u32) -> (r: u32)
    requires
        intensity <= 255,
    ensures
        r == blend(base_color, intensity),
        (r >> 16u32) & 0xFFu32 == ((base_color >> 16u32) & 0xFFu32) * intensity / 255,
        (r >> 8u32) & 0xFFu32 == ((base_color >> 8u32) & 0xFFu32) * intensity / 255,
        r & 0xFFu32 == (base_color & 0xFFu32) * intensity / 255,
        r >> 24u32 == 0,
{
    proof {
        lemma_channels(base_color);
        lemma_blend_lanes(base_color, intensity);
        lemma_channels(blend(base_color, intensity));
    }
    let cr = (base_color >> 16) & 0xFF;
    let cg = (base_color >> 8) & 0xFF;
    let cb = base_color & 0xFF;
    proof {
        lemma_channel_scale(cr, intensity);
        lemma_channel_scale(cg, intensity);
        lemma_channel_scale(cb, intensity);
    }
    let rr = cr * intensity / 255;
    let g = cg * intensity / 255;
    let b = cb * intensity / 255;
    let rc = if rr < 255 { rr } else { 255 };
    let gc = if g < 255 { g } else { 255 };
    let bc = if b < 255 { b } else { 255 };
    proof {
        lemma_pack(rc, gc, bc);
    }
    (rc << 16) | (gc << 8) | bc
}

/// Whether buffer index `k` falls on row `row` of a `bw`-wide buffer at a
/// column in `[x, x + w)` (columns past the row width wrap onto later rows).
pub open spec fn row_hit(k: int, bw: int, x: int, w: int, row: int) -> bool {
    x <= k - row * bw < x + w
}

/// Whether buffer index `k` is covered by the rectangle of rows
/// `[y, y + h)` and columns `[x, x + w)`.
pub open spec fn rect_hit(k: int, bw: int, x: int, y: int, w: int, h: int) -> bool {
    exists|row: int| y <= row < y + h && #[trigger] row_hit(k, bw, x, w, row)
}

/// The buffer after filling a rectangle with one color.
pub open spec fn filled(s: Seq<u32>, bw: usize, x: usize, y: usize, w: usize, h: usize, color: u32) -> Seq<u32> {
    Seq::new(s.len(), |k: int| if rect_hit(k, bw as int, x as int, y as int, w as int, h as int) { color } else { s[k] })
}

/// The rectangle's last pixel index fits in `usize`.
pub open spec fn rect_fits(bw: usize, x: usize, y: usize, w: usize, h: usize) -> bool {
    &&& x + w <= usize::MAX
    &&& y + h <= usize::MAX
    &&& (w > 0 && h > 0) ==> (y + h - 1) * bw + (x + w - 1) <= usize::MAX
}

proof fn lemma_rect_hit_extend(k: int, bw: int, x: int, y: int, w: int, h: int)
    requires
        h >= 0,
    ensures
        rect_hit(k, bw, x, y, w, h + 1) == (rect_hit(k, bw, x, y, w, h) || row_hit(k, bw, x, w, y + h)),
{
    if rect_hit(k, bw, x, y, w, h + 1) {
        let r = choose|row: int| y <= row < y + h + 1 && #[trigger] row_hit(k, bw, x, w, row);
        if r < y + h {
            assert(rect_hit(k, bw, x, y, w, h));
        }
    }
    if row_hit(k, bw, x, w, y + h) {
        assert(y <= y + h < y + h + 1);
    }
}

proof fn lemma_row_offset(row: int, bw: int, col: int)
    requires
        row >= 0,
        bw >= 0,
        col >= 0,
    ensures
        row * bw <= row * bw + col,
        (row + 1) * bw == row * bw + bw,
{
    assert((row + 1) * bw == row * bw + bw) by (nonlinear_arith);
}

proof fn lemma_mul_mono(a: int, b: int, c: int)
    requires
        0 <= a <= b,
        c >= 0,
    ensures
        a * c <= b * c,
{
    assert(a * c <= b * c) by (nonlinear_arith)
        requires
            0 <= a <= b,
            c >= 0,
    ;
}

/// Fills the rectangle of rows `[y, y + h)` and columns `[x, x + w)` with
/// `color`.
pub fn fill_rect(buf: &mut [u32], buf_w: usize, x: usize, y: usize, w: usize, h: usize, color: u32)
    requires
        rect_fits(buf_w, x, y, w, h),
    ensures
        final(buf)@ == filled(old(buf)@, buf_w, x, y, w, h, color),
{
    let ghost s0 = buf@;
    let mut row = y;
    while row < y + h
        invariant
            y <= row <= y + h,
            rect_fits(buf_w, x, y, w, h),
            buf@.len() == s0.len(),
            forall|k: int| 0 <= k < s0.len() ==> buf@[k] == if rect_hit(k, buf_w as int, x as int, y as int, w as int, row - y) { color } else { s0[k] },
        decreases y + h - row,
    {
        let mut col = x;
        while col < x + w
            invariant
                y <= row < y + h,
                x <= col <= x + w,
                rect_fits(buf_w, x, y, w, h),
                buf@.len() == s0.len(),
                forall|k: int| 0 <= k < s0.len() ==> buf@[k] == if rect_hit(k, buf_w as int, x as int, y as int, w as int, row - y)
                    || (x <= k - row * buf_w < col) { color } else { s0[k] },
            decreases x + w - col,
        {
            proof {
                lemma_mul_mono(row as int, (y + h - 1) as int, buf_w as int);
            }
            let idx = row * buf_w + col;
            if idx < buf.len() {
                buf[idx] = color;
            }
            col = col + 1;
        }
        proof {
            assert forall|k: int| 0 <= k < s0.len() implies buf@[k] == if rect_hit(k, buf_w as int, x as int, y as int, w as int, row + 1 - y) { color } else { s0[k] } by {
                lemma_rect_hit_extend(k, buf_w as int, x as int, y as int, w as int, row - y);
            }
        }
        row = row + 1;
    }
    assert(buf@ =~= filled(s0, buf_w, x, y, w, h, color));
}

/// Whether the animated diagonal zebra pattern is lit at buffer index `k`
/// of a `w`-wide frame, in animation phase `phase`.
pub open spec fn zebra_stripe(k: int, w: int, phase: int) -> bool {
    ((k % w + k / w + phase) / 3) % 2 == 0
}

/// The frame after drawing zebra stripes: a pixel of the `w` x `h` frame
/// whose luma exceeds `threshold` turns red where the stripe pattern is lit.
pub open spec fn zebras(s: Seq<u32>, luma: Seq<u8>, w: usize, h: usize, threshold: u8, frame_count: u64) -> Seq<u32> {
    Seq::new(s.len(), |k: int|
        if k < w * h && luma[k] > threshold && zebra_stripe(k, w as int, (frame_count % 8) as int) {
            0xFF0000u32
        } else {
            s[k]
        })
}

/// The zebra animation repeats every eight frames: frame counts eight
/// apart draw the same stripes.
pub proof fn lemma_zebras_period(s: Seq<u32>, luma: Seq<u8>, w: usize, h: usize, threshold: u8, frame_count: u64)
    requires
        frame_count + 8 <= u64::MAX,
    ensures
        zebras(s, luma, w, h, threshold, (frame_count + 8) as u64) == zebras(s, luma, w, h, threshold, frame_count),
{
    assert(((frame_count + 8) as u64) % 8 == frame_count % 8);
    assert(zebras(s, luma, w, h, threshold, (frame_count + 8) as u64) =~= zebras(s, luma, w, h, threshold, frame_count));
}

proof fn lemma_stripe_mod6(n: int)
    requires
        n >= 0,
    ensures
        ((n / 3) % 2 == 0) == (n % 6 < 3),
{
    let q = n / 6;
    let r = n % 6;
    assert(n == 6 * q + r && 0 <= r < 6) by {
        vstd::arithmetic::div_mod::lemma_fundamental_div_mod(n, 6);
    }
    assert(n / 3 == 2 * q + r / 3) by {
        vstd::arithmetic::div_mod::lemma_fundamental_div_mod_converse(n, 3, 2 * q + r / 3, r % 3);
    }
    assert((2 * q + r / 3) % 2 == (r / 3) % 2) by {
        vstd::arithmetic::div_mod::lemma_fundamental_div_mod_converse(2 * q + r / 3, 2, q + (r / 3) / 2, (r / 3) % 2);
    }
}

/// Which pixels the zebra overlay paints: a pixel at column `x`, row `y`
/// of the frame whose luma exceeds the threshold turns red exactly when
/// `(x + y + f mod 8) mod 6 < 3`, with `f` the frame count — three lit
/// diagonals, three dark ones, shifted by the frame count modulo 8. Every
/// other pixel keeps its value.
pub proof fn lemma_zebras_lit(s: Seq<u32>, luma: Seq<u8>, w: usize, h: usize, threshold: u8, frame_count: u64)
    requires
        w > 0,
    ensures
        forall|k: int| 0 <= k < s.len() ==> #[trigger] zebras(s, luma, w, h, threshold, frame_count)[k] ==
            if k < w * h && luma[k] > threshold && (k % (w as int) + k / (w as int) + frame_count % 8) % 6 < 3 {
                0xFF0000u32
            } else {
                s[k]
            },
{
    assert forall|k: int| 0 <= k < s.len() implies #[trigger] zebras(s, luma, w, h, threshold, frame_count)[k] ==
            if k < w * h && luma[k] > threshold && (k % (w as int) + k / (w as int) + frame_count % 8) % 6 < 3 {
                0xFF0000u32
            } else {
                s[k]
            } by {
        lemma_stripe_mod6(k % (w as int) + k / (w as int) + (frame_count % 8) as int);
    }
}

/// The stripes move one column per frame: within a cycle of eight frames
/// (frame count `f` with `f mod 8 < 7`), a bright pixel is lit at frame
/// `f + 1` exactly when its right-hand neighbour on the same row, also
/// bright, was lit at frame `f`.
pub proof fn lemma_zebras_scroll(s: Seq<u32>, luma: Seq<u8>, w: usize, h: usize, threshold: u8, frame_count: u64)
    requires
        w > 0,
        frame_count % 8 < 7,
        frame_count < u64::MAX,
    ensures
        forall|k: int| 0 <= k && k + 1 < s.len() && k + 1 < w * h && k % (w as int) + 1 < w
            && luma[k] > threshold && luma[k + 1] > threshold && s[k] != 0xFF0000u32 && s[k + 1] != 0xFF0000u32
            ==> (#[trigger] zebras(s, luma, w, h, threshold, frame_count)[k + 1] == 0xFF0000u32)
                == (zebras(s, luma, w, h, threshold, (frame_count + 1) as u64)[k] == 0xFF0000u32),
{
    lemma_zebras_lit(s, luma, w, h, threshold, frame_count);
    lemma_zebras_lit(s, luma, w, h, threshold, (frame_count + 1) as u64);
    assert(((frame_count + 1) as u64) % 8 == frame_count % 8 + 1);
    assert forall|k: int| 0 <= k && k + 1 < s.len() && k + 1 < w * h && k % (w as int) + 1 < w
            && luma[k] > threshold && luma[k + 1] > threshold && s[k] != 0xFF0000u32 && s[k + 1] != 0xFF0000u32
            implies (#[trigger] zebras(s, luma, w, h, threshold, frame_count)[k + 1] == 0xFF0000u32)
                == (zebras(s, luma, w, h, threshold, (frame_count + 1) as u64)[k] == 0xFF0000u32) by {
        let wi = w as int;
        vstd::arithmetic::div_mod::lemma_fundamental_div_mod(k, wi);
        assert(k + 1 == (k / wi) * wi + (k % wi + 1)) by (nonlinear_arith)
            requires
                k == wi * (k / wi) + k % wi,
        ;
        vstd::arithmetic::div_mod::lemma_fundamental_div_mod_converse(k + 1, wi, k / wi, k % wi + 1);
        assert(zebras(s, luma, w, h, threshold, frame_count)[k + 1] == if (k % wi + 1 + k / wi + frame_count % 8) % 6 < 3 {
            0xFF0000u32 } else { s[k + 1] });
        assert(zebras(s, luma, w, h, threshold, (frame_count + 1) as u64)[k] == if (k % wi + k / wi + frame_count % 8 + 1) % 6 < 3 {
            0xFF0000u32 } else { s[k] });
    }
}

/// Zebra stripes — diagonal hatch pattern over overexposed regions.
/// Standard broadcast threshold: luma > 235 (100 IRE).
///
/// `luma` holds the BT.709 luma of each pixel of `buf`, index for index.
pub fn draw_zebras(buf: &mut [u32], w: usize, h: usize, threshold: u8, frame_count: u64, luma: &[u8])
    requires
        w * h <= usize::MAX,
        w + h + 8 <= usize::MAX,
        luma@.len() == old(buf)@.len(),
    ensures
        final(buf)@ == zebras(old(buf)@, luma@, w, h, threshold, frame_count),
{
    let ghost s0 = buf@;
    if w == 0 {
        assert(buf@ =~= zebras(s0, luma@, w, h, threshold, frame_count));
        return;
    }
    let phase = (frame_count % 8) as usize;
    let total = w * h;
    let n = if total < buf.len() { total } else { buf.len() };
    let mut idx: usize = 0;
    let mut x: usize = 0;
    let mut y: usize = 0;
    while idx < n
        invariant
            w > 0,
            w * h <= usize::MAX,
            w + h + 8 <= usize::MAX,
            total == w * h,
            n <= total,
            n <= s0.len(),
            luma@.len() == s0.len(),
            phase == frame_count % 8,
            idx <= n,
            x < w,
            idx == y * w + x,
            buf@.len() == s0.len(),
            forall|k: int| 0 <= k < s0.len() ==> #[trigger] buf@[k] == if k < idx && luma@[k] > threshold
                && zebra_stripe(k, w as int, phase as int) { 0xFF0000u32 } else { s0[k] },
        decreases n - idx,
    {
        proof {
            vstd::arithmetic::div_mod::lemma_fundamental_div_mod_converse(idx as int, w as int, y as int, x as int);
            lemma_row_below_height(w as int, h as int, x as int, y as int);
        }
        let pixel_luma = luma[idx];
        assert(zebra_stripe(idx as int, w as int, phase as int) == (((x + y + phase) / 3) % 2 == 0));
        let ghost old_buf = buf@;
        if pixel_luma > threshold {
            if ((x + y + phase) / 3) % 2 == 0 {
                buf[idx] = 0xFF0000;
            }
        }
        assert forall|k: int| 0 <= k < s0.len() implies buf@[k] == if k < idx + 1 && luma@[k] > threshold
                && zebra_stripe(k, w as int, phase as int) { 0xFF0000u32 } else { s0[k] } by {
            if k == idx {
                assert(luma@[k] == pixel_luma);
                assert(zebra_stripe(k, w as int, phase as int) == (((x + y + phase) / 3) % 2 == 0));
                assert(old_buf[k] == s0[k]);
                assert(buf@[k] == if luma@[k] > threshold && zebra_stripe(k, w as int, phase as int) { 0xFF0000u32 } else { s0[k] });
            } else {
                assert(old_buf[k] == if k < idx && luma@[k] > threshold
                && zebra_stripe(k, w as int, phase as int) { 0xFF0000u32 } else { s0[k] });
                assert(buf@[k] == old_buf[k]);
            }
        }
        idx = idx + 1;
        if x + 1 == w {
            x = 0;
            y = y + 1;
            proof {
                lemma_row_offset((y - 1) as int, w as int, 0);
            }
        } else {
            x = x + 1;
        }
    }
    assert(idx == n);
    assert(buf@ =~= zebras(s0, luma@, w, h, threshold, frame_count));
}

proof fn lemma_row_below_height(w: int, h: int, x: int, y: int)
    requires
        w > 0,
        0 <= x < w,
        0 <= y,
        0 <= h,
        y * w + x < w * h,
    ensures
        y < h,
        x + y <= w + h,
{
    if y >= h {
        assert(h * w <= y * w) by (nonlinear_arith)
            requires
                0 <= h <= y,
                w >= 0,
        ;
        assert(w * h == h * w) by (nonlinear_arith);
    }
}

/// Fast BT.601 luma approximation of a pixel, in `0..=255`.
pub open spec fn luma601(p: u32) -> int {
    (red(p) * 54 + green(p) * 183 + blue(p) * 19) / 256
}

/// Luma of buffer index `j`, zero past the end of the buffer.
pub open spec fn luma_at(s: Seq<u32>, j: int) -> int {
    if 0 <= j < s.len() { luma601(s[j]) } else { 0 }
}

/// Luma at column `c`, row `r` of a `w`-wide frame.
pub open spec fn luma_xy(s: Seq<u32>, w: int, c: int, r: int) -> int {
    luma_at(s, r * w + c)
}

/// Horizontal Sobel response at column `c`, row `r`.
pub open spec fn sobel_gx(s: Seq<u32>, w: int, c: int, r: int) -> int {
    -luma_xy(s, w, c - 1, r - 1) - 2 * luma_xy(s, w, c - 1, r) - luma_xy(s, w, c - 1, r + 1)
        + luma_xy(s, w, c + 1, r - 1) + 2 * luma_xy(s, w, c + 1, r) + luma_xy(s, w, c + 1, r + 1)
}

/// Vertical Sobel response at column `c`, row `r`.
pub open spec fn sobel_gy(s: Seq<u32>, w: int, c: int, r: int) -> int {
    -luma_xy(s, w, c - 1, r - 1) - 2 * luma_xy(s, w, c, r - 1) - luma_xy(s, w, c + 1, r - 1)
        + luma_xy(s, w, c - 1, r + 1) + 2 * luma_xy(s, w, c, r + 1) + luma_xy(s, w, c + 1, r + 1)
}

pub open spec fn abs_int(v: int) -> int {
    if v < 0 { -v } else { v }
}

/// Edge strength at column `c`, row `r`: half the sum of the absolute
/// Sobel responses.
pub open spec fn edge_magnitude(s: Seq<u32>, w: int, c: int, r: int) -> int {
    (abs_int(sobel_gx(s, w, c, r)) + abs_int(sobel_gy(s, w, c, r))) / 2
}

/// Whether index `k` is a pixel of the `w` x `h` frame that is not on its
/// border.
pub open spec fn interior(k: int, w: int, h: int) -> bool {
    w > 0 && 1 <= k % w < w - 1 && 1 <= k / w < h - 1
}

/// Whether the pixel at index `k` is an interior pixel of the `w` x `h`
/// frame whose edge strength in `s` exceeds `sensitivity`.
#[verifier::opaque]
pub open spec fn is_peak(s: Seq<u32>, w: int, h: int, sensitivity: u32, k: int) -> bool {
    interior(k, w, h) && edge_magnitude(s, w, k % w, k / w) > sensitivity
}

/// The frame after focus peaking: every interior pixel whose edge strength
/// exceeds `sensitivity` takes `color`; edge strength is measured on the
/// frame as it was before drawing.
pub open spec fn focus_peaked(s: Seq<u32>, w: usize, h: usize, sensitivity: u32, color: u32) -> Seq<u32> {
    Seq::new(s.len(), |k: int| if is_peak(s, w as int, h as int, sensitivity, k) { color } else { s[k] })
}

proof fn lemma_luma601_bound(p: u32)
    ensures
        0 <= luma601(p) <= 255,
{
    lemma_channels(p);
    assert(red(p) * 54 + green(p) * 183 + blue(p) * 19 <= 255 * 256) by (nonlinear_arith)
        requires
            red(p) < 256,
            green(p) < 256,
            blue(p) < 256,
    ;
}

/// Luma of one pixel with the fast BT.601 weights.
fn pixel_luma601(p: u32) -> (l: i32)
    ensures
        l == luma601(p),
        0 <= l <= 255,
{
    proof {
        lemma_channels(p);
        lemma_luma601_bound(p);
    }
    let r = ((p >> 16) & 0xFF) as i32;
    let g = ((p >> 8) & 0xFF) as i32;
    let b = (p & 0xFF) as i32;
    (r * 54 + g * 183 + b * 19) / 256
}

proof fn lemma_neighbor_index(w: int, h: int, c: int, r: int)
    requires
        1 <= c < w - 1,
        1 <= r < h - 1,
    ensures
        0 <= (r - 1) * w + (c - 1),
        (r + 1) * w + (c + 1) < w * h,
        (r - 1) * w == r * w - w,
        (r + 1) * w == r * w + w,
        r * w + c < w * h,
{
    assert((r - 1) * w == r * w - w) by (nonlinear_arith);
    assert((r + 1) * w == r * w + w) by (nonlinear_arith);
    assert((r + 1) * w + (c + 1) < w * h) by (nonlinear_arith)
        requires
            1 <= c < w - 1,
            1 <= r < h - 1,
    ;
    assert(0 <= (r - 1) * w) by (nonlinear_arith)
        requires
            1 <= r,
            w >= 0,
    ;
}

/// Focus peaking — Sobel edge detection with colored overlay.
/// Highlights sharp edges in the image, essential for verifying focus.
pub fn draw_focus_peaking(buf: &mut [u32], w: usize, h: usize, sensitivity: u32, color: u32)
    requires
        w * h <= usize::MAX,
    ensures
        final(buf)@ == focus_peaked(old(buf)@, w, h, sensitivity, color),
{
    let ghost s0 = buf@;
    let total = w * h;
    // We need luma values — extract first, then overlay
    let mut luma: Vec<i32> = Vec::new();
    let mut i: usize = 0;
    while i < total
        invariant
            i <= total,
            luma@.len() == i,
            buf@ == s0,
            forall|j: int| 0 <= j < i ==> luma@[j] == luma_at(s0, j),
        decreases total - i,
    {
        if i < buf.len() {
            let v = pixel_luma601(buf[i]);
            luma.push(v);
        } else {
            luma.push(0);
        }
        i = i + 1;
    }
    if w < 3 || h < 3 {
        assert forall|k: int| 0 <= k < s0.len() implies !is_peak(s0, w as int, h as int, sensitivity, k) by {
            reveal(is_peak);
        }
        assert(buf@ =~= focus_peaked(s0, w, h, sensitivity, color));
        return;
    }
    // Sobel operator on luma
    proof {
        assert forall|k: int| 0 <= k < w + 1 implies !is_peak(s0, w as int, h as int, sensitivity, k) by {
            reveal(is_peak);
            if k < w {
                vstd::arithmetic::div_mod::lemma_fundamental_div_mod_converse(k, w as int, 0, k);
            } else {
                vstd::arithmetic::div_mod::lemma_fundamental_div_mod_converse(k, w as int, 1, 0);
            }
        }
    }
    let mut y: usize = 1;
    while y < h - 1
        invariant
            w >= 3,
            h >= 3,
            1 <= y <= h - 1,
            total == w * h,
            w * h <= usize::MAX,
            luma@.len() == total,
            forall|j: int| 0 <= j < total ==> luma@[j] == luma_at(s0, j),
            buf@.len() == s0.len(),
            forall|k: int| 0 <= k < s0.len() ==> buf@[k] == if k < y * w + 1
                && is_peak(s0, w as int, h as int, sensitivity, k) { color } else { s0[k] },
        decreases h - 1 - y,
    {
        let mut x: usize = 1;
        while x < w - 1
            invariant
                w >= 3,
                h >= 3,
                1 <= y < h - 1,
                1 <= x <= w - 1,
                total == w * h,
                w * h <= usize::MAX,
                luma@.len() == total,
                forall|j: int| 0 <= j < total ==> luma@[j] == luma_at(s0, j),
                buf@.len() == s0.len(),
                forall|k: int| 0 <= k < s0.len() ==> buf@[k] == if k < y * w + x
                    && is_peak(s0, w as int, h as int, sensitivity, k) { color } else { s0[k] },
            decreases w - 1 - x,
        {
            let magnitude = edge_at(&luma, w, h, x, y, Ghost(s0));
            let idx = y * w + x;
            proof {
                vstd::arithmetic::div_mod::lemma_fundamental_div_mod_converse(idx as int, w as int, y as int, x as int);
                reveal(is_peak);
                assert(is_peak(s0, w as int, h as int, sensitivity, idx as int) == (magnitude > sensitivity));
            }
            if magnitude > sensitivity {
                if idx < buf.len() {
                    buf[idx] = color;
                }
            }
            x = x + 1;
        }
        proof {
            lemma_row_end_not_peak(s0, w as int, h as int, sensitivity, y as int);
        }
        y = y + 1;
    }
    proof {
        assert forall|k: int| 0 <= k < s0.len() && is_peak(s0, w as int, h as int, sensitivity, k) implies k < y * w + 1 by {
            reveal(is_peak);
            lemma_interior_before_last_row(w as int, h as int, k);
        }
    }
    assert(buf@ =~= focus_peaked(s0, w, h, sensitivity, color));
}

/// The last column of row `y` and the first column of row `y + 1` are
/// border pixels.
proof fn lemma_row_end_not_peak(s: Seq<u32>, w: int, h: int, sensitivity: u32, y: int)
    requires
        w >= 3,
        0 <= y,
    ensures
        !is_peak(s, w, h, sensitivity, y * w + w - 1),
        !is_peak(s, w, h, sensitivity, y * w + w),
        (y + 1) * w + 1 == y * w + w + 1,
{
    reveal(is_peak);
    vstd::arithmetic::div_mod::lemma_fundamental_div_mod_converse(y * w + w - 1, w, y, w - 1);
    assert((y + 1) * w == y * w + w) by (nonlinear_arith);
    vstd::arithmetic::div_mod::lemma_fundamental_div_mod_converse(y * w + w, w, y + 1, 0);
}

/// Every interior pixel comes before the second column of the last row.
proof fn lemma_interior_before_last_row(w: int, h: int, k: int)
    requires
        interior(k, w, h),
        k >= 0,
    ensures
        k < (h - 1) * w + 1,
{
    vstd::arithmetic::div_mod::lemma_fundamental_div_mod(k, w);
    let r = k / w;
    let c = k % w;
    assert(k == w * r + c);
    assert(w * r + c < (h - 1) * w + 1) by (nonlinear_arith)
        requires
            0 <= r < h - 1,
            0 <= c < w,
            w > 0,
    ;
}

/// Edge strength at column `x`, row `y`, from the luma plane `luma`.
#[verifier::rlimit(40)]
fn edge_at(luma: &Vec<i32>, w: usize, h: usize, x: usize, y: usize, Ghost(s0): Ghost<Seq<u32>>) -> (m: u32)
    requires
        1 <= x < w - 1,
        1 <= y < h - 1,
        w * h <= usize::MAX,
        luma@.len() == w * h,
        forall|j: int| 0 <= j < w * h ==> luma@[j] == luma_at(s0, j),
    ensures
        m == edge_magnitude(s0, w as int, x as int, y as int),
        y * w + x < w * h,
{
    proof {
        lemma_neighbor_index(w as int, h as int, x as int, y as int);
    }
    let idx = y * w + x;
    let up = idx - w;
    let down = idx + w;
    let l_ul = luma[up - 1];
    let l_u = luma[up];
    let l_ur = luma[up + 1];
    let l_l = luma[idx - 1];
    let l_r = luma[idx + 1];
    let l_dl = luma[down - 1];
    let l_d = luma[down];
    let l_dr = luma[down + 1];
    proof {
        lemma_luma_at_bound(s0, (up - 1) as int);
        lemma_luma_at_bound(s0, up as int);
        lemma_luma_at_bound(s0, (up + 1) as int);
        lemma_luma_at_bound(s0, (idx - 1) as int);
        lemma_luma_at_bound(s0, (idx + 1) as int);
        lemma_luma_at_bound(s0, (down - 1) as int);
        lemma_luma_at_bound(s0, down as int);
        lemma_luma_at_bound(s0, (down + 1) as int);
        let (wi, xi, yi) = (w as int, x as int, y as int);
        assert((yi - 1) * wi == yi * wi - wi) by (nonlinear_arith);
        assert((yi + 1) * wi == yi * wi + wi) by (nonlinear_arith);
        assert(l_ul == luma_xy(s0, wi, xi - 1, yi - 1));
        assert(l_u == luma_xy(s0, wi, xi, yi - 1));
        assert(l_ur == luma_xy(s0, wi, xi + 1, yi - 1));
        assert(l_l == luma_xy(s0, wi, xi - 1, yi));
        assert(l_r == luma_xy(s0, wi, xi + 1, yi));
        assert(l_dl == luma_xy(s0, wi, xi - 1, yi + 1));
        assert(l_d == luma_xy(s0, wi, xi, yi + 1));
        assert(l_dr == luma_xy(s0, wi, xi + 1, yi + 1));
    }
    // Gx
    let gx = -l_ul - 2 * l_l - l_dl + l_ur + 2 * l_r + l_dr;
    // Gy
    let gy = -l_ul - 2 * l_u - l_ur + l_dl + 2 * l_d + l_dr;
    let ax = if gx < 0 { -gx } else { gx };
    let ay = if gy < 0 { -gy } else { gy };
    ((ax + ay) / 2) as u32
}

proof fn lemma_luma_at_bound(s: Seq<u32>, j: int)
    ensures
        0 <= luma_at(s, j) <= 255,
{
    if 0 <= j < s.len() {
        lemma_luma601_bound(s[j]);
    }
}

/// One channel of a pixel: 0 red, 1 green, 2 blue.
pub open spec fn channel(p: u32, c: int) -> u32 {
    if c == 0 { red(p) } else if c == 1 { green(p) } else { blue(p) }
}

/// Number of sampled pixels of columns `[0, ncols)` of video row `y` whose
/// channel `c` has the given value. The video is read with row stride
/// `stride`; a sample past the end of the video buffer is skipped.
pub open spec fn row_value_count(v: Seq<u32>, stride: int, y: int, ncols: nat, c: int, value: int) -> nat
    decreases ncols,
{
    if ncols == 0 {
        0
    } else {
        let idx = y * stride + (ncols - 1);
        row_value_count(v, stride, y, (ncols - 1) as nat, c, value)
            + if 0 <= idx < v.len() && channel(v[idx], c) == value { 1nat } else { 0nat }
    }
}

/// Number of sampled pixels of rows `[0, nrows)`, `vw` columns each,
/// whose channel `c` has the given value.
pub open spec fn value_count(v: Seq<u32>, stride: int, vw: nat, nrows: nat, c: int, value: int) -> nat
    decreases nrows,
{
    if nrows == 0 {
        0
    } else {
        value_count(v, stride, vw, (nrows - 1) as nat, c, value)
            + row_value_count(v, stride, nrows - 1, vw, c, value)
    }
}

/// The histogram of channel `c` over a `vw` x `vh` video region: entry
/// `value` counts the sampled pixels whose channel equals `value`.
pub open spec fn channel_histogram(v: Seq<u32>, stride: usize, vw: usize, vh: usize, c: int) -> Seq<u32> {
    Seq::new(256, |value: int| value_count(v, stride as int, vw as nat, vh as nat, c, value) as u32)
}

/// The largest of the first `n` entries, or 0.
pub open spec fn max_prefix(h: Seq<u32>, n: nat) -> u32
    decreases n,
{
    if n == 0 {
        0
    } else {
        let m = max_prefix(h, (n - 1) as nat);
        if h[n - 1] > m { h[n - 1] } else { m }
    }
}

pub open spec fn max_u32(a: u32, b: u32) -> u32 {
    if a > b { a } else { b }
}

/// A pixel with `color` added channel by channel, each capped at 255.
pub open spec fn add_blend(p: u32, color: u32) -> u32 {
    rgb(
        min_u32((red(p) + red(color)) as u32, 255),
        min_u32((green(p) + green(color)) as u32, 255),
        min_u32((blue(p) + blue(color)) as u32, 255),
    )
}

/// Height of a histogram bar: the count scaled so that `max` fills the
/// panel height `ph`, never above `ph`.
pub open spec fn bar_height(count: u32, max: u32, ph: usize) -> nat {
    let scaled = (count * ph) / (max as int);
    if scaled < ph { scaled as nat } else { ph as nat }
}

/// The buffer after additively blending `color` into the bottom `n` pixels
/// of column `x`, the bottom pixel on row `bottom`.
pub open spec fn paint_column(s: Seq<u32>, bw: int, x: int, bottom: int, n: nat, color: u32) -> Seq<u32>
    decreases n,
{
    if n == 0 {
        s
    } else {
        let t = paint_column(s, bw, x, bottom, (n - 1) as nat, color);
        let idx = (bottom - (n - 1)) * bw + x;
        if 0 <= idx < t.len() { t.update(idx, add_blend(t[idx], color)) } else { t }
    }
}

/// The buffer after drawing the bars of the first `n` histogram entries
/// into the panel: bar `i` stands at column `px + i * pw / 256`.
pub open spec fn paint_histogram(
    s: Seq<u32>, bw: usize, hist: Seq<u32>, max: u32, px: usize, py: usize, pw: usize, ph: usize,
    color: u32, n: nat,
) -> Seq<u32>
    decreases n,
{
    if n == 0 {
        s
    } else {
        let t = paint_histogram(s, bw, hist, max, px, py, pw, ph, color, (n - 1) as nat);
        paint_column(t, bw as int, px + (n - 1) * pw / 256, py + ph - 1,
            bar_height(hist[n - 1], max, ph), color)
    }
}

/// The panel `[px, px + pw) x [py, py + ph)` and everything drawn in it
/// has pixel indices that fit in `usize`.
pub open spec fn panel_fits(bw: usize, px: usize, py: usize, pw: usize, ph: usize) -> bool {
    &&& px + pw <= usize::MAX
    &&& py + ph <= usize::MAX
    &&& 255 * pw <= usize::MAX
    &&& 255 * ph <= usize::MAX
    &&& ph <= u32::MAX
    &&& ph > 0 ==> (py + ph - 1) * bw + px + pw <= usize::MAX
}

proof fn lemma_panel_rect(bw: usize, px: usize, py: usize, pw: usize, ph: usize)
    requires
        panel_fits(bw, px, py, pw, ph),
    ensures
        rect_fits(bw, px, py, pw, ph),
{
}

/// Additive blend of two pixels with shifts and masks.
fn add_blend_pixel(existing: u32, color: u32) -> (r: u32)
    ensures
        r == add_blend(existing, color),
{
    proof {
        lemma_channels(existing);
        lemma_channels(color);
    }
    let er = (existing >> 16) & 0xFF;
    let eg = (existing >> 8) & 0xFF;
    let eb = existing & 0xFF;
    let cr = (color >> 16) & 0xFF;
    let cg = (color >> 8) & 0xFF;
    let cb = color & 0xFF;
    let r = if er + cr < 255 { er + cr } else { 255 };
    let g = if eg + cg < 255 { eg + cg } else { 255 };
    let b = if eb + cb < 255 { eb + cb } else { 255 };
    proof {
        lemma_pack(r, g, b);
    }
    (r << 16) | (g << 8) | b
}

proof fn lemma_bar_fits(count: u32, max: u32, ph: usize)
    requires
        count <= max,
        max >= 1,
        ph <= u32::MAX,
    ensures
        count * ph <= u64::MAX,
        (count * ph) / (max as int) <= ph,
{
    assert(count * ph <= u64::MAX) by (nonlinear_arith)
        requires
            count <= u32::MAX,
            ph <= u32::MAX,
    ;
    assert((count * ph) / (max as int) <= ph) by (nonlinear_arith)
        requires
            count <= max,
            max >= 1,
            ph >= 0,
    ;
}

proof fn lemma_bar_column(i: int, pw: int)
    requires
        0 <= i < 256,
        pw >= 0,
    ensures
        i * pw <= 255 * pw,
        i * pw / 256 <= pw,
        pw > 0 ==> i * pw / 256 < pw,
{
    assert(i * pw <= 255 * pw) by (nonlinear_arith)
        requires
            0 <= i < 256,
            pw >= 0,
    ;
    assert(i * pw / 256 <= pw) by (nonlinear_arith)
        requires
            0 <= i < 256,
            pw >= 0,
    ;
    assert(pw > 0 ==> i * pw / 256 < pw) by (nonlinear_arith)
        requires
            0 <= i < 256,
            pw >= 0,
    ;
}

/// Draws one channel's histogram bars into the panel with additive
/// blending, so that overlapping channels mix.
fn draw_histogram_channel(
    buf: &mut [u32], buf_w: usize,
    hist: &Vec<u32>, max_count: u32,
    px: usize, py: usize, pw: usize, ph: usize,
    color: u32,
)
    requires
        hist@.len() == 256,
        max_count >= 1,
        forall|i: int| 0 <= i < 256 ==> hist@[i] <= max_count,
        panel_fits(buf_w, px, py, pw, ph),
    ensures
        final(buf)@ == paint_histogram(old(buf)@, buf_w, hist@, max_count, px, py, pw, ph, color, 256),
        final(buf)@.len() == old(buf)@.len(),
        forall|k: int| 0 <= k < old(buf)@.len() ==> lanes_le(old(buf)@[k], #[trigger] final(buf)@[k]),
        forall|k: int| 0 <= k < old(buf)@.len() && #[trigger] final(buf)@[k] != old(buf)@[k]
            ==> in_bars(k, buf_w, hist@, max_count, px, py, pw, ph, 256) && final(buf)@[k] < 0x100_0000,
{
    let ghost s0 = buf@;
    proof {
        lemma_histogram_bars_only(s0, buf_w, hist@, max_count, px, py, pw, ph, color, 256);
    }
    let mut i: usize = 0;
    while i < 256
        invariant
            i <= 256,
            hist@.len() == 256,
            max_count >= 1,
            forall|j: int| 0 <= j < 256 ==> hist@[j] <= max_count,
            panel_fits(buf_w, px, py, pw, ph),
            buf@ == paint_histogram(s0, buf_w, hist@, max_count, px, py, pw, ph, color, i as nat),
        decreases 256 - i,
    {
        proof {
            lemma_bar_column(i as int, pw as int);
            lemma_bar_fits(hist@[i as int], max_count, ph);
        }
        let x = px + (i * pw) / 256;
        let bar_h = ((hist[i] as u64 * ph as u64) / max_count as u64) as usize;
        let rows = if bar_h < ph { bar_h } else { ph };
        assert(rows == bar_height(hist@[i as int], max_count, ph));
        let ghost t = buf@;
        let mut row: usize = 0;
        while row < rows
            invariant
                row <= rows,
                rows <= ph,
                x <= px + pw,
                pw > 0 ==> x < px + pw,
                panel_fits(buf_w, px, py, pw, ph),
                buf@ == paint_column(t, buf_w as int, x as int, py + ph - 1, row as nat, color),
            decreases rows - row,
        {
            let y = py + ph - 1 - row;
            proof {
                lemma_mul_mono(y as int, (py + ph - 1) as int, buf_w as int);
            }
            let idx = y * buf_w + x;
            if idx < buf.len() {
                let blended = add_blend_pixel(buf[idx], color);
                buf[idx] = blended;
            }
            row = row + 1;
        }
        i = i + 1;
    }
}

/// Histogram bucket counts never exceed the number of samples.
proof fn lemma_row_count_bound(v: Seq<u32>, stride: int, y: int, ncols: nat, c: int, value: int)
    ensures
        row_value_count(v, stride, y, ncols, c, value) <= ncols,
    decreases ncols,
{
    if ncols > 0 {
        lemma_row_count_bound(v, stride, y, (ncols - 1) as nat, c, value);
    }
}

proof fn lemma_count_bound(v: Seq<u32>, stride: int, vw: nat, nrows: nat, c: int, value: int)
    ensures
        value_count(v, stride, vw, nrows, c, value) <= nrows * vw,
    decreases nrows,
{
    if nrows > 0 {
        lemma_count_bound(v, stride, vw, (nrows - 1) as nat, c, value);
        lemma_row_count_bound(v, stride, nrows - 1, vw, c, value);
        assert((nrows - 1) * vw + vw == nrows * vw) by (nonlinear_arith);
    }
}

proof fn lemma_max_prefix_bound(h: Seq<u32>, n: nat, j: int)
    requires
        0 <= j < n,
        n <= h.len(),
    ensures
        h[j] <= max_prefix(h, n),
    decreases n,
{
    if j < n - 1 {
        lemma_max_prefix_bound(h, (n - 1) as nat, j);
    }
}

/// Counts every sampled pixel of the video into the three channel
/// histograms.
fn count_channels(video_buf: &[u32], stride: usize, video_w: usize, video_h: usize) -> (r: (Vec<u32>, Vec<u32>, Vec<u32>))
    requires
        video_w * video_h <= u32::MAX,
        (video_w > 0 && video_h > 0) ==> (video_h - 1) * stride + video_w <= usize::MAX,
    ensures
        r.0@ == channel_histogram(video_buf@, stride, video_w, video_h, 0),
        r.1@ == channel_histogram(video_buf@, stride, video_w, video_h, 1),
        r.2@ == channel_histogram(video_buf@, stride, video_w, video_h, 2),
{
    let mut r_hist: Vec<u32> = Vec::new();
    let mut g_hist: Vec<u32> = Vec::new();
    let mut b_hist: Vec<u32> = Vec::new();
    let mut i: usize = 0;
    while i < 256
        invariant
            i <= 256,
            r_hist@.len() == i,
            g_hist@.len() == i,
            b_hist@.len() == i,
            forall|j: int| 0 <= j < i ==> r_hist@[j] == 0 && g_hist@[j] == 0 && b_hist@[j] == 0,
        decreases 256 - i,
    {
        r_hist.push(0);
        g_hist.push(0);
        b_hist.push(0);
        i = i + 1;
    }
    let ghost v = video_buf@;
    let ghost sw = stride as int;
    let ghost vwn = video_w as nat;
    let mut y: usize = 0;
    while y < video_h
        invariant
            y <= video_h,
            video_w * video_h <= u32::MAX,
            (video_w > 0 && video_h > 0) ==> (video_h - 1) * stride + video_w <= usize::MAX,
            v == video_buf@,
            sw == stride,
            vwn == video_w,
            r_hist@.len() == 256,
            g_hist@.len() == 256,
            b_hist@.len() == 256,
            forall|value: int| 0 <= value < 256 ==> #[trigger] r_hist@[value] == value_count(v, sw, vwn, y as nat, 0, value),
            forall|value: int| 0 <= value < 256 ==> #[trigger] g_hist@[value] == value_count(v, sw, vwn, y as nat, 1, value),
            forall|value: int| 0 <= value < 256 ==> #[trigger] b_hist@[value] == value_count(v, sw, vwn, y as nat, 2, value),
        decreases video_h - y,
    {
        let mut x: usize = 0;
        while x < video_w
            invariant
                y < video_h,
                x <= video_w,
                video_w * video_h <= u32::MAX,
                (video_w > 0 && video_h > 0) ==> (video_h - 1) * stride + video_w <= usize::MAX,
                v == video_buf@,
                sw == stride,
                vwn == video_w,
                r_hist@.len() == 256,
                g_hist@.len() == 256,
                b_hist@.len() == 256,
                forall|value: int| 0 <= value < 256 ==> #[trigger] r_hist@[value] == value_count(v, sw, vwn, y as nat, 0, value)
                    + row_value_count(v, sw, y as int, x as nat, 0, value),
                forall|value: int| 0 <= value < 256 ==> #[trigger] g_hist@[value] == value_count(v, sw, vwn, y as nat, 1, value)
                    + row_value_count(v, sw, y as int, x as nat, 1, value),
                forall|value: int| 0 <= value < 256 ==> #[trigger] b_hist@[value] == value_count(v, sw, vwn, y as nat, 2, value)
                    + row_value_count(v, sw, y as int, x as nat, 2, value),
            decreases video_w - x,
        {
            proof {
                lemma_mul_mono(y as int, (video_h - 1) as int, stride as int);
            }
            let idx = y * stride + x;
            if idx < video_buf.len() {
                let pixel = video_buf[idx];
                proof {
                    lemma_channels(pixel);
                    lemma_sample_bound(v, sw, vwn, video_h as nat, y as nat, x as nat, red(pixel) as int, 0);
                    lemma_sample_bound(v, sw, vwn, video_h as nat, y as nat, x as nat, green(pixel) as int, 1);
                    lemma_sample_bound(v, sw, vwn, video_h as nat, y as nat, x as nat, blue(pixel) as int, 2);
                }
                let rv = ((pixel >> 16) & 0xFF) as usize;
                let gv = ((pixel >> 8) & 0xFF) as usize;
                let bv = (pixel & 0xFF) as usize;
                r_hist[rv] = r_hist[rv] + 1;
                g_hist[gv] = g_hist[gv] + 1;
                b_hist[bv] = b_hist[bv] + 1;
            }
            x = x + 1;
        }
        y = y + 1;
    }
    assert(r_hist@ =~= channel_histogram(video_buf@, stride, video_w, video_h, 0));
    assert(g_hist@ =~= channel_histogram(video_buf@, stride, video_w, video_h, 1));
    assert(b_hist@ =~= channel_histogram(video_buf@, stride, video_w, video_h, 2));
    (r_hist, g_hist, b_hist)
}

/// A bucket count before sample `(x, y)` is below the frame's pixel count.
proof fn lemma_sample_bound(v: Seq<u32>, stride: int, vw: nat, vh: nat, y: nat, x: nat, value: int, c: int)
    requires
        y < vh,
        x < vw,
        vw * vh <= u32::MAX,
    ensures
        value_count(v, stride, vw, y, c, value) + row_value_count(v, stride, y as int, x, c, value) < u32::MAX,
{
    lemma_count_bound(v, stride, vw, y, c, value);
    lemma_row_count_bound(v, stride, y as int, x, c, value);
    assert(y * vw + x < vw * vh) by (nonlinear_arith)
        requires
            y < vh,
            x < vw,
    ;
}

/// The largest bucket of the three histograms, at least 1.
fn max_bucket(r_hist: &Vec<u32>, g_hist: &Vec<u32>, b_hist: &Vec<u32>) -> (m: u32)
    requires
        r_hist@.len() == 256,
        g_hist@.len() == 256,
        b_hist@.len() == 256,
    ensures
        m == max_u32(1, max_u32(max_prefix(r_hist@, 256), max_u32(max_prefix(g_hist@, 256), max_prefix(b_hist@, 256)))),
{
    let mut mr: u32 = 0;
    let mut mg: u32 = 0;
    let mut mb: u32 = 0;
    let mut i: usize = 0;
    while i < 256
        invariant
            i <= 256,
            r_hist@.len() == 256,
            g_hist@.len() == 256,
            b_hist@.len() == 256,
            mr == max_prefix(r_hist@, i as nat),
            mg == max_prefix(g_hist@, i as nat),
            mb == max_prefix(b_hist@, i as nat),
        decreases 256 - i,
    {
        if r_hist[i] > mr { mr = r_hist[i]; }
        if g_hist[i] > mg { mg = g_hist[i]; }
        if b_hist[i] > mb { mb = b_hist[i]; }
        i = i + 1;
    }
    let gb = if mg > mb { mg } else { mb };
    let all = if mr > gb { mr } else { gb };
    if 1 > all { 1 } else { all }
}

/// The largest bucket over the three histograms of a video region, at
/// least 1.
pub open spec fn histogram_scale(v: Seq<u32>, stride: usize, vw: usize, vh: usize) -> u32 {
    max_u32(1, max_u32(max_prefix(channel_histogram(v, stride, vw, vh, 0), 256),
        max_u32(max_prefix(channel_histogram(v, stride, vw, vh, 1), 256),
            max_prefix(channel_histogram(v, stride, vw, vh, 2), 256))))
}

/// More than 2% of the samples sit at channel value `value` in some channel.
pub open spec fn clipped_at(v: Seq<u32>, stride: usize, vw: usize, vh: usize, value: int) -> bool {
    let threshold = (vw * vh) / 50;
    ||| channel_histogram(v, stride, vw, vh, 0)[value] > threshold
    ||| channel_histogram(v, stride, vw, vh, 1)[value] > threshold
    ||| channel_histogram(v, stride, vw, vh, 2)[value] > threshold
}

/// The framebuffer after drawing the RGB histogram panel: the panel is
/// cleared, the red, green and blue histograms are drawn as additively
/// blended bars scaled to the largest bucket, then a red bar marks the
/// right edge when highlights clip and a blue bar marks the left edge when
/// shadows clip.
pub open spec fn rgb_histogram_panel(
    s: Seq<u32>, bw: usize, v: Seq<u32>, vw: usize, vh: usize,
    px: usize, py: usize, pw: usize, ph: usize,
) -> Seq<u32> {
    let m = histogram_scale(v, bw, vw, vh);
    let cleared = filled(s, bw, px, py, pw, ph, 0x0D0D1Au32);
    let with_r = paint_histogram(cleared, bw, channel_histogram(v, bw, vw, vh, 0), m, px, py, pw, ph, 0xCC0000u32, 256);
    let with_g = paint_histogram(with_r, bw, channel_histogram(v, bw, vw, vh, 1), m, px, py, pw, ph, 0x00CC00u32, 256);
    let with_b = paint_histogram(with_g, bw, channel_histogram(v, bw, vw, vh, 2), m, px, py, pw, ph, 0x0044CCu32, 256);
    let with_over = if clipped_at(v, bw, vw, vh, 255) {
        filled(with_b, bw, (px + pw - 2) as usize, py, 2, ph, 0xFF0000u32)
    } else {
        with_b
    };
    if clipped_at(v, bw, vw, vh, 0) {
        filled(with_over, bw, px, py, 2, ph, 0x0000FFu32)
    } else {
        with_over
    }
}

/// Whether the RGB histogram of a video region shows highlight clipping:
/// more than 2% of the samples at 255 in some channel.
pub fn highlights_clipped(video_buf: &[u32], stride: usize, video_w: usize, video_h: usize) -> (r: bool)
    requires
        video_w * video_h <= u32::MAX,
        (video_w > 0 && video_h > 0) ==> (video_h - 1) * stride + video_w <= usize::MAX,
    ensures
        r == clipped_at(video_buf@, stride, video_w, video_h, 255),
{
    let (r_hist, g_hist, b_hist) = count_channels(video_buf, stride, video_w, video_h);
    let threshold = ((video_w * video_h) as u32) / 50;
    r_hist[255] > threshold || g_hist[255] > threshold || b_hist[255] > threshold
}

/// RGB histogram — count pixel values per channel, draw as overlapping curves.
/// Drawn into a specified region of the framebuffer.
///
/// The video is read with the framebuffer's row stride `buf_w`.
pub fn draw_rgb_histogram(
    buf: &mut [u32], buf_w: usize,
    video_buf: &[u32], video_w: usize, video_h: usize,
    panel_x: usize, panel_y: usize, panel_w: usize, panel_h: usize,
)
    requires
        video_w * video_h <= u32::MAX,
        (video_w > 0 && video_h > 0) ==> (video_h - 1) * buf_w + video_w <= usize::MAX,
        panel_fits(buf_w, panel_x, panel_y, panel_w, panel_h),
        panel_h > 0 ==> (panel_y + panel_h - 1) * buf_w + panel_x + 2 <= usize::MAX,
        (panel_h > 0 && clipped_at(video_buf@, buf_w, video_w, video_h, 255)) ==> panel_x + panel_w >= 2,
    ensures
        final(buf)@ == rgb_histogram_panel(old(buf)@, buf_w, video_buf@, video_w, video_h,
            panel_x, panel_y, panel_w, panel_h),
{
    let ghost s0 = buf@;
    // Count pixel values per channel
    let (r_hist, g_hist, b_hist) = count_channels(video_buf, buf_w, video_w, video_h);
    // Find max for normalization
    let max_count = max_bucket(&r_hist, &g_hist, &b_hist);
    proof {
        assert forall|i: int| 0 <= i < 256 implies r_hist@[i] <= max_count && g_hist@[i] <= max_count
            && b_hist@[i] <= max_count by {
            lemma_max_prefix_bound(r_hist@, 256, i);
            lemma_max_prefix_bound(g_hist@, 256, i);
            lemma_max_prefix_bound(b_hist@, 256, i);
        }
        lemma_panel_rect(buf_w, panel_x, panel_y, panel_w, panel_h);
    }
    // Clear panel area
    fill_rect(buf, buf_w, panel_x, panel_y, panel_w, panel_h, 0x0D0D1A);
    // Draw each channel
    draw_histogram_channel(buf, buf_w, &r_hist, max_count, panel_x, panel_y, panel_w, panel_h, 0xCC0000);
    draw_histogram_channel(buf, buf_w, &g_hist, max_count, panel_x, panel_y, panel_w, panel_h, 0x00CC00);
    draw_histogram_channel(buf, buf_w, &b_hist, max_count, panel_x, panel_y, panel_w, panel_h, 0x0044CC);
    // Draw clipping warnings — red bars at edges if values pile up at 0 or 255
    let total_pixels = (video_w * video_h) as u32;
    let clip_threshold = total_pixels / 50; // >2% is clipping
    assert(clip_threshold == (video_w * video_h) / 50);
    if r_hist[255] > clip_threshold || g_hist[255] > clip_threshold || b_hist[255] > clip_threshold {
        // Highlight right edge (overexposure)
        if panel_h > 0 {
            fill_rect(buf, buf_w, panel_x + panel_w - 2, panel_y, 2, panel_h, 0xFF0000);
        } else {
            let ghost before = buf@;
            assert(buf@ =~= filled(before, buf_w, (panel_x + panel_w - 2) as usize, panel_y, 2, panel_h, 0xFF0000u32));
        }
    }
    if r_hist[0] > clip_threshold || g_hist[0] > clip_threshold || b_hist[0] > clip_threshold {
        // Highlight left edge (underexposure / crushed blacks)
        if panel_h > 0 {
            fill_rect(buf, buf_w, panel_x, panel_y, 2, panel_h, 0x0000FF);
        } else {
            let ghost before = buf@;
            assert(buf@ =~= filled(before, buf_w, panel_x, panel_y, 2, panel_h, 0x0000FFu32));
        }
    }
}

/// Whether buffer index `k` lies on a dotted reference line at panel row
/// `row`: the row is inside the buffer, the column is in
/// `[px, px + pw)` and a multiple of four.
pub open spec fn on_reference_line(k: int, len: int, bw: int, px: int, pw: int, row: int) -> bool {
    &&& row < len / bw
    &&& px <= k - row * bw < px + pw
    &&& (k - row * bw) % 4 == 0
}

/// Panel row of the reference line for luma `level` (0 at the bottom edge).
pub open spec fn reference_row(py: usize, ph: usize, level: int) -> int {
    py + ph - level * ph / 256
}

/// The buffer with the 0 IRE (luma 16) and 100 IRE (luma 235) reference
/// lines drawn.
pub open spec fn reference_lines(s: Seq<u32>, bw: usize, px: usize, py: usize, pw: usize, ph: usize) -> Seq<u32> {
    Seq::new(s.len(), |k: int|
        if on_reference_line(k, s.len() as int, bw as int, px as int, pw as int, reference_row(py, ph, 16))
            || on_reference_line(k, s.len() as int, bw as int, px as int, pw as int, reference_row(py, ph, 235)) {
            0x333344u32
        } else {
            s[k]
        })
}

/// One waveform sample: the luma of video pixel (`src_col`, `row`) raises
/// the brightness of the plot point in panel column `col` by 20, capped at
/// 255, drawing it gray.
pub open spec fn density_step(
    t: Seq<u32>, bw: usize, v: Seq<u32>, vw: usize, px: usize, py: usize, pw: usize, ph: usize,
    col: int, row: int,
) -> Seq<u32> {
    let src_idx = row * bw + col * vw / (pw as int);
    if 0 <= src_idx < v.len() {
        let l = luma601(v[src_idx]);
        let plot_y = py + ph - 1 - l * (ph - 1) / 255;
        let plot_x = px + col;
        if plot_y < (t.len() as int) / (bw as int) && plot_x < bw {
            let idx = plot_y * bw + plot_x;
            let nv = min_u32((t[idx] % 256 + 20) as u32, 255);
            t.update(idx, rgb(nv, nv, nv))
        } else {
            t
        }
    } else {
        t
    }
}

/// The samples of panel column `col` from video row `row` on, every
/// `step`-th row.
pub open spec fn density_rows(
    t: Seq<u32>, bw: usize, v: Seq<u32>, vw: usize, vh: usize, px: usize, py: usize, pw: usize, ph: usize,
    step: usize, col: int, row: int,
) -> Seq<u32>
    decreases vh + step - row,
{
    if row < vh && step > 0 {
        density_rows(density_step(t, bw, v, vw, px, py, pw, ph, col, row), bw, v, vw, vh, px, py, pw, ph, step, col, row + step)
    } else {
        t
    }
}

/// The samples of panel columns `[col, ncols)`.
pub open spec fn density_columns(
    t: Seq<u32>, bw: usize, v: Seq<u32>, vw: usize, vh: usize, px: usize, py: usize, pw: usize, ph: usize,
    step: usize, col: int, ncols: int,
) -> Seq<u32>
    decreases ncols - col,
{
    if col < ncols {
        density_columns(density_rows(t, bw, v, vw, vh, px, py, pw, ph, step, col, 0), bw, v, vw, vh, px, py, pw, ph, step, col + 1, ncols)
    } else {
        t
    }
}

/// The waveform color for a luma level: red above 235, yellow above 200,
/// blue below 16, green otherwise.
pub open spec fn level_color(level: int) -> u32 {
    if level > 235 {
        0xFF3333u32
    } else if level > 200 {
        0xFFCC00u32
    } else if level < 16 {
        0x3333FFu32
    } else {
        0x00FF66u32
    }
}

/// Colorizing one panel pixel: a pixel with brightness 2 or more takes the
/// color of its row's luma level, scaled by its brightness.
pub open spec fn colorize_step(t: Seq<u32>, bw: usize, py: usize, ph: usize, x: int, y: int) -> Seq<u32> {
    let idx = y * bw + x;
    if 0 <= idx < t.len() && t[idx] % 256 >= 2 {
        let level = 255 - (y - py) * 255 / (ph as int);
        t.update(idx, blend(level_color(level), t[idx] % 256))
    } else {
        t
    }
}

/// Colorizing columns `[x, px + pw)` of panel row `y`.
pub open spec fn colorize_row(t: Seq<u32>, bw: usize, px: usize, py: usize, pw: usize, ph: usize, x: int, y: int) -> Seq<u32>
    decreases px + pw - x,
{
    if x < px + pw {
        colorize_row(colorize_step(t, bw, py, ph, x, y), bw, px, py, pw, ph, x + 1, y)
    } else {
        t
    }
}

/// Colorizing panel rows `[y, py + ph)`.
pub open spec fn colorize_rows(t: Seq<u32>, bw: usize, px: usize, py: usize, pw: usize, ph: usize, y: int) -> Seq<u32>
    decreases py + ph - y,
{
    if y < py + ph {
        colorize_rows(colorize_row(t, bw, px, py, pw, ph, px as int, y), bw, px, py, pw, ph, y + 1)
    } else {
        t
    }
}

/// Rows of the video sampled per column: every `max(vh / 64, 1)`-th row.
pub open spec fn waveform_row_step(vh: usize) -> usize {
    if vh / 64 > 1 { (vh / 64) as usize } else { 1 }
}

/// The framebuffer after drawing the waveform panel: the panel is cleared,
/// the reference lines are drawn, every sampled luma value brightens its
/// plot point, and the lit points are colored by luma level.
pub open spec fn waveform_panel(
    s: Seq<u32>, bw: usize, v: Seq<u32>, vw: usize, vh: usize,
    px: usize, py: usize, pw: usize, ph: usize,
) -> Seq<u32> {
    let cleared = filled(s, bw, px, py, pw, ph, 0x0D0D1Au32);
    let lined = reference_lines(cleared, bw, px, py, pw, ph);
    let ncols = if pw < vw { pw } else { vw };
    let plotted = density_columns(lined, bw, v, vw, vh, px, py, pw, ph, waveform_row_step(vh), 0, ncols as int);
    colorize_rows(plotted, bw, px, py, pw, ph, py as int)
}

proof fn lemma_div_mul_le(len: int, bw: int, row: int, x: int)
    requires
        bw > 0,
        0 <= row < len / bw,
        0 <= x < bw,
        len >= 0,
    ensures
        row * bw + x < len,
{
    assert(row * bw + x < len) by (nonlinear_arith)
        requires
            bw > 0,
            0 <= row < len / bw,
            0 <= x < bw,
            len >= 0,
    {
        assert((len / bw) * bw <= len) by (nonlinear_arith)
            requires
                bw > 0,
                len >= 0,
        ;
        assert(row * bw + bw <= (len / bw) * bw) by (nonlinear_arith)
            requires
                bw > 0,
                0 <= row < len / bw,
        ;
    }
}

/// Draws both reference lines.
fn draw_reference_lines(buf: &mut [u32], buf_w: usize, panel_x: usize, panel_y: usize, panel_w: usize, panel_h: usize)
    requires
        panel_fits(buf_w, panel_x, panel_y, panel_w, panel_h),
        panel_w > 0 ==> buf_w > 0,
        (panel_y + panel_h) * buf_w + panel_x + panel_w <= usize::MAX,
    ensures
        final(buf)@ == reference_lines(old(buf)@, buf_w, panel_x, panel_y, panel_w, panel_h),
{
    let ghost s0 = buf@;
    let ghost len = s0.len() as int;
    // Draw reference lines at 0 IRE (16), 100 IRE (235)
    let ire_0_y = panel_y + panel_h - (16 * panel_h / 256);
    let ire_100_y = panel_y + panel_h - (235 * panel_h / 256);
    let ghost r0 = reference_row(panel_y, panel_h, 16);
    let ghost r100 = reference_row(panel_y, panel_h, 235);
    assert(ire_0_y == r0 && ire_100_y == r100);
    let mut x = panel_x;
    while x < panel_x + panel_w
        invariant
            panel_x <= x <= panel_x + panel_w,
            panel_w > 0 ==> buf_w > 0,
            ire_0_y <= panel_y + panel_h,
            ire_100_y <= panel_y + panel_h,
            (panel_y + panel_h) * buf_w + panel_x + panel_w <= usize::MAX,
            ire_0_y == r0,
            ire_100_y == r100,
            len == s0.len(),
            buf@.len() == s0.len(),
            forall|k: int| 0 <= k < len ==> #[trigger] buf@[k] == if (on_reference_line(k, len, buf_w as int, panel_x as int, x - panel_x, r0)
                || on_reference_line(k, len, buf_w as int, panel_x as int, x - panel_x, r100)) { 0x333344u32 } else { s0[k] },
        decreases panel_x + panel_w - x,
    {
        proof {
            lemma_mul_mono(ire_0_y as int, (panel_y + panel_h) as int, buf_w as int);
            lemma_mul_mono(ire_100_y as int, (panel_y + panel_h) as int, buf_w as int);
        }
        if ire_0_y < buf.len() / buf_w {
            let idx = ire_0_y * buf_w + x;
            if idx < buf.len() && x % 4 == 0 {
                buf[idx] = 0x333344;
            }
        }
        if ire_100_y < buf.len() / buf_w {
            let idx = ire_100_y * buf_w + x;
            if idx < buf.len() && x % 4 == 0 {
                buf[idx] = 0x333344;
            }
        }
        x = x + 1;
    }
    assert(buf@ =~= reference_lines(s0, buf_w, panel_x, panel_y, panel_w, panel_h));
}

/// The video region's sampled indices and the plot arithmetic fit in
/// `usize`, and a panel that receives samples has a height.
pub open spec fn waveform_fits(
    bw: usize, vlen: nat, vw: usize, vh: usize, px: usize, py: usize, pw: usize, ph: usize,
) -> bool {
    &&& panel_fits(bw, px, py, pw, ph)
    &&& pw > 0 ==> bw > 0
    &&& (py + ph) * bw + px + pw <= usize::MAX
    &&& (if pw < vw { pw } else { vw }) * vw <= usize::MAX
    &&& (vw > 0 && vh > 0) ==> (vh - 1) * bw + vw <= usize::MAX
    &&& (pw > 0 && vw > 0 && vh > 0 && vlen > 0) ==> ph > 0
}

proof fn lemma_source_column(col: int, vw: int, pw: int, ncols: int)
    requires
        0 <= col < ncols,
        ncols <= pw,
        ncols <= vw,
        ncols * vw <= usize::MAX,
    ensures
        col * vw <= usize::MAX,
        col * vw / pw < vw,
{
    assert(col * vw <= ncols * vw) by (nonlinear_arith)
        requires
            0 <= col < ncols,
            vw >= 0,
    ;
    assert(col * vw / pw < vw) by (nonlinear_arith)
        requires
            0 <= col < pw,
            vw > 0,
    ;
}

proof fn lemma_plot_row(l: int, ph: int)
    requires
        0 <= l <= 255,
        ph >= 1,
        255 * ph <= usize::MAX,
    ensures
        l * (ph - 1) <= 255 * ph,
        l * (ph - 1) / 255 <= ph - 1,
{
    assert(l * (ph - 1) <= 255 * (ph - 1)) by (nonlinear_arith)
        requires
            0 <= l <= 255,
            ph >= 1,
    ;
    assert(l * (ph - 1) / 255 <= ph - 1) by (nonlinear_arith)
        requires
            0 <= l <= 255,
            ph >= 1,
    ;
}

/// One waveform sample, as `density_step` describes it.
fn plot_sample(
    buf: &mut [u32], buf_w: usize, video_buf: &[u32], video_w: usize, video_h: usize,
    panel_x: usize, panel_y: usize, panel_w: usize, panel_h: usize, col: usize, ncols: usize, row: usize,
)
    requires
        waveform_fits(buf_w, video_buf@.len(), video_w, video_h, panel_x, panel_y, panel_w, panel_h),
        ncols == (if panel_w < video_w { panel_w } else { video_w }),
        col < ncols,
        row < video_h,
    ensures
        final(buf)@ == density_step(old(buf)@, buf_w, video_buf@, video_w, panel_x, panel_y, panel_w, panel_h,
            col as int, row as int),
{
    proof {
        lemma_source_column(col as int, video_w as int, panel_w as int, ncols as int);
        lemma_mul_mono(row as int, (video_h - 1) as int, buf_w as int);
    }
    let src_col = col * video_w / panel_w;
    let src_idx = row * buf_w + src_col;
    if src_idx < video_buf.len() {
        let pixel = video_buf[src_idx];
        proof {
            lemma_channels(pixel);
            lemma_luma601_bound(pixel);
        }
        let r = (pixel >> 16) & 0xFF;
        let g = (pixel >> 8) & 0xFF;
        let b = pixel & 0xFF;
        let luma = (r * 54 + g * 183 + b * 19) / 256;
        proof {
            lemma_plot_row(luma as int, panel_h as int);
        }
        let plot_y = panel_y + panel_h - 1 - (luma as usize * (panel_h - 1) / 255);
        let plot_x = panel_x + col;
        if plot_y < buf.len() / buf_w && plot_x < buf_w {
            proof {
                lemma_div_mul_le(buf@.len() as int, buf_w as int, plot_y as int, plot_x as int);
            }
            let idx = plot_y * buf_w + plot_x;
            // Accumulate brightness for density display
            let existing = buf[idx] & 0xFF;
            proof {
                lemma_channels(buf@[idx as int]);
            }
            let new_val = if existing + 20 < 255 { existing + 20 } else { 255 };
            proof {
                lemma_pack(new_val, new_val, new_val);
            }
            buf[idx] = (new_val << 16) | (new_val << 8) | new_val;
        }
    }
}

/// Plots every sampled luma value of the video into the waveform panel.
fn plot_density(
    buf: &mut [u32], buf_w: usize, video_buf: &[u32], video_w: usize, video_h: usize,
    panel_x: usize, panel_y: usize, panel_w: usize, panel_h: usize,
)
    requires
        waveform_fits(buf_w, video_buf@.len(), video_w, video_h, panel_x, panel_y, panel_w, panel_h),
    ensures
        final(buf)@ == density_columns(old(buf)@, buf_w, video_buf@, video_w, video_h, panel_x, panel_y, panel_w,
            panel_h, waveform_row_step(video_h), 0,
            (if panel_w < video_w { panel_w } else { video_w }) as int),
{
    let ghost s0 = buf@;
    let ncols = if panel_w < video_w { panel_w } else { video_w };
    // Sample every Nth row for performance
    let row_step = if video_h / 64 > 1 { video_h / 64 } else { 1 };
    let ghost target = density_columns(s0, buf_w, video_buf@, video_w, video_h, panel_x, panel_y, panel_w,
        panel_h, row_step, 0, ncols as int);
    let mut col: usize = 0;
    while col < ncols
        invariant
            col <= ncols,
            ncols == (if panel_w < video_w { panel_w } else { video_w }),
            row_step == waveform_row_step(video_h),
            waveform_fits(buf_w, video_buf@.len(), video_w, video_h, panel_x, panel_y, panel_w, panel_h),
            density_columns(buf@, buf_w, video_buf@, video_w, video_h, panel_x, panel_y, panel_w, panel_h,
                row_step, col as int, ncols as int) == target,
        decreases ncols - col,
    {
        let mut row: usize = 0;
        while row < video_h
            invariant
                col < ncols,
                row <= video_h,
                ncols == (if panel_w < video_w { panel_w } else { video_w }),
                row_step == waveform_row_step(video_h),
                row_step > 0,
                waveform_fits(buf_w, video_buf@.len(), video_w, video_h, panel_x, panel_y, panel_w, panel_h),
                density_columns(density_rows(buf@, buf_w, video_buf@, video_w, video_h, panel_x, panel_y, panel_w,
                    panel_h, row_step, col as int, row as int), buf_w, video_buf@, video_w, video_h, panel_x,
                    panel_y, panel_w, panel_h, row_step, col + 1, ncols as int) == target,
            decreases video_h - row,
        {
            let ghost before = buf@;
            plot_sample(buf, buf_w, video_buf, video_w, video_h, panel_x, panel_y, panel_w, panel_h, col, ncols, row);
            assert(density_rows(before, buf_w, video_buf@, video_w, video_h, panel_x, panel_y, panel_w, panel_h,
                row_step, col as int, row as int) == density_rows(buf@, buf_w, video_buf@, video_w, video_h, panel_x,
                panel_y, panel_w, panel_h, row_step, col as int, row + row_step));
            if video_h - row > row_step {
                row = row + row_step;
            } else {
                assert(density_rows(buf@, buf_w, video_buf@, video_w, video_h, panel_x,
                    panel_y, panel_w, panel_h, row_step, col as int, row + row_step) == buf@);
                row = video_h;
                assert(density_rows(buf@, buf_w, video_buf@, video_w, video_h, panel_x,
                    panel_y, panel_w, panel_h, row_step, col as int, row as int) == buf@);
            }
        }
        col = col + 1;
    }
}

proof fn lemma_level(y: int, py: int, ph: int)
    requires
        py <= y < py + ph,
        255 * ph <= usize::MAX,
    ensures
        (y - py) * 255 <= 255 * ph,
        (y - py) * 255 / ph <= 255,
{
    assert((y - py) * 255 <= 255 * ph) by (nonlinear_arith)
        requires
            0 <= y - py < ph,
    ;
    assert((y - py) * 255 / ph <= 255) by (nonlinear_arith)
        requires
            0 <= y - py < ph,
    ;
}

/// Colors one panel pixel, as `colorize_step` describes it.
fn colorize_pixel(buf: &mut [u32], buf_w: usize, panel_x: usize, panel_y: usize, panel_w: usize, panel_h: usize, x: usize, y: usize)
    requires
        panel_fits(buf_w, panel_x, panel_y, panel_w, panel_h),
        panel_x <= x < panel_x + panel_w,
        panel_y <= y < panel_y + panel_h,
    ensures
        final(buf)@ == colorize_step(old(buf)@, buf_w, panel_y, panel_h, x as int, y as int),
{
    proof {
        lemma_mul_mono(y as int, (panel_y + panel_h - 1) as int, buf_w as int);
    }
    let idx = y * buf_w + x;
    if idx < buf.len() {
        proof {
            lemma_channels(buf@[idx as int]);
        }
        let brightness = buf[idx] & 0xFF;
        if brightness >= 2 {
            proof {
                lemma_level(y as int, panel_y as int, panel_h as int);
            }
            let luma_level = 255 - ((y - panel_y) * 255 / panel_h);
            let base = if luma_level > 235 {
                0xFF3333  // Red — overexposed
            } else if luma_level > 200 {
                0xFFCC00  // Yellow — hot
            } else if luma_level < 16 {
                0x3333FF  // Blue — crushed
            } else {
                0x00FF66  // Green — safe
            };
            let color = blend_color(base, brightness);
            buf[idx] = color;
        }
    }
}

/// Colors the lit waveform points by luma level.
fn colorize_panel(buf: &mut [u32], buf_w: usize, panel_x: usize, panel_y: usize, panel_w: usize, panel_h: usize)
    requires
        panel_fits(buf_w, panel_x, panel_y, panel_w, panel_h),
    ensures
        final(buf)@ == colorize_rows(old(buf)@, buf_w, panel_x, panel_y, panel_w, panel_h, panel_y as int),
{
    let ghost target = colorize_rows(buf@, buf_w, panel_x, panel_y, panel_w, panel_h, panel_y as int);
    let mut y = panel_y;
    while y < panel_y + panel_h
        invariant
            panel_y <= y <= panel_y + panel_h,
            panel_fits(buf_w, panel_x, panel_y, panel_w, panel_h),
            colorize_rows(buf@, buf_w, panel_x, panel_y, panel_w, panel_h, y as int) == target,
        decreases panel_y + panel_h - y,
    {
        let mut x = panel_x;
        while x < panel_x + panel_w
            invariant
                panel_y <= y < panel_y + panel_h,
                panel_x <= x <= panel_x + panel_w,
                panel_fits(buf_w, panel_x, panel_y, panel_w, panel_h),
                colorize_rows(colorize_row(buf@, buf_w, panel_x, panel_y, panel_w, panel_h, x as int, y as int),
                    buf_w, panel_x, panel_y, panel_w, panel_h, y + 1) == target,
            decreases panel_x + panel_w - x,
        {
            colorize_pixel(buf, buf_w, panel_x, panel_y, panel_w, panel_h, x, y);
            x = x + 1;
        }
        y = y + 1;
    }
}

/// Waveform monitor — plots luma distribution per column.
/// Each column of the video maps to a column of the waveform.
/// Vertical axis = luma 0 (bottom) to 255 (top).
///
/// The video is read with the framebuffer's row stride `buf_w`.
pub fn draw_waveform(
    buf: &mut [u32], buf_w: usize,
    video_buf: &[u32], video_w: usize, video_h: usize,
    panel_x: usize, panel_y: usize, panel_w: usize, panel_h: usize,
)
    requires
        waveform_fits(buf_w, video_buf@.len(), video_w, video_h, panel_x, panel_y, panel_w, panel_h),
    ensures
        final(buf)@ == waveform_panel(old(buf)@, buf_w, video_buf@, video_w, video_h,
            panel_x, panel_y, panel_w, panel_h),
{
    proof {
        lemma_panel_rect(buf_w, panel_x, panel_y, panel_w, panel_h);
    }
    // Clear panel
    fill_rect(buf, buf_w, panel_x, panel_y, panel_w, panel_h, 0x0D0D1A);
    draw_reference_lines(buf, buf_w, panel_x, panel_y, panel_w, panel_h);
    // For each video column, sample luma values and plot
    plot_density(buf, buf_w, video_buf, video_w, video_h, panel_x, panel_y, panel_w, panel_h);
    // Colorize: green for safe range, yellow for hot, red for clipping
    colorize_panel(buf, buf_w, panel_x, panel_y, panel_w, panel_h);
}

/// The two buffers have the same length and agree outside the panel
/// `[px, px + pw) x [py, py + ph)`.
pub open spec fn same_outside(s: Seq<u32>, t: Seq<u32>, bw: usize, px: usize, py: usize, pw: usize, ph: usize) -> bool {
    &&& t.len() == s.len()
    &&& forall|k: int| 0 <= k < s.len() && !rect_hit(k, bw as int, px as int, py as int, pw as int, ph as int)
        ==> #[trigger] t[k] == s[k]
}

proof fn lemma_same_outside_trans(
    a: Seq<u32>, b: Seq<u32>, c: Seq<u32>, bw: usize, px: usize, py: usize, pw: usize, ph: usize,
)
    requires
        same_outside(a, b, bw, px, py, pw, ph),
        same_outside(b, c, bw, px, py, pw, ph),
    ensures
        same_outside(a, c, bw, px, py, pw, ph),
{
    assert forall|k: int| 0 <= k < a.len() && !rect_hit(k, bw as int, px as int, py as int, pw as int, ph as int)
        implies #[trigger] c[k] == a[k] by {
        assert(c[k] == b[k]);
    }
}

/// A pixel at a panel row and panel column is inside the panel.
proof fn lemma_in_panel(k: int, bw: usize, px: usize, py: usize, pw: usize, ph: usize, row: int)
    requires
        py <= row < py + ph,
        px <= k - row * bw < px + pw,
    ensures
        rect_hit(k, bw as int, px as int, py as int, pw as int, ph as int),
{
    assert(row_hit(k, bw as int, px as int, pw as int, row));
}

/// Filling a rectangle inside the panel leaves the rest of the buffer.
proof fn lemma_filled_inside(
    s: Seq<u32>, bw: usize, x: usize, y: usize, w: usize, h: usize, color: u32,
    px: usize, py: usize, pw: usize, ph: usize,
)
    requires
        w > 0 && h > 0 ==> px <= x && x + w <= px + pw && py <= y && y + h <= py + ph,
    ensures
        same_outside(s, filled(s, bw, x, y, w, h, color), bw, px, py, pw, ph),
{
    let t = filled(s, bw, x, y, w, h, color);
    assert forall|k: int| 0 <= k < s.len() && !rect_hit(k, bw as int, px as int, py as int, pw as int, ph as int)
        implies #[trigger] t[k] == s[k] by {
        if rect_hit(k, bw as int, x as int, y as int, w as int, h as int) {
            let row = choose|row: int| y <= row < y + h && #[trigger] row_hit(k, bw as int, x as int, w as int, row);
            lemma_in_panel(k, bw, px, py, pw, ph, row);
        }
    }
}

proof fn lemma_paint_column_inside(
    s: Seq<u32>, bw: usize, x: int, bottom: int, n: nat, color: u32,
    px: usize, py: usize, pw: usize, ph: usize,
)
    requires
        n > 0 ==> px <= x < px + pw && py <= bottom - n + 1 && bottom < py + ph,
    ensures
        same_outside(s, paint_column(s, bw as int, x, bottom, n, color), bw, px, py, pw, ph),
    decreases n,
{
    if n > 0 {
        lemma_paint_column_inside(s, bw, x, bottom, (n - 1) as nat, color, px, py, pw, ph);
        let t = paint_column(s, bw as int, x, bottom, (n - 1) as nat, color);
        let idx = (bottom - (n - 1)) * bw + x;
        if 0 <= idx < t.len() {
            lemma_in_panel(idx, bw, px, py, pw, ph, bottom - (n - 1));
            let u = t.update(idx, add_blend(t[idx], color));
            assert(same_outside(t, u, bw, px, py, pw, ph));
            lemma_same_outside_trans(s, t, u, bw, px, py, pw, ph);
        }
    }
}

proof fn lemma_bar_height_bound(count: u32, max: u32, ph: usize)
    requires
        max >= 1,
    ensures
        bar_height(count, max, ph) <= ph,
{
    assert((count * ph) / (max as int) >= 0) by (nonlinear_arith)
        requires
            max >= 1,
            count >= 0,
            ph >= 0,
    ;
}

proof fn lemma_paint_histogram_inside(
    s: Seq<u32>, bw: usize, hist: Seq<u32>, max: u32, px: usize, py: usize, pw: usize, ph: usize,
    color: u32, n: nat,
)
    requires
        n <= 256,
        max >= 1,
        pw > 0 || ph == 0,
    ensures
        same_outside(s, paint_histogram(s, bw, hist, max, px, py, pw, ph, color, n), bw, px, py, pw, ph),
    decreases n,
{
    if n > 0 {
        lemma_paint_histogram_inside(s, bw, hist, max, px, py, pw, ph, color, (n - 1) as nat);
        let t = paint_histogram(s, bw, hist, max, px, py, pw, ph, color, (n - 1) as nat);
        let x = px + (n - 1) * pw / 256;
        let height = bar_height(hist[n - 1], max, ph);
        lemma_bar_height_bound(hist[n - 1], max, ph);
        lemma_bar_column(n - 1, pw as int);
        lemma_paint_column_inside(t, bw, x, py + ph - 1, height, color, px, py, pw, ph);
        lemma_same_outside_trans(s, t, paint_column(t, bw as int, x, py + ph - 1, height, color), bw, px, py, pw, ph);
    }
}

/// The RGB histogram draws only inside its panel: every pixel outside the
/// panel keeps its value. (A panel narrower than the two-pixel clipping
/// markers, with clipping shown, has them spill past its edge.)
pub proof fn lemma_histogram_stays_in_panel(
    s: Seq<u32>, bw: usize, v: Seq<u32>, vw: usize, vh: usize,
    px: usize, py: usize, pw: usize, ph: usize,
)
    requires
        px + pw <= usize::MAX,
        pw >= 2 || ph == 0 || (pw == 1 && !clipped_at(v, bw, vw, vh, 255) && !clipped_at(v, bw, vw, vh, 0)),
    ensures
        same_outside(s, rgb_histogram_panel(s, bw, v, vw, vh, px, py, pw, ph), bw, px, py, pw, ph),
{
    let m = histogram_scale(v, bw, vw, vh);
    let cleared = filled(s, bw, px, py, pw, ph, 0x0D0D1Au32);
    lemma_filled_inside(s, bw, px, py, pw, ph, 0x0D0D1Au32, px, py, pw, ph);
    let with_r = paint_histogram(cleared, bw, channel_histogram(v, bw, vw, vh, 0), m, px, py, pw, ph, 0xCC0000u32, 256);
    let with_g = paint_histogram(with_r, bw, channel_histogram(v, bw, vw, vh, 1), m, px, py, pw, ph, 0x00CC00u32, 256);
    let with_b = paint_histogram(with_g, bw, channel_histogram(v, bw, vw, vh, 2), m, px, py, pw, ph, 0x0044CCu32, 256);
    lemma_paint_histogram_inside(cleared, bw, channel_histogram(v, bw, vw, vh, 0), m, px, py, pw, ph, 0xCC0000u32, 256);
    lemma_paint_histogram_inside(with_r, bw, channel_histogram(v, bw, vw, vh, 1), m, px, py, pw, ph, 0x00CC00u32, 256);
    lemma_paint_histogram_inside(with_g, bw, channel_histogram(v, bw, vw, vh, 2), m, px, py, pw, ph, 0x0044CCu32, 256);
    lemma_same_outside_trans(s, cleared, with_r, bw, px, py, pw, ph);
    lemma_same_outside_trans(s, with_r, with_g, bw, px, py, pw, ph);
    lemma_same_outside_trans(s, with_g, with_b, bw, px, py, pw, ph);
    let with_over = if clipped_at(v, bw, vw, vh, 255) {
        filled(with_b, bw, (px + pw - 2) as usize, py, 2, ph, 0xFF0000u32)
    } else {
        with_b
    };
    if clipped_at(v, bw, vw, vh, 255) {
        lemma_filled_inside(with_b, bw, (px + pw - 2) as usize, py, 2, ph, 0xFF0000u32, px, py, pw, ph);
        lemma_same_outside_trans(s, with_b, with_over, bw, px, py, pw, ph);
    }
    if clipped_at(v, bw, vw, vh, 0) {
        lemma_filled_inside(with_over, bw, px, py, 2, ph, 0x0000FFu32, px, py, pw, ph);
        lemma_same_outside_trans(s, with_over, filled(with_over, bw, px, py, 2, ph, 0x0000FFu32), bw, px, py, pw, ph);
    }
}

proof fn lemma_reference_row_inside(py: usize, ph: usize, level: int)
    requires
        ph >= 16,
        16 <= level <= 235,
    ensures
        py <= reference_row(py, ph, level) < py + ph,
{
    assert(1 <= level * ph / 256 <= ph) by (nonlinear_arith)
        requires
            ph >= 16,
            16 <= level <= 235,
    ;
}

proof fn lemma_reference_lines_inside(s: Seq<u32>, bw: usize, px: usize, py: usize, pw: usize, ph: usize)
    requires
        ph >= 16,
    ensures
        same_outside(s, reference_lines(s, bw, px, py, pw, ph), bw, px, py, pw, ph),
{
    lemma_reference_row_inside(py, ph, 16);
    lemma_reference_row_inside(py, ph, 235);
    let t = reference_lines(s, bw, px, py, pw, ph);
    assert forall|k: int| 0 <= k < s.len() && !rect_hit(k, bw as int, px as int, py as int, pw as int, ph as int)
        implies #[trigger] t[k] == s[k] by {
        if on_reference_line(k, s.len() as int, bw as int, px as int, pw as int, reference_row(py, ph, 16)) {
            lemma_in_panel(k, bw, px, py, pw, ph, reference_row(py, ph, 16));
        }
        if on_reference_line(k, s.len() as int, bw as int, px as int, pw as int, reference_row(py, ph, 235)) {
            lemma_in_panel(k, bw, px, py, pw, ph, reference_row(py, ph, 235));
        }
    }
}

proof fn lemma_density_step_inside(
    t: Seq<u32>, bw: usize, v: Seq<u32>, vw: usize, px: usize, py: usize, pw: usize, ph: usize,
    col: int, row: int,
)
    requires
        0 <= col < pw,
        ph >= 1,
    ensures
        same_outside(t, density_step(t, bw, v, vw, px, py, pw, ph, col, row), bw, px, py, pw, ph),
{
    let src_idx = row * bw + col * vw / (pw as int);
    if 0 <= src_idx < v.len() {
        let l = luma601(v[src_idx]);
        lemma_luma601_bound(v[src_idx]);
        assert(l * (ph - 1) / 255 <= ph - 1 && l * (ph - 1) / 255 >= 0) by (nonlinear_arith)
            requires
                0 <= l <= 255,
                ph >= 1,
        ;
        let plot_y = py + ph - 1 - l * (ph - 1) / 255;
        let plot_x = px + col;
        if plot_y < (t.len() as int) / (bw as int) && plot_x < bw {
            let idx = plot_y * bw + plot_x;
            lemma_div_mul_le(t.len() as int, bw as int, plot_y, plot_x as int);
            lemma_in_panel(idx, bw, px, py, pw, ph, plot_y);
            let nv = min_u32((t[idx] % 256 + 20) as u32, 255);
            assert(same_outside(t, t.update(idx, rgb(nv, nv, nv)), bw, px, py, pw, ph));
        }
    }
}

proof fn lemma_density_rows_inside(
    t: Seq<u32>, bw: usize, v: Seq<u32>, vw: usize, vh: usize, px: usize, py: usize, pw: usize, ph: usize,
    step: usize, col: int, row: int,
)
    requires
        0 <= col < pw,
        ph >= 1,
    ensures
        same_outside(t, density_rows(t, bw, v, vw, vh, px, py, pw, ph, step, col, row), bw, px, py, pw, ph),
    decreases vh + step - row,
{
    if row < vh && step > 0 {
        let u = density_step(t, bw, v, vw, px, py, pw, ph, col, row);
        lemma_density_step_inside(t, bw, v, vw, px, py, pw, ph, col, row);
        lemma_density_rows_inside(u, bw, v, vw, vh, px, py, pw, ph, step, col, row + step);
        lemma_same_outside_trans(t, u, density_rows(u, bw, v, vw, vh, px, py, pw, ph, step, col, row + step),
            bw, px, py, pw, ph);
    }
}

proof fn lemma_density_columns_inside(
    t: Seq<u32>, bw: usize, v: Seq<u32>, vw: usize, vh: usize, px: usize, py: usize, pw: usize, ph: usize,
    step: usize, col: int, ncols: int,
)
    requires
        0 <= col,
        ncols <= pw,
        ph >= 1,
    ensures
        same_outside(t, density_columns(t, bw, v, vw, vh, px, py, pw, ph, step, col, ncols), bw, px, py, pw, ph),
    decreases ncols - col,
{
    if col < ncols {
        let u = density_rows(t, bw, v, vw, vh, px, py, pw, ph, step, col, 0);
        lemma_density_rows_inside(t, bw, v, vw, vh, px, py, pw, ph, step, col, 0);
        lemma_density_columns_inside(u, bw, v, vw, vh, px, py, pw, ph, step, col + 1, ncols);
        lemma_same_outside_trans(t, u, density_columns(u, bw, v, vw, vh, px, py, pw, ph, step, col + 1, ncols),
            bw, px, py, pw, ph);
    }
}

proof fn lemma_colorize_row_inside(
    t: Seq<u32>, bw: usize, px: usize, py: usize, pw: usize, ph: usize, x: int, y: int,
)
    requires
        px <= x,
        py <= y < py + ph,
    ensures
        same_outside(t, colorize_row(t, bw, px, py, pw, ph, x, y), bw, px, py, pw, ph),
    decreases px + pw - x,
{
    if x < px + pw {
        let u = colorize_step(t, bw, py, ph, x, y);
        let idx = y * bw + x;
        if 0 <= idx < t.len() {
            lemma_in_panel(idx, bw, px, py, pw, ph, y);
        }
        assert(same_outside(t, u, bw, px, py, pw, ph));
        lemma_colorize_row_inside(u, bw, px, py, pw, ph, x + 1, y);
        lemma_same_outside_trans(t, u, colorize_row(u, bw, px, py, pw, ph, x + 1, y), bw, px, py, pw, ph);
    }
}

proof fn lemma_colorize_rows_inside(t: Seq<u32>, bw: usize, px: usize, py: usize, pw: usize, ph: usize, y: int)
    requires
        py <= y,
    ensures
        same_outside(t, colorize_rows(t, bw, px, py, pw, ph, y), bw, px, py, pw, ph),
    decreases py + ph - y,
{
    if y < py + ph {
        let u = colorize_row(t, bw, px, py, pw, ph, px as int, y);
        lemma_colorize_row_inside(t, bw, px, py, pw, ph, px as int, y);
        lemma_colorize_rows_inside(u, bw, px, py, pw, ph, y + 1);
        lemma_same_outside_trans(t, u, colorize_rows(u, bw, px, py, pw, ph, y + 1), bw, px, py, pw, ph);
    }
}

/// The waveform monitor draws only inside its panel: every pixel outside
/// the panel keeps its value. (In a panel under 16 rows high the 0 IRE
/// reference line falls on the row just below it.)
pub proof fn lemma_waveform_stays_in_panel(
    s: Seq<u32>, bw: usize, v: Seq<u32>, vw: usize, vh: usize,
    px: usize, py: usize, pw: usize, ph: usize,
)
    requires
        pw == 0 || ph >= 16,
    ensures
        same_outside(s, waveform_panel(s, bw, v, vw, vh, px, py, pw, ph), bw, px, py, pw, ph),
{
    let cleared = filled(s, bw, px, py, pw, ph, 0x0D0D1Au32);
    lemma_filled_inside(s, bw, px, py, pw, ph, 0x0D0D1Au32, px, py, pw, ph);
    let lined = reference_lines(cleared, bw, px, py, pw, ph);
    let ncols = if pw < vw { pw } else { vw };
    let plotted = density_columns(lined, bw, v, vw, vh, px, py, pw, ph, waveform_row_step(vh), 0, ncols as int);
    if pw == 0 {
        assert(lined =~= cleared);
        assert(plotted == lined);
    } else {
        lemma_reference_lines_inside(cleared, bw, px, py, pw, ph);
        lemma_density_columns_inside(lined, bw, v, vw, vh, px, py, pw, ph, waveform_row_step(vh), 0, ncols as int);
    }
    lemma_same_outside_trans(s, cleared, lined, bw, px, py, pw, ph);
    lemma_same_outside_trans(s, lined, plotted, bw, px, py, pw, ph);
    lemma_colorize_rows_inside(plotted, bw, px, py, pw, ph, py as int);
    lemma_same_outside_trans(s, plotted, colorize_rows(plotted, bw, px, py, pw, ph, py as int), bw, px, py, pw, ph);
}

/// No channel of `a` is brighter than the same channel of `b`.
pub open spec fn lanes_le(a: u32, b: u32) -> bool {
    red(a) <= red(b) && green(a) <= green(b) && blue(a) <= blue(b)
}

/// Whether buffer index `k` lies in the bar of histogram entry `j`: the
/// one-column rectangle at panel column `px + j * pw / 256` covering the
/// bottom `bar_height` rows of the panel.
pub open spec fn bar_hit(
    k: int, bw: usize, hist: Seq<u32>, max: u32, px: usize, py: usize, pw: usize, ph: usize, j: int,
) -> bool {
    let height = bar_height(hist[j], max, ph);
    rect_hit(k, bw as int, px + j * pw / 256, py + ph - height, 1, height as int)
}

/// Whether buffer index `k` lies in the bar of one of the first `n` entries.
pub open spec fn in_bars(
    k: int, bw: usize, hist: Seq<u32>, max: u32, px: usize, py: usize, pw: usize, ph: usize, n: nat,
) -> bool {
    exists|j: int| 0 <= j < n && #[trigger] bar_hit(k, bw, hist, max, px, py, pw, ph, j)
}

proof fn lemma_add_blend_lanes(p: u32, color: u32)
    ensures
        lanes_le(p, add_blend(p, color)),
        add_blend(p, color) < 0x100_0000,
{
    lemma_channels(p);
    lemma_channels(color);
    lemma_pack(
        min_u32((red(p) + red(color)) as u32, 255),
        min_u32((green(p) + green(color)) as u32, 255),
        min_u32((blue(p) + blue(color)) as u32, 255),
    );
}

/// Painting a column changes only pixels of that column in rows
/// `[bottom - n + 1, bottom]`, brightens every channel it touches and
/// leaves the top byte of each touched pixel zero.
proof fn lemma_paint_column_changes(s: Seq<u32>, bw: int, x: int, bottom: int, n: nat, color: u32)
    ensures
        paint_column(s, bw, x, bottom, n, color).len() == s.len(),
        forall|k: int| 0 <= k < s.len() ==> lanes_le(s[k], #[trigger] paint_column(s, bw, x, bottom, n, color)[k]),
        forall|k: int| 0 <= k < s.len() && #[trigger] paint_column(s, bw, x, bottom, n, color)[k] != s[k]
            ==> rect_hit(k, bw, x, bottom - n + 1, 1, n as int)
                && paint_column(s, bw, x, bottom, n, color)[k] < 0x100_0000,
    decreases n,
{
    if n > 0 {
        lemma_paint_column_changes(s, bw, x, bottom, (n - 1) as nat, color);
        let t = paint_column(s, bw, x, bottom, (n - 1) as nat, color);
        let idx = (bottom - (n - 1)) * bw + x;
        let u = paint_column(s, bw, x, bottom, n, color);
        assert forall|k: int| 0 <= k < s.len() implies lanes_le(s[k], #[trigger] u[k])
            && (u[k] != s[k] ==> rect_hit(k, bw, x, bottom - n + 1, 1, n as int) && u[k] < 0x100_0000) by {
            if 0 <= idx < t.len() && k == idx {
                lemma_add_blend_lanes(t[k], color);
                assert(row_hit(k, bw, x, 1, bottom - (n - 1)));
            } else if t[k] != s[k] {
                assert(rect_hit(k, bw, x, bottom - (n - 1) + 1, 1, (n - 1) as int));
                let row = choose|row: int| bottom - (n - 1) + 1 <= row < bottom - (n - 1) + 1 + (n - 1)
                    && #[trigger] row_hit(k, bw, x, 1, row);
                assert(row_hit(k, bw, x, 1, row));
            }
        }
    }
}

/// Drawing histogram bars changes only pixels inside the bars: every
/// pixel that differs afterwards lies in the bar of one of the drawn
/// entries and has its top byte cleared, and no channel of any pixel gets
/// darker (each bar pixel has the bar color added, channel by channel,
/// capped at 255).
pub proof fn lemma_histogram_bars_only(
    s: Seq<u32>, bw: usize, hist: Seq<u32>, max: u32, px: usize, py: usize, pw: usize, ph: usize,
    color: u32, n: nat,
)
    ensures
        paint_histogram(s, bw, hist, max, px, py, pw, ph, color, n).len() == s.len(),
        forall|k: int| 0 <= k < s.len()
            ==> lanes_le(s[k], #[trigger] paint_histogram(s, bw, hist, max, px, py, pw, ph, color, n)[k]),
        forall|k: int| 0 <= k < s.len() && #[trigger] paint_histogram(s, bw, hist, max, px, py, pw, ph, color, n)[k] != s[k]
            ==> in_bars(k, bw, hist, max, px, py, pw, ph, n)
                && paint_histogram(s, bw, hist, max, px, py, pw, ph, color, n)[k] < 0x100_0000,
    decreases n,
{
    if n > 0 {
        lemma_histogram_bars_only(s, bw, hist, max, px, py, pw, ph, color, (n - 1) as nat);
        let t = paint_histogram(s, bw, hist, max, px, py, pw, ph, color, (n - 1) as nat);
        let x = px + (n - 1) * pw / 256;
        let height = bar_height(hist[n - 1], max, ph);
        lemma_paint_column_changes(t, bw as int, x, py + ph - 1, height, color);
        let u = paint_histogram(s, bw, hist, max, px, py, pw, ph, color, n);
        assert(u == paint_column(t, bw as int, x, py + ph - 1, height, color));
        assert forall|k: int| 0 <= k < s.len() implies lanes_le(s[k], #[trigger] u[k])
            && (u[k] != s[k] ==> in_bars(k, bw, hist, max, px, py, pw, ph, n) && u[k] < 0x100_0000) by {
            assert(lanes_le(s[k], t[k]));
            assert(lanes_le(t[k], u[k]));
            if u[k] != t[k] {
                assert(bar_hit(k, bw, hist, max, px, py, pw, ph, n - 1));
            } else if t[k] != s[k] {
                assert(in_bars(k, bw, hist, max, px, py, pw, ph, (n - 1) as nat));
                let j = choose|j: int| 0 <= j < n - 1 && #[trigger] bar_hit(k, bw, hist, max, px, py, pw, ph, j);
                assert(bar_hit(k, bw, hist, max, px, py, pw, ph, j));
            }
        }
    }
}

} // verus!
