use facecam::overlays::{draw_focus_peaking, draw_rgb_histogram, draw_waveform, draw_zebras, highlights_clipped};

/// BT.709 luma of each pixel, as the zebra overlay measures it.
fn bt709_luma(buf: &[u32]) -> Vec<u8> {
    buf.iter()
        .map(|&p| {
            let r = ((p >> 16) & 0xFF) as f32;
            let g = ((p >> 8) & 0xFF) as f32;
            let b = (p & 0xFF) as f32;
            (0.2126 * r + 0.7152 * g + 0.0722 * b) as u8
        })
        .collect()
}

fn pseudo_frame(len: usize, seed: u32) -> Vec<u32> {
    let mut x = seed.wrapping_mul(2654435761).wrapping_add(12345);
    (0..len)
        .map(|_| {
            x ^= x << 13;
            x ^= x >> 17;
            x ^= x << 5;
            x & 0x00FF_FFFF
        })
        .collect()
}

#[test]
fn zebras_mark_bright_pixels_in_stripes() {
    // 6x2 frame, all white: luma 255 > 235 everywhere.
    let mut buf = vec![0xFFFFFFu32; 12];
    let luma = bt709_luma(&buf);
    draw_zebras(&mut buf, 6, 2, 235, 0, &luma);
    // Row 0: (x + 0) / 3 even for x in 0..3 -> red; x in 3..6 -> white.
    assert_eq!(&buf[0..6], &[0xFF0000, 0xFF0000, 0xFF0000, 0xFFFFFF, 0xFFFFFF, 0xFFFFFF]);
    // Row 1: (x + 1) / 3 even for x in 0..2 -> red.
    assert_eq!(&buf[6..12], &[0xFF0000, 0xFF0000, 0xFFFFFF, 0xFFFFFF, 0xFFFFFF, 0xFF0000]);
}

#[test]
fn zebras_leave_dark_pixels_and_pixels_outside_frame() {
    let mut buf = vec![0x101010u32; 10];
    let luma = bt709_luma(&buf);
    draw_zebras(&mut buf, 3, 3, 235, 5, &luma);
    assert!(buf.iter().all(|&p| p == 0x101010));
    let mut buf = vec![0xFFFFFFu32; 10];
    let luma = bt709_luma(&buf);
    draw_zebras(&mut buf, 2, 2, 235, 0, &luma);
    // Only the 2x2 frame (indices 0..4) is considered.
    assert!(buf[4..].iter().all(|&p| p == 0xFFFFFF));
    // Animation phase shifts the stripes: phase 3 lights (x + y + 3) / 3 even.
    let mut buf = vec![0xFFFFFFu32; 4];
    let luma = bt709_luma(&buf);
    draw_zebras(&mut buf, 4, 1, 235, 3, &luma);
    assert_eq!(buf, vec![0xFFFFFF, 0xFFFFFF, 0xFFFFFF, 0xFF0000]);
}

/// Focus peaking with BT.601 integer luma.
fn focus_oracle(buf: &mut [u32], w: usize, h: usize, sensitivity: u32, color: u32) {
    let mut luma = vec![0i32; w * h];
    for i in 0..w * h {
        if i >= buf.len() {
            break;
        }
        let p = buf[i];
        let r = ((p >> 16) & 0xFF) as i32;
        let g = ((p >> 8) & 0xFF) as i32;
        let b = (p & 0xFF) as i32;
        luma[i] = (r * 54 + g * 183 + b * 19) >> 8;
    }
    for y in 1..h.saturating_sub(1) {
        for x in 1..w.saturating_sub(1) {
            let idx = y * w + x;
            let gx = -luma[(y - 1) * w + (x - 1)] - 2 * luma[y * w + (x - 1)] - luma[(y + 1) * w + (x - 1)]
                + luma[(y - 1) * w + (x + 1)] + 2 * luma[y * w + (x + 1)] + luma[(y + 1) * w + (x + 1)];
            let gy = -luma[(y - 1) * w + (x - 1)] - 2 * luma[(y - 1) * w + x] - luma[(y - 1) * w + (x + 1)]
                + luma[(y + 1) * w + (x - 1)] + 2 * luma[(y + 1) * w + x] + luma[(y + 1) * w + (x + 1)];
            let magnitude = ((gx.abs() + gy.abs()) as u32) >> 1;
            if magnitude > sensitivity && idx < buf.len() {
                buf[idx] = color;
            }
        }
    }
}

#[test]
fn focus_peaking_marks_vertical_edge() {
    // 4x3 frame: left half black, right half white.
    let mut buf = vec![0, 0, 0xFFFFFF, 0xFFFFFF, 0, 0, 0xFFFFFF, 0xFFFFFF, 0, 0, 0xFFFFFF, 0xFFFFFF];
    draw_focus_peaking(&mut buf, 4, 3, 100, 0x00FF00);
    // Interior pixels (1,1) and (2,1) both straddle the edge.
    assert_eq!(buf[5], 0x00FF00);
    assert_eq!(buf[6], 0x00FF00);
    assert_eq!(buf[0], 0);
    assert_eq!(buf[7], 0xFFFFFF);
}

#[test]
fn focus_peaking_matches_reference_on_noise() {
    for seed in 0..20u32 {
        let w = 3 + (seed as usize % 5);
        let h = 3 + (seed as usize % 4);
        let len = w * h - (seed as usize % 3);
        let frame = pseudo_frame(len, seed);
        let mut a = frame.clone();
        let mut b = frame.clone();
        draw_focus_peaking(&mut a, w, h, 40 + seed, 0x123456);
        focus_oracle(&mut b, w, h, 40 + seed, 0x123456);
        assert_eq!(a, b);
    }
    // Degenerate frames are left alone.
    let mut small = vec![0xFFFFFF, 0, 0xFFFFFF, 0];
    draw_focus_peaking(&mut small, 2, 2, 0, 1);
    assert_eq!(small, vec![0xFFFFFF, 0, 0xFFFFFF, 0]);
}

// ---- histogram and waveform, as the overlay tool draws them ----

fn fill_rect(buf: &mut [u32], buf_w: usize, x: usize, y: usize, w: usize, h: usize, color: u32) {
    for row in y..y + h {
        for col in x..x + w {
            let idx = row * buf_w + col;
            if idx < buf.len() {
                buf[idx] = color;
            }
        }
    }
}

fn blend_color(base_color: u32, intensity: u32) -> u32 {
    let r = ((base_color >> 16) & 0xFF) * intensity / 255;
    let g = ((base_color >> 8) & 0xFF) * intensity / 255;
    let b = (base_color & 0xFF) * intensity / 255;
    (r.min(255) << 16) | (g.min(255) << 8) | b.min(255)
}

fn channel_oracle(buf: &mut [u32], buf_w: usize, hist: &[u32; 256], max_count: u32, px: usize, py: usize, pw: usize, ph: usize, color: u32) {
    for i in 0..256 {
        let x = px + (i * pw) / 256;
        let bar_h = ((hist[i] as u64 * ph as u64) / max_count as u64) as usize;
        for row in 0..bar_h.min(ph) {
            let y = py + ph - 1 - row;
            let idx = y * buf_w + x;
            if idx < buf.len() {
                let existing = buf[idx];
                let er = (existing >> 16) & 0xFF;
                let eg = (existing >> 8) & 0xFF;
                let eb = existing & 0xFF;
                let cr = (color >> 16) & 0xFF;
                let cg = (color >> 8) & 0xFF;
                let cb = color & 0xFF;
                buf[idx] = ((er + cr).min(255) << 16) | ((eg + cg).min(255) << 8) | (eb + cb).min(255);
            }
        }
    }
}

fn histogram_oracle(buf: &mut [u32], buf_w: usize, video_buf: &[u32], video_w: usize, video_h: usize, panel_x: usize, panel_y: usize, panel_w: usize, panel_h: usize) {
    let mut r_hist = [0u32; 256];
    let mut g_hist = [0u32; 256];
    let mut b_hist = [0u32; 256];
    for y in 0..video_h {
        for x in 0..video_w {
            let idx = y * buf_w + x;
            if idx >= video_buf.len() {
                continue;
            }
            let pixel = video_buf[idx];
            r_hist[((pixel >> 16) & 0xFF) as usize] += 1;
            g_hist[((pixel >> 8) & 0xFF) as usize] += 1;
            b_hist[(pixel & 0xFF) as usize] += 1;
        }
    }
    let max_count = r_hist.iter().chain(g_hist.iter()).chain(b_hist.iter()).copied().max().unwrap_or(1).max(1);
    fill_rect(buf, buf_w, panel_x, panel_y, panel_w, panel_h, 0x0D0D1A);
    channel_oracle(buf, buf_w, &r_hist, max_count, panel_x, panel_y, panel_w, panel_h, 0xCC0000);
    channel_oracle(buf, buf_w, &g_hist, max_count, panel_x, panel_y, panel_w, panel_h, 0x00CC00);
    channel_oracle(buf, buf_w, &b_hist, max_count, panel_x, panel_y, panel_w, panel_h, 0x0044CC);
    let total_pixels = (video_w * video_h) as u32;
    let clip_threshold = total_pixels / 50;
    if r_hist[255] > clip_threshold || g_hist[255] > clip_threshold || b_hist[255] > clip_threshold {
        for y in panel_y..panel_y + panel_h {
            let idx = y * buf_w + panel_x + panel_w - 2;
            if idx < buf.len() { buf[idx] = 0xFF0000; }
            if idx + 1 < buf.len() { buf[idx + 1] = 0xFF0000; }
        }
    }
    if r_hist[0] > clip_threshold || g_hist[0] > clip_threshold || b_hist[0] > clip_threshold {
        for y in panel_y..panel_y + panel_h {
            let idx = y * buf_w + panel_x;
            if idx < buf.len() { buf[idx] = 0x0000FF; }
            if idx + 1 < buf.len() { buf[idx + 1] = 0x0000FF; }
        }
    }
}

fn waveform_oracle(buf: &mut [u32], buf_w: usize, video_buf: &[u32], video_w: usize, video_h: usize, panel_x: usize, panel_y: usize, panel_w: usize, panel_h: usize) {
    fill_rect(buf, buf_w, panel_x, panel_y, panel_w, panel_h, 0x0D0D1A);
    let ire_0_y = panel_y + panel_h - (16 * panel_h / 256);
    let ire_100_y = panel_y + panel_h - (235 * panel_h / 256);
    for x in panel_x..panel_x + panel_w {
        if ire_0_y < buf.len() / buf_w {
            let idx = ire_0_y * buf_w + x;
            if idx < buf.len() && x % 4 == 0 { buf[idx] = 0x333344; }
        }
        if ire_100_y < buf.len() / buf_w {
            let idx = ire_100_y * buf_w + x;
            if idx < buf.len() && x % 4 == 0 { buf[idx] = 0x333344; }
        }
    }
    for col in 0..panel_w.min(video_w) {
        let src_col = col * video_w / panel_w;
        let row_step = (video_h / 64).max(1);
        for row in (0..video_h).step_by(row_step) {
            let src_idx = row * buf_w + src_col;
            if src_idx >= video_buf.len() { continue; }
            let pixel = video_buf[src_idx];
            let r = (pixel >> 16) & 0xFF;
            let g = (pixel >> 8) & 0xFF;
            let b = pixel & 0xFF;
            let luma = (r * 54 + g * 183 + b * 19) >> 8;
            let plot_y = panel_y + panel_h - 1 - (luma as usize * (panel_h - 1) / 255);
            let plot_x = panel_x + col;
            if plot_y < buf.len() / buf_w && plot_x < buf_w {
                let idx = plot_y * buf_w + plot_x;
                if idx < buf.len() {
                    let existing = buf[idx] & 0xFF;
                    let new_val = (existing + 20).min(255);
                    buf[idx] = (new_val << 16) | (new_val << 8) | new_val;
                }
            }
        }
    }
    for y in panel_y..panel_y + panel_h {
        for x in panel_x..panel_x + panel_w {
            let idx = y * buf_w + x;
            if idx >= buf.len() { continue; }
            let brightness = buf[idx] & 0xFF;
            if brightness < 2 { continue; }
            let luma_level = 255 - ((y - panel_y) * 255 / panel_h);
            let color = if luma_level > 235 {
                blend_color(0xFF3333, brightness)
            } else if luma_level > 200 {
                blend_color(0xFFCC00, brightness)
            } else if luma_level < 16 {
                blend_color(0x3333FF, brightness)
            } else {
                blend_color(0x00FF66, brightness)
            };
            buf[idx] = color;
        }
    }
}

#[test]
fn histogram_matches_reference() {
    for seed in 0..12u32 {
        let buf_w = 40 + seed as usize;
        let video_w = 20 + (seed as usize % 7);
        let video_h = 8 + (seed as usize % 5);
        let video = pseudo_frame(buf_w * video_h, seed);
        let mut a = vec![0u32; buf_w * 30];
        let mut b = a.clone();
        draw_rgb_histogram(&mut a, buf_w, &video, video_w, video_h, 5, 4, 30, 20);
        histogram_oracle(&mut b, buf_w, &video, video_w, video_h, 5, 4, 30, 20);
        assert_eq!(a, b);
    }
}

#[test]
fn histogram_marks_clipping() {
    // A fully white video clips highlights; a black one crushes shadows.
    let buf_w = 16;
    let white = vec![0xFFFFFFu32; buf_w * 4];
    let mut a = vec![0u32; buf_w * 10];
    draw_rgb_histogram(&mut a, buf_w, &white, 8, 4, 2, 1, 10, 5);
    // Right edge bars: columns 10 and 11 of rows 1..6 are red.
    for y in 1..6 {
        assert_eq!(a[y * buf_w + 10], 0xFF0000);
        assert_eq!(a[y * buf_w + 11], 0xFF0000);
    }
    let black = vec![0u32; buf_w * 4];
    let mut b = vec![0u32; buf_w * 10];
    draw_rgb_histogram(&mut b, buf_w, &black, 8, 4, 2, 1, 10, 5);
    for y in 1..6 {
        assert_eq!(b[y * buf_w + 2], 0x0000FF);
        assert_eq!(b[y * buf_w + 3], 0x0000FF);
    }
}

#[test]
fn waveform_matches_reference() {
    for seed in 0..12u32 {
        let buf_w = 48 + seed as usize;
        let video_w = 10 + (seed as usize % 30);
        let video_h = 70 + (seed as usize % 90);
        let video = pseudo_frame(buf_w * video_h, seed);
        let mut a = pseudo_frame(buf_w * 40, seed + 100);
        let mut b = a.clone();
        draw_waveform(&mut a, buf_w, &video, video_w, video_h, 3, 2, 24, 30);
        waveform_oracle(&mut b, buf_w, &video, video_w, video_h, 3, 2, 24, 30);
        assert_eq!(a, b);
    }
}

#[test]
fn waveform_plots_white_at_top() {
    // A white column plots at the panel's top row, colored red (overexposed).
    let buf_w = 8;
    let video = vec![0xFFFFFFu32; buf_w * 2];
    let mut buf = vec![0u32; buf_w * 4];
    draw_waveform(&mut buf, buf_w, &video, 1, 2, 0, 0, 1, 4);
    // The cleared panel has brightness 0x1A; two samples raise it to 0x1A + 40,
    // then the top row is colored red (0xFF3333) at that brightness.
    let v = 0x1A + 40;
    assert_eq!(buf[0], (v << 16) | ((0x33 * v / 255) << 8) | (0x33 * v / 255));
}

/// Whether index `k` of a `bw`-wide buffer lies in the panel.
fn in_panel(k: usize, bw: usize, px: usize, py: usize, pw: usize, ph: usize) -> bool {
    let row = k / bw;
    let col = k % bw;
    row >= py && row < py + ph && col >= px && col < px + pw
}

#[test]
fn histogram_keeps_pixels_outside_panel() {
    let bw = 40;
    let video = pseudo_frame(bw * 10, 7);
    let before: Vec<u32> = (0..(bw * 30) as u32).map(|i| i ^ 0x5A5A).collect();
    let mut buf = before.clone();
    draw_rgb_histogram(&mut buf, bw, &video, 12, 10, 5, 12, 30, 10);
    for k in 0..buf.len() {
        if !in_panel(k, bw, 5, 12, 30, 10) {
            assert_eq!(buf[k], before[k], "pixel {} outside the panel changed", k);
        }
    }
    assert!((0..buf.len()).any(|k| buf[k] != before[k]));
}

#[test]
fn waveform_keeps_pixels_outside_panel() {
    let bw = 48;
    let video = pseudo_frame(bw * 20, 3);
    let before: Vec<u32> = (0..(bw * 50) as u32).map(|i| i.wrapping_mul(2654435761) & 0xFFFFFF).collect();
    let mut buf = before.clone();
    draw_waveform(&mut buf, bw, &video, 16, 20, 10, 20, 24, 16);
    for k in 0..buf.len() {
        if !in_panel(k, bw, 10, 20, 24, 16) {
            assert_eq!(buf[k], before[k], "pixel {} outside the panel changed", k);
        }
    }
}

#[test]
fn highlight_clipping_detection() {
    // 10 pixels, 1 of them white: threshold 10 / 50 = 0, so clipped.
    let mut video = vec![0x202020u32; 10];
    video[3] = 0xFFFFFF;
    assert!(highlights_clipped(&video, 10, 10, 1));
    // 100 pixels, 2 with red at 255: threshold 2, not clipped; 3 clip.
    let mut video = vec![0x202020u32; 100];
    video[0] = 0xFF0000;
    video[1] = 0xFF0000;
    assert!(!highlights_clipped(&video, 10, 10, 10));
    video[2] = 0xFF2020;
    assert!(highlights_clipped(&video, 10, 10, 10));
}
