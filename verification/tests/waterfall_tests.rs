use facecam::waterfall::{draw_timing_waterfall, TimingWaterfall};

#[test]
fn waterfall_keeps_newest_samples() {
    let mut w: TimingWaterfall<f64> = TimingWaterfall::new(3);
    assert!(w.frame_times().is_empty());
    w.push(16.0);
    w.push(17.0);
    assert_eq!(w.frame_times(), &[16.0, 17.0]);
    w.push(40.0);
    w.push(33.0);
    // The oldest sample scrolled off; order is kept, newest last.
    assert_eq!(w.frame_times(), &[17.0, 40.0, 33.0]);
    w.push(1.0);
    assert_eq!(w.frame_times(), &[40.0, 33.0, 1.0]);
}

#[test]
fn waterfall_of_width_one_holds_last_sample() {
    let mut w: TimingWaterfall<u32> = TimingWaterfall::new(1);
    for v in 0..10 {
        w.push(v);
    }
    assert_eq!(w.frame_times(), &[9]);
}

/// The waterfall drawing as the overlay performs it, with each sample's
/// color and bar height already measured.
fn waterfall_oracle(buf: &mut [u32], buf_w: usize, px: usize, py: usize, pw: usize, ph: usize, bars: &[(u32, usize)], target_y: usize) {
    for row in py..py + ph {
        for col in px..px + pw {
            let idx = row * buf_w + col;
            if idx < buf.len() {
                buf[idx] = 0x0D0D1A;
            }
        }
    }
    let start = if bars.len() > pw { bars.len() - pw } else { 0 };
    let offset = pw.saturating_sub(bars.len());
    for (i, &(color, bar_h)) in bars.iter().skip(start).enumerate() {
        let x = px + offset + i;
        if x >= px + pw {
            break;
        }
        for row in 0..bar_h.min(ph) {
            let y = py + ph - 1 - row;
            let idx = y * buf_w + x;
            if idx < buf.len() {
                buf[idx] = color;
            }
        }
    }
    for x in (px..px + pw).step_by(4) {
        let idx = target_y * buf_w + x;
        if idx < buf.len() {
            buf[idx] = 0x444466;
        }
    }
}

#[test]
fn short_history_is_right_aligned() {
    // Panel 4 wide, 3 high at (0, 0) of a 4-wide buffer; two samples.
    let mut buf = vec![0u32; 12];
    let bars = [(0xAAu32, 1usize), (0xBBu32, 5usize)];
    draw_timing_waterfall(&mut buf, 4, 0, 0, 4, 3, &bars, 2);
    let bg = 0x0D0D1A;
    let dot = 0x444466;
    assert_eq!(buf, vec![
        bg, bg, bg, 0xBB,
        bg, bg, bg, 0xBB,
        dot, bg, 0xAA, 0xBB,
    ]);
}

#[test]
fn long_history_shows_newest_only() {
    let mut buf = vec![0u32; 6];
    let bars = [(1u32, 1usize), (2, 1), (3, 1), (4, 2)];
    draw_timing_waterfall(&mut buf, 3, 0, 0, 3, 2, &bars, 5);
    assert_eq!(buf, vec![0x0D0D1A, 0x0D0D1A, 4, 2, 3, 4]);
}

#[test]
fn waterfall_matches_reference_drawing() {
    let cases: [(usize, usize, usize, usize, usize, usize, usize); 6] = [
        (8, 1, 1, 6, 5, 4, 40),
        (8, 0, 0, 8, 5, 3, 48),
        (5, 2, 1, 9, 3, 2, 25),
        (10, 3, 2, 5, 4, 5, 100),
        (6, 0, 0, 0, 3, 1, 18),
        (7, 1, 0, 6, 0, 0, 30),
    ];
    for (buf_w, px, py, pw, ph, target_y, len) in cases {
        for n in [0usize, 1, 3, 6, 11] {
            let bars: Vec<(u32, usize)> = (0..n).map(|i| (0x100 + i as u32, (i * 7) % 6)).collect();
            let mut buf: Vec<u32> = (0..len as u32).collect();
            let mut expected = buf.clone();
            waterfall_oracle(&mut expected, buf_w, px, py, pw, ph, &bars, target_y);
            draw_timing_waterfall(&mut buf, buf_w, px, py, pw, ph, &bars, target_y);
            assert_eq!(buf, expected, "case {:?} n={}", (buf_w, px, py, pw, ph, target_y, len), n);
        }
    }
}

#[test]
fn waterfall_history_keeps_last_samples_in_order() {
    for cap in 1usize..6 {
        let mut w: TimingWaterfall<u32> = TimingWaterfall::new(cap);
        let mut pushed: Vec<u32> = Vec::new();
        for x in 0..13u32 {
            w.push(x * 7 + 1);
            pushed.push(x * 7 + 1);
            let keep = pushed.len().min(cap);
            assert_eq!(w.frame_times(), &pushed[pushed.len() - keep..]);
        }
    }
}
