use facecam::ab_compare::{capture_reference, draw_split_at};

/// The split drawing as the overlay performs it, at a given split column.
fn split_oracle(buf: &mut [u32], w: usize, h: usize, reference: &[u32], split_x: usize) {
    for y in 0..h {
        for x in 0..split_x.min(w) {
            let idx = y * w + x;
            if idx < buf.len() && idx < reference.len() {
                buf[idx] = reference[idx];
            }
        }
    }
    for y in 0..h {
        let idx = y * w + split_x;
        if idx < buf.len() {
            buf[idx] = 0xFFFFFF;
            if split_x + 1 < w && idx + 1 < buf.len() {
                buf[idx + 1] = 0x000000;
            }
        }
    }
}

#[test]
fn capture_copies_frame_prefix() {
    let buf: Vec<u32> = (0..20).collect();
    assert_eq!(capture_reference(&buf, 3, 4), (0..12).collect::<Vec<u32>>());
    assert_eq!(capture_reference(&buf, 0, 4), Vec::<u32>::new());
    assert_eq!(capture_reference(&buf, 5, 4), buf);
}

#[test]
fn split_shows_reference_left_and_divider() {
    // 4x2 live frame of 1s, reference of 7s, split at the half (column 2).
    let mut buf = vec![1u32; 8];
    let reference = vec![7u32; 8];
    draw_split_at(&mut buf, 4, 2, &reference, 2);
    assert_eq!(buf, vec![7, 7, 0xFFFFFF, 0, 7, 7, 0xFFFFFF, 0]);
}

#[test]
fn split_at_last_column_has_no_shadow() {
    let mut buf = vec![1u32; 6];
    let reference = vec![7u32; 6];
    draw_split_at(&mut buf, 3, 2, &reference, 2);
    assert_eq!(buf, vec![7, 7, 0xFFFFFF, 7, 7, 0xFFFFFF]);
}

#[test]
fn split_with_short_reference_keeps_live_pixels() {
    let mut buf = vec![1u32; 8];
    let reference = vec![7u32; 5];
    draw_split_at(&mut buf, 4, 2, &reference, 2);
    assert_eq!(buf, vec![7, 7, 0xFFFFFF, 0, 7, 1, 0xFFFFFF, 0]);
}

#[test]
fn split_matches_reference_drawing() {
    for (w, h, len, split_x) in [(5usize, 3usize, 15usize, 1usize), (5, 3, 13, 4), (6, 2, 12, 3), (4, 4, 16, 0), (3, 3, 9, 5), (0, 2, 4, 1)] {
        let mut buf: Vec<u32> = (0..len as u32).map(|i| i * 3 + 1).collect();
        let reference: Vec<u32> = (0..len as u32).map(|i| 1000 + i).collect();
        let mut expected = buf.clone();
        split_oracle(&mut expected, w, h, &reference, split_x);
        draw_split_at(&mut buf, w, h, &reference, split_x);
        assert_eq!(buf, expected, "w={} h={} len={} split={}", w, h, len, split_x);
    }
}
