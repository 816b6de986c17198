//! A/B split comparison: a stored reference frame is shown left of a split
//! column and the live frame right of it, with a white divider line and a
//! black shadow line beside it.
//!
//! The split column is a fraction of the frame width chosen by the user;
//! these functions take the column itself.
use vstd::prelude::*;
use crate::overlays::{rect_hit, row_hit, rect_fits};

verus! {

/// A copy of the first `w * h` pixels of a frame, kept as the reference
/// of the split view.
pub fn capture_reference(buf: &[u32], w: usize, h: usize) -> (reference: Vec<u32>)
    requires
        w * h <= buf@.len(),
    ensures
        reference@ == buf@.subrange(0, w * h),
{
    let len = buf.len();
    assert(w * h <= len);
    let n = w * h;
    let mut reference: Vec<u32> = Vec::with_capacity(n);
    let mut i: usize = 0;
    while i < n
        invariant
            n == w * h,
            n <= buf@.len(),
            i <= n,
            reference@ == buf@.subrange(0, i as int),
        decreases n - i,
    {
        reference.push(buf[i]);
        i = i + 1;
        assert(reference@ =~= buf@.subrange(0, i as int));
    }
    reference
}

/// The frame after drawing the split view at column `split_x` of a
/// `w` x `h` frame: the white divider on column `split_x` of every row,
/// the black shadow on the column after it when that column is inside the
/// frame, and left of the split (columns below `min(split_x, w)`) the
/// reference pixels, where the reference is long enough; elsewhere the
/// live frame.
pub open spec fn split_view(s: Seq<u32>, reference: Seq<u32>, w: usize, h: usize, split_x: usize) -> Seq<u32> {
    let left = if split_x < w { split_x } else { w };
    Seq::new(s.len(), |k: int|
        if rect_hit(k, w as int, split_x as int, 0, 1, h as int) {
            0xFFFFFFu32
        } else if split_x + 1 < w && rect_hit(k, w as int, split_x + 1, 0, 1, h as int) {
            0x000000u32
        } else if rect_hit(k, w as int, 0, 0, left as int, h as int) && k < reference.len() {
            reference[k]
        } else {
            s[k]
        })
}

proof fn lemma_hit_extend(k: int, bw: int, x: int, w: int, h: int)
    requires
        h >= 0,
    ensures
        rect_hit(k, bw, x, 0, w, h + 1) == (rect_hit(k, bw, x, 0, w, h) || row_hit(k, bw, x, w, h)),
{
    if rect_hit(k, bw, x, 0, w, h + 1) {
        let r = choose|row: int| 0 <= row < h + 1 && #[trigger] row_hit(k, bw, x, w, row);
        if r < h {
            assert(rect_hit(k, bw, x, 0, w, h));
        }
    }
    if row_hit(k, bw, x, w, h) {
        assert(0 <= h < h + 1);
    }
}

proof fn lemma_row_mul_le(a: int, b: int, w: int)
    requires
        0 <= a <= b,
        w >= 0,
    ensures
        a * w <= b * w,
{
    assert(a * w <= b * w) by (nonlinear_arith)
        requires
            0 <= a <= b,
            w >= 0,
    ;
}

/// On a frame at least two columns wide, the divider column of one row
/// never meets the shadow column of another.
proof fn lemma_divider_apart(a: int, b: int, w: int, sx: int)
    requires
        w >= 2,
    ensures
        a * w + sx != b * w + sx + 1,
{
    if a * w + sx == b * w + sx + 1 {
        assert((a - b) * w == 1) by (nonlinear_arith)
            requires
                a * w + sx == b * w + sx + 1,
        ;
        if a - b >= 1 {
            assert((a - b) * w >= w) by (nonlinear_arith)
                requires
                    a - b >= 1,
                    w >= 2,
            ;
        } else {
            assert((a - b) * w <= 0) by (nonlinear_arith)
                requires
                    a - b <= 0,
                    w >= 2,
            ;
        }
    }
}

/// A hit on the divider (or shadow) rectangle at column `x` of rows
/// `[0, r)` names the row it lies on.
proof fn lemma_line_hit_row(k: int, w: int, x: int, r: int) -> (row: int)
    requires
        rect_hit(k, w, x, 0, 1, r),
    ensures
        0 <= row < r,
        k == row * w + x,
{
    choose|row: int| 0 <= row < r && #[trigger] row_hit(k, w, x, 1, row)
}

/// Copies the reference pixels left of the split column.
fn copy_left(buf: &mut [u32], w: usize, h: usize, reference: &[u32], left: usize)
    requires
        left <= w,
        h > 0 ==> (h - 1) * w + left <= usize::MAX,
    ensures
        final(buf)@.len() == old(buf)@.len(),
        forall|k: int| 0 <= k < old(buf)@.len() ==> #[trigger] final(buf)@[k] ==
            if rect_hit(k, w as int, 0, 0, left as int, h as int) && k < reference@.len() {
                reference@[k]
            } else {
                old(buf)@[k]
            },
{
    let ghost s0 = buf@;
    let mut y: usize = 0;
    while y < h
        invariant
            y <= h,
            left <= w,
            h > 0 ==> (h - 1) * w + left <= usize::MAX,
            buf@.len() == s0.len(),
            forall|k: int| 0 <= k < s0.len() ==> #[trigger] buf@[k] ==
                if rect_hit(k, w as int, 0, 0, left as int, y as int) && k < reference@.len() {
                    reference@[k]
                } else {
                    s0[k]
                },
        decreases h - y,
    {
        proof {
            lemma_row_mul_le(y as int, (h - 1) as int, w as int);
        }
        let mut x: usize = 0;
        while x < left
            invariant
                y < h,
                x <= left,
                left <= w,
                y * w + left <= usize::MAX,
                buf@.len() == s0.len(),
                forall|k: int| 0 <= k < s0.len() ==> #[trigger] buf@[k] ==
                    if (rect_hit(k, w as int, 0, 0, left as int, y as int) || (0 <= k - y * w < x))
                        && k < reference@.len() {
                        reference@[k]
                    } else {
                        s0[k]
                    },
            decreases left - x,
        {
            let idx = y * w + x;
            if idx < buf.len() && idx < reference.len() {
                buf[idx] = reference[idx];
            }
            x = x + 1;
        }
        proof {
            assert forall|k: int| 0 <= k < s0.len() implies #[trigger] buf@[k] ==
                if rect_hit(k, w as int, 0, 0, left as int, y + 1) && k < reference@.len() {
                    reference@[k]
                } else {
                    s0[k]
                } by {
                lemma_hit_extend(k, w as int, 0, left as int, y as int);
            }
        }
        y = y + 1;
    }
}

/// Draws the split view at column `split_x`: the reference frame left of
/// the split, then the divider and its shadow.
pub fn draw_split_at(buf: &mut [u32], w: usize, h: usize, reference: &[u32], split_x: usize)
    requires
        rect_fits(w, split_x, 0, 2, h),
    ensures
        final(buf)@ == split_view(old(buf)@, reference@, w, h, split_x),
{
    let ghost s0 = buf@;
    let left = if split_x < w { split_x } else { w };
    proof {
        if h > 0 {
            assert((h - 1) * w + left <= (h - 1) * w + split_x + 1);
        }
    }
    // Left side = reference
    copy_left(buf, w, h, reference, left);
    let ghost s1 = buf@;
    // Draw split line
    let mut y: usize = 0;
    while y < h
        invariant
            y <= h,
            rect_fits(w, split_x, 0, 2, h),
            buf@.len() == s0.len(),
            s1.len() == s0.len(),
            forall|k: int| 0 <= k < s0.len() ==> #[trigger] buf@[k] ==
                if rect_hit(k, w as int, split_x as int, 0, 1, y as int) {
                    0xFFFFFFu32
                } else if split_x + 1 < w && rect_hit(k, w as int, split_x + 1, 0, 1, y as int) {
                    0x000000u32
                } else {
                    s1[k]
                },
        decreases h - y,
    {
        proof {
            lemma_row_mul_le(y as int, (h - 1) as int, w as int);
        }
        let idx = y * w + split_x;
        let ghost before = buf@;
        if idx < buf.len() {
            buf[idx] = 0xFFFFFF;
            if split_x + 1 < w && idx + 1 < buf.len() {
                buf[idx + 1] = 0x000000;
            }
        }
        proof {
            assert forall|k: int| 0 <= k < s0.len() implies #[trigger] buf@[k] ==
                if rect_hit(k, w as int, split_x as int, 0, 1, y + 1) {
                    0xFFFFFFu32
                } else if split_x + 1 < w && rect_hit(k, w as int, split_x + 1, 0, 1, y + 1) {
                    0x000000u32
                } else {
                    s1[k]
                } by {
                lemma_hit_extend(k, w as int, split_x as int, 1, y as int);
                lemma_hit_extend(k, w as int, split_x + 1, 1, y as int);
                if split_x + 1 < w {
                    if k == idx + 1 {
                        // The shadow pixel of this row is no divider pixel.
                        if rect_hit(k, w as int, split_x as int, 0, 1, y + 1) {
                            let r = lemma_line_hit_row(k, w as int, split_x as int, y + 1);
                            lemma_divider_apart(r, y as int, w as int, split_x as int);
                        }
                    }
                    if k == idx {
                        // This row's divider pixel is no earlier shadow pixel.
                        if rect_hit(k, w as int, split_x + 1, 0, 1, y as int) {
                            let r = lemma_line_hit_row(k, w as int, split_x + 1, y as int);
                            lemma_divider_apart(y as int, r, w as int, split_x as int);
                        }
                    }
                }
            }
        }
        y = y + 1;
    }
    assert(buf@ =~= split_view(s0, reference@, w, h, split_x));
}

} // verus!
