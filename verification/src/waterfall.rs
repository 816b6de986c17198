//! Frame timing waterfall — scrolling timeline of frame delivery times.
//! Each column = one frame. Color = timing health. Scrolls left over time.
//!
//! The history keeps the newest samples of any type. How a sample is
//! judged (its color and bar height) is measured by the caller; drawing
//! places one bar per retained sample, newest at the right edge.
use vstd::prelude::*;
use crate::overlays::{fill_rect, filled, rect_fits};

verus! {

/// A bounded history of frame samples, oldest first.
pub struct TimingWaterfall<T> {
    data: Vec<T>,
    max_entries: usize,
}

/// The newest `cap` items of `all`, in their order.
pub open spec fn newest<T>(all: Seq<T>, cap: nat) -> Seq<T> {
    if all.len() > cap { all.subrange(all.len() - cap, all.len() as int) } else { all }
}

/// The entries of a waterfall of width `cap` that started empty and then
/// received the samples of `pushed`, in order, one push each.
pub open spec fn after_pushes<T>(pushed: Seq<T>, cap: nat) -> Seq<T>
    decreases pushed.len(),
{
    if pushed.len() == 0 {
        Seq::empty()
    } else {
        newest(after_pushes(pushed.drop_last(), cap).push(pushed.last()), cap)
    }
}

/// Keeping the newest `cap` samples before a push, then the newest `cap`
/// after it, is keeping the newest `cap` of the whole history.
proof fn lemma_newest_push<T>(history: Seq<T>, cap: nat, x: T)
    requires
        cap > 0,
    ensures
        newest(newest(history, cap).push(x), cap) == newest(history.push(x), cap),
{
    if history.len() > cap {
        let kept = newest(history, cap);
        assert(newest(kept.push(x), cap) =~= newest(history.push(x), cap));
    }
}

/// A waterfall keeps the newest frames, oldest first: after a history of
/// pushes into an empty waterfall of width `cap`, its entries are the
/// last `min(k, cap)` of the `k` samples pushed, in push order, so the
/// oldest frame scrolls off first and the count never exceeds the width.
pub proof fn lemma_waterfall_keeps_newest<T>(pushed: Seq<T>, cap: nat)
    requires
        cap > 0,
    ensures
        after_pushes(pushed, cap) == newest(pushed, cap),
        after_pushes(pushed, cap).len() == if pushed.len() < cap { pushed.len() } else { cap },
    decreases pushed.len(),
{
    if pushed.len() > 0 {
        lemma_waterfall_keeps_newest(pushed.drop_last(), cap);
        lemma_newest_push(pushed.drop_last(), cap, pushed.last());
        assert(pushed.drop_last().push(pushed.last()) =~= pushed);
    }
}

impl<T> TimingWaterfall<T> {
    /// The retained samples, oldest first.
    pub closed spec fn entries(&self) -> Seq<T> {
        self.data@
    }

    /// How many samples the waterfall retains (its width in columns).
    pub closed spec fn capacity(&self) -> nat {
        self.max_entries as nat
    }

    /// Never more samples than the capacity.
    pub open spec fn wf(&self) -> bool {
        self.entries().len() <= self.capacity()
    }

    /// An empty waterfall `width` columns wide.
    pub fn new(width: usize) -> (waterfall: Self)
        ensures
            waterfall.wf(),
            waterfall.entries() == Seq::<T>::empty(),
            waterfall.capacity() == width,
    {
        TimingWaterfall { data: Vec::with_capacity(width), max_entries: width }
    }

    /// Appends a sample; when the waterfall is full the oldest sample
    /// scrolls off.
    pub fn push(&mut self, frame_time: T)
        requires
            old(self).wf(),
            old(self).capacity() > 0,
        ensures
            final(self).wf(),
            final(self).capacity() == old(self).capacity(),
            final(self).entries() == newest(old(self).entries().push(frame_time), old(self).capacity()),
    {
        let ghost all = self.data@.push(frame_time);
        if self.data.len() >= self.max_entries {
            self.data.remove(0);
        }
        self.data.push(frame_time);
        assert(self.data@ =~= newest(all, self.max_entries as nat));
    }

    /// The retained samples, oldest first.
    pub fn frame_times(&self) -> (samples: &[T])
        ensures
            samples@ == self.entries(),
    {
        self.data.as_slice()
    }
}

/// Index of the first sample drawn when `n` samples meet a panel `pw`
/// columns wide: only the newest `pw` fit.
pub open spec fn first_drawn(n: int, pw: int) -> int {
    if n > pw { n - pw } else { 0 }
}

/// Panel column of the first bar: a short history is right-aligned.
pub open spec fn first_column(n: int, pw: int) -> int {
    if pw > n { pw - n } else { 0 }
}

/// Height of a bar in a panel `ph` rows high.
pub open spec fn clamped_bar(bar_h: usize, ph: usize) -> usize {
    if bar_h < ph { bar_h } else { ph }
}

/// The buffer after drawing the first `m` drawn bars. Bar `j` shows
/// sample `first_drawn + j` as a one-column bar of its color at panel
/// column `first_column + j`, rising from the bottom row of the panel.
pub open spec fn paint_bars(
    s: Seq<u32>, bw: usize, bars: Seq<(u32, usize)>, px: usize, py: usize, pw: usize, ph: usize, m: nat,
) -> Seq<u32>
    decreases m,
{
    if m == 0 {
        s
    } else {
        let t = paint_bars(s, bw, bars, px, py, pw, ph, (m - 1) as nat);
        let bar = bars[first_drawn(bars.len() as int, pw as int) + m - 1];
        let height = clamped_bar(bar.1, ph);
        filled(t, bw, (px + first_column(bars.len() as int, pw as int) + m - 1) as usize,
            (py + ph - height) as usize, 1, height, bar.0)
    }
}

/// Whether buffer index `k` is a dot of the target line on buffer row
/// `row`: a column `px`, `px + 4`, ... below `px + pw`.
pub open spec fn on_target_dot(k: int, bw: int, px: int, pw: int, row: int) -> bool {
    &&& px <= k - row * bw < px + pw
    &&& (k - row * bw - px) % 4 == 0
}

/// The framebuffer after drawing the waterfall panel: the panel is
/// cleared, the bars of the newest samples that fit are drawn, and the
/// dotted target line is drawn on row `target_y`.
pub open spec fn timing_panel(
    s: Seq<u32>, bw: usize, bars: Seq<(u32, usize)>, px: usize, py: usize, pw: usize, ph: usize, target_y: usize,
) -> Seq<u32> {
    let drawn = if bars.len() < pw { bars.len() } else { pw as nat };
    let with_bars = paint_bars(filled(s, bw, px, py, pw, ph, 0x0D0D1Au32), bw, bars, px, py, pw, ph, drawn);
    Seq::new(s.len(), |k: int|
        if on_target_dot(k, bw as int, px as int, pw as int, target_y as int) { 0x444466u32 } else { with_bars[k] })
}

proof fn lemma_paint_bars_len(
    s: Seq<u32>, bw: usize, bars: Seq<(u32, usize)>, px: usize, py: usize, pw: usize, ph: usize, m: nat,
)
    ensures
        paint_bars(s, bw, bars, px, py, pw, ph, m).len() == s.len(),
    decreases m,
{
    if m > 0 {
        lemma_paint_bars_len(s, bw, bars, px, py, pw, ph, (m - 1) as nat);
    }
}

proof fn lemma_bar_fits(bw: usize, px: usize, py: usize, pw: usize, ph: usize, x: usize, height: usize)
    requires
        rect_fits(bw, px, py, pw, ph),
        px <= x < px + pw,
        height <= ph,
    ensures
        rect_fits(bw, x, (py + ph - height) as usize, 1, height),
{
    if height > 0 {
        assert((py + ph - 1) * bw + x <= (py + ph - 1) * bw + (px + pw - 1));
    }
}

/// Draws the dotted target line on row `target_y` of the panel columns.
fn draw_target_line(buf: &mut [u32], buf_w: usize, px: usize, pw: usize, target_y: usize)
    requires
        px + pw <= usize::MAX,
        pw > 0 ==> target_y * buf_w + (px + pw - 1) <= usize::MAX,
    ensures
        final(buf)@ == Seq::new(old(buf)@.len(), |k: int|
            if on_target_dot(k, buf_w as int, px as int, pw as int, target_y as int) { 0x444466u32 } else { old(buf)@[k] }),
{
    let ghost s0 = buf@;
    let mut j: usize = 0;
    while j < pw
        invariant
            px + pw <= usize::MAX,
            pw > 0 ==> target_y * buf_w + (px + pw - 1) <= usize::MAX,
            j <= pw,
            j % 4 == 0 || j == pw,
            buf@.len() == s0.len(),
            forall|k: int| 0 <= k < s0.len() ==> #[trigger] buf@[k] ==
                if on_target_dot(k, buf_w as int, px as int, j as int, target_y as int) { 0x444466u32 } else { s0[k] },
        decreases pw - j,
    {
        let x = px + j;
        let idx = target_y * buf_w + x;
        if idx < buf.len() {
            buf[idx] = 0x444466;
        }
        let ghost j0 = j;
        if pw - j > 4 {
            j = j + 4;
        } else {
            j = pw;
        }
        assert forall|k: int| 0 <= k < s0.len() implies #[trigger] buf@[k] ==
            if on_target_dot(k, buf_w as int, px as int, j as int, target_y as int) { 0x444466u32 } else { s0[k] } by {
            let c = k - target_y * buf_w - px;
            if j0 <= c < j && c % 4 == 0 {
                assert(c == j0);
            }
        }
    }
    assert(buf@ =~= Seq::new(s0.len(), |k: int|
        if on_target_dot(k, buf_w as int, px as int, pw as int, target_y as int) { 0x444466u32 } else { s0[k] }));
}

/// Draws the waterfall panel at `[px, px + pw) x [py, py + ph)`.
///
/// `bars` holds, for each sample of the history oldest first, its bar
/// color and bar height; `target_y` is the row of the dotted target line.
pub fn draw_timing_waterfall(
    buf: &mut [u32], buf_w: usize, px: usize, py: usize, pw: usize, ph: usize,
    bars: &[(u32, usize)], target_y: usize,
)
    requires
        rect_fits(buf_w, px, py, pw, ph),
        pw > 0 ==> target_y * buf_w + (px + pw - 1) <= usize::MAX,
    ensures
        final(buf)@ == timing_panel(old(buf)@, buf_w, bars@, px, py, pw, ph, target_y),
{
    let ghost s0 = buf@;
    fill_rect(buf, buf_w, px, py, pw, ph, 0x0D0D1A);
    let ghost cleared = buf@;
    let n = bars.len();
    let start = if n > pw { n - pw } else { 0 };
    let offset = if pw > n { pw - n } else { 0 };
    let count = n - start;
    let mut i: usize = 0;
    while i < count
        invariant
            rect_fits(buf_w, px, py, pw, ph),
            n == bars@.len(),
            start == first_drawn(n as int, pw as int),
            offset == first_column(n as int, pw as int),
            count == n - start,
            count + offset == pw || (count == pw && offset == 0),
            count <= pw,
            i <= count,
            buf@ == paint_bars(cleared, buf_w, bars@, px, py, pw, ph, i as nat),
        decreases count - i,
    {
        let x = px + offset + i;
        let (color, bar_h) = bars[start + i];
        let height = if bar_h < ph { bar_h } else { ph };
        proof {
            lemma_bar_fits(buf_w, px, py, pw, ph, x, height);
        }
        fill_rect(buf, buf_w, x, py + ph - height, 1, height, color);
        i = i + 1;
    }
    assert(count as nat == (if bars@.len() < pw { bars@.len() } else { pw as nat }));
    draw_target_line(buf, buf_w, px, pw, target_y);
    proof {
        lemma_paint_bars_len(cleared, buf_w, bars@, px, py, pw, ph, count as nat);
    }
    assert(buf@ =~= timing_panel(s0, buf_w, bars@, px, py, pw, ph, target_y));
}

} // verus!
