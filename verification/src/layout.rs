//! Layouts: how the windows of a workspace are placed on the screen.
use vstd::prelude::*;
use crate::config::SpecialMsg;
use vstd::std_specs::cmp::{PartialOrdIs, PartialOrdSpec};
use crate::window_manager::Window;
use crate::xserver::{lemma_refresh_seq, names, refresh_seq, refresh_windows, refreshed, XCall};

verus! {

/// `v` held between `min` and `max`; `min` when the range is empty.
pub open spec fn clamped<T: PartialOrd>(min: T, v: T, max: T) -> T {
    if max.is_le(&min) {
        min
    } else if v.is_lt(&min) {
        min
    } else if v.is_gt(&max) {
        max
    } else {
        v
    }
}

/// Holds `v` between `min` and `max`; when `max <= min` the result is `min`.
pub fn clamp<T: Ord>(min: T, v: T, max: T) -> (r: T)
    ensures
        T::obeys_partial_cmp_spec() ==> r == clamped(min, v, max),
{
    if max <= min {
        return min;
    }
    if v < min {
        return min;
    }
    if v > max {
        return max;
    }
    v
}

/// Clamping keeps the order of values: of two values, the smaller is never
/// clamped above the larger (shown for the unsigned and signed machine
/// integers that the layouts clamp).
pub proof fn law_clamp_monotone(min: usize, v1: usize, v2: usize, max: usize, a: i64, b: i64, lo: i64, hi: i64)
    requires
        v1 <= v2,
        a <= b,
    ensures
        clamped(min, v1, max) <= clamped(min, v2, max),
        clamped(lo, a, hi) <= clamped(lo, b, hi),
{
}

/// The screen area and the configuration values that a layout needs.
#[derive(Clone, Copy, Debug, PartialEq, Eq)]
pub struct Frame {
    /// Width and height of the screen.
    pub width: u32,
    pub height: u32,
    /// Dead space kept free at the screen's edges.
    pub padding: u16,
    /// Blank space between tiled windows.
    pub spacing: u16,
    /// The width that the tall layout's master column asks for, before it
    /// is held within the usable width: the usable width times the layout's
    /// share, rounded down.
    pub master_width: usize,
}

/// The positions, in order, of the windows that are tiled (not floating).
pub open spec fn tiled(ws: Seq<Window>) -> Seq<usize>
    decreases ws.len(),
{
    if ws.len() == 0 {
        Seq::<usize>::empty()
    } else {
        let t = tiled(ws.drop_last());
        if ws.last().floating {
            t
        } else {
            t.push((ws.len() - 1) as usize)
        }
    }
}

/// The positions, in order, of the floating windows.
pub open spec fn floats(ws: Seq<Window>) -> Seq<usize>
    decreases ws.len(),
{
    if ws.len() == 0 {
        Seq::<usize>::empty()
    } else {
        let t = floats(ws.drop_last());
        if ws.last().floating {
            t.push((ws.len() - 1) as usize)
        } else {
            t
        }
    }
}

/// Height of the `j`-th of `cnt` windows stacked in a column of height
/// `total` with `space` between them: the first one also takes what the
/// even split leaves over.
pub open spec fn slot_h(total: int, cnt: int, space: int, j: int) -> int {
    if j == 0 {
        total / cnt + (total - cnt * space) % cnt
    } else {
        total / cnt - space
    }
}

/// Top edge of the `j`-th of `cnt` windows stacked in a column starting at
/// `top`.
pub open spec fn slot_y(top: int, total: int, cnt: int, space: int, j: int) -> int {
    if j == 0 {
        top
    } else {
        top + slot_h(total, cnt, space, 0) + (j - 1) * (total / cnt) + space
    }
}

/// Width of the screen inside the padding.
pub open spec fn usable_w(f: Frame) -> int {
    f.width - 2 * f.padding
}

/// Height of the screen inside the padding.
pub open spec fn usable_h(f: Frame) -> int {
    f.height - 2 * f.padding
}

/// How many of `n` tiled windows go in the master column.
pub open spec fn tall_mast(master: int, n: int) -> int {
    if master <= n { master } else { n }
}

/// The master column's requested width held between the spacing and the
/// usable width.
pub open spec fn tall_clamped(f: Frame) -> int {
    let x = usable_w(f);
    let space = f.spacing as int;
    if x <= space {
        space
    } else if f.master_width < space {
        space
    } else if f.master_width > x {
        x
    } else {
        f.master_width as int
    }
}

/// Width of the master column: all of the usable width when there is no
/// overflow, `padding - spacing` when there is no master.
pub open spec fn tall_master_size(f: Frame, master: int, n: int) -> int {
    let mast = tall_mast(master, n);
    if n <= mast {
        usable_w(f)
    } else if mast == 0 {
        f.padding - f.spacing
    } else {
        tall_clamped(f) - f.spacing
    }
}

/// Width of the overflow column.
pub open spec fn tall_leftover(f: Frame, master: int, n: int) -> int {
    let mast = tall_mast(master, n);
    if n <= mast {
        0
    } else if mast == 0 {
        usable_w(f)
    } else {
        usable_w(f) - tall_clamped(f)
    }
}

/// The place (x, y, width, height) of the `k`-th of `n` tiled windows:
/// the first `tall_mast` in the master column at the left edge, the rest
/// in the overflow column, each column split vertically.
pub open spec fn tall_place(f: Frame, master: int, n: int, k: int) -> (int, int, int, int) {
    let pad = f.padding as int;
    let space = f.spacing as int;
    let y = usable_h(f);
    let mast = tall_mast(master, n);
    if k < mast {
        (pad, slot_y(pad, y, mast, space, k), tall_master_size(f, master, n), slot_h(y, mast, space, k))
    } else {
        let stack = n - mast;
        (
            usable_w(f) - tall_leftover(f, master, n) + space,
            slot_y(pad, y, stack, space, k - mast),
            tall_leftover(f, master, n),
            slot_h(y, stack, space, k - mast),
        )
    }
}

/// The inputs on which the tall layout's arithmetic stays in range: the
/// padding fits on the screen and, when there are tiled windows, the
/// spacing fits in the usable width and in each column.
pub open spec fn tall_fits(f: Frame, master: int, n: int) -> bool {
    let pad = f.padding as int;
    let space = f.spacing as int;
    let mast = tall_mast(master, n);
    &&& f.width >= 2 * pad
    &&& f.height >= 2 * pad
    &&& n > 0 ==> {
        &&& usable_w(f) >= space
        &&& f.width + space <= usize::MAX
        &&& (mast == 0 ==> pad >= space)
        &&& (mast > 0 ==> mast * space <= usable_h(f))
        &&& (n > mast ==> (n - mast) * space <= usable_h(f))
    }
}

/// `w` shown at the place `p`.
pub open spec fn placed(w: Window, p: (int, int, int, int)) -> Window {
    Window { x: p.0 as isize, y: p.1 as isize, size: (p.2 as usize, p.3 as usize), shown: true, ..w }
}

/// The windows after the tall layout: floating ones untouched, the `k`-th
/// tiled one shown at `tall_place(.., k)`.
pub open spec fn tall_arranged(f: Frame, master: int, old: Seq<Window>, new: Seq<Window>) -> bool {
    let t = tiled(old);
    &&& new.len() == old.len()
    &&& forall|i: int| 0 <= i < old.len() && old[i].floating ==> new[i] == old[i]
    &&& forall|k: int|
        0 <= k < t.len() ==> new[t[k] as int] == placed(old[t[k] as int], tall_place(f, master, t.len() as int, k))
}

/// How many tiled windows come before position `i`.
pub open spec fn rank(ws: Seq<Window>, i: int) -> nat {
    tiled(ws.take(i)).len()
}

/// The windows after the tall layout: floating ones untouched, every tiled
/// one shown at the place of its rank among the tiled windows.
pub open spec fn tall_arrangement(f: Frame, master: int, old: Seq<Window>) -> Seq<Window> {
    Seq::new(
        old.len(),
        |i: int|
            if old[i].floating {
                old[i]
            } else {
                placed(old[i], tall_place(f, master, tiled(old).len() as int, rank(old, i) as int))
            },
    )
}

proof fn lemma_rank(ws: Seq<Window>, k: int)
    requires
        ws.len() <= usize::MAX,
        0 <= k < tiled(ws).len(),
    ensures
        rank(ws, tiled(ws)[k] as int) == k,
    decreases ws.len(),
{
    let d = ws.drop_last();
    lemma_tiled(ws);
    if k < tiled(d).len() {
        lemma_tiled(d);
        lemma_rank(d, k);
        assert(tiled(ws)[k] == tiled(d)[k]);
        assert(ws.take(tiled(d)[k] as int) =~= d.take(tiled(d)[k] as int));
    } else {
        assert(tiled(ws)[k] == ws.len() - 1);
        assert(ws.take(ws.len() - 1) =~= d);
    }
}

/// The relation and the function describe the same windows.
proof fn lemma_tall_arrangement(f: Frame, master: int, old: Seq<Window>, new: Seq<Window>)
    requires
        old.len() <= usize::MAX,
        tall_arranged(f, master, old, new),
    ensures
        new == tall_arrangement(f, master, old),
{
    lemma_tiled(old);
    let t = tiled(old);
    assert forall|i: int| 0 <= i < old.len() implies new[i] == tall_arrangement(f, master, old)[i] by {
        if !old[i].floating {
            let k = choose|k: int| 0 <= k < t.len() && t[k] == i;
            lemma_rank(old, k);
            assert(new[t[k] as int] == placed(old[t[k] as int], tall_place(f, master, t.len() as int, k)));
        }
    }
    assert(new =~= tall_arrangement(f, master, old));
}

proof fn lemma_tiled(ws: Seq<Window>)
    requires
        ws.len() <= usize::MAX,
    ensures
        forall|k: int| 0 <= k < tiled(ws).len() ==> tiled(ws)[k] < ws.len() && !ws[tiled(ws)[k] as int].floating,
        forall|k1: int, k2: int| 0 <= k1 < k2 < tiled(ws).len() ==> tiled(ws)[k1] < tiled(ws)[k2],
        forall|i: int| 0 <= i < ws.len() && !ws[i].floating ==> exists|k: int| 0 <= k < tiled(ws).len() && tiled(ws)[k] == i,
        forall|k: int| 0 <= k < floats(ws).len() ==> floats(ws)[k] < ws.len() && ws[floats(ws)[k] as int].floating,
        forall|i: int| 0 <= i < ws.len() && ws[i].floating ==> exists|k: int| 0 <= k < floats(ws).len() && floats(ws)[k] == i,
    decreases ws.len(),
{
    if ws.len() > 0 {
        let d = ws.drop_last();
        lemma_tiled(d);
        assert forall|i: int| 0 <= i < ws.len() && !ws[i].floating implies exists|k: int| 0 <= k < tiled(ws).len() && tiled(ws)[k] == i by {
            if i < d.len() {
                assert(d[i] == ws[i]);
                let k = choose|k: int| 0 <= k < tiled(d).len() && tiled(d)[k] == i;
                assert(tiled(ws)[k] == i);
            } else {
                assert(ws.last() == ws[i]);
                assert(tiled(ws)[tiled(d).len() as int] == i);
            }
        }
        assert forall|i: int| 0 <= i < ws.len() && ws[i].floating implies exists|k: int| 0 <= k < floats(ws).len() && floats(ws)[k] == i by {
            if i < d.len() {
                assert(d[i] == ws[i]);
                let k = choose|k: int| 0 <= k < floats(d).len() && floats(d)[k] == i;
                assert(floats(ws)[k] == i);
            } else {
                assert(ws.last() == ws[i]);
                assert(floats(ws)[floats(d).len() as int] == i);
            }
        }
        assert forall|k: int| 0 <= k < floats(ws).len() implies floats(ws)[k] < ws.len() && ws[floats(ws)[k] as int].floating by {
            if k < floats(d).len() {
                assert(floats(ws)[k] == floats(d)[k]);
                assert(d[floats(d)[k] as int] == ws[floats(d)[k] as int]);
            }
        }
        assert forall|k: int| 0 <= k < tiled(ws).len() implies tiled(ws)[k] < ws.len() && !ws[tiled(ws)[k] as int].floating by {
            if k < tiled(d).len() {
                assert(tiled(ws)[k] == tiled(d)[k]);
                assert(d[tiled(d)[k] as int] == ws[tiled(d)[k] as int]);
            }
        }
    }
}

/// The `j+1`-th window of a column starts `space` below where the `j`-th
/// ends, and the `j`-th ends at `top + h0 + j * q`.
proof fn lemma_slot_step(top: int, total: int, cnt: int, space: int, j: int)
    requires
        cnt > 0,
        j >= 0,
    ensures
        slot_y(top, total, cnt, space, j + 1) == slot_y(top, total, cnt, space, j) + slot_h(total, cnt, space, j) + space,
        slot_y(top, total, cnt, space, j) + slot_h(total, cnt, space, j) == top + slot_h(total, cnt, space, 0) + j * (total / cnt),
{
    let q = total / cnt;
    let h0 = slot_h(total, cnt, space, 0);
    if j > 0 {
        assert((j - 1) * q + q == j * q) by (nonlinear_arith);
    }
}

/// A column of `cnt` windows is filled exactly: the last window ends at
/// `top + total`, and no window ends lower.
proof fn lemma_column_bounds(top: int, total: int, cnt: int, space: int, j: int)
    requires
        cnt > 0,
        cnt * space <= total,
        space >= 0,
        0 <= j < cnt,
    ensures
        slot_y(top, total, cnt, space, j) + slot_h(total, cnt, space, j) <= top + total,
        j == cnt - 1 ==> slot_y(top, total, cnt, space, j) + slot_h(total, cnt, space, j) == top + total,
        slot_h(total, cnt, space, j) >= 0,
        slot_y(top, total, cnt, space, j) >= top,
        total / cnt >= space,
{
    let q = total / cnt;
    let r = (total - cnt * space) % cnt;
    lemma_slot_step(top, total, cnt, space, j);
    assert(total == cnt * q + total % cnt) by {
        vstd::arithmetic::div_mod::lemma_fundamental_div_mod(total, cnt);
    }
    assert(r == total % cnt) by {
        vstd::arithmetic::div_mod::lemma_mod_multiples_vanish(-space, total, cnt);
        assert(total - cnt * space == cnt * (-space) + total) by (nonlinear_arith);
    }
    assert(q >= space) by {
        vstd::arithmetic::div_mod::lemma_div_is_ordered(cnt * space, total, cnt);
        vstd::arithmetic::div_mod::lemma_div_multiples_vanish(space, cnt);
    }
    assert(j * q <= (cnt - 1) * q) by (nonlinear_arith)
        requires
            j <= cnt - 1,
            q >= space,
            space >= 0,
    ;
    assert(q + (cnt - 1) * q == cnt * q) by (nonlinear_arith);
    assert(0 <= r < cnt) by {
        vstd::arithmetic::div_mod::lemma_mod_bound(total - cnt * space, cnt);
    }
}


/// The layout forms a workspace can be configured with.
#[derive(Clone, Copy, PartialEq, Eq, Structural, Debug)]
pub enum Layouts {
    Tall,
    Wide,
    Grid,
    Stacking,
    Full,
}

/// Like spectrwm's tall layout: a master column and an overflow column.
/// The number of master windows can grow and shrink, and so can the share
/// of the screen that the master column takes; the overflow column holds the
/// remaining windows, split vertically.
#[derive(Clone, Copy, Debug, PartialEq, Eq)]
pub struct TallLayout {
    /// How many windows are in the master column.
    pub master: u16,
    /// Percent of the usable width that the master column takes.
    pub percent: u32,
}

/// The positions of the tiled windows and of the floating ones, in order.
fn split_floating(windows: &Vec<Window>) -> (r: (Vec<usize>, Vec<usize>))
    ensures
        r.0@ == tiled(windows@),
        r.1@ == floats(windows@),
{
    let mut t: Vec<usize> = Vec::new();
    let mut fl: Vec<usize> = Vec::new();
    let mut i: usize = 0;
    while i < windows.len()
        invariant
            i <= windows@.len(),
            t@ == tiled(windows@.take(i as int)),
            fl@ == floats(windows@.take(i as int)),
        decreases windows@.len() - i,
    {
        proof {
            assert(windows@.take(i + 1).drop_last() =~= windows@.take(i as int));
        }
        if windows[i].floating {
            fl.push(i);
        } else {
            t.push(i);
        }
        i = i + 1;
    }
    proof {
        assert(windows@.take(i as int) =~= windows@);
    }
    (t, fl)
}

impl TallLayout {
    /// Places the tiled windows in the two columns and shows them; floating
    /// windows keep their place. Returns the positions of the windows to
    /// bring in line with the X server, in order: the floating ones, then
    /// the tiled ones.
    pub fn arrange(&self, frame: Frame, windows: &mut Vec<Window>) -> (order: Vec<usize>)
        requires
            tall_fits(frame, self.master as int, tiled(old(windows)@).len() as int),
        ensures
            tall_arranged(frame, self.master as int, old(windows)@, final(windows)@),
            final(windows)@ == tall_arrangement(frame, self.master as int, old(windows)@),
            order@ == floats(old(windows)@) + tiled(old(windows)@),
    {
        let ghost old_ws = windows@;
        let (t, fl) = split_floating(windows);
        proof {
            assert(old_ws.len() == windows.len());
            lemma_tiled(old_ws);
        }
        let mut order = fl;
        let mut oi: usize = 0;
        while oi < t.len()
            invariant
                order@ == floats(old_ws) + t@.take(oi as int),
                oi <= t@.len(),
            decreases t@.len() - oi,
        {
            order.push(t[oi]);
            proof {
                assert(t@.take(oi + 1) =~= t@.take(oi as int).push(t@[oi as int]));
            }
            oi = oi + 1;
        }
        proof {
            assert(t@.take(t@.len() as int) =~= t@);
        }
        let wlen = t.len();
        let ghost n = wlen as int;
        let pad = frame.padding as usize;
        let x = frame.width as usize - pad - pad;
        let y = frame.height as usize - pad - pad;
        let space = frame.spacing as usize;
        let mast = clamp(0usize, self.master as usize, wlen);
        assert(mast == tall_mast(self.master as int, n));
        if wlen == 0 {
            proof {
                lemma_tall_arrangement(frame, self.master as int, old_ws, windows@);
            }
            return order;
        }
        let mut mast_size = clamp(space, frame.master_width, x) - space;
        let mut leftover = x - (mast_size + space);
        if wlen <= mast {
            leftover = 0;
            mast_size = x;
        } else if mast == 0 {
            mast_size = pad - space;
            leftover = x;
        }
        assert(mast_size == tall_master_size(frame, self.master as int, n));
        assert(leftover == tall_leftover(frame, self.master as int, n));
        let ghost master = self.master as int;
        // the master column
        let mut reg_y: usize = pad;
        let mut m: usize = 0;
        while m < mast
            invariant
                m <= mast,
                mast == tall_mast(master, n),
                n == t@.len(),
                t@ == tiled(old_ws),
                n > 0,
                tall_fits(frame, master, n),
                pad == frame.padding,
                space == frame.spacing,
                y == usable_h(frame),
                x == usable_w(frame),
                mast_size == tall_master_size(frame, master, n),
                windows@.len() == old_ws.len(),
                forall|k: int| 0 <= k < t@.len() ==> t@[k] < old_ws.len() && !old_ws[t@[k] as int].floating,
                forall|k1: int, k2: int| 0 <= k1 < k2 < t@.len() ==> t@[k1] < t@[k2],
                forall|i: int| 0 <= i < old_ws.len() && old_ws[i].floating ==> windows@[i] == old_ws[i],
                forall|k: int| 0 <= k < m ==> windows@[t@[k] as int] == placed(old_ws[t@[k] as int], tall_place(frame, master, n, k)),
                forall|k: int| m <= k < n ==> windows@[t@[k] as int] == old_ws[t@[k] as int],
                m == 0 ==> reg_y == pad,
                m > 0 ==> reg_y == slot_y(pad as int, y as int, mast as int, space as int, m - 1) + slot_h(y as int, mast as int, space as int, m - 1),
            decreases mast - m,
        {
            let idx = t[m];
            proof {
                lemma_column_bounds(pad as int, y as int, mast as int, space as int, m as int);
                if m > 0 {
                    lemma_slot_step(pad as int, y as int, mast as int, space as int, m - 1);
                    lemma_column_bounds(pad as int, y as int, mast as int, space as int, m - 1);
                }
                vstd::arithmetic::div_mod::lemma_mod_bound((y - mast * space) as int, mast as int);
            }
            let kill_s: usize = if m == 0 { 0 } else { space };
            let size_extra: usize = if m == 0 { (y - mast * space) % mast } else { 0 };
            let wind_y: usize = (y / mast) - kill_s + size_extra;
            reg_y = reg_y + kill_s;
            let mut w = windows[idx];
            w.x = pad as isize;
            w.y = #[verifier::truncate] (reg_y as isize);
            w.size = (mast_size, wind_y);
            w.shown = true;
            windows.set(idx, w);
            reg_y = reg_y + wind_y;
            m = m + 1;
        }
        // the overflow column
        let stack = wlen - mast;
        let col_x = (x - leftover) + space;
        let mut reg_y: usize = pad;
        let mut r: usize = mast;
        while r < wlen
            invariant
                mast <= r <= wlen,
                stack == wlen - mast,
                mast == tall_mast(master, n),
                n == t@.len(),
                n == wlen,
                t@ == tiled(old_ws),
                n > 0,
                tall_fits(frame, master, n),
                pad == frame.padding,
                space == frame.spacing,
                y == usable_h(frame),
                x == usable_w(frame),
                leftover == tall_leftover(frame, master, n),
                col_x == x - leftover + space,
                windows@.len() == old_ws.len(),
                forall|k: int| 0 <= k < t@.len() ==> t@[k] < old_ws.len() && !old_ws[t@[k] as int].floating,
                forall|k1: int, k2: int| 0 <= k1 < k2 < t@.len() ==> t@[k1] < t@[k2],
                forall|i: int| 0 <= i < old_ws.len() && old_ws[i].floating ==> windows@[i] == old_ws[i],
                forall|k: int| 0 <= k < r ==> windows@[t@[k] as int] == placed(old_ws[t@[k] as int], tall_place(frame, master, n, k)),
                forall|k: int| r <= k < n ==> windows@[t@[k] as int] == old_ws[t@[k] as int],
                r == mast ==> reg_y == pad,
                r > mast ==> reg_y == slot_y(pad as int, y as int, stack as int, space as int, r - mast - 1) + slot_h(y as int, stack as int, space as int, r - mast - 1),
            decreases wlen - r,
        {
            let idx = t[r];
            let j = r - mast;
            proof {
                lemma_column_bounds(pad as int, y as int, stack as int, space as int, j as int);
                if j > 0 {
                    lemma_slot_step(pad as int, y as int, stack as int, space as int, j - 1);
                    lemma_column_bounds(pad as int, y as int, stack as int, space as int, j - 1);
                }
                vstd::arithmetic::div_mod::lemma_mod_bound((y - stack * space) as int, stack as int);
            }
            let kill_s: usize = if r == mast { 0 } else { space };
            let size_extra: usize = if r == mast { (y - stack * space) % stack } else { 0 };
            let wind_y: usize = (y / stack) - kill_s + size_extra;
            reg_y = reg_y + kill_s;
            let mut w = windows[idx];
            w.x = #[verifier::truncate] (col_x as isize);
            w.y = #[verifier::truncate] (reg_y as isize);
            w.size = (leftover, wind_y);
            w.shown = true;
            windows.set(idx, w);
            reg_y = reg_y + wind_y;
            r = r + 1;
        }
        proof {
            lemma_tall_arrangement(frame, self.master as int, old_ws, windows@);
        }
        order
    }
}


/// The layout after a special message: `Add` and `Subtract` move the number
/// of master windows within `0..=5`, `Grow` and `Shrink` move the master
/// share by five percent within `5..=95`.
pub open spec fn tall_special(l: TallLayout, msg: SpecialMsg) -> TallLayout {
    match msg {
        SpecialMsg::Add => if l.master < 5 { TallLayout { master: (l.master + 1) as u16, ..l } } else { l },
        SpecialMsg::Subtract => if l.master > 0 { TallLayout { master: (l.master - 1) as u16, ..l } } else { l },
        SpecialMsg::Shrink => if l.percent > 5 { TallLayout { percent: (l.percent - 5) as u32, ..l } } else { l },
        SpecialMsg::Grow => if l.percent < 95 { TallLayout { percent: (l.percent + 5) as u32, ..l } } else { l },
    }
}

/// Shows only the current window, over the whole screen inside the padding.
#[derive(Clone, Copy, Debug, PartialEq, Eq)]
pub struct FullLayout;

/// A layout that places nothing and ignores every message.
#[derive(Clone, Copy, Debug, PartialEq, Eq)]
pub struct HolderLayout;

/// `w` hidden.
pub open spec fn hidden(w: Window) -> Window {
    Window { shown: false, ..w }
}

/// The place of the full layout's window: the whole screen inside the
/// padding.
pub open spec fn full_place(f: Frame) -> (int, int, int, int) {
    (f.padding as int, f.padding as int, usable_w(f), usable_h(f))
}

/// The inputs on which the full layout's arithmetic stays in range: a
/// current window names one, and twice the padding fits in a `u16` and on
/// the screen.
pub open spec fn full_fits(f: Frame, windows: Seq<Window>, focus: Option<usize>) -> bool {
    focus matches Some(c) ==> {
        &&& c < windows.len()
        &&& 2 * f.padding <= u16::MAX
        &&& f.width >= 2 * f.padding
        &&& f.height >= 2 * f.padding
    }
}

/// The windows after the full layout: without a current window nothing
/// changes; else the current one is shown over the screen and every other
/// one is hidden.
pub open spec fn full_arranged(f: Frame, old: Seq<Window>, focus: Option<usize>, new: Seq<Window>) -> bool {
    match focus {
        None => new == old,
        Some(c) => {
            &&& new.len() == old.len()
            &&& forall|i: int|
                0 <= i < old.len() ==> new[i] == if i == c {
                    placed(old[i], full_place(f))
                } else {
                    hidden(old[i])
                }
        },
    }
}

/// The windows after the full layout, as a function of the windows before.
pub open spec fn full_arrangement(f: Frame, old: Seq<Window>, focus: Option<usize>) -> Seq<Window> {
    match focus {
        None => old,
        Some(c) => Seq::new(old.len(), |i: int| if i == c { placed(old[i], full_place(f)) } else { hidden(old[i]) }),
    }
}

/// The windows that the full layout brings in line with the X server: every
/// other window in order, then the current one; none without a current one.
pub open spec fn full_order(n: nat, focus: Option<usize>) -> Seq<usize> {
    match focus {
        None => Seq::<usize>::empty(),
        Some(c) => Seq::new((n - 1) as nat, |i: int| if i < c { i as usize } else { (i + 1) as usize }).push(c),
    }
}

impl FullLayout {
    /// Shows the current window over the screen inside the padding and
    /// hides the others. Returns the positions of the windows to bring in
    /// line with the X server, in order.
    pub fn arrange(&self, frame: Frame, windows: &mut Vec<Window>, focus: Option<usize>) -> (order: Vec<usize>)
        requires
            full_fits(frame, old(windows)@, focus),
        ensures
            full_arranged(frame, old(windows)@, focus, final(windows)@),
            final(windows)@ == full_arrangement(frame, old(windows)@, focus),
            order@ == full_order(old(windows)@.len(), focus),
    {
        let padding = frame.padding;
        let mut order: Vec<usize> = Vec::new();
        let c = match focus {
            None => {
                return order;
            },
            Some(c) => c,
        };
        let ghost old_ws = windows@;
        let n = windows.len();
        let mut ind: usize = 0;
        while ind < n
            invariant
                n == windows@.len(),
                n == old_ws.len(),
                c < n,
                ind <= n,
                forall|i: int| 0 <= i < ind && i != c ==> windows@[i] == hidden(old_ws[i]),
                forall|i: int| ind <= i < n ==> windows@[i] == old_ws[i],
                windows@[c as int] == old_ws[c as int],
                order@ == Seq::new((if ind <= c { ind as int } else { ind - 1 }) as nat, |i: int| if i < c { i as usize } else { (i + 1) as usize }),
            decreases n - ind,
        {
            if ind != c {
                let mut w = windows[ind];
                w.shown = false;
                windows.set(ind, w);
                let ghost before = order@;
                order.push(ind);
                proof {
                    let k: int = if ind <= c { ind as int } else { ind - 1 };
                    assert(order@ =~= Seq::new((k + 1) as nat, |i: int| if i < c { i as usize } else { (i + 1) as usize }));
                }
            }
            ind = ind + 1;
        }
        let mut w = windows[c];
        w.x = padding as isize;
        w.y = padding as isize;
        w.size = ((frame.width - ((padding * 2) as u32)) as usize, (frame.height - ((padding * 2) as u32)) as usize);
        w.shown = true;
        windows.set(c, w);
        order.push(c);
        proof {
            assert(windows@ =~= full_arrangement(frame, old_ws, focus));
        }
        order
    }
}

/// A layout of a workspace's windows.
pub trait Layout: Sized {
    /// Whether the layout can place `windows` on `frame` without its
    /// arithmetic leaving its range.
    spec fn fits(&self, frame: Frame, windows: Seq<Window>, focus: Option<usize>) -> bool;

    /// How the layout places `windows`.
    spec fn arrangement(&self, frame: Frame, windows: Seq<Window>, focus: Option<usize>) -> Seq<Window>;

    /// The windows the layout brings in line with the X server, in order.
    spec fn order(&self, windows: Seq<Window>, focus: Option<usize>) -> Seq<usize>;

    /// The layout after a special message.
    spec fn after_special(&self, msg: SpecialMsg) -> Self;

    /// Places the windows (`focus` is the workspace's current one), brings
    /// those it placed in line with the X server, one after the other in
    /// the layout's order, and returns the requests.
    fn apply(&self, frame: Frame, windows: &mut Vec<Window>, focus: Option<usize>) -> (calls: Vec<XCall>)
        requires
            self.fits(frame, old(windows)@, focus),
        ensures
            final(windows)@ == refresh_seq(self.arrangement(frame, old(windows)@, focus), self.order(old(windows)@, focus)).0,
            calls@ == refresh_seq(self.arrangement(frame, old(windows)@, focus), self.order(old(windows)@, focus)).1,
            final(windows)@.len() == old(windows)@.len(),
    ;

    /// Notes a window that joins the workspace.
    fn add(&mut self, wind: &mut Window)
        ensures
            *final(self) == *old(self),
            *final(wind) == *old(wind),
    ;

    /// Notes the window at `ind` leaving the workspace.
    fn remove(&mut self, ind: usize)
        ensures
            *final(self) == *old(self),
    ;

    /// Handles a special message.
    fn special(&mut self, msg: SpecialMsg)
        ensures
            *final(self) == old(self).after_special(msg),
    ;
}

impl Layout for TallLayout {
    open spec fn fits(&self, frame: Frame, windows: Seq<Window>, focus: Option<usize>) -> bool {
        tall_fits(frame, self.master as int, tiled(windows).len() as int)
    }

    open spec fn arrangement(&self, frame: Frame, windows: Seq<Window>, focus: Option<usize>) -> Seq<Window> {
        tall_arrangement(frame, self.master as int, windows)
    }

    open spec fn order(&self, windows: Seq<Window>, focus: Option<usize>) -> Seq<usize> {
        floats(windows) + tiled(windows)
    }

    open spec fn after_special(&self, msg: SpecialMsg) -> Self {
        tall_special(*self, msg)
    }

    /// Every window ends placed and in line with the X server: mapped
    /// exactly when shown.
    fn apply(&self, frame: Frame, windows: &mut Vec<Window>, focus: Option<usize>) -> (calls: Vec<XCall>)
        ensures
            forall|i: int|
                0 <= i < old(windows)@.len() ==> final(windows)@[i] == refreshed(
                    #[trigger] tall_arrangement(frame, self.master as int, old(windows)@)[i],
                ),
    {
        let ghost old_ws = windows@;
        proof {
            assert(old_ws.len() == old(windows).len());
            lemma_tiled(old_ws);
        }
        let order = self.arrange(frame, windows);
        proof {
            let o = floats(old_ws) + tiled(old_ws);
            assert forall|k: int| 0 <= k < o.len() implies o[k] < windows@.len() by {
                if k >= floats(old_ws).len() {
                    assert(o[k] == tiled(old_ws)[k - floats(old_ws).len()]);
                }
            }
            lemma_refresh_seq(windows@, o);
            assert forall|i: int| 0 <= i < old_ws.len() implies #[trigger] names(o, i) by {
                if old_ws[i].floating {
                    let k = choose|k: int| 0 <= k < floats(old_ws).len() && floats(old_ws)[k] == i;
                    assert(o[k] as int == i);
                } else {
                    let k = choose|k: int| 0 <= k < tiled(old_ws).len() && tiled(old_ws)[k] == i;
                    assert(o[floats(old_ws).len() + k] as int == i);
                }
            }
        }
        refresh_windows(windows, &order)
    }

    fn add(&mut self, wind: &mut Window) {
    }

    fn remove(&mut self, ind: usize) {
    }

    fn special(&mut self, msg: SpecialMsg) {
        match msg {
            SpecialMsg::Add => if self.master < 5 {
                self.master = self.master + 1;
            },
            SpecialMsg::Subtract => if self.master > 0 {
                self.master = self.master - 1;
            },
            SpecialMsg::Shrink => {
                if self.percent > 5 {
                    self.percent = self.percent - 5;
                }
            },
            SpecialMsg::Grow => {
                if self.percent < 95 {
                    self.percent = self.percent + 5;
                }
            },
        }
    }
}

impl Layout for FullLayout {
    open spec fn fits(&self, frame: Frame, windows: Seq<Window>, focus: Option<usize>) -> bool {
        full_fits(frame, windows, focus)
    }

    open spec fn arrangement(&self, frame: Frame, windows: Seq<Window>, focus: Option<usize>) -> Seq<Window> {
        full_arrangement(frame, windows, focus)
    }

    open spec fn order(&self, windows: Seq<Window>, focus: Option<usize>) -> Seq<usize> {
        full_order(windows.len(), focus)
    }

    open spec fn after_special(&self, msg: SpecialMsg) -> Self {
        *self
    }

    /// With a current window, that window ends over the screen, shown and
    /// mapped, and every other one hidden and unmapped; without one nothing
    /// changes.
    fn apply(&self, frame: Frame, windows: &mut Vec<Window>, focus: Option<usize>) -> (calls: Vec<XCall>)
        ensures
            focus is None ==> final(windows)@ == old(windows)@,
            focus matches Some(c) ==> forall|i: int|
                0 <= i < old(windows)@.len() ==> #[trigger] final(windows)@[i] == refreshed(
                    if i == c {
                        placed(old(windows)@[i], full_place(frame))
                    } else {
                        hidden(old(windows)@[i])
                    },
                ),
    {
        let ghost old_ws = windows@;
        proof {
            assert(old_ws.len() == old(windows).len());
        }
        let order = self.arrange(frame, windows, focus);
        proof {
            let o = full_order(old_ws.len(), focus);
            if let Some(c) = focus {
                let n = old_ws.len();
                let s0 = Seq::new((n - 1) as nat, |j: int| if j < c { j as usize } else { (j + 1) as usize });
                assert(o == s0.push(c));
                assert forall|k: int| 0 <= k < o.len() implies o[k] < windows@.len() by {
                    if k < n - 1 {
                        assert(o[k] == (if k < c { k as usize } else { (k + 1) as usize }));
                    }
                }
                lemma_refresh_seq(windows@, o);
                assert forall|i: int| 0 <= i < n implies #[trigger] names(o, i) by {
                    if i < c {
                        assert(o[i] == s0[i]);
                        assert(o[i] as int == i);
                    } else if i > c {
                        assert(o[i - 1] == s0[i - 1]);
                        assert(o[i - 1] as int == i);
                    } else {
                        assert(o[n - 1] as int == i);
                    }
                }
            }
        }
        refresh_windows(windows, &order)
    }

    fn add(&mut self, wind: &mut Window) {
    }

    fn remove(&mut self, ind: usize) {
    }

    fn special(&mut self, msg: SpecialMsg) {
    }
}

impl Layout for HolderLayout {
    open spec fn fits(&self, frame: Frame, windows: Seq<Window>, focus: Option<usize>) -> bool {
        true
    }

    open spec fn arrangement(&self, frame: Frame, windows: Seq<Window>, focus: Option<usize>) -> Seq<Window> {
        windows
    }

    open spec fn order(&self, windows: Seq<Window>, focus: Option<usize>) -> Seq<usize> {
        Seq::<usize>::empty()
    }

    open spec fn after_special(&self, msg: SpecialMsg) -> Self {
        *self
    }

    fn apply(&self, frame: Frame, windows: &mut Vec<Window>, focus: Option<usize>) -> (calls: Vec<XCall>) {
        Vec::new()
    }

    fn add(&mut self, wind: &mut Window) {
    }

    fn remove(&mut self, ind: usize) {
    }

    fn special(&mut self, msg: SpecialMsg) {
    }
}


impl TallLayout {
    /// Whether `arrange` can place `windows` on `frame` (see `tall_fits`).
    pub fn can_arrange(&self, frame: Frame, windows: &Vec<Window>) -> (b: bool)
        ensures
            b == tall_fits(frame, self.master as int, tiled(windows@).len() as int),
    {
        let (t, _fl) = split_floating(windows);
        let n = t.len() as u128;
        let w = frame.width as u128;
        let h = frame.height as u128;
        let pad = frame.padding as u128;
        let space = frame.spacing as u128;
        let master = self.master as u128;
        let mast = if master <= n { master } else { n };
        if w < 2 * pad || h < 2 * pad {
            return false;
        }
        if n == 0 {
            return true;
        }
        let x = w - 2 * pad;
        let y = h - 2 * pad;
        if x < space || w + space > usize::MAX as u128 {
            return false;
        }
        if mast == 0 && pad < space {
            return false;
        }
        assert(mast * space <= 0xffff_ffff_ffff_ffff_ffff * 0xffff) by (nonlinear_arith)
            requires
                mast <= 0xffff_ffff_ffff_ffff_ffff,
                space <= 0xffff,
        ;
        assert((n - mast) * space <= 0xffff_ffff_ffff_ffff_ffff * 0xffff) by (nonlinear_arith)
            requires
                n - mast <= 0xffff_ffff_ffff_ffff_ffff,
                space <= 0xffff,
        ;
        if mast > 0 && mast * space > y {
            return false;
        }
        if n > mast && (n - mast) * space > y {
            return false;
        }
        true
    }
}

impl FullLayout {
    /// Whether `arrange` can place `windows` on `frame` (see `full_fits`).
    pub fn can_arrange(&self, frame: Frame, windows: &Vec<Window>, focus: Option<usize>) -> (b: bool)
        ensures
            b == full_fits(frame, windows@, focus),
    {
        match focus {
            None => true,
            Some(c) => {
                let pad = frame.padding as u64;
                c < windows.len() && 2 * pad <= 0xffff && frame.width as u64 >= 2 * pad && frame.height as u64 >= 2 * pad
            },
        }
    }
}

/// The layout that a workspace holds: one of the layouts above.
#[derive(Debug, PartialEq, Eq)]
pub enum LayoutBox {
    Tall(TallLayout),
    Full(FullLayout),
    Holder(HolderLayout),
}

impl Layout for LayoutBox {
    open spec fn fits(&self, frame: Frame, windows: Seq<Window>, focus: Option<usize>) -> bool {
        match self {
            LayoutBox::Tall(l) => l.fits(frame, windows, focus),
            LayoutBox::Full(l) => l.fits(frame, windows, focus),
            LayoutBox::Holder(l) => l.fits(frame, windows, focus),
        }
    }

    open spec fn arrangement(&self, frame: Frame, windows: Seq<Window>, focus: Option<usize>) -> Seq<Window> {
        match self {
            LayoutBox::Tall(l) => l.arrangement(frame, windows, focus),
            LayoutBox::Full(l) => l.arrangement(frame, windows, focus),
            LayoutBox::Holder(l) => l.arrangement(frame, windows, focus),
        }
    }

    open spec fn order(&self, windows: Seq<Window>, focus: Option<usize>) -> Seq<usize> {
        match self {
            LayoutBox::Tall(l) => l.order(windows, focus),
            LayoutBox::Full(l) => l.order(windows, focus),
            LayoutBox::Holder(l) => l.order(windows, focus),
        }
    }

    open spec fn after_special(&self, msg: SpecialMsg) -> Self {
        match self {
            LayoutBox::Tall(l) => LayoutBox::Tall(l.after_special(msg)),
            LayoutBox::Full(l) => LayoutBox::Full(l.after_special(msg)),
            LayoutBox::Holder(l) => LayoutBox::Holder(l.after_special(msg)),
        }
    }

    fn apply(&self, frame: Frame, windows: &mut Vec<Window>, focus: Option<usize>) -> (calls: Vec<XCall>) {
        match self {
            LayoutBox::Tall(l) => l.apply(frame, windows, focus),
            LayoutBox::Full(l) => l.apply(frame, windows, focus),
            LayoutBox::Holder(l) => l.apply(frame, windows, focus),
        }
    }

    fn add(&mut self, wind: &mut Window) {
        match self {
            LayoutBox::Tall(l) => l.add(wind),
            LayoutBox::Full(l) => l.add(wind),
            LayoutBox::Holder(l) => l.add(wind),
        }
    }

    fn remove(&mut self, ind: usize) {
        match self {
            LayoutBox::Tall(l) => l.remove(ind),
            LayoutBox::Full(l) => l.remove(ind),
            LayoutBox::Holder(l) => l.remove(ind),
        }
    }

    fn special(&mut self, msg: SpecialMsg) {
        match self {
            LayoutBox::Tall(l) => l.special(msg),
            LayoutBox::Full(l) => l.special(msg),
            LayoutBox::Holder(l) => l.special(msg),
        }
    }
}

impl LayoutBox {
    /// Whether `apply` can place `windows` on `frame`.
    pub fn can_arrange(&self, frame: Frame, windows: &Vec<Window>, focus: Option<usize>) -> (b: bool)
        ensures
            b == self.fits(frame, windows@, focus),
    {
        match self {
            LayoutBox::Tall(l) => l.can_arrange(frame, windows),
            LayoutBox::Full(l) => l.can_arrange(frame, windows, focus),
            LayoutBox::Holder(_) => true,
        }
    }
}

/// The layout forms that `LayoutFactory` builds.
pub open spec fn implemented(form: Layouts) -> bool {
    form == Layouts::Tall || form == Layouts::Full
}

/// A fresh layout of the given form: the tall layout with one master
/// window and half the width, or the full layout. The other forms are not
/// implemented.
#[allow(non_snake_case)]
pub fn LayoutFactory(form: Layouts) -> (lay: LayoutBox)
    requires
        implemented(form),
    ensures
        form == Layouts::Tall ==> lay == LayoutBox::Tall(TallLayout { master: 1, percent: 50 }),
        form == Layouts::Full ==> lay == LayoutBox::Full(FullLayout),
{
    match form {
        Layouts::Tall => LayoutBox::Tall(TallLayout { master: 1, percent: 50 }),
        _ => LayoutBox::Full(FullLayout),
    }
}


/// The tall layout places the tiled windows by the tiled windows alone:
/// two window lists that hold the same tiled windows in the same order
/// (one of them, say, the other with floating windows inserted anywhere)
/// give each tiled window the same place, and every floating window keeps
/// its own.
pub proof fn law_floating_insert(f: Frame, master: int, ws1: Seq<Window>, ws2: Seq<Window>)
    requires
        ws1.len() <= usize::MAX,
        ws2.len() <= usize::MAX,
        tiled(ws1).len() == tiled(ws2).len(),
        forall|k: int| 0 <= k < tiled(ws1).len() ==> ws1[tiled(ws1)[k] as int] == ws2[tiled(ws2)[k] as int],
    ensures
        forall|k: int|
            0 <= k < tiled(ws1).len() ==> #[trigger] tall_arrangement(f, master, ws1)[tiled(ws1)[k] as int]
                == tall_arrangement(f, master, ws2)[tiled(ws2)[k] as int],
        forall|i: int| 0 <= i < ws2.len() && ws2[i].floating ==> #[trigger] tall_arrangement(f, master, ws2)[i] == ws2[i],
{
    lemma_tiled(ws1);
    lemma_tiled(ws2);
    assert forall|k: int| 0 <= k < tiled(ws1).len() implies #[trigger] tall_arrangement(f, master, ws1)[tiled(ws1)[k] as int]
        == tall_arrangement(f, master, ws2)[tiled(ws2)[k] as int] by {
        lemma_rank(ws1, k);
        lemma_rank(ws2, k);
    }
}

/// With both master and overflow windows and a requested master width
/// between the spacing and the usable width, each master window sits at
/// the left padding and is as wide as the requested width less the spacing,
/// and each overflow window starts `spacing` right of the requested width
/// and takes the rest of the usable width.
pub proof fn law_tall_master_width(f: Frame, master: int, ws: Seq<Window>)
    requires
        ws.len() <= usize::MAX,
        tall_fits(f, master, tiled(ws).len() as int),
        f.spacing <= f.master_width <= usable_w(f),
        0 < master < tiled(ws).len(),
    ensures
        forall|k: int|
            0 <= k < master ==> {
                &&& (#[trigger] tall_arrangement(f, master, ws)[tiled(ws)[k] as int]).size.0 == f.master_width - f.spacing
                &&& tall_arrangement(f, master, ws)[tiled(ws)[k] as int].x == f.padding
            },
        forall|k: int|
            master <= k < tiled(ws).len() ==> {
                &&& (#[trigger] tall_arrangement(f, master, ws)[tiled(ws)[k] as int]).size.0 == usable_w(f) - f.master_width
                &&& tall_arrangement(f, master, ws)[tiled(ws)[k] as int].x == (f.master_width + f.spacing) as isize
            },
{
    lemma_tiled(ws);
    let n = tiled(ws).len() as int;
    assert(tall_mast(master, n) == master);
    assert(tall_clamped(f) == f.master_width);
    assert(tall_leftover(f, master, n) == usable_w(f) - f.master_width);
    assert forall|k: int| 0 <= k < n implies rank(ws, tiled(ws)[k] as int) == k by {
        lemma_rank(ws, k);
    }
    assert forall|k: int| master <= k < n implies tall_place(f, master, n, k).0 == f.master_width + f.spacing
        && tall_place(f, master, n, k).2 == usable_w(f) - f.master_width by {
    }
}

/// Asking for a wider master column never gives a narrower one: of two
/// frames that differ only in the requested master width, both between the
/// spacing and the usable width, the larger request gives master windows at
/// least as wide and overflow windows at most as wide.
pub proof fn law_tall_master_monotone(f1: Frame, f2: Frame, master: int, n: int)
    requires
        f1.width == f2.width,
        f1.height == f2.height,
        f1.padding == f2.padding,
        f1.spacing == f2.spacing,
        f1.spacing <= f1.master_width <= f2.master_width <= usable_w(f2),
        0 < master < n,
    ensures
        tall_place(f1, master, n, 0).2 <= tall_place(f2, master, n, 0).2,
        tall_place(f1, master, n, master).2 >= tall_place(f2, master, n, master).2,
{
}

/// The special messages keep the tall layout within its bounds: at most five
/// master windows, and a master share between 5 and 95 percent in steps of
/// five.
pub proof fn law_special_bounds(l: TallLayout, msg: SpecialMsg)
    requires
        l.master <= 5,
        5 <= l.percent <= 95,
        l.percent % 5 == 0,
    ensures
        tall_special(l, msg).master <= 5,
        5 <= tall_special(l, msg).percent <= 95,
        tall_special(l, msg).percent % 5 == 0,
{
}

/// `Shrink` undoes `Grow` between 0 and 95 percent (exclusive), and `Subtract` undoes `Add`
/// below five master windows.
pub proof fn law_special_undo(l: TallLayout)
    ensures
        0 < l.percent < 95 ==> tall_special(tall_special(l, SpecialMsg::Grow), SpecialMsg::Shrink) == l,
        l.master < 5 ==> tall_special(tall_special(l, SpecialMsg::Add), SpecialMsg::Subtract) == l,
{
}

/// The tall layout tiles each column: its first window starts at the top
/// padding, each next one starts `spacing` below the end of the previous one,
/// and the last one ends at the bottom padding. Master windows sit at the
/// left padding with the master width; overflow windows share the overflow
/// column's left edge and width.
pub proof fn law_tall_columns(f: Frame, master: int, n: int)
    requires
        tall_fits(f, master, n),
        n > 0,
        master >= 0,
    ensures
        ({
            let mast = tall_mast(master, n);
            let pad = f.padding as int;
            let space = f.spacing as int;
            let bottom = pad + usable_h(f);
            &&& mast > 0 ==> tall_place(f, master, n, 0).1 == pad
            &&& mast > 0 ==> tall_place(f, master, n, mast - 1).1 + tall_place(f, master, n, mast - 1).3 == bottom
            &&& mast < n ==> tall_place(f, master, n, mast).1 == pad
            &&& mast < n ==> tall_place(f, master, n, n - 1).1 + tall_place(f, master, n, n - 1).3 == bottom
            &&& forall|k: int|
                0 <= k && k + 1 < n && k + 1 != mast ==> #[trigger] tall_place(f, master, n, k + 1).1 == tall_place(f, master, n, k).1
                    + tall_place(f, master, n, k).3 + space
            &&& forall|k: int|
                0 <= k < n ==> #[trigger] tall_place(f, master, n, k).3 >= 0 && tall_place(f, master, n, k).1 >= pad
                    && tall_place(f, master, n, k).1 + tall_place(f, master, n, k).3 <= bottom
            &&& forall|k: int|
                0 <= k < mast ==> #[trigger] tall_place(f, master, n, k).0 == pad && tall_place(f, master, n, k).2 == tall_master_size(
                    f,
                    master,
                    n,
                )
            &&& forall|k: int|
                mast <= k < n ==> #[trigger] tall_place(f, master, n, k).0 == usable_w(f) - tall_leftover(f, master, n) + space
                    && tall_place(f, master, n, k).2 == tall_leftover(f, master, n)
        }),
{
    let mast = tall_mast(master, n);
    let pad = f.padding as int;
    let space = f.spacing as int;
    let y = usable_h(f);
    if mast > 0 {
        lemma_column_bounds(pad, y, mast, space, mast - 1);
    }
    if mast < n {
        lemma_column_bounds(pad, y, n - mast, space, n - mast - 1);
    }
    assert forall|k: int| 0 <= k && k + 1 < n && k + 1 != mast implies #[trigger] tall_place(f, master, n, k + 1).1
        == tall_place(f, master, n, k).1 + tall_place(f, master, n, k).3 + space by {
        if k + 1 < mast {
            lemma_slot_step(pad, y, mast, space, k);
        } else {
            lemma_slot_step(pad, y, n - mast, space, k - mast);
        }
    }
    assert forall|k: int| 0 <= k < n implies #[trigger] tall_place(f, master, n, k).3 >= 0 && tall_place(f, master, n, k).1
        >= pad && tall_place(f, master, n, k).1 + tall_place(f, master, n, k).3 <= pad + y by {
        if k < mast {
            lemma_column_bounds(pad, y, mast, space, k);
        } else {
            lemma_column_bounds(pad, y, n - mast, space, k - mast);
        }
    }
}

} // verus!
