//! What the window manager asks of the X server, and the events it hears.
use vstd::prelude::*;
use crate::key::Key;
use crate::window_manager::Window;

verus! {

/// A request to the X server.
#[derive(Clone, Copy, Debug, PartialEq, Eq)]
pub enum XCall {
    /// Map the window and listen for the pointer entering it.
    MapWindow(u64),
    UnmapWindow(u64),
    /// Move and resize: window, x, y, width, height.
    MoveResize(u64, isize, isize, usize, usize),
    /// Set the border colour of a window.
    SetBorderColor(u64, u64),
    /// Give the window the input focus.
    Focus(u64),
    /// Ask the window to close.
    KillWindow(u64),
}

/// An X event, as the window manager sees it.
#[derive(Debug, PartialEq, Eq)]
pub enum ServerEvent {
    ButtonPress((i32, i32)),
    KeyPress(Key),
    MapRequest(Window),
    DestroyNotify(u64),
    EnterNotify(u64),
    Unknown,
}

/// While quitting, whether the window manager keeps waiting for the
/// windows it asked to close after the event `ev`: it stops waiting only
/// when the quit key `qkey` is pressed again.
pub fn quit_waits(qkey: Key, ev: &ServerEvent) -> (b: bool)
    ensures
        b == !(*ev matches ServerEvent::KeyPress(k) && k == qkey),
{
    match ev {
        ServerEvent::KeyPress(k) => *k != qkey,
        _ => true,
    }
}

/// The window after a refresh: mapped exactly when it is shown.
pub open spec fn refreshed(w: Window) -> Window {
    Window { _mapped: w.shown, ..w }
}

/// The requests of a refresh: map a shown window that is not mapped, unmap
/// a hidden one that is, then move and resize it if it ends up mapped.
pub open spec fn refresh_calls(w: Window) -> Seq<XCall> {
    let first = if w.shown && !w._mapped {
        seq![XCall::MapWindow(w.wind_ptr)]
    } else if !w.shown && w._mapped {
        seq![XCall::UnmapWindow(w.wind_ptr)]
    } else {
        Seq::<XCall>::empty()
    };
    if w.shown {
        first.push(XCall::MoveResize(w.wind_ptr, w.x, w.y, w.size.0, w.size.1))
    } else {
        first
    }
}

/// Brings the X server in line with `gwind`: maps or unmaps it as its
/// `shown` flag asks, and places it when it is mapped.
pub fn refresh(gwind: &mut Window) -> (calls: Vec<XCall>)
    ensures
        *final(gwind) == refreshed(*old(gwind)),
        calls@ == refresh_calls(*old(gwind)),
{
    let mut calls: Vec<XCall> = Vec::new();
    if gwind.shown && gwind._mapped == false {
        gwind._mapped = true;
        calls.push(XCall::MapWindow(gwind.wind_ptr));
    } else if gwind.shown == false && gwind._mapped {
        gwind._mapped = false;
        calls.push(XCall::UnmapWindow(gwind.wind_ptr));
    }
    if gwind._mapped {
        let (s_x, s_y) = gwind.size;
        calls.push(XCall::MoveResize(gwind.wind_ptr, gwind.x, gwind.y, s_x, s_y));
    }
    proof {
        assert(calls@ =~= refresh_calls(*old(gwind)));
    }
    calls
}


/// The windows and the requests after refreshing the windows at the
/// positions `order`, one after the other.
pub open spec fn refresh_seq(ws: Seq<Window>, order: Seq<usize>) -> (Seq<Window>, Seq<XCall>)
    decreases order.len(),
{
    if order.len() == 0 {
        (ws, Seq::<XCall>::empty())
    } else {
        let (w1, c1) = refresh_seq(ws, order.drop_last());
        let i = order.last() as int;
        (w1.update(i, refreshed(w1[i])), c1 + refresh_calls(w1[i]))
    }
}


/// Every position in `order` names one of the windows.
pub open spec fn within(order: Seq<usize>, n: nat) -> bool {
    forall|k: int| 0 <= k < order.len() ==> order[k] < n
}

/// Whether some entry of `order` is the position `i`.
pub open spec fn names(order: Seq<usize>, i: int) -> bool {
    exists|k: int| 0 <= k < order.len() && order[k] as int == i
}

/// Refreshing the windows at the positions `order` leaves their number as
/// it was, refreshes each window that `order` names, and leaves the others
/// alone.
pub proof fn lemma_refresh_seq(ws: Seq<Window>, order: Seq<usize>)
    requires
        within(order, ws.len()),
    ensures
        refresh_seq(ws, order).0.len() == ws.len(),
        forall|i: int|
            0 <= i < ws.len() ==> #[trigger] refresh_seq(ws, order).0[i] == if names(order, i) {
                refreshed(ws[i])
            } else {
                ws[i]
            },
    decreases order.len(),
{
    if order.len() > 0 {
        let d = order.drop_last();
        let last = order.len() - 1;
        lemma_refresh_seq(ws, d);
        assert forall|i: int| 0 <= i < ws.len() implies #[trigger] refresh_seq(ws, order).0[i] == if names(order, i) {
            refreshed(ws[i])
        } else {
            ws[i]
        } by {
            if i == order[last] as int {
                assert(names(order, i));
            } else if names(order, i) {
                let k = choose|k: int| 0 <= k < order.len() && order[k] as int == i;
                assert(k != last);
                assert(d[k] == order[k]);
                assert(names(d, i));
            } else {
                assert forall|k: int| 0 <= k < d.len() implies d[k] as int != i by {
                    assert(d[k] == order[k]);
                }
            }
        }
    }
}

/// Brings the windows at the positions `order` in line with the X server,
/// one after the other, and returns the requests.
pub fn refresh_windows(windows: &mut Vec<Window>, order: &Vec<usize>) -> (calls: Vec<XCall>)
    requires
        within(order@, old(windows)@.len()),
    ensures
        (final(windows)@, calls@) == refresh_seq(old(windows)@, order@),
{
    let ghost start = windows@;
    let mut calls: Vec<XCall> = Vec::new();
    let mut k: usize = 0;
    while k < order.len()
        invariant
            k <= order@.len(),
            within(order@, start.len()),
            (windows@, calls@) == refresh_seq(start, order@.take(k as int)),
        decreases order@.len() - k,
    {
        let i = order[k];
        proof {
            assert(order@.take(k + 1).drop_last() =~= order@.take(k as int));
            lemma_refresh_seq(start, order@.take(k as int));
        }
        let mut w = windows[i];
        let mut c = refresh(&mut w);
        windows.set(i, w);
        calls.append(&mut c);
        k = k + 1;
    }
    proof {
        assert(order@.take(order@.len() as int) =~= order@);
    }
    calls
}

/// After a refresh a window is mapped exactly when it is shown, so a second
/// refresh maps and unmaps nothing: it only places a shown window again.
pub proof fn law_refresh_settles(w: Window)
    ensures
        refreshed(w)._mapped == w.shown,
        refreshed(refreshed(w)) == refreshed(w),
        refresh_calls(refreshed(w)) == if w.shown {
            seq![XCall::MoveResize(w.wind_ptr, w.x, w.y, w.size.0, w.size.1)]
        } else {
            Seq::<XCall>::empty()
        },
{
    assert(refresh_calls(refreshed(w)) =~= if w.shown {
        seq![XCall::MoveResize(w.wind_ptr, w.x, w.y, w.size.0, w.size.1)]
    } else {
        Seq::<XCall>::empty()
    });
}

} // verus!
