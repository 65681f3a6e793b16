//! The window manager's decisions: what each X event and each key message
//! does to the workspaces, and which steps it asks its driver to take.
use vstd::prelude::*;
use crate::config::{is_default, Config, ConfigLock, Direction, KeyBind, Message};
use crate::cycle::{abs, cycle_at, cycle_index_ok, law_cycle_step_back, Cycle};
use crate::deck::{index_after_remove, Deck};
use crate::key::Key;
use crate::layout::{clamp, Layout};
use crate::window_manager::{
    fresh_workspace, focus_ptr, refresh_requests, refreshed_windows, switch_post, Step, Window, WindowManager,
    Workspace,
};
use crate::layout::Frame;
use crate::xserver::ServerEvent;
use crate::xserver::XCall;

verus! {

/// A step of `off` from position `i` on a ring of `l` positions stays
/// within `isize` arithmetic: the ring's length, the signed target and the
/// ring's lookup of it (see `cycle_index_ok`).
pub open spec fn step_ok(l: nat, i: int, off: int) -> bool {
    &&& l <= isize::MAX
    &&& isize::MIN <= i + off <= isize::MAX
    &&& cycle_index_ok(l as int, i + off)
}

/// The steps that ask for workspace `c` to be refreshed.
pub open spec fn refresh_step(c: usize) -> Seq<Step> {
    seq![Step::Refresh(c)]
}

/// The cards `a` and `b` exchanged.
pub open spec fn swapped<T>(s: Seq<T>, a: int, b: int) -> Seq<T> {
    s.update(a, s[b]).update(b, s[a])
}

/// `Master`: the current window goes to the top of the stack and stays
/// current.
pub open spec fn master_post(old: Workspace, new: Workspace) -> bool {
    &&& new.layout == old.layout
    &&& new.name == old.name
    &&& match old.windows.index {
        Some(i) => if old.windows.cards@.len() > 0 {
            new.windows.cards@ == swapped(old.windows.cards@, 0, i as int) && new.windows.index == Some(0usize)
        } else {
            new.windows.cards@ == old.windows.cards@ && new.windows.index == old.windows.index
        },
        None => new.windows.cards@ == old.windows.cards@ && new.windows.index == old.windows.index,
    }
}

/// The signed step of a direction along a stack: forward is `+1`, backward
/// `-1`, up and down `0`.
pub open spec fn offset(dir: Direction) -> int {
    match dir {
        Direction::Forward => 1,
        Direction::Backward => -1,
        _ => 0,
    }
}

/// `Translate`: the current window trades places with its neighbour in the
/// direction (wrapping around) and stays current.
pub open spec fn translate_post(old: Workspace, dir: Direction, new: Workspace) -> bool {
    &&& new.layout == old.layout
    &&& new.name == old.name
    &&& match old.windows.index {
        Some(i) => {
            let t = cycle_at(old.windows.cards@.len(), i + offset(dir));
            &&& t is Some
            &&& new.windows.cards@ == swapped(old.windows.cards@, i as int, t.unwrap() as int)
            &&& new.windows.index == t
        },
        None => new.windows.cards@ == old.windows.cards@ && new.windows.index == old.windows.index,
    }
}

/// `Focus`: the current position moves one step backward or forward,
/// wrapping around; without a current window, backward selects the first
/// and forward the second (or the first of one).
pub open spec fn focus_post(old: Workspace, dir: Direction, new: Workspace) -> bool {
    let l = old.windows.cards@.len();
    &&& new.layout == old.layout
    &&& new.name == old.name
    &&& new.windows.cards@ == old.windows.cards@
    &&& new.windows.index == match dir {
        Direction::Backward => cycle_at(
            l,
            (match old.windows.index {
                Some(i) => i as int,
                None => 1,
            }) - 1,
        ),
        Direction::Forward => cycle_at(
            l,
            (match old.windows.index {
                Some(i) => i as int,
                None => 0,
            }) + 1,
        ),
        _ => old.windows.index,
    }
}

/// `Kill`: the current window leaves the stack (the X server is asked to
/// close it).
pub open spec fn kill_post(old: Workspace, new: Workspace) -> bool {
    &&& new.layout == old.layout
    &&& new.name == old.name
    &&& match old.windows.index {
        Some(i) => {
            &&& new.windows.cards@ == old.windows.cards@.remove(i as int)
            &&& new.windows.index == index_after_remove(old.windows.index, i as int, old.windows.cards@.len() - 1)
        },
        None => new.windows.cards@ == old.windows.cards@ && new.windows.index == old.windows.index,
    }
}

/// The pixel step of a direction: left/right along x, up/down along y.
pub open spec fn delta(dir: Direction) -> (int, int) {
    match dir {
        Direction::Backward => (-15, 0),
        Direction::Forward => (15, 0),
        Direction::Up => (0, -15),
        Direction::Down => (0, 15),
    }
}

/// A size component moved by `d` and held within `0..=2048`.
pub open spec fn resized(s: usize, d: int) -> usize {
    let v = (s as i32) + d;
    (if v < 0 { 0 } else if v > 2048 { 2048 } else { v }) as usize
}

/// The current window of a stack, if the position names one.
pub open spec fn current_of(w: Workspace) -> Option<Window> {
    match w.windows.index {
        Some(i) => if i < w.windows.cards@.len() { Some(w.windows.cards@[i as int]) } else { None },
        None => None,
    }
}

/// The arithmetic of `Resize` stays within `i32` for the current window.
pub open spec fn resize_ok(w: Workspace, dir: Direction) -> bool {
    current_of(w) matches Some(win) ==> win.floating ==> {
        &&& i32::MIN <= (win.size.0 as i32) + delta(dir).0 <= i32::MAX
        &&& i32::MIN <= (win.size.1 as i32) + delta(dir).1 <= i32::MAX
    }
}

/// The arithmetic of `Move` stays within `isize` for the current window.
pub open spec fn move_ok(w: Workspace, dir: Direction) -> bool {
    current_of(w) matches Some(win) ==> win.floating ==> {
        &&& isize::MIN <= win.x + delta(dir).0 <= isize::MAX
        &&& isize::MIN <= win.y + delta(dir).1 <= isize::MAX
    }
}

/// `Resize` and `Move` act only on a current floating window.
pub open spec fn floating_current(w: Workspace) -> bool {
    current_of(w) matches Some(win) && win.floating
}

/// `Resize`: a current floating window grows or shrinks by 15 pixels, each
/// side held within `0..=2048`; anything else is left alone.
pub open spec fn resize_post(old: Workspace, dir: Direction, new: Workspace) -> bool {
    &&& new.layout == old.layout
    &&& new.name == old.name
    &&& new.windows.index == old.windows.index
    &&& if floating_current(old) {
        let i = old.windows.index.unwrap() as int;
        let win = old.windows.cards@[i];
        new.windows.cards@ == old.windows.cards@.update(
            i,
            Window { size: (resized(win.size.0, delta(dir).0), resized(win.size.1, delta(dir).1)), ..win },
        )
    } else {
        new.windows.cards@ == old.windows.cards@
    }
}

/// `Move`: a current floating window moves by 15 pixels; anything else is
/// left alone.
pub open spec fn move_post(old: Workspace, dir: Direction, new: Workspace) -> bool {
    &&& new.layout == old.layout
    &&& new.name == old.name
    &&& new.windows.index == old.windows.index
    &&& if floating_current(old) {
        let i = old.windows.index.unwrap() as int;
        let win = old.windows.cards@[i];
        new.windows.cards@ == old.windows.cards@.update(
            i,
            Window { x: (win.x + delta(dir).0) as isize, y: (win.y + delta(dir).1) as isize, ..win },
        )
    } else {
        new.windows.cards@ == old.windows.cards@
    }
}

/// The position of the current window, if the position names one.
fn current_index(windows: &Deck<Window>) -> (r: Option<usize>)
    ensures
        r == match windows.index {
            Some(i) => if i < windows.cards@.len() { Some(i) } else { None },
            None => None,
        },
{
    match windows.index {
        Some(i) => if i < windows.cards.len() { Some(i) } else { None },
        None => None,
    }
}

/// The X window of the current window, if the position names one.
fn current_ptr(windows: &Deck<Window>) -> (r: Option<u64>)
    ensures
        r == focus_ptr(windows.cards@, windows.index),
{
    match current_index(windows) {
        Some(i) => Some(windows.cards[i].wind_ptr),
        None => None,
    }
}

fn master_window(work: &mut Workspace)
    requires
        old(work).windows.wf(),
    ensures
        master_post(*old(work), *final(work)),
        final(work).windows.wf(),
{
    match work.windows.index {
        Some(ind) => {
            if work.windows.cards.len() > 0 {
                work.windows.swap(0, ind);
                work.windows.select(0);
            }
        },
        None => {},
    }
}

fn translate_window(work: &mut Workspace, dir: Direction)
    requires
        old(work).windows.wf(),
        translate_ok(*old(work), dir),
    ensures
        translate_post(*old(work), dir, *final(work)),
        final(work).windows.wf(),
{
    let off: isize = match dir {
        Direction::Forward => 1,
        Direction::Backward => -1,
        _ => 0,
    };
    match work.windows.index {
        Some(i) => {
            let l = work.windows.cards.len();
            let cycle = Cycle::new(l);
            let t = cycle.index((i as isize) + off);
            let to = match t {
                Some(j) => j,
                None => i,
            };
            proof {
                vstd::arithmetic::div_mod::lemma_mod_bound(i + off, l as int);
            }
            work.windows.swap(i, to);
            work.windows.index = t;
        },
        None => {},
    }
}

fn focus_window(work: &mut Workspace, dir: Direction)
    requires
        old(work).windows.wf(),
        focus_ok(*old(work), dir),
    ensures
        focus_post(*old(work), dir, *final(work)),
        final(work).windows.wf(),
{
    let l = work.windows.cards.len();
    match dir {
        Direction::Backward => {
            let i = match work.windows.index {
                Some(i) => i,
                None => 1,
            };
            let cycle = Cycle::new(l);
            work.windows.index = cycle.index((i as isize) - 1);
            proof {
                if l > 0 {
                    vstd::arithmetic::div_mod::lemma_mod_bound(i - 1, l as int);
                }
            }
        },
        Direction::Forward => {
            let i = match work.windows.index {
                Some(i) => i,
                None => 0,
            };
            let cycle = Cycle::new(l);
            work.windows.index = cycle.index((i as isize) + 1);
            proof {
                if l > 0 {
                    vstd::arithmetic::div_mod::lemma_mod_bound(i + 1, l as int);
                }
            }
        },
        _ => {},
    }
}

fn kill_window(work: &mut Workspace) -> (ptr: Option<u64>)
    requires
        old(work).windows.wf(),
    ensures
        kill_post(*old(work), *final(work)),
        ptr == focus_ptr(old(work).windows.cards@, old(work).windows.index),
        final(work).windows.wf(),
{
    let ptr = current_ptr(&work.windows);
    match work.windows.index {
        Some(i) => {
            work.windows.forget(i);
        },
        None => {},
    }
    ptr
}

fn resize_window(work: &mut Workspace, dir: Direction) -> (b: bool)
    requires
        old(work).windows.wf(),
        resize_ok(*old(work), dir),
    ensures
        resize_post(*old(work), dir, *final(work)),
        b == floating_current(*old(work)),
        final(work).windows.wf(),
{
    let (x, y): (i32, i32) = match dir {
        Direction::Backward => (-15, 0),
        Direction::Forward => (15, 0),
        Direction::Up => (0, -15),
        Direction::Down => (0, 15),
    };
    match current_index(&work.windows) {
        Some(i) => {
            let mut wind = work.windows.cards[i];
            if !wind.floating {
                return false;
            }
            let a: i32 = clamp(0i32, (#[verifier::truncate] (wind.size.0 as i32)) + x, 2048i32);
            let b: i32 = clamp(0i32, (#[verifier::truncate] (wind.size.1 as i32)) + y, 2048i32);
            wind.size = (a as usize, b as usize);
            work.windows.cards.set(i, wind);
            true
        },
        None => false,
    }
}

fn move_window(work: &mut Workspace, dir: Direction) -> (b: bool)
    requires
        old(work).windows.wf(),
        move_ok(*old(work), dir),
    ensures
        move_post(*old(work), dir, *final(work)),
        b == floating_current(*old(work)),
        final(work).windows.wf(),
{
    let (x, y): (isize, isize) = match dir {
        Direction::Backward => (-15, 0),
        Direction::Forward => (15, 0),
        Direction::Up => (0, -15),
        Direction::Down => (0, 15),
    };
    match current_index(&work.windows) {
        Some(i) => {
            let mut wind = work.windows.cards[i];
            if !wind.floating {
                return false;
            }
            wind.x = wind.x + x;
            wind.y = wind.y + y;
            work.windows.cards.set(i, wind);
            true
        },
        None => false,
    }
}


/// The window manager's state: the configuration in force and the screens
/// and workspaces. (The X connection belongs to the driver.)
pub struct Gallium {
    pub config: ConfigLock,
    pub window_manager: WindowManager,
}

impl Gallium {
    /// The decks are sound: a current workspace and a current screen exist,
    /// and every position names a card.
    pub open spec fn ready(self) -> bool {
        &&& self.window_manager.workspaces.wf()
        &&& self.window_manager.workspaces.index is Some
        &&& self.window_manager.screens.index is Some
        &&& forall|j: int|
            0 <= j < self.window_manager.workspaces.cards@.len() ==> (#[trigger] self.window_manager.workspaces.cards@[j]).windows.wf()
    }

    /// The position of the current workspace.
    pub open spec fn cur(self) -> int {
        self.window_manager.workspaces.index.unwrap() as int
    }

    /// The current workspace.
    pub open spec fn cur_ws(self) -> Workspace {
        self.window_manager.workspaces.cards@[self.cur()]
    }
}

/// `new` differs from `old` at most in the current workspace.
pub open spec fn only_current(old: Gallium, new: Gallium) -> bool {
    &&& new.config == old.config
    &&& new.window_manager.screens == old.window_manager.screens
    &&& new.window_manager.workspaces.index == old.window_manager.workspaces.index
    &&& new.window_manager.workspaces.cards@.len() == old.window_manager.workspaces.cards@.len()
    &&& forall|j: int|
        0 <= j < old.window_manager.workspaces.cards@.len() && j != old.cur() ==> new.window_manager.workspaces.cards@[j]
            == old.window_manager.workspaces.cards@[j]
}

/// Nothing changed.
pub open spec fn unchanged(old: Gallium, new: Gallium) -> bool {
    &&& new.config == old.config
    &&& new.window_manager.screens == old.window_manager.screens
    &&& new.window_manager.workspaces == old.window_manager.workspaces
}

/// `Focus` steps within range: from the current position, or from the
/// second (backward) or the first (forward) position without one.
pub open spec fn focus_ok(w: Workspace, dir: Direction) -> bool {
    let l = w.windows.cards@.len();
    match dir {
        Direction::Backward => step_ok(
            l,
            match w.windows.index {
                Some(i) => i as int,
                None => 1,
            },
            -1,
        ),
        Direction::Forward => step_ok(
            l,
            match w.windows.index {
                Some(i) => i as int,
                None => 0,
            },
            1,
        ),
        _ => true,
    }
}

/// `Translate` steps within range from the current position, if any.
pub open spec fn translate_ok(w: Workspace, dir: Direction) -> bool {
    w.windows.index matches Some(i) ==> step_ok(w.windows.cards@.len(), i as int, offset(dir))
}

/// `Switch` steps within range over the ring of workspaces.
pub open spec fn switch_ok(g: Gallium, dir: Direction) -> bool {
    match dir {
        Direction::Backward | Direction::Forward => step_ok(g.window_manager.workspaces.cards@.len(), g.cur(), offset(dir)),
        _ => g.window_manager.workspaces.cards@.len() <= isize::MAX,
    }
}

/// What a key message needs to stay within range: a ring short enough for
/// `Focus`, `Translate` and `Switch`, and pixel arithmetic in range for
/// `Resize` and `Move`.
pub open spec fn message_ok(g: Gallium, msg: Message) -> bool {
    match msg {
        Message::Focus(d) => focus_ok(g.cur_ws(), d),
        Message::Translate(d) => translate_ok(g.cur_ws(), d),
        Message::Switch(d) => switch_ok(g, d),
        Message::Resize(d) => resize_ok(g.cur_ws(), d),
        Message::Move(d) => move_ok(g.cur_ws(), d),
        _ => true,
    }
}

/// What a key message does, and the steps it asks for.
pub open spec fn message_post(old: Gallium, msg: Message, key: Key, new: Gallium, steps: Seq<Step>) -> bool {
    let c = old.cur() as usize;
    match msg {
        Message::Master => only_current(old, new) && master_post(old.cur_ws(), new.cur_ws()) && steps == refresh_step(c),
        Message::Translate(d) => only_current(old, new) && translate_post(old.cur_ws(), d, new.cur_ws()) && steps == refresh_step(c),
        Message::Focus(d) => only_current(old, new) && focus_post(old.cur_ws(), d, new.cur_ws()) && steps == refresh_step(c),
        Message::Kill => {
            &&& only_current(old, new)
            &&& kill_post(old.cur_ws(), new.cur_ws())
            &&& steps == (match focus_ptr(old.cur_ws().windows.cards@, old.cur_ws().windows.index) {
                Some(p) => seq![Step::Call(XCall::KillWindow(p))],
                None => Seq::<Step>::empty(),
            }) + refresh_step(c)
        },
        Message::Resize(d) => {
            &&& only_current(old, new)
            &&& resize_post(old.cur_ws(), d, new.cur_ws())
            &&& steps == if floating_current(old.cur_ws()) { refresh_step(c) } else { Seq::<Step>::empty() }
        },
        Message::Move(d) => {
            &&& only_current(old, new)
            &&& move_post(old.cur_ws(), d, new.cur_ws())
            &&& steps == if floating_current(old.cur_ws()) { refresh_step(c) } else { Seq::<Step>::empty() }
        },
        Message::Special(m) => {
            &&& only_current(old, new)
            &&& new.cur_ws().layout == old.cur_ws().layout.after_special(m)
            &&& new.cur_ws().windows.cards@ == old.cur_ws().windows.cards@
            &&& new.cur_ws().windows.index == old.cur_ws().windows.index
            &&& new.cur_ws().name == old.cur_ws().name
            &&& steps == refresh_step(c)
        },
        Message::Switch(d) => match d {
            Direction::Backward | Direction::Forward => {
                let t = cycle_at(old.window_manager.workspaces.cards@.len(), old.cur() + offset(d));
                &&& t is Some
                &&& new.config == old.config
                &&& switch_post(old.window_manager, (t.unwrap() as u32) as int, new.window_manager, steps)
            },
            _ => unchanged(old, new) && steps == Seq::<Step>::empty(),
        },
        Message::Spawn(exe, args) => unchanged(old, new) && steps == seq![Step::Spawn(exe, args)],
        Message::Reload => unchanged(old, new) && steps == seq![Step::Reload, Step::Refresh(c)],
        Message::Quit => unchanged(old, new) && steps == seq![Step::Quit(key)],
        _ => unchanged(old, new) && steps == Seq::<Step>::empty(),
    }
}

impl Gallium {
    /// Acts on the message of a binding whose key `key` was pressed, and
    /// returns the steps for the driver: the X requests, the workspaces to
    /// refresh, and any program to spawn, reload or quit.
    pub fn handle_message(&mut self, msg: &Message, key: Key) -> (steps: Vec<Step>)
        requires
            old(self).ready(),
            message_ok(*old(self), *msg),
        ensures
            final(self).ready(),
            message_post(*old(self), *msg, key, *final(self), steps@),
    {
        let c = match self.window_manager.workspaces.index {
            Some(c) => c,
            None => 0,
        };
        let mut steps: Vec<Step> = Vec::new();
        match msg {
            Message::Spawn(exe, args) => {
                steps.push(Step::Spawn(exe.clone(), args.clone()));
            },
            Message::Master => {
                match self.window_manager.workspaces.current() {
                    Some(work) => master_window(work),
                    None => {},
                }
                steps.push(Step::Refresh(c));
            },
            Message::Translate(dir) => {
                match self.window_manager.workspaces.current() {
                    Some(work) => translate_window(work, *dir),
                    None => {},
                }
                steps.push(Step::Refresh(c));
            },
            Message::Reload => {
                steps.push(Step::Reload);
                steps.push(Step::Refresh(c));
                assert(steps@ =~= seq![Step::Reload, Step::Refresh(c)]);
            },
            Message::Quit => {
                steps.push(Step::Quit(key));
            },
            Message::Kill => {
                let p = match self.window_manager.workspaces.current() {
                    Some(work) => kill_window(work),
                    None => None,
                };
                match p {
                    Some(p) => steps.push(Step::Call(XCall::KillWindow(p))),
                    None => {},
                }
                steps.push(Step::Refresh(c));
                assert(steps@ =~= (match p {
                    Some(p) => seq![Step::Call(XCall::KillWindow(p))],
                    None => Seq::<Step>::empty(),
                }) + refresh_step(c));
            },
            Message::Resize(dir) => {
                let b = match self.window_manager.workspaces.current() {
                    Some(work) => resize_window(work, *dir),
                    None => false,
                };
                if b {
                    steps.push(Step::Refresh(c));
                }
            },
            Message::Move(dir) => {
                let b = match self.window_manager.workspaces.current() {
                    Some(work) => move_window(work, *dir),
                    None => false,
                };
                if b {
                    steps.push(Step::Refresh(c));
                }
            },
            Message::Focus(dir) => {
                match self.window_manager.workspaces.current() {
                    Some(work) => focus_window(work, *dir),
                    None => {},
                }
                steps.push(Step::Refresh(c));
            },
            Message::Switch(dir) => {
                let w_l = self.window_manager.workspaces.cards.len();
                let w_i = c;
                proof {
                    if w_l > 0 {
                        vstd::arithmetic::div_mod::lemma_mod_bound(w_i - 1, w_l as int);
                        vstd::arithmetic::div_mod::lemma_mod_bound(w_i + 1, w_l as int);
                    }
                }
                let cycle = Cycle::new(w_l);
                match dir {
                    Direction::Backward => {
                        let t = cycle.index((w_i as isize) - 1);
                        let t = match t {
                            Some(t) => t,
                            None => 0,
                        };
                        steps = self.window_manager.switch(t as u32);
                            },
                    Direction::Forward => {
                        let t = cycle.index((w_i as isize) + 1);
                        let t = match t {
                            Some(t) => t,
                            None => 0,
                        };
                        steps = self.window_manager.switch(t as u32);
                    },
                    _ => {},
                }
            },
            Message::Special(m) => {
                match self.window_manager.workspaces.current() {
                    Some(work) => work.layout.special(*m),
                    None => {},
                }
                steps.push(Step::Refresh(c));
            },
            _ => {},
        }
        steps
    }
}


/// `k` is the first position of a window of `ptr` in `ws`.
pub open spec fn is_first_ptr(ws: Seq<Window>, ptr: u64, k: int) -> bool {
    &&& 0 <= k < ws.len()
    &&& ws[k].wind_ptr == ptr
    &&& forall|j: int| 0 <= j < k ==> ws[j].wind_ptr != ptr
}

/// The first position of a window of `ptr`, if any.
pub open spec fn first_ptr(ws: Seq<Window>, ptr: u64) -> Option<int> {
    if exists|k: int| is_first_ptr(ws, ptr, k) {
        Some(choose|k: int| is_first_ptr(ws, ptr, k))
    } else {
        None
    }
}

/// Finds the first window of `ptr`.
fn find_ptr(ws: &Vec<Window>, ptr: u64) -> (r: Option<usize>)
    ensures
        r matches Some(k) ==> first_ptr(ws@, ptr) == Some(k as int),
        r is None ==> first_ptr(ws@, ptr) is None,
{
    let n = ws.len();
    let mut i: usize = 0;
    while i < n
        invariant
            n == ws@.len(),
            i <= n,
            forall|j: int| 0 <= j < i ==> ws@[j].wind_ptr != ptr,
        decreases n - i,
    {
        if ws[i].wind_ptr == ptr {
            proof {
                assert(is_first_ptr(ws@, ptr, i as int));
                let k = choose|k: int| is_first_ptr(ws@, ptr, k);
                assert(k == i) by {
                    if k < i {
                        assert(ws@[k].wind_ptr != ptr);
                    } else if k > i {
                        assert(ws@[i as int].wind_ptr != ptr);
                    }
                }
            }
            return Some(i);
        }
        i = i + 1;
    }
    None
}

/// The steps of a window's destruction: a refresh of every workspace that
/// held the window, in order.
pub open spec fn destroy_steps(wss: Seq<Workspace>, ptr: u64) -> Seq<Step>
    decreases wss.len(),
{
    if wss.len() == 0 {
        Seq::<Step>::empty()
    } else {
        destroy_steps(wss.drop_last(), ptr) + if first_ptr(wss.last().windows.cards@, ptr) is Some {
            seq![Step::Refresh((wss.len() - 1) as usize)]
        } else {
            Seq::<Step>::empty()
        }
    }
}

/// Workspace `new` is `old` with its first window of `ptr` taken out, if it
/// held one.
pub open spec fn without_ptr(old: Workspace, ptr: u64, new: Workspace) -> bool {
    &&& new.layout == old.layout
    &&& new.name == old.name
    &&& match first_ptr(old.windows.cards@, ptr) {
        Some(k) => {
            &&& new.windows.cards@ == old.windows.cards@.remove(k)
            &&& new.windows.index == index_after_remove(old.windows.index, k, old.windows.cards@.len() - 1)
        },
        None => new.windows.cards@ == old.windows.cards@ && new.windows.index == old.windows.index,
    }
}

/// What an X event does, and the steps it asks for. Key presses go through
/// `Gallium::matching_bindings` and `Gallium::handle_message` instead.
pub open spec fn event_post(old: Gallium, ev: ServerEvent, new: Gallium, steps: Seq<Step>) -> bool {
    let c = old.cur() as usize;
    match ev {
        ServerEvent::MapRequest(window) => {
            &&& only_current(old, new)
            &&& new.cur_ws().windows.cards@ == old.cur_ws().windows.cards@.push(window)
            &&& new.cur_ws().windows.index == (match old.cur_ws().windows.index {
                Some(i) => Some(i),
                None => Some(old.cur_ws().windows.cards@.len() as usize),
            })
            &&& new.cur_ws().layout == old.cur_ws().layout
            &&& new.cur_ws().name == old.cur_ws().name
            &&& steps == refresh_step(c)
        },
        ServerEvent::DestroyNotify(ptr) => {
            &&& new.config == old.config
            &&& new.window_manager.screens == old.window_manager.screens
            &&& new.window_manager.workspaces.index == old.window_manager.workspaces.index
            &&& new.window_manager.workspaces.cards@.len() == old.window_manager.workspaces.cards@.len()
            &&& forall|j: int|
                0 <= j < old.window_manager.workspaces.cards@.len() ==> without_ptr(
                    old.window_manager.workspaces.cards@[j],
                    ptr,
                    #[trigger] new.window_manager.workspaces.cards@[j],
                )
            &&& steps == destroy_steps(old.window_manager.workspaces.cards@, ptr)
        },
        ServerEvent::EnterNotify(ptr) => {
            if old.config@.follow_mouse && first_ptr(old.cur_ws().windows.cards@, ptr) is Some {
                &&& only_current(old, new)
                &&& new.cur_ws().windows.cards@ == old.cur_ws().windows.cards@
                &&& new.cur_ws().windows.index == Some(first_ptr(old.cur_ws().windows.cards@, ptr).unwrap() as usize)
                &&& new.cur_ws().layout == old.cur_ws().layout
                &&& new.cur_ws().name == old.cur_ws().name
                &&& steps == refresh_step(c)
            } else {
                unchanged(old, new) && steps == Seq::<Step>::empty()
            }
        },
        _ => unchanged(old, new) && steps == Seq::<Step>::empty(),
    }
}

impl Gallium {
    /// Acts on an X event: a window asking to be mapped joins the current
    /// workspace; a destroyed window leaves every workspace that held it; the
    /// pointer entering a window of the current workspace makes it current
    /// when focus follows the mouse. Returns the steps for the driver.
    pub fn handle_event(&mut self, ev: ServerEvent) -> (steps: Vec<Step>)
        requires
            old(self).ready(),
        ensures
            final(self).ready(),
            event_post(*old(self), ev, *final(self), steps@),
    {
        let c = match self.window_manager.workspaces.index {
            Some(c) => c,
            None => 0,
        };
        let mut steps: Vec<Step> = Vec::new();
        match ev {
            ServerEvent::MapRequest(window) => {
                let mut window = window;
                match self.window_manager.workspaces.current() {
                    Some(w) => {
                        w.layout.add(&mut window);
                        w.windows.push(window);
                    },
                    None => {},
                }
                steps.push(Step::Refresh(c));
            },
            ServerEvent::DestroyNotify(wind_ptr) => {
                let ghost old_wss = self.window_manager.workspaces.cards@;
                let n = self.window_manager.workspaces.cards.len();
                let mut j: usize = 0;
                while j < n
                    invariant
                        n == old_wss.len(),
                        n == self.window_manager.workspaces.cards@.len(),
                        j <= n,
                        self.config == old(self).config,
                        self.window_manager.screens == old(self).window_manager.screens,
                        self.window_manager.workspaces.index == old(self).window_manager.workspaces.index,
                        old(self).window_manager.workspaces.cards@ == old_wss,
                        forall|i: int| 0 <= i < j ==> without_ptr(old_wss[i], wind_ptr, #[trigger] self.window_manager.workspaces.cards@[i]),
                        forall|i: int| j <= i < n ==> self.window_manager.workspaces.cards@[i] == old_wss[i],
                        steps@ == destroy_steps(old_wss.take(j as int), wind_ptr),
                    decreases n - j,
                {
                    proof {
                        assert(old_wss.take(j + 1).drop_last() =~= old_wss.take(j as int));
                    }
                    let found = find_ptr(&self.window_manager.workspaces.cards[j].windows.cards, wind_ptr);
                    match found {
                        Some(wind_ind) => {
                            let mut work = self.window_manager.workspaces.cards.remove(j);
                            work.layout.remove(wind_ind);
                            work.windows.remove(wind_ind);
                            self.window_manager.workspaces.cards.insert(j, work);
                            steps.push(Step::Refresh(j));
                        },
                        None => {},
                    }
                    j = j + 1;
                }
                proof {
                    assert(old_wss.take(n as int) =~= old_wss);
                }
            },
            ServerEvent::EnterNotify(wind_ptr) => {
                if !self.config.current().follow_mouse {
                    return steps;
                }
                let found = find_ptr(&self.window_manager.workspaces.cards[c].windows.cards, wind_ptr);
                match found {
                    Some(wind_ind) => {
                        match self.window_manager.workspaces.current() {
                            Some(work) => work.windows.select(wind_ind),
                            None => {},
                        }
                        steps.push(Step::Refresh(c));
                        assert(steps@ =~= refresh_step(c));
                    },
                    None => {},
                }
            },
            _ => {},
        }
        steps
    }
}


/// The positions, in order, of the bindings whose key is `key`.
pub open spec fn matching(keys: Seq<KeyBind>, key: Key) -> Seq<usize>
    decreases keys.len(),
{
    if keys.len() == 0 {
        Seq::<usize>::empty()
    } else {
        let m = matching(keys.drop_last(), key);
        if keys.last().binding == Some(key) {
            m.push((keys.len() - 1) as usize)
        } else {
            m
        }
    }
}

impl Gallium {
    /// The window manager at start: the default configuration, one screen,
    /// and a fresh workspace for each default workspace, the first current.
    pub fn setup() -> (g: Gallium)
        ensures
            g.ready(),
            is_default(g.config@),
            g.window_manager.workspaces.cards@.len() == g.config@.workspaces@.len(),
            forall|i: int|
                0 <= i < g.config@.workspaces@.len() ==> fresh_workspace(
                    #[trigger] g.window_manager.workspaces.cards@[i],
                    g.config@.workspaces@[i],
                ),
            g.window_manager.workspaces.index == Some(0usize),
            g.window_manager.screens.cards@.len() == 1,
            g.window_manager.screens.cards@[0].workspace == 0,
            g.window_manager.screens.index == Some(0usize),
    {
        let config = Config::new();
        let window_manager = WindowManager::new(config.current());
        Gallium { config, window_manager }
    }

    /// Refreshes workspace `i` on `frame` (see `Workspace::refresh`) with the
    /// colours of the configuration in force, and returns the X requests.
    pub fn refresh_workspace(&mut self, i: usize, frame: Frame) -> (calls: Vec<XCall>)
        requires
            old(self).ready(),
            i < old(self).window_manager.workspaces.cards@.len(),
            old(self).window_manager.workspaces.cards@[i as int].fits(frame),
        ensures
            final(self).ready(),
            final(self).config == old(self).config,
            final(self).window_manager.screens == old(self).window_manager.screens,
            final(self).window_manager.workspaces.index == old(self).window_manager.workspaces.index,
            final(self).window_manager.workspaces.cards@.len() == old(self).window_manager.workspaces.cards@.len(),
            forall|j: int|
                0 <= j < old(self).window_manager.workspaces.cards@.len() && j != i ==> final(self).window_manager.workspaces.cards@[j]
                    == old(self).window_manager.workspaces.cards@[j],
            ({
                let old_w = old(self).window_manager.workspaces.cards@[i as int];
                let new_w = final(self).window_manager.workspaces.cards@[i as int];
                &&& new_w.windows.cards@ == refreshed_windows(old_w, frame)
                &&& new_w.windows.index == old_w.windows.index
                &&& new_w.layout == old_w.layout
                &&& new_w.name == old_w.name
                &&& calls@ == refresh_requests(old_w, frame, old(self).config@.focus_color, old(self).config@.unfocus_color)
            }),
    {
        let mut work = self.window_manager.workspaces.cards.remove(i);
        let calls = work.refresh(frame, self.config.current());
        self.window_manager.workspaces.cards.insert(i, work);
        proof {
            assert forall|j: int| 0 <= j < self.window_manager.workspaces.cards@.len() implies (#[trigger] self.window_manager.workspaces.cards@[j]).windows.wf() by {
                if j != i {
                    assert(old(self).window_manager.workspaces.cards@[j].windows.wf());
                }
            }
        }
        calls
    }

    /// The positions, in order, of the bindings whose key is `key`; each
    /// binding must have been looked up.
    pub fn matching_bindings(&self, key: Key) -> (r: Vec<usize>)
        requires
            forall|j: int| 0 <= j < self.config@.keys@.len() ==> (#[trigger] self.config@.keys@[j]).binding is Some,
        ensures
            r@ == matching(self.config@.keys@, key),
    {
        let keys = &self.config.current().keys;
        let mut r: Vec<usize> = Vec::new();
        let mut j: usize = 0;
        while j < keys.len()
            invariant
                *keys == self.config@.keys,
                j <= keys@.len(),
                forall|i: int| 0 <= i < keys@.len() ==> (#[trigger] keys@[i]).binding is Some,
                r@ == matching(keys@.take(j as int), key),
            decreases keys@.len() - j,
        {
            proof {
                assert(keys@.take(j + 1).drop_last() =~= keys@.take(j as int));
            }
            if *keys[j].unwrap() == key {
                r.push(j);
            }
            j = j + 1;
        }
        proof {
            assert(keys@.take(j as int) =~= keys@);
        }
        r
    }
}


/// Moving the focus forward and then backward returns it to the window it
/// started on, on a stack with a current window.
pub proof fn law_focus_forward_back(w1: Workspace, w2: Workspace, w3: Workspace)
    requires
        w1.windows.wf(),
        w1.windows.index is Some,
        focus_post(w1, Direction::Forward, w2),
        focus_post(w2, Direction::Backward, w3),
    ensures
        w3.windows.index == w1.windows.index,
        w3.windows.cards@ == w1.windows.cards@,
{
    let l = w1.windows.cards@.len();
    let i = w1.windows.index.unwrap() as int;
    assert(l <= usize::MAX) by {
        assert(w1.windows.cards@.len() == w1.windows.cards.len());
    }
    law_cycle_step_back(l, i);
}

/// Moving the current window forward and then backward puts every window
/// back in its place and keeps it current.
pub proof fn law_translate_forward_back(w1: Workspace, w2: Workspace, w3: Workspace)
    requires
        w1.windows.wf(),
        w1.windows.index is Some,
        translate_post(w1, Direction::Forward, w2),
        translate_post(w2, Direction::Backward, w3),
    ensures
        w3.windows.index == w1.windows.index,
        w3.windows.cards@ == w1.windows.cards@,
{
    let l = w1.windows.cards@.len();
    let i = w1.windows.index.unwrap() as int;
    assert(l <= usize::MAX) by {
        assert(w1.windows.cards@.len() == w1.windows.cards.len());
    }
    law_cycle_step_back(l, i);
    crate::cycle::law_cycle_in_range(l, i + 1);
    assert(w3.windows.cards@ =~= w1.windows.cards@);
}

/// Sending the current window to the top twice is the same as once.
pub proof fn law_master_idempotent(w1: Workspace, w2: Workspace, w3: Workspace)
    requires
        w1.windows.wf(),
        master_post(w1, w2),
        master_post(w2, w3),
    ensures
        w3.windows.index == w2.windows.index,
        w3.windows.cards@ == w2.windows.cards@,
{
    if w1.windows.index is Some && w1.windows.cards@.len() > 0 {
        assert(w3.windows.cards@ =~= w2.windows.cards@);
    }
}

/// Switching to the next workspace and then to the previous one comes back
/// to the workspace one started on.
pub proof fn law_switch_forward_back(l: nat, c: int)
    requires
        0 <= c < l,
        l <= usize::MAX,
    ensures
        cycle_at(l, cycle_at(l, c + offset(Direction::Forward)).unwrap() + offset(Direction::Backward)) == Some(c as usize),
{
    law_cycle_step_back(l, c);
}


/// Whether a step of `off` from position `i` on a ring of `l` positions
/// stays within `isize` (see `step_ok`).
fn step_fits(l: usize, i: usize, off: i8) -> (b: bool)
    ensures
        b == step_ok(l as nat, i as int, off as int),
{
    let max = isize::MAX as u128;
    if l as u128 > max {
        return false;
    }
    let j: i128 = i as i128 + off as i128;
    if j < isize::MIN as i128 || j > isize::MAX as i128 {
        return false;
    }
    if l == 0 || j == 0 {
        return true;
    }
    if j == isize::MIN as i128 {
        return false;
    }
    let ab: u128 = if j < 0 { (-j) as u128 } else { j as u128 };
    let a: u128 = ab % (l as u128);
    assert(a * ab <= 0xffff_ffff_ffff_ffff * 0x8000_0000_0000_0000) by (nonlinear_arith)
        requires
            a <= 0xffff_ffff_ffff_ffff,
            ab <= 0x8000_0000_0000_0000,
    ;
    a * ab <= max && (j < 0 || l as u128 + a <= max)
}

impl Gallium {
    /// Whether `handle_message` can act on `msg` within its arithmetic range
    /// (see `message_ok`).
    pub fn message_in_range(&self, msg: &Message) -> (b: bool)
        requires
            self.ready(),
        ensures
            b == message_ok(*self, *msg),
    {
        let c = match self.window_manager.workspaces.index {
            Some(c) => c,
            None => 0,
        };
        let work = &self.window_manager.workspaces.cards[c];
        match msg {
            Message::Focus(d) => {
                let l = work.windows.cards.len();
                match d {
                    Direction::Backward => {
                        let i = match work.windows.index {
                            Some(i) => i,
                            None => 1,
                        };
                        step_fits(l, i, -1)
                    },
                    Direction::Forward => {
                        let i = match work.windows.index {
                            Some(i) => i,
                            None => 0,
                        };
                        step_fits(l, i, 1)
                    },
                    _ => true,
                }
            },
            Message::Translate(d) => {
                match work.windows.index {
                    Some(i) => {
                        let off: i8 = match d {
                            Direction::Forward => 1,
                            Direction::Backward => -1,
                            _ => 0,
                        };
                        step_fits(work.windows.cards.len(), i, off)
                    },
                    None => true,
                }
            },
            Message::Switch(d) => {
                let l = self.window_manager.workspaces.cards.len();
                match d {
                    Direction::Backward => step_fits(l, c, -1),
                    Direction::Forward => step_fits(l, c, 1),
                    _ => step_fits(l, 0, 0),
                }
            },
            Message::Resize(d) => {
                match current_index(&work.windows) {
                    Some(i) => {
                        let win = &work.windows.cards[i];
                        if !win.floating {
                            return true;
                        }
                        let (dx, dy): (i64, i64) = match d {
                            Direction::Backward => (-15, 0),
                            Direction::Forward => (15, 0),
                            Direction::Up => (0, -15),
                            Direction::Down => (0, 15),
                        };
                        let a = (#[verifier::truncate] (win.size.0 as i32)) as i64 + dx;
                        let b = (#[verifier::truncate] (win.size.1 as i32)) as i64 + dy;
                        i32::MIN as i64 <= a && a <= i32::MAX as i64 && i32::MIN as i64 <= b && b <= i32::MAX as i64
                    },
                    None => true,
                }
            },
            Message::Move(d) => {
                match current_index(&work.windows) {
                    Some(i) => {
                        let win = &work.windows.cards[i];
                        if !win.floating {
                            return true;
                        }
                        let (dx, dy): (i128, i128) = match d {
                            Direction::Backward => (-15, 0),
                            Direction::Forward => (15, 0),
                            Direction::Up => (0, -15),
                            Direction::Down => (0, 15),
                        };
                        let a = win.x as i128 + dx;
                        let b = win.y as i128 + dy;
                        isize::MIN as i128 <= a && a <= isize::MAX as i128 && isize::MIN as i128 <= b && b <= isize::MAX as i128
                    },
                    None => true,
                }
            },
            _ => true,
        }
    }
}


/// A destroyed window leaves the workspace: when the workspace held it at
/// most once, no window of it remains.
pub proof fn law_destroy_forgets(old: Workspace, ptr: u64, new: Workspace)
    requires
        without_ptr(old, ptr, new),
        forall|a: int, b: int|
            0 <= a < b < old.windows.cards@.len() && old.windows.cards@[a].wind_ptr == ptr ==> old.windows.cards@[b].wind_ptr
                != ptr,
    ensures
        forall|j: int| 0 <= j < new.windows.cards@.len() ==> new.windows.cards@[j].wind_ptr != ptr,
{
    let ws = old.windows.cards@;
    match first_ptr(ws, ptr) {
        Some(k) => {
            let k2 = choose|k: int| is_first_ptr(ws, ptr, k);
            assert(is_first_ptr(ws, ptr, k2));
            assert forall|j: int| 0 <= j < new.windows.cards@.len() implies new.windows.cards@[j].wind_ptr != ptr by {
                if j < k {
                    assert(new.windows.cards@[j] == ws[j]);
                } else {
                    assert(new.windows.cards@[j] == ws[j + 1]);
                }
            }
        },
        None => {
            assert forall|j: int| 0 <= j < ws.len() implies ws[j].wind_ptr != ptr by {
                if ws[j].wind_ptr == ptr {
                    let k = choose|k: int| 0 <= k <= j && ws[k].wind_ptr == ptr && forall|i: int| 0 <= i < k ==> ws[i].wind_ptr != ptr;
                    assert(is_first_ptr(ws, ptr, k));
                }
            }
        },
    }
}


/// `Master` brings the current window to the top of the stack and keeps it
/// current; the window that was on top takes the current window's old
/// place, and every other window stays where it was.
pub proof fn law_master_to_top(old: Gallium, key: Key, new: Gallium, steps: Seq<Step>)
    requires
        old.ready(),
        old.cur_ws().windows.index is Some,
        message_post(old, Message::Master, key, new, steps),
    ensures
        ({
            let ws = old.cur_ws().windows.cards@;
            let i = old.cur_ws().windows.index.unwrap() as int;
            let nw = new.cur_ws().windows.cards@;
            &&& nw.len() == ws.len()
            &&& nw[0] == ws[i]
            &&& nw[i] == ws[0]
            &&& forall|j: int| 0 <= j < ws.len() && j != 0 && j != i ==> nw[j] == ws[j]
            &&& new.cur_ws().windows.index == Some(0usize)
            &&& new.window_manager.workspaces.index == old.window_manager.workspaces.index
            &&& steps == seq![Step::Refresh(old.cur() as usize)]
        }),
{
    assert(old.window_manager.workspaces.cards@[old.cur()].windows.wf());
}

/// `Kill` asks the X server to close the current window and takes exactly
/// that window out of the stack: the windows before it keep their places,
/// the ones after it move up by one, and when no two windows share an X
/// window, none of the remaining ones is the killed window.
pub proof fn law_kill_removes_current(old: Gallium, key: Key, new: Gallium, steps: Seq<Step>)
    requires
        old.ready(),
        old.cur_ws().windows.index is Some,
        message_post(old, Message::Kill, key, new, steps),
    ensures
        ({
            let ws = old.cur_ws().windows.cards@;
            let i = old.cur_ws().windows.index.unwrap() as int;
            let nw = new.cur_ws().windows.cards@;
            &&& nw.len() == ws.len() - 1
            &&& forall|j: int| 0 <= j < i ==> nw[j] == ws[j]
            &&& forall|j: int| i <= j < nw.len() ==> nw[j] == ws[j + 1]
            &&& steps == seq![Step::Call(XCall::KillWindow(ws[i].wind_ptr)), Step::Refresh(old.cur() as usize)]
            &&& (forall|a: int, b: int| 0 <= a < b < ws.len() ==> ws[a].wind_ptr != ws[b].wind_ptr) ==> forall|j: int|
                0 <= j < nw.len() ==> nw[j].wind_ptr != ws[i].wind_ptr
        }),
{
    let ws = old.cur_ws().windows.cards@;
    let i = old.cur_ws().windows.index.unwrap() as int;
    let nw = new.cur_ws().windows.cards@;
    assert(old.window_manager.workspaces.cards@[old.cur()].windows.wf());
    if forall|a: int, b: int| 0 <= a < b < ws.len() ==> ws[a].wind_ptr != ws[b].wind_ptr {
        assert forall|j: int| 0 <= j < nw.len() implies nw[j].wind_ptr != ws[i].wind_ptr by {
            if j < i {
                assert(nw[j] == ws[j]);
            } else {
                assert(nw[j] == ws[j + 1]);
            }
        }
    }
}

/// The workspace that `Switch` makes current among `n`: backward the one
/// before `c` (the last from the first), forward the one after `c` (the
/// first from the last).
pub open spec fn switch_target(n: int, c: int, dir: Direction) -> int {
    match dir {
        Direction::Backward => if c == 0 { n - 1 } else { c - 1 },
        _ => if c == n - 1 { 0 } else { c + 1 },
    }
}

proof fn lemma_switch_target(n: int, c: int, dir: Direction)
    requires
        0 <= c < n,
        dir == Direction::Backward || dir == Direction::Forward,
    ensures
        cycle_at(n as nat, c + offset(dir)) == Some(switch_target(n, c, dir) as usize),
{
    vstd::arithmetic::div_mod::lemma_mod_self_0(n);
    if dir == Direction::Backward {
        if c == 0 {
            vstd::arithmetic::div_mod::lemma_fundamental_div_mod_converse(-1, n, -1, n - 1);
        } else {
            vstd::arithmetic::div_mod::lemma_small_mod((c - 1) as nat, n as nat);
        }
    } else {
        if c + 1 < n {
            vstd::arithmetic::div_mod::lemma_small_mod((c + 1) as nat, n as nat);
        }
    }
}

/// `Switch` backward makes the previous workspace current (wrapping from
/// the first to the last), forward the next one (wrapping from the last to
/// the first), and its steps end by asking for that workspace to be
/// refreshed. (Shown for at most `u32::MAX` workspaces, the range of the
/// workspace position that `switch` takes.)
pub proof fn law_switch_wraps(old: Gallium, dir: Direction, key: Key, new: Gallium, steps: Seq<Step>)
    requires
        old.ready(),
        old.window_manager.workspaces.cards@.len() <= u32::MAX,
        dir == Direction::Backward || dir == Direction::Forward,
        message_post(old, Message::Switch(dir), key, new, steps),
    ensures
        ({
            let t = switch_target(old.window_manager.workspaces.cards@.len() as int, old.cur(), dir);
            &&& new.window_manager.workspaces.index == Some(t as usize)
            &&& steps.len() > 0
            &&& steps.last() == Step::Refresh(t as usize)
            &&& dir == Direction::Backward ==> t == (if old.cur() == 0 {
                old.window_manager.workspaces.cards@.len() - 1
            } else {
                old.cur() - 1
            })
            &&& dir == Direction::Forward ==> t == (if old.cur() + 1 == old.window_manager.workspaces.cards@.len() {
                0
            } else {
                old.cur() + 1
            })
        }),
{
    let n = old.window_manager.workspaces.cards@.len() as int;
    lemma_switch_target(n, old.cur(), dir);
}

/// `Switch` forward and then backward, both through the key handler, comes
/// back to the workspace it started from.
pub proof fn law_switch_round_trip(
    g0: Gallium,
    g1: Gallium,
    g2: Gallium,
    key: Key,
    s1: Seq<Step>,
    s2: Seq<Step>,
)
    requires
        g0.ready(),
        g1.ready(),
        g0.window_manager.workspaces.cards@.len() <= u32::MAX,
        message_post(g0, Message::Switch(Direction::Forward), key, g1, s1),
        message_post(g1, Message::Switch(Direction::Backward), key, g2, s2),
    ensures
        g2.window_manager.workspaces.index == g0.window_manager.workspaces.index,
{
    law_switch_wraps(g0, Direction::Forward, key, g1, s1);
    law_switch_wraps(g1, Direction::Backward, key, g2, s2);
}

/// A size held within `0..=2048`.
pub open spec fn held(v: int) -> int {
    if v < 0 {
        0
    } else if v > 2048 {
        2048
    } else {
        v
    }
}

/// `Resize` of a current floating window: up takes 15 from its height,
/// down adds 15, backward takes 15 from its width, forward adds 15, and
/// both sides are held within `0..=2048`; nothing else about the window
/// changes.
pub proof fn law_resize_sizes(old: Gallium, dir: Direction, key: Key, new: Gallium, steps: Seq<Step>)
    requires
        old.ready(),
        old.cur_ws().windows.index is Some,
        old.cur_ws().windows.cards@[old.cur_ws().windows.index.unwrap() as int].floating,
        old.cur_ws().windows.cards@[old.cur_ws().windows.index.unwrap() as int].size.0 <= i32::MAX,
        old.cur_ws().windows.cards@[old.cur_ws().windows.index.unwrap() as int].size.1 <= i32::MAX,
        message_post(old, Message::Resize(dir), key, new, steps),
    ensures
        ({
            let i = old.cur_ws().windows.index.unwrap() as int;
            let w = old.cur_ws().windows.cards@[i];
            let nw = new.cur_ws().windows.cards@;
            let (a, b) = (w.size.0 as int, w.size.1 as int);
            &&& nw == old.cur_ws().windows.cards@.update(i, nw[i])
            &&& nw[i] == Window { size: nw[i].size, ..w }
            &&& dir == Direction::Up ==> nw[i].size.0 == held(a) && nw[i].size.1 == held(b - 15)
            &&& dir == Direction::Down ==> nw[i].size.0 == held(a) && nw[i].size.1 == held(b + 15)
            &&& dir == Direction::Backward ==> nw[i].size.0 == held(a - 15) && nw[i].size.1 == held(b)
            &&& dir == Direction::Forward ==> nw[i].size.0 == held(a + 15) && nw[i].size.1 == held(b)
            &&& new.cur_ws().windows.index == old.cur_ws().windows.index
            &&& steps == seq![Step::Refresh(old.cur() as usize)]
        }),
{
    assert(old.window_manager.workspaces.cards@[old.cur()].windows.wf());
    let i = old.cur_ws().windows.index.unwrap() as int;
    let w = old.cur_ws().windows.cards@[i];
    assert(w.size.0 as i32 == w.size.0);
    assert(w.size.1 as i32 == w.size.1);
    assert forall|v: usize, d: int| v <= i32::MAX && -15 <= d <= 15 implies #[trigger] resized(v, d) as int == held(v + d) by {
        assert(v as i32 == v);
    }
    assert(resized(w.size.0, delta(dir).0) as int == held(w.size.0 + delta(dir).0));
    assert(resized(w.size.1, delta(dir).1) as int == held(w.size.1 + delta(dir).1));
    assert(floating_current(old.cur_ws()));
}

/// `Resize` up and then down restores the height of a current floating
/// window whose height lies within `15..=2033`.
pub proof fn law_resize_up_down(
    g0: Gallium,
    g1: Gallium,
    g2: Gallium,
    key: Key,
    s1: Seq<Step>,
    s2: Seq<Step>,
)
    requires
        g0.ready(),
        g1.ready(),
        g0.cur_ws().windows.index is Some,
        g0.cur_ws().windows.cards@[g0.cur_ws().windows.index.unwrap() as int].floating,
        g0.cur_ws().windows.cards@[g0.cur_ws().windows.index.unwrap() as int].size.0 <= 2048,
        15 <= g0.cur_ws().windows.cards@[g0.cur_ws().windows.index.unwrap() as int].size.1 <= 2033,
        message_post(g0, Message::Resize(Direction::Up), key, g1, s1),
        message_post(g1, Message::Resize(Direction::Down), key, g2, s2),
    ensures
        g2.cur_ws().windows.cards@ == g0.cur_ws().windows.cards@,
{
    law_resize_sizes(g0, Direction::Up, key, g1, s1);
    let i = g0.cur_ws().windows.index.unwrap() as int;
    assert(g1.cur() == g0.cur());
    law_resize_sizes(g1, Direction::Down, key, g2, s2);
    assert(g2.cur_ws().windows.cards@ =~= g0.cur_ws().windows.cards@);
}

} // verus!
