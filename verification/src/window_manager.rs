//! Windows, workspaces and the window manager that holds them.
use vstd::prelude::*;
use crate::config::{Color, Config, WorkspaceConf};
use crate::key::Key;
use crate::layout::{implemented, Frame, Layout, LayoutBox, LayoutFactory};
use crate::xserver::{refresh, refresh_seq, refreshed, XCall};

pub use crate::cycle::Cycle;
pub use crate::deck::Deck;

verus! {

/// A managed X window and the geometry that the layouts give it.
#[derive(Clone, Copy, Debug, PartialEq, Eq)]
pub struct Window {
    pub wind_ptr: u64,
    pub floating: bool,
    /// Whether the window should be visible (see `xserver::refresh`).
    pub shown: bool,
    /// Whether the window is mapped on the X server right now.
    pub _mapped: bool,
    pub x: isize,
    pub y: isize,
    pub z: isize,
    pub size: (usize, usize),
}

impl Window {
    /// A window that the X server has just asked to map: tiled, hidden,
    /// not mapped, at the origin with no size.
    pub fn new(wind_ptr: u64) -> (w: Window)
        ensures
            w == (Window { wind_ptr, floating: false, shown: false, _mapped: false, x: 0, y: 0, z: 0, size: (0, 0) }),
    {
        Window { wind_ptr, floating: false, shown: false, _mapped: false, x: 0, y: 0, z: 0, size: (0, 0) }
    }
}

/// A workspace: a stack of windows, the most recent on top, and the layout
/// that places them.
pub struct Workspace {
    pub windows: Deck<Window>,
    pub layout: LayoutBox,
    pub name: String,
}

/// The X window of the current card, if the position names one.
pub open spec fn focus_ptr(ws: Seq<Window>, index: Option<usize>) -> Option<u64> {
    match index {
        Some(i) => if i < ws.len() { Some(ws[i as int].wind_ptr) } else { None },
        None => None,
    }
}

/// The border requests of a refresh: the focused window gets the focus
/// colour and the input focus, every other window the unfocused colour.
pub open spec fn border_calls(ws: Seq<Window>, focus: Option<u64>, fc: Color, uc: Color) -> Seq<XCall>
    decreases ws.len(),
{
    if ws.len() == 0 {
        Seq::<XCall>::empty()
    } else {
        let w = ws.last();
        let tail = if focus == Some(w.wind_ptr) {
            seq![XCall::SetBorderColor(w.wind_ptr, fc.0 as u64), XCall::Focus(w.wind_ptr)]
        } else {
            seq![XCall::SetBorderColor(w.wind_ptr, uc.0 as u64)]
        };
        border_calls(ws.drop_last(), focus, fc, uc) + tail
    }
}

/// The windows after a workspace refresh.
pub open spec fn refreshed_windows(w: Workspace, frame: Frame) -> Seq<Window> {
    refresh_seq(
        w.layout.arrangement(frame, w.windows.cards@, w.windows.index),
        w.layout.order(w.windows.cards@, w.windows.index),
    ).0
}

/// The requests of a workspace refresh: those of the layout's windows, then
/// the borders and the focus.
pub open spec fn refresh_requests(w: Workspace, frame: Frame, fc: Color, uc: Color) -> Seq<XCall> {
    let after = refreshed_windows(w, frame);
    refresh_seq(
        w.layout.arrangement(frame, w.windows.cards@, w.windows.index),
        w.layout.order(w.windows.cards@, w.windows.index),
    ).1 + border_calls(after, focus_ptr(after, w.windows.index), fc, uc)
}

impl Workspace {
    /// Whether the workspace's layout can place its windows on `frame`.
    pub open spec fn fits(&self, frame: Frame) -> bool {
        self.layout.fits(frame, self.windows.cards@, self.windows.index)
    }

    /// Whether `refresh` can place the windows on `frame`.
    pub fn can_refresh(&self, frame: Frame) -> (b: bool)
        ensures
            b == self.fits(frame),
    {
        self.layout.can_arrange(frame, &self.windows.cards, self.windows.index)
    }

    /// Lets the layout place the windows, brings every window it placed in
    /// line with the X server, and colours the borders: the focus colour and
    /// the input focus for the current window, the unfocused colour for the
    /// others. Returns the requests, in order.
    pub fn refresh(&mut self, frame: Frame, config: &Config) -> (calls: Vec<XCall>)
        requires
            old(self).fits(frame),
        ensures
            final(self).windows.cards@ == refreshed_windows(*old(self), frame),
            final(self).windows.cards@.len() == old(self).windows.cards@.len(),
            final(self).windows.index == old(self).windows.index,
            final(self).layout == old(self).layout,
            final(self).name == old(self).name,
            calls@ == refresh_requests(*old(self), frame, config.focus_color, config.unfocus_color),
    {
        let ghost old_cards = self.windows.cards@;
        let mut calls = self.layout.apply(frame, &mut self.windows.cards, self.windows.index);
        let ghost after = self.windows.cards@;
        let mast: Option<u64> = match self.windows.current() {
            Some(w) => Some(w.wind_ptr),
            None => None,
        };
        assert(mast == focus_ptr(after, self.windows.index));
        let ghost before = calls@;
        let n = self.windows.cards.len();
        let mut i: usize = 0;
        while i < n
            invariant
                n == self.windows.cards@.len(),
                self.windows.cards@ == after,
                self.windows.index == old(self).windows.index,
                self.layout == old(self).layout,
                self.name == old(self).name,
                i <= n,
                calls@ == before + border_calls(after.take(i as int), mast, config.focus_color, config.unfocus_color),
            decreases n - i,
        {
            let p = self.windows.cards[i].wind_ptr;
            proof {
                assert(after.take(i + 1).drop_last() =~= after.take(i as int));
            }
            if mast.is_some() && p == mast.unwrap() {
                calls.push(XCall::SetBorderColor(p, config.focus_color.0 as u64));
                calls.push(XCall::Focus(p));
            } else {
                calls.push(XCall::SetBorderColor(p, config.unfocus_color.0 as u64));
            }
            proof {
                assert(calls@ =~= before + border_calls(after.take(i + 1), mast, config.focus_color, config.unfocus_color));
            }
            i = i + 1;
        }
        proof {
            assert(after.take(n as int) =~= after);
        }
        calls
    }
}


/// A screen and the workspace shown on it.
#[derive(Debug, PartialEq, Eq)]
pub struct Monitor {
    pub workspace: u32,
}

/// The screens and the workspaces.
pub struct WindowManager {
    pub screens: Deck<Monitor>,
    pub workspaces: Deck<Workspace>,
}

/// A step that the window manager asks its driver to take: send a request
/// to the X server, refresh a workspace (the driver supplies the frame),
/// spawn a program, reload the configuration, or quit.
#[derive(Debug, PartialEq, Eq)]
pub enum Step {
    Call(XCall),
    Refresh(usize),
    Spawn(String, String),
    Reload,
    Quit(Key),
}

/// The windows hidden and brought in line with the X server.
pub open spec fn hide_all(ws: Seq<Window>) -> Seq<Window> {
    Seq::new(ws.len(), |i: int| refreshed(Window { shown: false, ..ws[i] }))
}

/// The steps of hiding the windows: an unmap for each mapped window, in
/// order.
pub open spec fn hide_steps(ws: Seq<Window>) -> Seq<Step>
    decreases ws.len(),
{
    if ws.len() == 0 {
        Seq::<Step>::empty()
    } else {
        let w = ws.last();
        let tail = if w._mapped {
            seq![Step::Call(XCall::UnmapWindow(w.wind_ptr))]
        } else {
            Seq::<Step>::empty()
        };
        hide_steps(ws.drop_last()) + tail
    }
}

/// Whether workspace `w` is the fresh workspace of configuration `c`.
pub open spec fn fresh_workspace(w: Workspace, c: WorkspaceConf) -> bool {
    &&& w.windows.cards@ == Seq::<Window>::empty()
    &&& w.windows.index == None::<usize>
    &&& w.name@ == c.name@
    &&& c.layout == crate::layout::Layouts::Tall ==> w.layout == LayoutBox::Tall(crate::layout::TallLayout { master: 1, percent: 50 })
    &&& c.layout == crate::layout::Layouts::Full ==> w.layout == LayoutBox::Full(crate::layout::FullLayout)
}

/// The result of `WindowManager::switch` to workspace `ind`: the current
/// workspace's windows hidden and unmapped, nothing else changed but the
/// current position, which is `ind`; the steps unmap, then refresh `ind`.
pub open spec fn switch_post(old: WindowManager, ind: int, new: WindowManager, steps: Seq<Step>) -> bool {
    let c = old.workspaces.index.unwrap() as int;
    let old_w = old.workspaces.cards@[c];
    let new_w = new.workspaces.cards@[c];
    &&& new.workspaces.cards@.len() == old.workspaces.cards@.len()
    &&& forall|j: int| 0 <= j < old.workspaces.cards@.len() && j != c ==> new.workspaces.cards@[j] == old.workspaces.cards@[j]
    &&& new_w.windows.cards@ == hide_all(old_w.windows.cards@)
    &&& new_w.windows.index == old_w.windows.index
    &&& new_w.layout == old_w.layout
    &&& new_w.name == old_w.name
    &&& steps == hide_steps(old_w.windows.cards@).push(Step::Refresh(ind as usize))
    &&& new.workspaces.index == Some(ind as usize)
    &&& new.screens == old.screens
}

impl WindowManager {
    /// One screen showing workspace 0, and one empty workspace for each
    /// workspace of the configuration, the first one current.
    pub fn new(config: &Config) -> (wm: WindowManager)
        requires
            config.workspaces@.len() > 0,
            forall|i: int| 0 <= i < config.workspaces@.len() ==> implemented(#[trigger] config.workspaces@[i].layout),
        ensures
            wm.workspaces.cards@.len() == config.workspaces@.len(),
            forall|i: int|
                0 <= i < config.workspaces@.len() ==> fresh_workspace(#[trigger] wm.workspaces.cards@[i], config.workspaces@[i]),
            wm.workspaces.index == Some(0usize),
            wm.screens.cards@.len() == 1,
            wm.screens.cards@[0].workspace == 0,
            wm.screens.index == Some(0usize),
    {
        let mut screens: Deck<Monitor> = Deck::new();
        let mut works: Deck<Workspace> = Deck::new();
        let n = config.workspaces.len();
        let mut i: usize = 0;
        while i < n
            invariant
                n == config.workspaces@.len(),
                i <= n,
                works.cards@.len() == i,
                works.index == (if i == 0 { None } else { Some(0usize) }),
                forall|j: int| 0 <= j < config.workspaces@.len() ==> implemented(#[trigger] config.workspaces@[j].layout),
                forall|j: int| 0 <= j < i ==> fresh_workspace(#[trigger] works.cards@[j], config.workspaces@[j]),
            decreases n - i,
        {
            let wind_conf = &config.workspaces[i];
            let wind_deck: Deck<Window> = Deck::new();
            let work = Workspace {
                windows: wind_deck,
                layout: LayoutFactory(wind_conf.layout),
                name: wind_conf.name.clone(),
            };
            works.push(work);
            i = i + 1;
        }
        works.select(0);
        let scr = Monitor { workspace: 0 };
        screens.push(scr);
        WindowManager { screens, workspaces: works }
    }

    /// Shows workspace `ind` in place of the current one: hides and unmaps
    /// every window of the current workspace, makes `ind` current and
    /// asks for it to be refreshed.
    pub fn switch(&mut self, ind: u32) -> (steps: Vec<Step>)
        requires
            (ind as int) < old(self).workspaces.cards@.len(),
            old(self).workspaces.wf(),
            old(self).workspaces.index is Some,
        ensures
            switch_post(*old(self), ind as int, *final(self), steps@),
    {
        let ghost c = self.workspaces.index.unwrap() as int;
        let ghost old_cards = self.workspaces.cards@[c].windows.cards@;
        let mut steps: Vec<Step> = Vec::new();
        match self.workspaces.current() {
            Some(work) => {
                let n = work.windows.cards.len();
                let mut i: usize = 0;
                while i < n
                    invariant
                        n == work.windows.cards@.len(),
                        n == old_cards.len(),
                        i <= n,
                        work.windows.index == old(self).workspaces.cards@[c].windows.index,
                        work.layout == old(self).workspaces.cards@[c].layout,
                        work.name == old(self).workspaces.cards@[c].name,
                        forall|j: int| 0 <= j < i ==> work.windows.cards@[j] == hide_all(old_cards)[j],
                        forall|j: int| i <= j < n ==> work.windows.cards@[j] == old_cards[j],
                        steps@ == hide_steps(old_cards.take(i as int)),
                    decreases n - i,
                {
                    let mut w = work.windows.cards[i];
                    w.shown = false;
                    let calls = refresh(&mut w);
                    work.windows.cards.set(i, w);
                    if calls.len() > 0 {
                        steps.push(Step::Call(XCall::UnmapWindow(w.wind_ptr)));
                    }
                    proof {
                        assert(old_cards.take(i + 1).drop_last() =~= old_cards.take(i as int));
                    }
                    i = i + 1;
                }
                proof {
                    assert(old_cards.take(n as int) =~= old_cards);
                    assert(work.windows.cards@ =~= hide_all(old_cards));
                }
            },
            None => {},
        }
        self.workspaces.select(ind as usize);
        steps.push(Step::Refresh(ind as usize));
        steps
    }
}

} // verus!
