use gallium::config::SpecialMsg;
use gallium::layout::{clamp, Frame, FullLayout, Layout, LayoutBox, LayoutFactory, Layouts, TallLayout};
use gallium::window_manager::Window;
use gallium::xserver::XCall;

fn win(p: u64, floating: bool) -> Window {
    Window { wind_ptr: p, floating, shown: false, _mapped: false, x: 0, y: 0, z: 0, size: (0, 0) }
}

fn frame(master_width: usize) -> Frame {
    Frame { width: 1000, height: 800, padding: 5, spacing: 5, master_width }
}

#[test]
fn clamp_holds_within_range() {
    assert_eq!(clamp(0, 7, 5), 5);
    assert_eq!(clamp(0, 3, 5), 3);
    assert_eq!(clamp(2, 1, 5), 2);
    assert_eq!(clamp(5, 9, 5), 5);
    assert_eq!(clamp(5, 9, 3), 5);
    assert_eq!(clamp(0i32, -20, 2048), 0);
    assert_eq!(clamp(0i32, 3000, 2048), 2048);
}

#[test]
fn tall_one_master_two_stacked() {
    let t = TallLayout { master: 1, percent: 50 };
    let mut ws = vec![win(1, false), win(2, false), win(3, false)];
    let order = t.arrange(frame(495), &mut ws);
    assert_eq!(order, vec![0, 1, 2]);
    assert_eq!((ws[0].x, ws[0].y, ws[0].size), (5, 5, (490, 790)));
    assert_eq!((ws[1].x, ws[1].y, ws[1].size), (500, 5, (495, 395)));
    assert_eq!((ws[2].x, ws[2].y, ws[2].size), (500, 405, (495, 390)));
    assert!(ws.iter().all(|w| w.shown));
    // the stack column is tiled to the bottom padding
    assert_eq!(ws[2].y as usize + ws[2].size.1, 5 + 790);
}

#[test]
fn tall_floating_windows_are_untouched_and_first() {
    let t = TallLayout { master: 1, percent: 50 };
    let mut f = win(9, true);
    f.x = 33;
    f.size = (100, 100);
    let mut ws = vec![win(1, false), f, win(3, false)];
    let order = t.arrange(frame(495), &mut ws);
    assert_eq!(order, vec![1, 0, 2]);
    assert_eq!(ws[1], f);
    assert_eq!((ws[0].x, ws[0].y, ws[0].size), (5, 5, (490, 790)));
    assert_eq!((ws[2].x, ws[2].y, ws[2].size), (500, 5, (495, 790)));
}

#[test]
fn tall_all_master_takes_whole_width() {
    let t = TallLayout { master: 5, percent: 50 };
    let mut ws = vec![win(1, false), win(2, false)];
    t.arrange(frame(495), &mut ws);
    // 790 / 2 = 395, the first takes the odd remainder (790 - 10) % 2 = 0
    assert_eq!((ws[0].x, ws[0].y, ws[0].size), (5, 5, (990, 395)));
    assert_eq!((ws[1].x, ws[1].y, ws[1].size), (5, 405, (990, 390)));
}

#[test]
fn tall_uneven_split_stretches_the_first() {
    let t = TallLayout { master: 3, percent: 50 };
    let mut ws = vec![win(1, false), win(2, false), win(3, false)];
    t.arrange(frame(495), &mut ws);
    // 790 / 3 = 263, (790 - 15) % 3 = 1
    assert_eq!(ws[0].size.1, 264);
    assert_eq!(ws[1].y, 5 + 264 + 5);
    assert_eq!(ws[1].size.1, 258);
    assert_eq!(ws[2].y, 5 + 264 + 263 + 5);
    assert_eq!(ws[2].y as usize + ws[2].size.1, 795);
}

#[test]
fn tall_without_master_uses_overflow_only() {
    let t = TallLayout { master: 0, percent: 50 };
    let mut ws = vec![win(1, false)];
    t.arrange(frame(495), &mut ws);
    assert_eq!((ws[0].x, ws[0].y, ws[0].size), (5, 5, (990, 790)));
}

#[test]
fn tall_master_width_is_held_in_range() {
    let t = TallLayout { master: 1, percent: 50 };
    let mut ws = vec![win(1, false), win(2, false)];
    t.arrange(frame(5000), &mut ws);
    // clamp(5, 5000, 990) - 5 = 985, overflow width 0
    assert_eq!(ws[0].size.0, 985);
    assert_eq!(ws[1].size.0, 0);
    assert_eq!(ws[1].x, 995);
}

#[test]
fn tall_empty_does_nothing() {
    let t = TallLayout { master: 1, percent: 50 };
    let mut ws: Vec<Window> = vec![];
    assert_eq!(t.arrange(frame(495), &mut ws), Vec::<usize>::new());
}

#[test]
fn tall_fit_check() {
    let t = TallLayout { master: 1, percent: 50 };
    let ws = vec![win(1, false)];
    assert!(t.can_arrange(frame(495), &ws));
    let small = Frame { width: 8, height: 800, padding: 5, spacing: 5, master_width: 0 };
    assert!(!t.can_arrange(small, &ws));
    let t0 = TallLayout { master: 0, percent: 50 };
    let tight = Frame { width: 1000, height: 800, padding: 2, spacing: 5, master_width: 0 };
    assert!(!t0.can_arrange(tight, &ws));
    let many: Vec<Window> = (0..200).map(|i| win(i, false)).collect();
    assert!(!t.can_arrange(frame(495), &many));
}

#[test]
fn tall_special_steps_and_bounds() {
    let mut t = TallLayout { master: 1, percent: 50 };
    t.special(SpecialMsg::Grow);
    assert_eq!(t.percent, 55);
    t.special(SpecialMsg::Shrink);
    assert_eq!(t.percent, 50);
    for _ in 0..20 {
        t.special(SpecialMsg::Grow);
    }
    assert_eq!(t.percent, 95);
    for _ in 0..30 {
        t.special(SpecialMsg::Shrink);
    }
    assert_eq!(t.percent, 5);
    for _ in 0..9 {
        t.special(SpecialMsg::Add);
    }
    assert_eq!(t.master, 5);
    t.special(SpecialMsg::Subtract);
    assert_eq!(t.master, 4);
    for _ in 0..9 {
        t.special(SpecialMsg::Subtract);
    }
    assert_eq!(t.master, 0);
}

#[test]
fn full_shows_only_current() {
    let mut ws = vec![win(1, false), win(2, false), win(3, true)];
    ws[0].shown = true;
    let order = FullLayout.arrange(frame(0), &mut ws, Some(1));
    assert_eq!(order, vec![0, 2, 1]);
    assert!(!ws[0].shown);
    assert!(!ws[2].shown);
    assert_eq!((ws[1].x, ws[1].y, ws[1].size, ws[1].shown), (5, 5, (990, 790), true));
}

#[test]
fn full_without_current_does_nothing() {
    let mut ws = vec![win(1, false)];
    let before = ws.clone();
    let order = FullLayout.arrange(frame(0), &mut ws, None);
    assert!(order.is_empty());
    assert_eq!(ws, before);
}

#[test]
fn factory_builds_tall_and_full() {
    assert_eq!(LayoutFactory(Layouts::Tall), LayoutBox::Tall(TallLayout { master: 1, percent: 50 }));
    assert_eq!(LayoutFactory(Layouts::Full), LayoutBox::Full(FullLayout));
}

#[test]
fn layout_box_dispatches() {
    let mut l = LayoutFactory(Layouts::Tall);
    l.special(SpecialMsg::Add);
    assert_eq!(l, LayoutBox::Tall(TallLayout { master: 2, percent: 50 }));
    let mut ws = vec![win(1, false)];
    let mut w = win(5, false);
    l.add(&mut w);
    l.remove(0);
    assert_eq!(l, LayoutBox::Tall(TallLayout { master: 2, percent: 50 }));
    assert!(l.can_arrange(frame(495), &ws, None));
    assert_eq!(l.apply(frame(495), &mut ws, None), vec![XCall::MapWindow(1), XCall::MoveResize(1, 5, 5, 990, 790)]);
    assert_eq!(ws[0].size, (990, 790));
    assert!(ws[0]._mapped);
}

#[test]
fn full_apply_unmaps_the_hidden_windows() {
    let mut ws = vec![win(1, false), win(2, false)];
    ws[0].shown = true;
    ws[0]._mapped = true;
    ws[1].shown = true;
    ws[1]._mapped = true;
    let calls = FullLayout.apply(frame(0), &mut ws, Some(1));
    assert_eq!(calls, vec![XCall::UnmapWindow(1), XCall::MoveResize(2, 5, 5, 990, 790)]);
    assert!(!ws[0].shown && !ws[0]._mapped);
    assert!(ws[1].shown && ws[1]._mapped);
}

#[test]
fn tall_apply_refreshes_floating_first() {
    let t = TallLayout { master: 1, percent: 50 };
    let mut ws = vec![win(1, false), win(2, true)];
    ws[1].shown = true;
    ws[1].x = 40;
    ws[1].y = 50;
    ws[1].size = (60, 70);
    let calls = t.apply(frame(495), &mut ws, None);
    assert_eq!(
        calls,
        vec![
            XCall::MapWindow(2),
            XCall::MoveResize(2, 40, 50, 60, 70),
            XCall::MapWindow(1),
            XCall::MoveResize(1, 5, 5, 990, 790),
        ]
    );
    assert!(ws[0]._mapped && ws[1]._mapped);
}

#[test]
fn floating_windows_do_not_move_tiled_ones() {
    let t = TallLayout { master: 1, percent: 50 };
    let mut plain = vec![win(1, false), win(2, false), win(3, false)];
    let mut mixed = vec![win(9, true), win(1, false), win(8, true), win(2, false), win(3, false), win(7, true)];
    mixed[0].x = 11;
    mixed[2].size = (30, 40);
    let before = mixed.clone();
    t.arrange(frame(495), &mut plain);
    t.arrange(frame(495), &mut mixed);
    assert_eq!(mixed[1], plain[0]);
    assert_eq!(mixed[3], plain[1]);
    assert_eq!(mixed[4], plain[2]);
    assert_eq!(mixed[0], before[0]);
    assert_eq!(mixed[2], before[2]);
    assert_eq!(mixed[5], before[5]);
}

#[test]
fn clamp_keeps_order() {
    let vals = [-5i64, 0, 3, 7, 12];
    for &lo in &vals {
        for &hi in &vals {
            for &a in &vals {
                for &b in &vals {
                    if a <= b {
                        assert!(clamp(lo, a, hi) <= clamp(lo, b, hi));
                    }
                }
            }
        }
    }
    assert_eq!(clamp(2usize, 1, 5), 2);
    assert_eq!(clamp(2usize, 9, 5), 5);
}
