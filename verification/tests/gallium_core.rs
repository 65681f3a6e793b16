use gallium::config::{Config, Direction, Message, SpecialMsg, Color};
use gallium::gallium::Gallium;
use gallium::key::{parse_chord, Key, KeyMod, KOMMAND, MOD4, SHIFT};
use gallium::layout::{Frame, LayoutBox, Layouts, TallLayout, FullLayout};
use gallium::window_manager::{Step, Window, WindowManager};
use gallium::xserver::{quit_waits, refresh, ServerEvent, XCall};

fn win(p: u64) -> Window {
    Window { wind_ptr: p, floating: false, shown: false, _mapped: false, x: 0, y: 0, z: 0, size: (0, 0) }
}

fn frame() -> Frame {
    Frame { width: 1000, height: 800, padding: 5, spacing: 5, master_width: 495 }
}

fn key(code: u8) -> Key {
    Key::parse(code, 0, 0)
}

fn with_windows(n: u64) -> Gallium {
    let mut g = Gallium::setup();
    for p in 1..=n {
        let steps = g.handle_event(ServerEvent::MapRequest(win(p)));
        assert_eq!(steps, vec![Step::Refresh(0)]);
    }
    g
}

fn cur_windows(g: &Gallium) -> Vec<u64> {
    let c = g.window_manager.workspaces.index.unwrap();
    g.window_manager.workspaces.cards[c].windows.cards.iter().map(|w| w.wind_ptr).collect()
}

fn cur_index(g: &Gallium) -> Option<usize> {
    let c = g.window_manager.workspaces.index.unwrap();
    g.window_manager.workspaces.cards[c].windows.index
}

#[test]
fn default_configuration_values() {
    let c = gallium::config::default();
    assert_eq!(c.padding, 5);
    assert_eq!(c.border, 1);
    assert_eq!(c.spacing, 5);
    assert!(c.follow_mouse);
    assert_eq!(c.focus_color, Color(0x3DAFDC));
    assert_eq!(c.unfocus_color, Color(0x282828));
    assert_eq!(c.kommand.chord, "M4-");
    assert_eq!(c.workspaces.len(), 2);
    assert_eq!(c.workspaces[0].name, "|");
    assert_eq!(c.workspaces[0].layout, Layouts::Tall);
    assert_eq!(c.workspaces[1].name, "||");
    assert_eq!(c.workspaces[1].layout, Layouts::Full);
    assert_eq!(c.keys.len(), 25);
    assert_eq!(c.keys[0].chord, "K-S-Return");
    assert!(matches!(&c.keys[0].message, Message::Spawn(e, a) if e == "urxvt" && a.is_empty()));
    assert!(matches!(c.keys[14].message, Message::Master));
    assert_eq!(c.keys[24].chord, "K-S-slash");
    assert!(matches!(c.keys[24].message, Message::Move(Direction::Forward)));
    assert!(c.keys.iter().all(|k| k.binding.is_none()));
}

#[test]
fn kommand_chord_and_setup() {
    let lock = Config::new();
    let conf = lock.current();
    assert_eq!(conf.kommand_chord(), "M4-A");
    let mut conf = gallium::config::default();
    let kommand = Key::create(&parse_chord("M4-A"), 97, 38);
    let numbers: Vec<Key> = (0..10).map(|i| Key::create(&parse_chord(Config::number_key(i)), 48 + i as u64, 10 + i as u8)).collect();
    let bound: Vec<Key> = (0..25).map(|i| Key::create(&parse_chord(&conf.keys[i].chord), 1000 + i as u64, 100 + i as u8)).collect();
    let grabs = conf.setup(kommand, numbers.clone(), bound.clone());
    assert_eq!(grabs.len(), 35);
    assert_eq!(conf.kommand.binding, Some(kommand));
    assert_eq!(*conf.kommand.unwrap(), kommand);
    assert_eq!(grabs[0].modifier.bits(), MOD4);
    assert_eq!(grabs[0].code, 10);
    assert_eq!(grabs[10], bound[0]);
    assert_eq!(conf.keys[0].binding, Some(bound[0]));
    assert_eq!(bound[0].modifier.bits(), KOMMAND | SHIFT);
    assert_eq!(Config::number_key(9), "0");
    assert_eq!(Config::number_key(0), "1");
}

#[test]
fn window_manager_from_configuration() {
    let c = gallium::config::default();
    let wm = WindowManager::new(&c);
    assert_eq!(wm.workspaces.cards.len(), 2);
    assert_eq!(wm.workspaces.index, Some(0));
    assert_eq!(wm.workspaces.cards[0].name, "|");
    assert_eq!(wm.workspaces.cards[0].layout, LayoutBox::Tall(TallLayout { master: 1, percent: 50 }));
    assert_eq!(wm.workspaces.cards[1].layout, LayoutBox::Full(FullLayout));
    assert_eq!(wm.screens.cards.len(), 1);
    assert_eq!(wm.screens.cards[0].workspace, 0);
    assert_eq!(wm.screens.index, Some(0));
}

#[test]
fn refresh_maps_then_places() {
    let mut w = win(4);
    w.shown = true;
    w.x = 3;
    w.y = 4;
    w.size = (10, 20);
    assert_eq!(refresh(&mut w), vec![XCall::MapWindow(4), XCall::MoveResize(4, 3, 4, 10, 20)]);
    assert!(w._mapped);
    assert_eq!(refresh(&mut w), vec![XCall::MoveResize(4, 3, 4, 10, 20)]);
    w.shown = false;
    assert_eq!(refresh(&mut w), vec![XCall::UnmapWindow(4)]);
    assert!(!w._mapped);
    assert_eq!(refresh(&mut w), vec![]);
}

#[test]
fn map_request_then_refresh_tiles_and_focuses() {
    let mut g = with_windows(2);
    assert_eq!(cur_windows(&g), vec![1, 2]);
    assert_eq!(cur_index(&g), Some(0));
    let calls = g.refresh_workspace(0, frame());
    assert_eq!(
        calls,
        vec![
            XCall::MapWindow(1),
            XCall::MoveResize(1, 5, 5, 490, 790),
            XCall::MapWindow(2),
            XCall::MoveResize(2, 500, 5, 495, 790),
            XCall::SetBorderColor(1, 0x3DAFDC),
            XCall::Focus(1),
            XCall::SetBorderColor(2, 0x282828),
        ]
    );
}

#[test]
fn focus_moves_and_wraps() {
    let mut g = with_windows(3);
    let k = key(1);
    assert_eq!(g.handle_message(&Message::Focus(Direction::Forward), k), vec![Step::Refresh(0)]);
    assert_eq!(cur_index(&g), Some(1));
    g.handle_message(&Message::Focus(Direction::Forward), k);
    g.handle_message(&Message::Focus(Direction::Forward), k);
    assert_eq!(cur_index(&g), Some(0));
    g.handle_message(&Message::Focus(Direction::Backward), k);
    assert_eq!(cur_index(&g), Some(2));
    g.handle_message(&Message::Focus(Direction::Up), k);
    assert_eq!(cur_index(&g), Some(2));
}

#[test]
fn translate_forward_back_restores() {
    let mut g = with_windows(3);
    let k = key(1);
    g.handle_message(&Message::Focus(Direction::Forward), k);
    g.handle_message(&Message::Translate(Direction::Forward), k);
    assert_eq!(cur_windows(&g), vec![1, 3, 2]);
    assert_eq!(cur_index(&g), Some(2));
    g.handle_message(&Message::Translate(Direction::Forward), k);
    assert_eq!(cur_windows(&g), vec![2, 3, 1]);
    assert_eq!(cur_index(&g), Some(0));
    g.handle_message(&Message::Translate(Direction::Backward), k);
    assert_eq!(cur_windows(&g), vec![1, 3, 2]);
    assert_eq!(cur_index(&g), Some(2));
}

#[test]
fn master_sends_current_to_top() {
    let mut g = with_windows(3);
    let k = key(1);
    g.handle_message(&Message::Focus(Direction::Backward), k);
    assert_eq!(cur_index(&g), Some(2));
    assert_eq!(g.handle_message(&Message::Master, k), vec![Step::Refresh(0)]);
    assert_eq!(cur_windows(&g), vec![3, 2, 1]);
    assert_eq!(cur_index(&g), Some(0));
    g.handle_message(&Message::Master, k);
    assert_eq!(cur_windows(&g), vec![3, 2, 1]);
}

#[test]
fn kill_asks_to_close_and_forgets() {
    let mut g = with_windows(2);
    let k = key(1);
    g.handle_message(&Message::Focus(Direction::Forward), k);
    let steps = g.handle_message(&Message::Kill, k);
    assert_eq!(steps, vec![Step::Call(XCall::KillWindow(2)), Step::Refresh(0)]);
    assert_eq!(cur_windows(&g), vec![1]);
    assert_eq!(cur_index(&g), None);
    let steps = g.handle_message(&Message::Kill, k);
    assert_eq!(steps, vec![Step::Refresh(0)]);
    assert_eq!(cur_windows(&g), vec![1]);
}

#[test]
fn resize_and_move_act_on_floating_only() {
    let mut g = with_windows(1);
    let k = key(1);
    assert!(g.handle_message(&Message::Resize(Direction::Forward), k).is_empty());
    assert!(g.handle_message(&Message::Move(Direction::Down), k).is_empty());
    g.window_manager.workspaces.cards[0].windows.cards[0].floating = true;
    g.window_manager.workspaces.cards[0].windows.cards[0].size = (10, 2040);
    assert_eq!(g.handle_message(&Message::Resize(Direction::Backward), k), vec![Step::Refresh(0)]);
    assert_eq!(g.window_manager.workspaces.cards[0].windows.cards[0].size, (0, 2040));
    g.handle_message(&Message::Resize(Direction::Down), k);
    assert_eq!(g.window_manager.workspaces.cards[0].windows.cards[0].size, (0, 2048));
    assert_eq!(g.handle_message(&Message::Move(Direction::Up), k), vec![Step::Refresh(0)]);
    assert_eq!(g.window_manager.workspaces.cards[0].windows.cards[0].y, -15);
    g.handle_message(&Message::Move(Direction::Forward), k);
    assert_eq!(g.window_manager.workspaces.cards[0].windows.cards[0].x, 15);
}

#[test]
fn special_reaches_the_layout() {
    let mut g = with_windows(1);
    let steps = g.handle_message(&Message::Special(SpecialMsg::Grow), key(1));
    assert_eq!(steps, vec![Step::Refresh(0)]);
    assert_eq!(g.window_manager.workspaces.cards[0].layout, LayoutBox::Tall(TallLayout { master: 1, percent: 55 }));
}

#[test]
fn switch_hides_and_wraps() {
    let mut g = with_windows(2);
    g.refresh_workspace(0, frame());
    let steps = g.handle_message(&Message::Switch(Direction::Forward), key(1));
    assert_eq!(steps, vec![Step::Call(XCall::UnmapWindow(1)), Step::Call(XCall::UnmapWindow(2)), Step::Refresh(1)]);
    assert_eq!(g.window_manager.workspaces.index, Some(1));
    assert!(g.window_manager.workspaces.cards[0].windows.cards.iter().all(|w| !w.shown && !w._mapped));
    let steps = g.handle_message(&Message::Switch(Direction::Forward), key(1));
    assert_eq!(steps, vec![Step::Refresh(0)]);
    assert_eq!(g.window_manager.workspaces.index, Some(0));
    let steps = g.handle_message(&Message::Switch(Direction::Backward), key(1));
    assert_eq!(steps, vec![Step::Refresh(1)]);
    assert!(g.handle_message(&Message::Switch(Direction::Up), key(1)).is_empty());
    assert_eq!(g.window_manager.workspaces.index, Some(1));
}

#[test]
fn outside_messages_become_steps() {
    let mut g = with_windows(1);
    let k = key(9);
    let steps = g.handle_message(&Message::Spawn("urxvt".to_string(), "-e".to_string()), k);
    assert_eq!(steps, vec![Step::Spawn("urxvt".to_string(), "-e".to_string())]);
    assert_eq!(g.handle_message(&Message::Reload, k), vec![Step::Reload, Step::Refresh(0)]);
    assert_eq!(g.handle_message(&Message::Quit, k), vec![Step::Quit(k)]);
    assert!(g.handle_message(&Message::NoOp, k).is_empty());
    assert!(g.handle_message(&Message::Bring(Direction::Forward), k).is_empty());
    assert!(g.handle_message(&Message::Chain(vec![Message::Quit]), k).is_empty());
}

#[test]
fn destroy_removes_from_every_workspace() {
    let mut g = with_windows(3);
    g.window_manager.workspaces.cards[1].windows.push(win(2));
    let steps = g.handle_event(ServerEvent::DestroyNotify(2));
    assert_eq!(steps, vec![Step::Refresh(0), Step::Refresh(1)]);
    assert_eq!(cur_windows(&g), vec![1, 3]);
    assert!(g.window_manager.workspaces.cards[1].windows.cards.is_empty());
    assert_eq!(g.window_manager.workspaces.cards[1].windows.index, None);
    assert!(g.handle_event(ServerEvent::DestroyNotify(42)).is_empty());
}

#[test]
fn enter_selects_when_focus_follows_mouse() {
    let mut g = with_windows(3);
    assert_eq!(g.handle_event(ServerEvent::EnterNotify(3)), vec![Step::Refresh(0)]);
    assert_eq!(cur_index(&g), Some(2));
    assert!(g.handle_event(ServerEvent::EnterNotify(77)).is_empty());
    let mut c = gallium::config::default();
    c.follow_mouse = false;
    g.config.update(c);
    assert!(g.handle_event(ServerEvent::EnterNotify(1)).is_empty());
    assert_eq!(cur_index(&g), Some(2));
    assert!(g.handle_event(ServerEvent::Unknown).is_empty());
    assert!(g.handle_event(ServerEvent::ButtonPress((1, 2))).is_empty());
}

#[test]
fn matching_bindings_in_order() {
    let mut g = Gallium::setup();
    let mut conf = gallium::config::default();
    let kommand = Key::create(&parse_chord("M4-A"), 97, 38);
    let numbers: Vec<Key> = (0..10).map(|i| Key::create(&parse_chord(Config::number_key(i)), 48, 10)).collect();
    let mut bound: Vec<Key> = (0..25).map(|i| Key::create(&parse_chord(&conf.keys[i].chord), 1000 + i as u64, 100 + i as u8)).collect();
    bound[7] = bound[3];
    conf.setup(kommand, numbers, bound.clone());
    g.config.update(conf);
    assert_eq!(g.matching_bindings(bound[3]), vec![3, 7]);
    assert_eq!(g.matching_bindings(bound[0]), vec![0]);
    let none = Key { code: 1, sym: 1, modifier: KeyMod::empty() };
    assert!(g.matching_bindings(none).is_empty());
}

#[test]
fn quit_stops_waiting_only_on_the_quit_key() {
    let q = key(24);
    assert!(!quit_waits(q, &ServerEvent::KeyPress(q)));
    assert!(quit_waits(q, &ServerEvent::KeyPress(key(25))));
    assert!(quit_waits(q, &ServerEvent::Unknown));
    assert!(quit_waits(q, &ServerEvent::DestroyNotify(3)));
}

#[test]
fn new_window_is_hidden_and_unmapped() {
    assert_eq!(Window::new(7), win(7));
}
