//! The window manager's configuration: its key bindings, messages,
//! workspaces and colours, with the built-in defaults.
use vstd::prelude::*;
use vstd::string::*;
use crate::key::Key;
use crate::layout::Layouts;

verus! {

#[derive(Clone, Copy, PartialEq, Eq, Structural, Debug)]
pub enum Direction {
    Backward,
    Forward,
    Up,
    Down,
}

/// Special messages, which each layout handles or ignores.
#[derive(Clone, Copy, PartialEq, Eq, Structural, Debug)]
pub enum SpecialMsg {
    Grow,
    Shrink,
    Add,
    Subtract,
}

/// What a key binding asks the window manager to do.
pub enum Message {
    Spawn(String, String),
    Reload,
    Quit,
    Kill,
    Focus(Direction),
    Translate(Direction),
    Resize(Direction),
    Move(Direction),
    Switch(Direction),
    Bring(Direction),
    Master,
    Special(SpecialMsg),
    Chain(Vec<Message>),
    NoOp,
}

/// A workspace's name and layout.
#[derive(Clone)]
pub struct WorkspaceConf {
    pub name: String,
    pub layout: Layouts,
}

/// An RGB colour.
#[derive(Clone, Copy, PartialEq, Eq, Structural, Debug)]
pub struct Color(pub u32);

/// A key binding: the chord as written, the key it stands for once the X
/// server has been asked, and the message it sends.
pub struct KeyBind {
    pub binding: Option<Key>,
    pub chord: String,
    pub message: Message,
}

impl KeyBind {
    /// A binding of the chord `s`, not yet looked up.
    pub fn new(s: &str, mess: Message) -> (kb: KeyBind)
        ensures
            kb.binding == None::<Key>,
            kb.chord@ == s@,
            kb.message == mess,
    {
        KeyBind { binding: None, chord: String::from_str(s), message: mess }
    }

    /// The key of a binding that has been looked up.
    pub fn unwrap(&self) -> (k: &Key)
        requires
            self.binding is Some,
        ensures
            *k == self.binding.unwrap(),
    {
        self.binding.as_ref().unwrap()
    }
}

/// The configuration.
pub struct Config {
    /// The chord prefix of the kommand modifier.
    pub kommand: KeyBind,
    pub padding: u16,
    pub border: u32,
    pub spacing: u16,
    pub follow_mouse: bool,
    pub focus_color: Color,
    pub unfocus_color: Color,
    pub workspaces: Vec<WorkspaceConf>,
    pub keys: Vec<KeyBind>,
}

/// The `i`-th binding of the default configuration.
pub open spec fn default_key(kb: KeyBind, i: int) -> bool {
    &&& kb.binding is None
    &&& {
    ||| i == 0 && kb.chord@ == "K-S-Return"@ && (kb.message matches Message::Spawn(exe, args) && exe@ == "urxvt"@ && args@ == ""@)
    ||| i == 1 && kb.chord@ == "K-q"@ && kb.message == Message::Reload
    ||| i == 2 && kb.chord@ == "K-S-q"@ && kb.message == Message::Quit
    ||| i == 3 && kb.chord@ == "K-x"@ && kb.message == Message::Kill
    ||| i == 4 && kb.chord@ == "K-j"@ && kb.message == Message::Special(SpecialMsg::Shrink)
    ||| i == 5 && kb.chord@ == "K-semicolon"@ && kb.message == Message::Special(SpecialMsg::Grow)
    ||| i == 6 && kb.chord@ == "K-k"@ && kb.message == Message::Focus(Direction::Forward)
    ||| i == 7 && kb.chord@ == "K-l"@ && kb.message == Message::Focus(Direction::Backward)
    ||| i == 8 && kb.chord@ == "K-S-k"@ && kb.message == Message::Translate(Direction::Forward)
    ||| i == 9 && kb.chord@ == "K-S-l"@ && kb.message == Message::Translate(Direction::Backward)
    ||| i == 10 && kb.chord@ == "K-Right"@ && kb.message == Message::Switch(Direction::Forward)
    ||| i == 11 && kb.chord@ == "K-Left"@ && kb.message == Message::Switch(Direction::Backward)
    ||| i == 12 && kb.chord@ == "K-S-Right"@ && kb.message == Message::Bring(Direction::Forward)
    ||| i == 13 && kb.chord@ == "K-S-Left"@ && kb.message == Message::Bring(Direction::Backward)
    ||| i == 14 && kb.chord@ == "K-Return"@ && kb.message == Message::Master
    ||| i == 15 && kb.chord@ == "K-minus"@ && kb.message == Message::Special(SpecialMsg::Subtract)
    ||| i == 16 && kb.chord@ == "K-equal"@ && kb.message == Message::Special(SpecialMsg::Add)
    ||| i == 17 && kb.chord@ == "K-m"@ && kb.message == Message::Resize(Direction::Backward)
    ||| i == 18 && kb.chord@ == "K-comma"@ && kb.message == Message::Resize(Direction::Down)
    ||| i == 19 && kb.chord@ == "K-period"@ && kb.message == Message::Resize(Direction::Up)
    ||| i == 20 && kb.chord@ == "K-slash"@ && kb.message == Message::Resize(Direction::Forward)
    ||| i == 21 && kb.chord@ == "K-S-m"@ && kb.message == Message::Move(Direction::Backward)
    ||| i == 22 && kb.chord@ == "K-S-comma"@ && kb.message == Message::Move(Direction::Down)
    ||| i == 23 && kb.chord@ == "K-S-period"@ && kb.message == Message::Move(Direction::Up)
    ||| i == 24 && kb.chord@ == "K-S-slash"@ && kb.message == Message::Move(Direction::Forward)
    }
}

/// The default configuration.
pub open spec fn is_default(c: Config) -> bool {
    &&& c.kommand.binding is None
    &&& c.kommand.chord@ == "M4-"@
    &&& c.kommand.message == Message::NoOp
    &&& c.padding == 5
    &&& c.border == 1
    &&& c.spacing == 5
    &&& c.follow_mouse
    &&& c.focus_color == Color(0x3DAFDC)
    &&& c.unfocus_color == Color(0x282828)
    &&& c.workspaces@.len() == 2
    &&& c.workspaces@[0].name@ == "|"@
    &&& c.workspaces@[0].layout == Layouts::Tall
    &&& c.workspaces@[1].name@ == "||"@
    &&& c.workspaces@[1].layout == Layouts::Full
    &&& c.keys@.len() == 25
    &&& forall|i: int| 0 <= i < 25 ==> default_key(#[trigger] c.keys@[i], i)
}

/// The built-in configuration: padding and spacing 5, a 1-pixel border,
/// focus following the mouse, two workspaces (tall and full), and the
/// default key bindings on the kommand modifier.
pub fn default() -> (c: Config)
    ensures
        is_default(c),
{
    let c = Config {
        kommand: KeyBind::new("M4-", Message::NoOp),
        padding: 5,
        border: 1,
        spacing: 5,
        follow_mouse: true,
        focus_color: Color(0x3DAFDC),
        unfocus_color: Color(0x282828),
        workspaces: vec![
            WorkspaceConf { name: String::from_str("|"), layout: Layouts::Tall },
            WorkspaceConf { name: String::from_str("||"), layout: Layouts::Full },
        ],
        keys: vec![
            KeyBind::new("K-S-Return", Message::Spawn(String::from_str("urxvt"), String::from_str(""))),
            KeyBind::new("K-q", Message::Reload),
            KeyBind::new("K-S-q", Message::Quit),
            KeyBind::new("K-x", Message::Kill),
            KeyBind::new("K-j", Message::Special(SpecialMsg::Shrink)),
            KeyBind::new("K-semicolon", Message::Special(SpecialMsg::Grow)),
            KeyBind::new("K-k", Message::Focus(Direction::Forward)),
            KeyBind::new("K-l", Message::Focus(Direction::Backward)),
            KeyBind::new("K-S-k", Message::Translate(Direction::Forward)),
            KeyBind::new("K-S-l", Message::Translate(Direction::Backward)),
            KeyBind::new("K-Right", Message::Switch(Direction::Forward)),
            KeyBind::new("K-Left", Message::Switch(Direction::Backward)),
            KeyBind::new("K-S-Right", Message::Bring(Direction::Forward)),
            KeyBind::new("K-S-Left", Message::Bring(Direction::Backward)),
            KeyBind::new("K-Return", Message::Master),
            KeyBind::new("K-minus", Message::Special(SpecialMsg::Subtract)),
            KeyBind::new("K-equal", Message::Special(SpecialMsg::Add)),
            KeyBind::new("K-m", Message::Resize(Direction::Backward)),
            KeyBind::new("K-comma", Message::Resize(Direction::Down)),
            KeyBind::new("K-period", Message::Resize(Direction::Up)),
            KeyBind::new("K-slash", Message::Resize(Direction::Forward)),
            KeyBind::new("K-S-m", Message::Move(Direction::Backward)),
            KeyBind::new("K-S-comma", Message::Move(Direction::Down)),
            KeyBind::new("K-S-period", Message::Move(Direction::Up)),
            KeyBind::new("K-S-slash", Message::Move(Direction::Forward)),
        ],
    };
    c
}


/// The configuration in force. (The window manager runs on one thread, so
/// no lock guards it.)
pub struct ConfigLock {
    conf: Config,
}

impl View for ConfigLock {
    type V = Config;

    closed spec fn view(&self) -> Config {
        self.conf
    }
}

impl ConfigLock {
    /// The configuration in force.
    pub fn current(&self) -> (c: &Config)
        ensures
            *c == self@,
    {
        &self.conf
    }

    /// Puts `new_conf` in force.
    pub fn update(&mut self, new_conf: Config)
        ensures
            final(self)@ == new_conf,
    {
        self.conf = new_conf;
    }

    /// Binds the keys of the configuration in force (see `Config::setup`).
    pub fn setup(&mut self, kommand: Key, numbers: Vec<Key>, bound: Vec<Key>) -> (grabs: Vec<Key>)
        requires
            numbers@.len() == 10,
            bound@.len() == old(self)@.keys@.len(),
        ensures
            set_up(old(self)@, kommand, numbers@, bound@, final(self)@, grabs@),
    {
        self.conf.setup(kommand, numbers, bound)
    }
}

/// The names of the workspace hotkeys, `1` to `9` then `0`.
pub open spec fn number_key(i: int) -> Seq<char> {
    if i == 9 {
        seq!['0']
    } else {
        seq![('1' as u8 + i) as char]
    }
}

/// The result of `Config::setup`: the kommand binding holds `kommand`, the
/// `i`-th binding holds `bound[i]`, nothing else changes, and the keys to
/// grab are the number keys with the kommand modifiers added, then the
/// bound keys.
pub open spec fn set_up(
    old: Config,
    kommand: Key,
    numbers: Seq<Key>,
    bound: Seq<Key>,
    new: Config,
    grabs: Seq<Key>,
) -> bool {
    &&& new.kommand.binding == Some(kommand)
    &&& new.kommand.chord == old.kommand.chord
    &&& new.kommand.message == old.kommand.message
    &&& new.padding == old.padding
    &&& new.border == old.border
    &&& new.spacing == old.spacing
    &&& new.follow_mouse == old.follow_mouse
    &&& new.focus_color == old.focus_color
    &&& new.unfocus_color == old.unfocus_color
    &&& new.workspaces == old.workspaces
    &&& new.keys@.len() == old.keys@.len()
    &&& forall|i: int|
        0 <= i < old.keys@.len() ==> {
            &&& (#[trigger] new.keys@[i]).binding == Some(bound[i])
            &&& new.keys@[i].chord == old.keys@[i].chord
            &&& new.keys@[i].message == old.keys@[i].message
        }
    &&& grabs.len() == numbers.len() + bound.len()
    &&& forall|i: int|
        0 <= i < numbers.len() ==> {
            &&& (#[trigger] grabs[i]).code == numbers[i].code
            &&& grabs[i].sym == numbers[i].sym
            &&& grabs[i].modifier@ == numbers[i].modifier@ | kommand.modifier@
        }
    &&& forall|i: int| 0 <= i < bound.len() ==> grabs[numbers.len() + i] == bound[i]
}

impl Config {
    /// The configuration in force at start: the defaults.
    pub fn new() -> (c: ConfigLock)
        ensures
            is_default(c@),
    {
        ConfigLock { conf: default() }
    }

    /// The chord of the kommand key: the kommand prefix completed with `A`
    /// so that it names a key.
    pub fn kommand_chord(&self) -> (r: String)
        ensures
            r@ == self.kommand.chord@.push('A'),
    {
        let mut kchord = self.kommand.chord.clone();
        proof {
            reveal_strlit("A");
        }
        kchord.append("A");
        kchord
    }

    /// The name of the `i`-th workspace hotkey.
    pub fn number_key(i: usize) -> (r: &'static str)
        requires
            i < 10,
        ensures
            r@ == number_key(i as int),
    {
        proof {
            reveal_strlit("1");
            reveal_strlit("2");
            reveal_strlit("3");
            reveal_strlit("4");
            reveal_strlit("5");
            reveal_strlit("6");
            reveal_strlit("7");
            reveal_strlit("8");
            reveal_strlit("9");
            reveal_strlit("0");
        }
        if i == 0 {
            "1"
        } else if i == 1 {
            "2"
        } else if i == 2 {
            "3"
        } else if i == 3 {
            "4"
        } else if i == 4 {
            "5"
        } else if i == 5 {
            "6"
        } else if i == 6 {
            "7"
        } else if i == 7 {
            "8"
        } else if i == 8 {
            "9"
        } else {
            "0"
        }
    }

    /// Binds the keys, given the keys that the X server looked up: `kommand`
    /// for the kommand chord, `numbers` for the ten workspace hotkeys and
    /// `bound[i]` for the chord of the `i`-th binding. Returns the keys to
    /// grab: each number key with the kommand modifiers added, then the bound
    /// keys.
    pub fn setup(&mut self, kommand: Key, numbers: Vec<Key>, bound: Vec<Key>) -> (grabs: Vec<Key>)
        requires
            numbers@.len() == 10,
            bound@.len() == old(self).keys@.len(),
        ensures
            set_up(*old(self), kommand, numbers@, bound@, *final(self), grabs@),
    {
        self.kommand.binding = Some(kommand);
        let kmod = self.kommand.unwrap().modifier;
        let mut grabs: Vec<Key> = Vec::new();
        let mut i: usize = 0;
        while i < numbers.len()
            invariant
                i <= numbers@.len(),
                kmod == kommand.modifier,
                grabs@.len() == i,
                forall|j: int|
                    0 <= j < i ==> {
                        &&& (#[trigger] grabs@[j]).code == numbers@[j].code
                        &&& grabs@[j].sym == numbers@[j].sym
                        &&& grabs@[j].modifier@ == numbers@[j].modifier@ | kommand.modifier@
                    },
            decreases numbers@.len() - i,
        {
            let mut k = numbers[i];
            k.modifier = k.modifier.union(kmod);
            grabs.push(k);
            i = i + 1;
        }
        let n = self.keys.len();
        let mut i: usize = 0;
        while i < n
            invariant
                n == self.keys@.len(),
                n == old(self).keys@.len(),
                n == bound@.len(),
                i <= n,
                self.kommand.binding == Some(kommand),
                self.kommand.chord == old(self).kommand.chord,
                self.kommand.message == old(self).kommand.message,
                self.padding == old(self).padding,
                self.border == old(self).border,
                self.spacing == old(self).spacing,
                self.follow_mouse == old(self).follow_mouse,
                self.focus_color == old(self).focus_color,
                self.unfocus_color == old(self).unfocus_color,
                self.workspaces == old(self).workspaces,
                forall|j: int|
                    0 <= j < i ==> {
                        &&& (#[trigger] self.keys@[j]).binding == Some(bound@[j])
                        &&& self.keys@[j].chord == old(self).keys@[j].chord
                        &&& self.keys@[j].message == old(self).keys@[j].message
                    },
                forall|j: int| i <= j < n ==> self.keys@[j] == old(self).keys@[j],
                grabs@.len() == 10 + i,
                forall|j: int|
                    0 <= j < 10 ==> {
                        &&& (#[trigger] grabs@[j]).code == numbers@[j].code
                        &&& grabs@[j].sym == numbers@[j].sym
                        &&& grabs@[j].modifier@ == numbers@[j].modifier@ | kommand.modifier@
                    },
                forall|j: int| 0 <= j < i ==> grabs@[10 + j] == bound@[j],
            decreases n - i,
        {
            let p = bound[i];
            self.keys[i].binding = Some(p);
            grabs.push(p);
            i = i + 1;
        }
        grabs
    }
}

} // verus!
