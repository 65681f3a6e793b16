//! Key chords: modifier masks, keys, and the parsing of chords such as
//! `"K-S-Return"`.
use vstd::prelude::*;
use vstd::string::*;

verus! {

pub const SHIFT: u32 = 0b000000001;
pub const LOCK: u32 = 0b000000010;
pub const CONTROL: u32 = 0b000000100;
pub const MOD1: u32 = 0b000001000;
pub const MOD2: u32 = 0b000010000;
pub const MOD3: u32 = 0b000100000;
pub const MOD4: u32 = 0b001000000;
pub const MOD5: u32 = 0b010000000;
pub const KOMMAND: u32 = 0b100000000;

/// Every modifier bit that a `KeyMod` may hold.
pub const ALL_MODS: u32 = 0b111111111;

/// A set of modifier bits, each one of the nine above.
#[derive(PartialEq, Eq, Structural, Clone, Copy, Debug)]
pub struct KeyMod {
    bits: u32,
}

impl View for KeyMod {
    type V = u32;

    closed spec fn view(&self) -> u32 {
        self.bits
    }
}

/// Whether `bits` holds only modifier bits.
pub open spec fn known_mods(bits: u32) -> bool {
    bits & !ALL_MODS == 0
}

impl KeyMod {
    #[verifier::type_invariant]
    spec fn inv(self) -> bool {
        known_mods(self.bits)
    }

    /// The empty set of modifiers.
    pub fn empty() -> (m: KeyMod)
        ensures
            m@ == 0,
    {
        assert(0u32 & !ALL_MODS == 0) by (bit_vector);
        KeyMod { bits: 0 }
    }

    /// The set with exactly the given bits, when each is a modifier bit.
    pub fn from_bits(bits: u32) -> (r: Option<KeyMod>)
        ensures
            r is Some <==> known_mods(bits),
            r matches Some(m) ==> m@ == bits,
    {
        if bits & !ALL_MODS == 0 {
            Some(KeyMod { bits })
        } else {
            None
        }
    }

    /// The raw bits.
    pub fn bits(&self) -> (b: u32)
        ensures
            b == self@,
            known_mods(b),
    {
        proof {
            use_type_invariant(self);
        }
        self.bits
    }

    /// The union of two sets of modifiers.
    pub fn union(self, other: KeyMod) -> (m: KeyMod)
        ensures
            m@ == self@ | other@,
    {
        proof {
            use_type_invariant(&self);
            use_type_invariant(&other);
        }
        let a = self.bits;
        let b = other.bits;
        assert((a | b) & !ALL_MODS == 0) by (bit_vector)
            requires
                a & !ALL_MODS == 0,
                b & !ALL_MODS == 0,
        ;
        KeyMod { bits: a | b }
    }
}

/// A key: its key code, its key symbol and its modifiers.
#[derive(PartialEq, Eq, Structural, Clone, Copy, Debug)]
pub struct Key {
    pub code: u8,
    pub sym: u64,
    pub modifier: KeyMod,
}

/// The modifier set that the raw `bits` stand for: those bits when they are
/// all modifier bits, else the empty set.
pub open spec fn mods_or_empty(bits: u32) -> u32 {
    if known_mods(bits) { bits } else { 0 }
}

/// The chord tag of modifier `v`, as written in a chord (`"S-"` for bit 0).
pub open spec fn modifier_tag(v: int) -> Seq<char> {
    if v == 0 {
        seq!['S', '-']
    } else if v == 1 {
        seq!['L', 'o', 'c', 'k', '-']
    } else if v == 2 {
        seq!['C', '-']
    } else if v == 3 {
        seq!['M', '-']
    } else if v == 4 {
        seq!['M', '2', '-']
    } else if v == 5 {
        seq!['M', '3', '-']
    } else if v == 6 {
        seq!['M', '4', '-']
    } else if v == 7 {
        seq!['M', '5', '-']
    } else {
        seq!['K', '-']
    }
}

/// The tag of modifier `v`, for `v` below nine.
fn lookup(v: usize) -> (r: &'static str)
    requires
        v < 9,
    ensures
        r@ == modifier_tag(v as int),
{
    if v == 0 {
        proof { reveal_strlit("S-"); }
        "S-"
    } else if v == 1 {
        proof { reveal_strlit("Lock-"); }
        "Lock-"
    } else if v == 2 {
        proof { reveal_strlit("C-"); }
        "C-"
    } else if v == 3 {
        proof { reveal_strlit("M-"); }
        "M-"
    } else if v == 4 {
        proof { reveal_strlit("M2-"); }
        "M2-"
    } else if v == 5 {
        proof { reveal_strlit("M3-"); }
        "M3-"
    } else if v == 6 {
        proof { reveal_strlit("M4-"); }
        "M4-"
    } else if v == 7 {
        proof { reveal_strlit("M5-"); }
        "M5-"
    } else {
        proof { reveal_strlit("K-"); }
        "K-"
    }
}

/// The pieces of a chord between its dashes: `"K-S-q"` gives `K`, `S`, `q`,
/// and a trailing dash gives a last empty piece.
pub open spec fn split_dash(s: Seq<char>) -> Seq<Seq<char>>
    decreases s.len(),
{
    if s.len() == 0 {
        seq![Seq::<char>::empty()]
    } else {
        let p = split_dash(s.drop_last());
        if s.last() == '-' {
            p.push(Seq::<char>::empty())
        } else {
            p.update(p.len() - 1, p.last().push(s.last()))
        }
    }
}

/// The first modifier, from `v` on, whose tag is `piece` followed by a dash.
pub open spec fn tag_from(piece: Seq<char>, v: nat) -> Option<nat>
    decreases 9 - v,
{
    if v >= 9 {
        None
    } else if piece.push('-') == modifier_tag(v as int) {
        Some(v)
    } else {
        tag_from(piece, v + 1)
    }
}

/// The modifier that a chord piece names, if it names one.
pub open spec fn tag_position(piece: Seq<char>) -> Option<nat> {
    tag_from(piece, 0)
}

/// The modifier bits that the pieces name, or-ed together.
pub open spec fn flags_of(pieces: Seq<Seq<char>>) -> u32
    decreases pieces.len(),
{
    if pieces.len() == 0 {
        0
    } else {
        let f = flags_of(pieces.drop_last());
        match tag_position(pieces.last()) {
            Some(v) => f | (1u32 << (v as u32)),
            None => f,
        }
    }
}

/// The key name of a chord: the last piece that names no modifier, or the
/// empty name when every piece names one.
pub open spec fn name_of(pieces: Seq<Seq<char>>) -> Seq<char>
    decreases pieces.len(),
{
    if pieces.len() == 0 {
        Seq::<char>::empty()
    } else {
        match tag_position(pieces.last()) {
            Some(_) => name_of(pieces.drop_last()),
            None => pieces.last(),
        }
    }
}

/// A chord taken apart: its modifier bits and its key name.
pub struct Chord {
    pub modifier: u32,
    pub name: String,
}

/// Whether `piece` followed by a dash is `tag`.
fn is_tag(piece: &str, tag: &str) -> (r: bool)
    ensures
        r == (piece@.push('-') == tag@),
{
    let n = piece.unicode_len();
    let m = tag.unicode_len();
    if m == 0 || n != m - 1 {
        return false;
    }
    if tag.get_char(n) != '-' {
        return false;
    }
    let mut i: usize = 0;
    while i < n
        invariant
            n == piece@.len(),
            m == tag@.len(),
            n + 1 == m,
            tag@[n as int] == '-',
            i <= n,
            forall|j: int| 0 <= j < i ==> piece@[j] == tag@[j],
        decreases n - i,
    {
        if piece.get_char(i) != tag.get_char(i) {
            assert(piece@.push('-')[i as int] != tag@[i as int]);
            return false;
        }
        i = i + 1;
    }
    assert(piece@.push('-') =~= tag@);
    true
}

/// The modifier that `piece` names, if any.
fn tag_index(piece: &str) -> (r: Option<usize>)
    ensures
        r matches Some(v) ==> v < 9 && tag_position(piece@) == Some(v as nat),
        r is None ==> tag_position(piece@) is None,
{
    let mut v: usize = 0;
    while v < 9
        invariant
            v <= 9,
            tag_position(piece@) == tag_from(piece@, v as nat),
        decreases 9 - v,
    {
        if is_tag(piece, lookup(v)) {
            return Some(v);
        }
        v = v + 1;
    }
    None
}

proof fn lemma_split_last(s: Seq<char>, st: int)
    requires
        0 <= st <= s.len(),
        forall|j: int| st <= j < s.len() ==> s[j] != '-',
        st == 0 || s[st - 1] == '-',
    ensures
        split_dash(s).last() == s.subrange(st, s.len() as int),
        split_dash(s).len() >= 1,
    decreases s.len(),
{
    if s.len() == 0 {
    } else if s.len() == st {
        assert(s.last() == '-');
        lemma_split_len(s.drop_last());
        assert(s.subrange(st, s.len() as int) =~= Seq::<char>::empty());
    } else {
        let d = s.drop_last();
        lemma_split_last(d, st);
        assert(s.subrange(st, s.len() as int) =~= d.subrange(st, d.len() as int).push(s.last()));
    }
}

proof fn lemma_split_len(s: Seq<char>)
    ensures
        split_dash(s).len() >= 1,
    decreases s.len(),
{
    if s.len() > 0 {
        lemma_split_len(s.drop_last());
    }
}

/// Takes a chord such as `"K-S-Return"` apart at its dashes: every piece
/// that names a modifier adds that modifier's bit, and the last piece that
/// names none is the key name.
pub fn parse_chord(s: &str) -> (c: Chord)
    ensures
        c.modifier == flags_of(split_dash(s@)),
        c.name@ == name_of(split_dash(s@)),
{
    let n = s.unicode_len();
    let mut flag: u32 = 0;
    let mut name: String = String::new();
    let mut st: usize = 0;
    let mut i: usize = 0;
    while i < n
        invariant
            n == s@.len(),
            st <= i <= n,
            forall|j: int| st <= j < i ==> s@[j] != '-',
            st == 0 || s@[st - 1] == '-',
            flag == flags_of(split_dash(s@.take(i as int)).drop_last()),
            name@ == name_of(split_dash(s@.take(i as int)).drop_last()),
        decreases n - i,
    {
        let c = s.get_char(i);
        let ghost t = s@.take(i as int);
        let ghost t1 = s@.take(i + 1);
        proof {
            assert(t1.drop_last() =~= t);
            assert(t1.last() == c);
            lemma_split_len(t);
        }
        if c == '-' {
            let piece = s.substring_char(st, i);
            proof {
                lemma_split_last(t, st as int);
                assert(t.subrange(st as int, i as int) =~= piece@);
                assert(split_dash(t1).drop_last() =~= split_dash(t));
                assert(split_dash(t).drop_last() =~= split_dash(t).drop_last());
            }
            match tag_index(piece) {
                Some(v) => {
                    flag = flag | (1u32 << (v as u32));
                },
                None => {
                    name = String::from_str(piece);
                },
            }
            st = i + 1;
        } else {
            proof {
                assert(split_dash(t1).drop_last() =~= split_dash(t).drop_last());
            }
        }
        i = i + 1;
    }
    let piece = s.substring_char(st, n);
    proof {
        assert(s@.take(n as int) =~= s@);
        lemma_split_last(s@, st as int);
        assert(s@.subrange(st as int, n as int) =~= piece@);
    }
    match tag_index(piece) {
        Some(v) => {
            flag = flag | (1u32 << (v as u32));
        },
        None => {
            name = String::from_str(piece);
        },
    }
    Chord { modifier: flag, name }
}

/// The printed prefix of a modifier set: the tags of modifiers `0..n` whose
/// bit is set, in order.
pub open spec fn prefix_of(bits: u32, n: nat) -> Seq<char>
    decreases n,
{
    if n == 0 {
        Seq::<char>::empty()
    } else {
        let b = (n - 1) as nat;
        let p = prefix_of(bits, b);
        if bits & (1u32 << (b as u32)) == (1u32 << (b as u32)) {
            p + modifier_tag(b as int)
        } else {
            p
        }
    }
}

/// The prefix with which a key is shown: the tags of the first eight
/// modifiers that `modifier` holds (`"C-M-"` for control and mod1). The
/// ninth, the kommand modifier, is not shown.
pub fn modifier_prefix(modifier: KeyMod) -> (r: String)
    ensures
        r@ == prefix_of(modifier@, 8),
{
    let bits = modifier.bits();
    let mut pref = String::new();
    let mut b: usize = 0;
    while b < 8
        invariant
            b <= 8,
            bits == modifier@,
            pref@ == prefix_of(bits, b as nat),
        decreases 8 - b,
    {
        let m: u32 = 1u32 << (b as u32);
        if bits & m == m {
            pref.append(lookup(b));
        }
        b = b + 1;
    }
    pref
}

impl Key {
    /// The key of a key event: its code, the symbol that the code stands
    /// for, and the event's modifier state when it holds only modifier bits
    /// (else no modifiers).
    pub fn parse(code: u8, modifier: u32, sym: u64) -> (k: Key)
        ensures
            k.code == code,
            k.sym == sym,
            k.modifier@ == mods_or_empty(modifier),
    {
        let mo = match KeyMod::from_bits(modifier) {
            Some(v) => v,
            None => KeyMod::empty(),
        };
        Key { code, sym, modifier: mo }
    }

    /// The key that a parsed chord names, given the symbol of its key name
    /// and the code of that symbol.
    pub fn create(chord: &Chord, sym: u64, code: u8) -> (k: Key)
        ensures
            k.code == code,
            k.sym == sym,
            k.modifier@ == mods_or_empty(chord.modifier),
    {
        let flag = match KeyMod::from_bits(chord.modifier) {
            Some(v) => v,
            None => KeyMod::empty(),
        };
        Key { code, sym, modifier: flag }
    }
}

/// The name of modifier `v`: its tag without the dash.
pub open spec fn tag_name(v: int) -> Seq<char> {
    modifier_tag(v).drop_last()
}

/// The chord pieces that `prefix_of(bits, n)` is made of.
pub open spec fn prefix_pieces(bits: u32, n: nat) -> Seq<Seq<char>>
    decreases n,
{
    if n == 0 {
        Seq::<Seq<char>>::empty()
    } else {
        let b = (n - 1) as nat;
        let p = prefix_pieces(bits, b);
        if bits & (1u32 << (b as u32)) == (1u32 << (b as u32)) {
            p.push(tag_name(b as int))
        } else {
            p
        }
    }
}

/// Splitting after a dash: the pieces of `s + t`, when `s` ends with a dash,
/// are those of `s` without its last (empty) piece, then those of `t`.
proof fn lemma_split_after_dash(s: Seq<char>, t: Seq<char>)
    requires
        s.len() > 0,
        s.last() == '-',
    ensures
        split_dash(s + t) == split_dash(s.drop_last()) + split_dash(t),
    decreases t.len(),
{
    if t.len() == 0 {
        assert(s + t =~= s);
        assert(split_dash(s.drop_last()) + split_dash(t) =~= split_dash(s.drop_last()).push(Seq::<char>::empty()));
    } else {
        let t1 = t.drop_last();
        lemma_split_after_dash(s, t1);
        lemma_split_len(t1);
        assert((s + t).drop_last() =~= s + t1);
        assert((s + t).last() == t.last());
        let p = split_dash(s.drop_last());
        let q = split_dash(t1);
        if t.last() == '-' {
            assert(split_dash(s + t) =~= p + q.push(Seq::<char>::empty()));
        } else {
            assert((p + q).update((p + q).len() - 1, (p + q).last().push(t.last())) =~= p + q.update(
                q.len() - 1,
                q.last().push(t.last()),
            ));
        }
    }
}

/// A piece without dashes splits into itself.
proof fn lemma_split_plain(name: Seq<char>)
    requires
        !name.contains('-'),
    ensures
        split_dash(name) == seq![name],
    decreases name.len(),
{
    if name.len() == 0 {
        assert(name =~= Seq::<char>::empty());
        assert(split_dash(name) =~= seq![name]);
    } else {
        let d = name.drop_last();
        assert(!d.contains('-')) by {
            if d.contains('-') {
                let k = choose|k: int| 0 <= k < d.len() && d[k] == '-';
                assert(name[k] == '-');
            }
        }
        lemma_split_plain(d);
        assert(name.last() != '-') by {
            assert(name[name.len() - 1] == name.last());
        }
        assert(d.push(name.last()) =~= name);
        assert(split_dash(name) =~= seq![name]);
    }
}

proof fn lemma_tag_names()
    ensures
        forall|v: int| 0 <= v < 9 ==> tag_position(#[trigger] tag_name(v)) == Some(v as nat),
        forall|v: int| 0 <= v < 9 ==> !(#[trigger] tag_name(v)).contains('-'),
        forall|v: int| 0 <= v < 9 ==> modifier_tag(v) == (#[trigger] tag_name(v)).push('-'),
{
    assert forall|v: int| 0 <= v < 9 implies tag_position(#[trigger] tag_name(v)) == Some(v as nat) && !tag_name(v).contains('-')
        && modifier_tag(v) == tag_name(v).push('-') by {
        if v == 0 {
            assert(tag_name(0) =~= seq!['S']);
            assert(tag_name(0).push('-') =~= modifier_tag(0));
        } else if v == 1 {
            assert(tag_name(1) =~= seq!['L', 'o', 'c', 'k']);
            assert(tag_name(1).push('-') =~= modifier_tag(1));
            assert(tag_name(1).push('-') != modifier_tag(0)) by { assert(modifier_tag(0).len() != 5); }
        } else if v == 2 {
            assert(tag_name(2) =~= seq!['C']);
            assert(tag_name(2).push('-') =~= modifier_tag(2));
            assert(tag_name(2).push('-')[0] != modifier_tag(0)[0]);
            assert(tag_name(2).push('-').len() != modifier_tag(1).len());
        } else if v == 3 {
            assert(tag_name(3) =~= seq!['M']);
            assert(tag_name(3).push('-') =~= modifier_tag(3));
            assert(tag_name(3).push('-')[0] != modifier_tag(0)[0]);
            assert(tag_name(3).push('-').len() != modifier_tag(1).len());
            assert(tag_name(3).push('-')[0] != modifier_tag(2)[0]);
        } else if v == 4 {
            assert(tag_name(4) =~= seq!['M', '2']);
            assert(tag_name(4).push('-') =~= modifier_tag(4));
            assert(tag_name(4).push('-').len() != modifier_tag(0).len());
            assert(tag_name(4).push('-').len() != modifier_tag(1).len());
            assert(tag_name(4).push('-').len() != modifier_tag(2).len());
            assert(tag_name(4).push('-').len() != modifier_tag(3).len());
        } else if v == 5 {
            assert(tag_name(5) =~= seq!['M', '3']);
            assert(tag_name(5).push('-') =~= modifier_tag(5));
            assert(tag_name(5).push('-').len() != modifier_tag(0).len());
            assert(tag_name(5).push('-').len() != modifier_tag(1).len());
            assert(tag_name(5).push('-').len() != modifier_tag(2).len());
            assert(tag_name(5).push('-').len() != modifier_tag(3).len());
            assert(tag_name(5).push('-')[1] != modifier_tag(4)[1]);
        } else if v == 6 {
            assert(tag_name(6) =~= seq!['M', '4']);
            assert(tag_name(6).push('-') =~= modifier_tag(6));
            assert(tag_name(6).push('-').len() != modifier_tag(0).len());
            assert(tag_name(6).push('-').len() != modifier_tag(1).len());
            assert(tag_name(6).push('-').len() != modifier_tag(2).len());
            assert(tag_name(6).push('-').len() != modifier_tag(3).len());
            assert(tag_name(6).push('-')[1] != modifier_tag(4)[1]);
            assert(tag_name(6).push('-')[1] != modifier_tag(5)[1]);
        } else if v == 7 {
            assert(tag_name(7) =~= seq!['M', '5']);
            assert(tag_name(7).push('-') =~= modifier_tag(7));
            assert(tag_name(7).push('-').len() != modifier_tag(0).len());
            assert(tag_name(7).push('-').len() != modifier_tag(1).len());
            assert(tag_name(7).push('-').len() != modifier_tag(2).len());
            assert(tag_name(7).push('-').len() != modifier_tag(3).len());
            assert(tag_name(7).push('-')[1] != modifier_tag(4)[1]);
            assert(tag_name(7).push('-')[1] != modifier_tag(5)[1]);
            assert(tag_name(7).push('-')[1] != modifier_tag(6)[1]);
        } else {
            assert(tag_name(8) =~= seq!['K']);
            assert(tag_name(8).push('-') =~= modifier_tag(8));
            assert(tag_name(8).push('-')[0] != modifier_tag(0)[0]);
            assert(tag_name(8).push('-').len() != modifier_tag(1).len());
            assert(tag_name(8).push('-')[0] != modifier_tag(2)[0]);
            assert(tag_name(8).push('-')[0] != modifier_tag(3)[0]);
            assert(tag_name(8).push('-').len() != modifier_tag(4).len());
            assert(tag_name(8).push('-').len() != modifier_tag(5).len());
            assert(tag_name(8).push('-').len() != modifier_tag(6).len());
            assert(tag_name(8).push('-').len() != modifier_tag(7).len());
        }
        reveal_with_fuel(tag_from, 10);
    }
}



/// The pieces of a printed prefix followed by more text are the prefix's
/// modifier names followed by the pieces of that text.
proof fn lemma_split_prefix(bits: u32, n: nat, t: Seq<char>)
    requires
        n <= 9,
    ensures
        split_dash(prefix_of(bits, n) + t) == prefix_pieces(bits, n) + split_dash(t),
    decreases n,
{
    if n == 0 {
        assert(prefix_of(bits, n) + t =~= t);
        assert(prefix_pieces(bits, n) + split_dash(t) =~= split_dash(t));
    } else {
        let b = (n - 1) as nat;
        if bits & (1u32 << (b as u32)) == (1u32 << (b as u32)) {
            let tag = modifier_tag(b as int);
            lemma_tag_names();
            assert(tag.len() > 0 && tag.last() == '-') by {
                assert(tag == tag_name(b as int).push('-'));
            }
            lemma_split_prefix(bits, b, tag + t);
            assert(prefix_of(bits, n) + t =~= prefix_of(bits, b) + (tag + t));
            lemma_split_after_dash(tag, t);
            assert(tag.drop_last() == tag_name(b as int));
            lemma_split_plain(tag_name(b as int));
            assert(prefix_pieces(bits, b) + (seq![tag_name(b as int)] + split_dash(t)) =~= prefix_pieces(bits, n)
                + split_dash(t));
        } else {
            lemma_split_prefix(bits, b, t);
        }
    }
}

/// The low `n` bits.
pub open spec fn low_mask(n: u32) -> u32 {
    !(0xffff_ffffu32 << n)
}

proof fn lemma_mask_step(bits: u32, n: u32)
    by (bit_vector)
    requires
        n < 31,
    ensures
        bits & (1u32 << n) == (1u32 << n) ==> ((bits & !(0xffff_ffffu32 << n)) | (1u32 << n)) == bits & !(0xffff_ffffu32 << ((
        n + 1) as u32)),
        bits & (1u32 << n) != (1u32 << n) ==> (bits & !(0xffff_ffffu32 << n)) == bits & !(0xffff_ffffu32 << ((n + 1) as u32)),
{
}

/// The modifier bits that the names of a printed prefix stand for are the
/// printed bits.
proof fn lemma_prefix_flags(bits: u32, n: nat)
    requires
        n <= 9,
    ensures
        flags_of(prefix_pieces(bits, n)) == bits & low_mask(n as u32),
    decreases n,
{
    if n == 0 {
        assert(bits & !(0xffff_ffffu32 << 0u32) == 0) by (bit_vector);
    } else {
        let b = (n - 1) as nat;
        lemma_prefix_flags(bits, b);
        lemma_mask_step(bits, b as u32);
        lemma_tag_names();
        let p = prefix_pieces(bits, b);
        if bits & (1u32 << (b as u32)) == (1u32 << (b as u32)) {
            assert(prefix_pieces(bits, n).drop_last() =~= p);
            assert(prefix_pieces(bits, n).last() == tag_name(b as int));
        }
    }
}

/// A key printed as its modifier prefix and its name parses back to its
/// first eight modifiers and its name, when the name holds no dash and is
/// not itself a modifier name.
pub proof fn law_prefix_parses_back(bits: u32, name: Seq<char>)
    requires
        !name.contains('-'),
        tag_position(name) is None,
    ensures
        flags_of(split_dash(prefix_of(bits, 8) + name)) == bits & 0xff,
        name_of(split_dash(prefix_of(bits, 8) + name)) == name,
{
    lemma_split_prefix(bits, 8, name);
    lemma_split_plain(name);
    lemma_prefix_flags(bits, 8);
    let ps = prefix_pieces(bits, 8);
    assert(ps + seq![name] =~= ps.push(name));
    assert(ps.push(name).drop_last() =~= ps);
    assert(bits & !(0xffff_ffffu32 << 8u32) == bits & 0xff) by (bit_vector);
}

} // verus!
