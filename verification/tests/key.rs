use gallium::key::{modifier_prefix, parse_chord, Key, KeyMod, CONTROL, KOMMAND, LOCK, MOD4, SHIFT};

#[test]
fn parse_chord_with_modifiers() {
    let c = parse_chord("K-S-Return");
    assert_eq!(c.modifier, KOMMAND | SHIFT);
    assert_eq!(c.name, "Return");
}

#[test]
fn parse_chord_kommand_prefix_alone() {
    let c = parse_chord("M4-");
    assert_eq!(c.modifier, MOD4);
    assert_eq!(c.name, "");
    let c = parse_chord("M4-A");
    assert_eq!(c.modifier, MOD4);
    assert_eq!(c.name, "A");
}

#[test]
fn parse_chord_plain_key() {
    let c = parse_chord("q");
    assert_eq!(c.modifier, 0);
    assert_eq!(c.name, "q");
    let c = parse_chord("K-minus");
    assert_eq!(c.modifier, KOMMAND);
    assert_eq!(c.name, "minus");
}

#[test]
fn parse_chord_keeps_last_non_modifier_piece() {
    let c = parse_chord("x-C-y");
    assert_eq!(c.modifier, CONTROL);
    assert_eq!(c.name, "y");
    let c = parse_chord("Lock-M-M2-M3-M5-z");
    assert_eq!(c.modifier, LOCK | 0b1000 | 0b10000 | 0b100000 | 0b10000000);
    assert_eq!(c.name, "z");
}

#[test]
fn keymod_from_bits_refuses_unknown_bits() {
    assert!(KeyMod::from_bits(0x200).is_none());
    assert_eq!(KeyMod::from_bits(0x1FF).unwrap().bits(), 0x1FF);
    assert_eq!(KeyMod::empty().bits(), 0);
    let u = KeyMod::from_bits(SHIFT).unwrap().union(KeyMod::from_bits(MOD4).unwrap());
    assert_eq!(u.bits(), SHIFT | MOD4);
}

#[test]
fn modifier_prefix_lists_first_eight() {
    assert_eq!(modifier_prefix(KeyMod::from_bits(SHIFT | CONTROL).unwrap()), "S-C-");
    assert_eq!(modifier_prefix(KeyMod::from_bits(KOMMAND).unwrap()), "");
    assert_eq!(modifier_prefix(KeyMod::from_bits(0xFF).unwrap()), "S-Lock-C-M-M2-M3-M4-M5-");
}

#[test]
fn key_parse_drops_unknown_state() {
    let k = Key::parse(38, 0x2000 | SHIFT, 97);
    assert_eq!(k.code, 38);
    assert_eq!(k.sym, 97);
    assert_eq!(k.modifier.bits(), 0);
    let k = Key::parse(38, SHIFT | MOD4, 97);
    assert_eq!(k.modifier.bits(), SHIFT | MOD4);
}

#[test]
fn key_create_from_chord() {
    let c = parse_chord("K-S-q");
    let k = Key::create(&c, 113, 24);
    assert_eq!(k.code, 24);
    assert_eq!(k.sym, 113);
    assert_eq!(k.modifier.bits(), KOMMAND | SHIFT);
}

#[test]
fn printed_prefix_parses_back() {
    for bits in [0u32, SHIFT, SHIFT | CONTROL, 0xFF, KOMMAND | MOD4, 0x1FF] {
        let m = KeyMod::from_bits(bits).unwrap();
        let text = format!("{}{}", modifier_prefix(m), "Return");
        let c = parse_chord(&text);
        assert_eq!(c.modifier, bits & 0xFF);
        assert_eq!(c.name, "Return");
    }
}
