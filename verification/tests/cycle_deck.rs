use gallium::cycle::Cycle;
use gallium::deck::Deck;

#[test]
fn cycle_wraps_forward_and_backward() {
    let c = Cycle::new(3);
    assert_eq!(c.index(0), Some(0));
    assert_eq!(c.index(1), Some(1));
    assert_eq!(c.index(2), Some(2));
    assert_eq!(c.index(3), Some(0));
    assert_eq!(c.index(5), Some(2));
    assert_eq!(c.index(-1), Some(2));
    assert_eq!(c.index(-3), Some(0));
    assert_eq!(c.index(-4), Some(2));
}

#[test]
fn cycle_of_nothing_gives_nothing() {
    let c = Cycle::new(0);
    assert_eq!(c.index(0), None);
    assert_eq!(c.index(7), None);
    assert_eq!(c.index(-7), None);
}

#[test]
fn cycle_is_periodic() {
    let c = Cycle::new(4);
    for i in -20isize..20 {
        assert_eq!(c.index(i), c.index(i + 4));
        let p = c.index(i).unwrap();
        assert!(p < 4);
    }
}

#[test]
fn cycle_step_back_returns() {
    let c = Cycle::new(5);
    for i in 0..5usize {
        let f = c.index(i as isize + 1).unwrap();
        assert_eq!(c.index(f as isize - 1), Some(i));
        let b = c.index(i as isize - 1).unwrap();
        assert_eq!(c.index(b as isize + 1), Some(i));
    }
}

#[test]
fn deck_push_selects_first_card() {
    let mut d: Deck<u32> = Deck::new();
    assert!(d.cards.is_empty());
    assert_eq!(d.index, None);
    d.push(10);
    assert_eq!(d.index, Some(0));
    d.push(20);
    assert_eq!(d.cards, vec![10, 20]);
    assert_eq!(d.index, Some(0));
}

#[test]
fn deck_select_and_current() {
    let mut d: Deck<u32> = Deck::new();
    assert!(d.current().is_none());
    d.push(1);
    d.push(2);
    d.select(1);
    assert_eq!(d.index, Some(1));
    *d.current().unwrap() = 7;
    assert_eq!(d.cards, vec![1, 7]);
    d.index = Some(5);
    assert!(d.current().is_none());
}

#[test]
fn deck_pop_returns_top_and_drops_position() {
    let mut d: Deck<u32> = Deck::new();
    d.push(1);
    d.push(2);
    d.push(3);
    d.select(0);
    assert_eq!(d.pop(), Some(3));
    assert_eq!(d.cards, vec![1, 2]);
    assert_eq!(d.index, None);
}

#[test]
fn deck_pop_undoes_push() {
    let mut d: Deck<u32> = Deck::new();
    d.push(4);
    d.push(5);
    let before = d.cards.clone();
    d.push(9);
    assert_eq!(d.pop(), Some(9));
    assert_eq!(d.cards, before);
}

#[test]
fn deck_swap_exchanges() {
    let mut d: Deck<u32> = Deck::new();
    d.push(1);
    d.push(2);
    d.push(3);
    d.swap(0, 2);
    assert_eq!(d.cards, vec![3, 2, 1]);
    assert_eq!(d.index, Some(0));
}

#[test]
fn deck_remove_keeps_or_drops_position() {
    let mut d: Deck<u32> = Deck::new();
    for v in [1, 2, 3, 4] {
        d.push(v);
    }
    d.select(1);
    assert_eq!(d.remove(3), Some(4));
    assert_eq!(d.index, Some(1));
    assert_eq!(d.remove(0), Some(1));
    assert_eq!(d.cards, vec![2, 3]);
    assert_eq!(d.index, Some(1));
    d.select(1);
    assert_eq!(d.remove(1), Some(3));
    assert_eq!(d.index, None);
}

#[test]
fn deck_forget_never_reselects() {
    let mut d: Deck<u32> = Deck::new();
    for v in [1, 2, 3] {
        d.push(v);
    }
    d.select(2);
    assert_eq!(d.forget(2), false);
    assert_eq!(d.cards, vec![1, 2]);
    assert_eq!(d.index, None);
    d.select(0);
    assert_eq!(d.forget(1), false);
    assert_eq!(d.index, Some(0));
}
