//! A `Vec<T>` that carries a `current` position.
use vstd::prelude::*;

verus! {

/// Exchanges two elements of a vector.
///
/// Trusted: calls `<[T]>::swap` of std, which its documentation says
/// swaps the two elements and panics when either index is out of bounds;
/// `requires` keeps the indices in bounds.
#[verifier::external_body]
fn vec_swap<T>(v: &mut Vec<T>, a: usize, b: usize)
    requires
        a < old(v)@.len(),
        b < old(v)@.len(),
    ensures
        final(v)@ == old(v)@.update(a as int, old(v)@[b as int]).update(b as int, old(v)@[a as int]),
{
    v.swap(a, b);
}

/// The cards and the optional position of the current card.
#[derive(PartialEq)]
pub struct Deck<T> {
    pub cards: Vec<T>,
    pub index: Option<usize>,
}

/// The position that `Deck::remove` leaves: it is dropped when it pointed at
/// or after the removed card and no card is left there.
pub open spec fn index_after_remove(index: Option<usize>, ind: int, new_len: int) -> Option<usize> {
    match index {
        Some(i) => if i >= ind && new_len <= i { None } else { index },
        None => None,
    }
}

/// The position that `Deck::pop` leaves: it is dropped whenever the new
/// length is at least the position.
pub open spec fn index_after_pop(index: Option<usize>, new_len: int) -> Option<usize> {
    match index {
        Some(i) => if new_len >= i { None } else { index },
        None => None,
    }
}

impl<T> Deck<T> {
    /// The current position, when there is one, names a card.
    pub open spec fn wf(&self) -> bool {
        self.index matches Some(i) ==> i < self.cards@.len()
    }

    /// An empty deck with no current card.
    pub fn new() -> (d: Deck<T>)
        ensures
            d.cards@ == Seq::<T>::empty(),
            d.index == None::<usize>,
            d.wf(),
    {
        Deck { cards: Vec::new(), index: None }
    }

    /// Makes the card at `ind` current.
    pub fn select(&mut self, ind: usize)
        requires
            ind < old(self).cards@.len(),
        ensures
            final(self).cards@ == old(self).cards@,
            final(self).index == Some(ind),
            final(self).wf(),
    {
        self.index = Some(ind);
    }

    /// The current card, when the position names one.
    pub fn current(&mut self) -> (r: Option<&mut T>)
        ensures
            final(self).index == old(self).index,
            match old(self).index {
                Some(i) => if i < old(self).cards@.len() {
                    &&& r matches Some(e)
                    &&& *e == old(self).cards@[i as int]
                    &&& final(self).cards@ == old(self).cards@.update(i as int, *final(e))
                } else {
                    r is None && final(self).cards@ == old(self).cards@
                },
                None => r is None && final(self).cards@ == old(self).cards@,
            },
    {
        match self.index {
            Some(i) => {
                if i >= self.cards.len() {
                    return None;
                }
                Some(&mut self.cards[i])
            },
            None => None,
        }
    }

    /// Puts `card` on top; a deck without a current card makes it current.
    pub fn push(&mut self, card: T)
        ensures
            final(self).cards@ == old(self).cards@.push(card),
            final(self).index == (match old(self).index {
                Some(i) => Some(i),
                None => Some(old(self).cards@.len() as usize),
            }),
            old(self).wf() ==> final(self).wf(),
    {
        self.cards.push(card);
        if self.index.is_none() {
            self.index = Some(self.cards.len() - 1);
        }
    }

    /// Takes the top card off; the current position is dropped when the
    /// new length is at least the position (which, for a position that
    /// named a card, is always).
    pub fn pop(&mut self) -> (r: Option<T>)
        requires
            old(self).cards@.len() > 0,
        ensures
            r == Some(old(self).cards@.last()),
            final(self).cards@ == old(self).cards@.drop_last(),
            final(self).index == index_after_pop(old(self).index, old(self).cards@.len() - 1),
            old(self).wf() ==> final(self).wf(),
    {
        let r = self.cards.pop();
        match self.index {
            Some(i) => {
                if self.cards.len() >= i {
                    self.index = None;
                }
            },
            None => {},
        }
        Some(r.unwrap())
    }

    /// Exchanges the cards at `pos1` and `pos2`; the position stays.
    pub fn swap(&mut self, pos1: usize, pos2: usize)
        requires
            pos1 < old(self).cards@.len(),
            pos2 < old(self).cards@.len(),
        ensures
            final(self).cards@ == old(self).cards@.update(pos1 as int, old(self).cards@[pos2 as int]).update(
                pos2 as int,
                old(self).cards@[pos1 as int],
            ),
            final(self).index == old(self).index,
            old(self).wf() ==> final(self).wf(),
    {
        vec_swap(&mut self.cards, pos1, pos2);
    }

    /// Takes out the card at `ind`, shifting the later ones down; the
    /// position is dropped when nothing is left at it.
    pub fn remove(&mut self, ind: usize) -> (r: Option<T>)
        requires
            ind < old(self).cards@.len(),
        ensures
            r == Some(old(self).cards@[ind as int]),
            final(self).cards@ == old(self).cards@.remove(ind as int),
            final(self).index == index_after_remove(
                old(self).index,
                ind as int,
                old(self).cards@.len() - 1,
            ),
            old(self).wf() ==> final(self).wf(),
    {
        let k = self.cards.remove(ind);
        match self.index {
            Some(i) => {
                if i >= ind && self.cards.len() <= i {
                    self.index = None;
                }
            },
            None => {},
        }
        Some(k)
    }

    /// Takes out the card at `ind` and reselects the old position when
    /// `remove` dropped it and it still names a card; reports whether it
    /// reselected. (`remove` only drops a position that no card is left at,
    /// so this never reselects: the result is always `false`.)
    pub fn forget(&mut self, ind: usize) -> (r: bool)
        requires
            ind < old(self).cards@.len(),
        ensures
            r == false,
            final(self).cards@ == old(self).cards@.remove(ind as int),
            final(self).index == index_after_remove(
                old(self).index,
                ind as int,
                old(self).cards@.len() - 1,
            ),
            old(self).wf() ==> final(self).wf(),
    {
        let old_index = self.index;
        let _elem = self.remove(ind);
        match old_index {
            Some(o) => {
                if self.index.is_none() {
                    if o < self.cards.len() {
                        self.select(o);
                        return true;
                    }
                }
            },
            None => {},
        }
        false
    }

    /// The cards, as a slice.
    fn slice(&mut self) -> (r: &[T])
        ensures
            r@ == old(self).cards@,
            *final(self) == *old(self),
    {
        self.cards.as_slice()
    }
}

/// Popping a deck right after pushing a card gives the card back and leaves
/// the cards as they were.
pub proof fn law_pop_undoes_push<T>(cards: Seq<T>, card: T)
    ensures
        cards.push(card).last() == card,
        cards.push(card).drop_last() == cards,
{
    assert(cards.push(card).drop_last() =~= cards);
}

/// Removing a card keeps a sound position sound, and takes exactly one card
/// out: the ones before it stay where they were, the ones after it move
/// down by one.
pub proof fn law_remove_shifts<T>(cards: Seq<T>, index: Option<usize>, ind: int)
    requires
        0 <= ind < cards.len(),
        index matches Some(i) ==> i < cards.len(),
    ensures
        cards.remove(ind).len() == cards.len() - 1,
        forall|j: int| 0 <= j < ind ==> cards.remove(ind)[j] == cards[j],
        forall|j: int| ind <= j < cards.len() - 1 ==> cards.remove(ind)[j] == cards[j + 1],
        index_after_remove(index, ind, cards.len() - 1) matches Some(i) ==> i < cards.len() - 1,
{
}

} // verus!
