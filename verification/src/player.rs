use vstd::prelude::*;
use crate::card::Card;
use crate::cards::PlayTo;
use crate::deck::{Deck, DeckView};

verus! {

/// A player: a name, a hand of cards and the index of the selected card of the hand
#[derive(Debug)]
pub struct Player<CardSet: Card> {
    pub name: String,
    hand: Vec<CardSet>,
    selected_card: usize,
}

/// The abstract state of a `Player`: the name, the hand from first to last card, and the
/// selected index
pub ghost struct PlayerView<C> {
    pub name: Seq<char>,
    pub hand: Seq<C>,
    pub selected: usize,
}

impl<CardSet: Card> View for Player<CardSet> {
    type V = PlayerView<CardSet>;

    closed spec fn view(&self) -> PlayerView<CardSet> {
        PlayerView { name: self.name@, hand: self.hand@, selected: self.selected_card }
    }
}

impl<CardSet: Card> Player<CardSet> {
    /// A player of the given name with an empty hand, selecting index 0
    pub fn new(name: String) -> (p: Self)
        ensures
            p@ == (PlayerView::<CardSet> { name: name@, hand: Seq::empty(), selected: 0 }),
    {
        Player { name, hand: Vec::new(), selected_card: 0 }
    }

    /// Select the card at index `i`, if the hand has one there
    pub fn set_selected_card(&mut self, i: usize)
        ensures
            final(self)@ == (PlayerView {
                selected: if i < old(self)@.hand.len() { i } else { old(self)@.selected },
                ..old(self)@
            }),
    {
        if i < self.hand.len() {
            self.selected_card = i;
        }
    }

    /// Select the next card, wrapping from the last card to the first
    pub fn inc_selected_card(&mut self)
        requires
            old(self)@.hand.len() > 0,
            old(self)@.selected < usize::MAX,
        ensures
            final(self)@ == (PlayerView {
                selected: ((old(self)@.selected + 1) % (old(self)@.hand.len() as int)) as usize,
                ..old(self)@
            }),
    {
        self.selected_card = (self.selected_card + 1) % self.hand.len();
    }

    /// Select the previous card, wrapping from the first card to the last
    pub fn dec_selected_card(&mut self)
        ensures
            final(self)@ == (PlayerView {
                selected: crate::cards::card_stack::wrapping_prev(old(self)@.selected, old(self)@.hand.len()),
                ..old(self)@
            }),
    {
        let mut tmp = false;
        let half: usize = isize::MAX as usize;
        if self.selected_card > half {
            self.selected_card = self.selected_card - half;
            tmp = true;
        }
        self.selected_card = match self.selected_card.checked_sub(1) {
            Some(d) => d,
            None => self.hand.len().saturating_sub(1),
        };
        if tmp {
            self.selected_card = self.selected_card + half;
        }
    }

    /// Take the selected card out of the hand
    pub fn select_hand_card(&mut self) -> (c: CardSet)
        requires
            old(self)@.selected < old(self)@.hand.len(),
        ensures
            c == old(self)@.hand[old(self)@.selected as int],
            final(self)@ == (PlayerView { hand: old(self)@.hand.remove(old(self)@.selected as int), ..old(self)@ }),
    {
        self.hand.remove(self.selected_card)
    }

    /// Play the selected card to `playable`; a refused card goes back to the end of the hand
    pub fn play_hand_card(&mut self, playable: &mut impl PlayTo<CardSet>)
        requires
            old(self)@.selected < old(self)@.hand.len(),
        ensures
            ({
                let c = old(self)@.hand[old(self)@.selected as int];
                let rest = old(self)@.hand.remove(old(self)@.selected as int);
                if old(playable).accepts(c) {
                    &&& final(playable)@ == old(playable).after_play(c)
                    &&& final(self)@ == (PlayerView { hand: rest, ..old(self)@ })
                } else {
                    &&& final(playable)@ == old(playable)@
                    &&& final(self)@ == (PlayerView { hand: rest.push(c), ..old(self)@ })
                }
            }),
    {
        let card = self.select_hand_card();
        match playable.play_to(card) {
            Err(err_card) => {
                self.hand.push(err_card);
            },
            _ => {},
        }
    }

    /// Put `card` on top of the deck `discard`
    pub fn discard_to_deck(&mut self, card: CardSet, discard: &mut Deck<CardSet>)
        ensures
            final(discard)@ == (DeckView { cards: old(discard)@.cards.push(card), ..old(discard)@ }),
            final(self)@ == old(self)@,
    {
        discard.push(card);
    }
}

} // verus!
