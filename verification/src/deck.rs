use vstd::prelude::*;
use crate::card::{Card, Flippable, FrenchCard, FrenchRank, FrenchSuit, SuitRankCard};
use crate::cards::deck::{draw_shuffle_picks, shuffle_vec, valid_draws, fisher_yates};

verus! {

broadcast use {vstd::seq_lib::group_to_multiset_ensures, crate::card::SuitRankCard::lemma_made};

/// A pile of cards that may be drawn from, shuffled and refilled, with an optional discard pile
#[derive(Clone, Debug)]
pub struct Deck<CardSet: Card> {
    deck: Vec<CardSet>,
    default_discard: Option<Vec<CardSet>>,
}

/// The abstract state of a `Deck`: its cards from bottom (first) to top (last), and the cards
/// of its discard pile if it has one
pub ghost struct DeckView<C> {
    pub cards: Seq<C>,
    pub discard: Option<Seq<C>>,
}

impl<CardSet: Card> View for Deck<CardSet> {
    type V = DeckView<CardSet>;

    closed spec fn view(&self) -> DeckView<CardSet> {
        DeckView {
            cards: self.deck@,
            discard: match self.default_discard {
                Some(d) => Some(d@),
                None => None,
            },
        }
    }
}

/// `b` holds a clone of each card of `a`, in the same order
pub open spec fn all_cloned<C: Clone>(a: Seq<C>, b: Seq<C>) -> bool {
    &&& b.len() == a.len()
    &&& forall|k: int| 0 <= k < a.len() ==> cloned::<C>(a[k], #[trigger] b[k])
}

impl<CardSet: Card> Deck<CardSet> {
    /// A deck with no cards and no discard pile
    pub fn new_empty() -> (d: Self)
        ensures
            d@ == (DeckView::<CardSet> { cards: Seq::empty(), discard: None }),
    {
        Deck { deck: Vec::new(), default_discard: None }
    }

    /// Draw the top card, or fail with an empty message when there is none
    pub fn draw(&mut self) -> (r: Result<CardSet, &str>)
        ensures
            old(self)@.cards.len() > 0 ==> r == Ok::<CardSet, &str>(old(self)@.cards.last())
                && final(self)@ == (DeckView { cards: old(self)@.cards.drop_last(), ..old(self)@ }),
            old(self)@.cards.len() == 0 ==> (r matches Err(e) && e@ == Seq::<char>::empty())
                && final(self)@ == old(self)@,
    {
        proof {
            reveal_strlit("");
        }
        match self.deck.pop() {
            Some(c) => Ok(c),
            None => Err(""),
        }
    }

    /// Put the cards in an order chosen by chance, by the Fisher-Yates method: from the top
    /// down, each position swaps with a position at or below it chosen by chance; afterwards
    /// the deck holds the same cards, as many times each
    pub fn shuffle(&mut self)
        ensures
            final(self)@.cards.to_multiset() == old(self)@.cards.to_multiset(),
            final(self)@.cards.len() == old(self)@.cards.len(),
            final(self)@.discard == old(self)@.discard,
            exists|draws: Seq<usize>|
                valid_draws(draws, old(self)@.cards.len()) && final(self)@.cards == fisher_yates(
                    old(self)@.cards,
                    draws,
                ),
    {
        let draws = draw_shuffle_picks(self.deck.len());
        self.shuffle_with(&draws);
    }

    /// Shuffle the deck by the Fisher-Yates method with the picks `draws`: step `k` swaps the
    /// card at position `n - 1 - k` (counting from the bottom, of `n` cards) with the card at
    /// position `draws[k]`
    pub fn shuffle_with(&mut self, draws: &Vec<usize>)
        requires
            valid_draws(draws@, old(self)@.cards.len()),
        ensures
            final(self)@ == (DeckView { cards: fisher_yates(old(self)@.cards, draws@), ..old(self)@ }),
            final(self)@.cards.len() == old(self)@.cards.len(),
            final(self)@.cards.to_multiset() == old(self)@.cards.to_multiset(),
    {
        shuffle_vec(&mut self.deck, draws);
    }

    /// Put the deck under the discard pile (or, when asked or when there is none, under the
    /// cards of `other`) and make the deck a copy of the result; the pile the cards went to
    /// keeps them too
    pub fn replenish(&mut self, other: Option<&mut Deck<CardSet>>, force_other: bool)
        requires
            (old(self)@.discard is Some && !force_other) || other is Some,
        ensures
            old(self)@.discard is Some && !force_other ==> {
                let joined = old(self)@.discard->0 + old(self)@.cards;
                &&& final(self)@.discard == Some(joined)
                &&& all_cloned(joined, final(self)@.cards)
            },
            !(old(self)@.discard is Some && !force_other) ==> final(self)@.discard == old(self)@.discard
                && (match other {
                Some(o) => {
                    let joined = o@.cards + old(self)@.cards;
                    &&& final(o)@ == (DeckView { cards: joined, ..o@ })
                    &&& all_cloned(joined, final(self)@.cards)
                },
                None => false,
            }),
    {
        let use_discard = self.default_discard.is_some() && !force_other;
        if use_discard {
            if let Some(discard) = &mut self.default_discard {
                discard.append(&mut self.deck);
                self.deck = discard.clone();
            }
        } else if let Some(other) = other {
            other.deck.append(&mut self.deck);
            self.deck = other.deck.clone();
        }
    }

    /// Push a card onto the top of the deck
    pub fn push(&mut self, card: CardSet)
        ensures
            final(self)@ == (DeckView { cards: old(self)@.cards.push(card), ..old(self)@ }),
    {
        self.deck.push(card);
    }

    /// Borrow the cards of the deck
    pub fn get_inner_deck(&self) -> (cards: &Vec<CardSet>)
        ensures
            cards@ == self@.cards,
    {
        &self.deck
    }

    /// Mutably borrow the cards of the deck
    pub fn get_inner_deck_mut(&mut self) -> (cards: &mut Vec<CardSet>)
        ensures
            cards@ == old(self)@.cards,
            final(self)@ == (DeckView { cards: final(cards)@, ..old(self)@ }),
    {
        &mut self.deck
    }
}

impl<C: Card + Flippable> Deck<C> {
    /// Turn every card of the deck face-up
    pub fn all_face_up(&mut self)
        ensures
            final(self)@.discard == old(self)@.discard,
            final(self)@.cards.len() == old(self)@.cards.len(),
            forall|k: int| 0 <= k < old(self)@.cards.len() ==> #[trigger] final(self)@.cards[k] == old(self)@.cards[k].face_turned(true),
    {
        let n = self.deck.len();
        for i in 0..n
            invariant
                n == self.deck@.len(),
                n == old(self).deck@.len(),
                forall|k: int| 0 <= k < i ==> self.deck@[k] == old(self).deck@[k].face_turned(true),
                forall|k: int| i <= k < n ==> self.deck@[k] == old(self).deck@[k],
                self.default_discard == old(self).default_discard,
        {
            self.deck[i].flip_face_up();
        }
    }

    /// Turn every card of the deck face-down
    pub fn all_face_down(&mut self)
        ensures
            final(self)@.discard == old(self)@.discard,
            final(self)@.cards.len() == old(self)@.cards.len(),
            forall|k: int| 0 <= k < old(self)@.cards.len() ==> #[trigger] final(self)@.cards[k] == old(self)@.cards[k].face_turned(false),
    {
        let n = self.deck.len();
        for i in 0..n
            invariant
                n == self.deck@.len(),
                n == old(self).deck@.len(),
                forall|k: int| 0 <= k < i ==> self.deck@[k] == old(self).deck@[k].face_turned(false),
                forall|k: int| i <= k < n ==> self.deck@[k] == old(self).deck@[k],
                self.default_discard == old(self).default_discard,
        {
            self.deck[i].flip_face_down();
        }
    }
}

/// The suit at position `k % 4` of the order Spades, Hearts, Clubs, Diamonds
pub open spec fn french_suit_at(k: int) -> FrenchSuit {
    if k % 4 == 0 {
        FrenchSuit::Spades
    } else if k % 4 == 1 {
        FrenchSuit::Hearts
    } else if k % 4 == 2 {
        FrenchSuit::Clubs
    } else {
        FrenchSuit::Diamonds
    }
}

/// The rank of card `k` of the standard French deck: the pips 1 to 10, then Jack, Queen and
/// King, four cards each
pub open spec fn french_rank_at(k: int) -> FrenchRank {
    if k < 40 {
        FrenchRank::Pip((k / 4 + 1) as u32)
    } else if k < 44 {
        FrenchRank::Jack
    } else if k < 48 {
        FrenchRank::Queen
    } else {
        FrenchRank::King
    }
}

/// Push the four suits of `rank`, face-up, in the order Spades, Hearts, Clubs, Diamonds
fn push_suits(deck: &mut Vec<FrenchCard>, rank: FrenchRank)
    ensures
        final(deck)@ == old(deck)@ + seq![
            SuitRankCard::made(FrenchSuit::Spades, rank, true),
            SuitRankCard::made(FrenchSuit::Hearts, rank, true),
            SuitRankCard::made(FrenchSuit::Clubs, rank, true),
            SuitRankCard::made(FrenchSuit::Diamonds, rank, true),
        ],
{
    deck.push(SuitRankCard::new(FrenchSuit::Spades, rank));
    deck.push(SuitRankCard::new(FrenchSuit::Hearts, rank));
    deck.push(SuitRankCard::new(FrenchSuit::Clubs, rank));
    deck.push(SuitRankCard::new(FrenchSuit::Diamonds, rank));
    assert(final(deck)@ =~= old(deck)@ + seq![
        SuitRankCard::made(FrenchSuit::Spades, rank, true),
        SuitRankCard::made(FrenchSuit::Hearts, rank, true),
        SuitRankCard::made(FrenchSuit::Clubs, rank, true),
        SuitRankCard::made(FrenchSuit::Diamonds, rank, true),
    ]);
}

impl Deck<FrenchCard> {
    /// The 52 cards of the French deck, face-up: the four suits of each pip from 1 to 10, then
    /// of Jack, Queen and King; with an empty discard pile
    pub fn new_standard_french_deck() -> (d: Deck<FrenchCard>)
        ensures
            d@.cards.len() == 52,
            forall|k: int| 0 <= k < 52 ==> #[trigger] d@.cards[k] == SuitRankCard::made(
                french_suit_at(k),
                french_rank_at(k),
                true,
            ),
            d@.discard == Some(Seq::<FrenchCard>::empty()),
    {
        let mut deck: Vec<FrenchCard> = Vec::new();
        for i in 1..11u32
            invariant
                deck@.len() == 4 * (i - 1),
                forall|k: int| 0 <= k < deck@.len() ==> #[trigger] deck@[k] == SuitRankCard::made(
                    french_suit_at(k),
                    french_rank_at(k),
                    true,
                ),
        {
            let ghost before = deck@;
            push_suits(&mut deck, FrenchRank::Pip(i));
            assert forall|k: int| 0 <= k < deck@.len() implies #[trigger] deck@[k] == SuitRankCard::made(
                french_suit_at(k),
                french_rank_at(k),
                true,
            ) by {
                if k >= before.len() {
                    assert(k / 4 + 1 == i);
                }
            }
        }
        let ranks = [FrenchRank::Jack, FrenchRank::Queen, FrenchRank::King];
        for j in 0..3usize
            invariant
                ranks@ == seq![FrenchRank::Jack, FrenchRank::Queen, FrenchRank::King],
                deck@.len() == 40 + 4 * j,
                forall|k: int| 0 <= k < deck@.len() ==> #[trigger] deck@[k] == SuitRankCard::made(
                    french_suit_at(k),
                    french_rank_at(k),
                    true,
                ),
        {
            let ghost before = deck@;
            push_suits(&mut deck, ranks[j]);
        }
        Deck { deck, default_discard: Some(Vec::new()) }
    }
}

} // verus!
