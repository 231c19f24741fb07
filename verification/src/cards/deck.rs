use vstd::prelude::*;
use super::{Card, FlippableCard, highlight_code, unhighlight_code, row_text, append_row};
use vstd::string::StringExecFns;
use super::french_card::{FrenchCard, FrenchRank};
use crate::vec_ops::swap_items;

verus! {

broadcast use {vstd::seq_lib::group_to_multiset_ensures, super::flippable_card::group_flippable_card};

/// Errors originating from Deck functionality
#[derive(Clone, Copy, Debug, PartialEq, Eq, Structural)]
pub enum DeckError {
    NoValidCard,
    DrawOnEmptyDeck,
    NoDefaultDiscard,
}

/// Enum for tracking whether the deck or default discard pile
/// is curently hovered
#[derive(Copy, Clone, Debug, PartialEq, Eq, Structural)]
pub enum DeckToggle {
    Deck,
    Discard,
}

impl DeckToggle {
    /// The other of the two options
    pub open spec fn other(self) -> DeckToggle {
        match self {
            DeckToggle::Deck => DeckToggle::Discard,
            DeckToggle::Discard => DeckToggle::Deck,
        }
    }

    /// Convenience function to toggle between the two DeckToggle options
    pub fn toggle(&mut self)
        ensures
            *final(self) == old(self).other(),
    {
        *self = match self {
            DeckToggle::Deck => DeckToggle::Discard,
            DeckToggle::Discard => DeckToggle::Deck,
        }
    }
}

/// A structure containing a collection of cards which may be shuffled, drawn from, and discarded from/to
#[derive(Debug)]
pub struct Deck<C: Card> {
    deck: Vec<C>,
    default_discard: Option<Vec<C>>,
    display_discard: bool,
    hovered: Option<DeckToggle>,
    /// Only set if this element has no parent
    pos: Option<(u16, u16)>,
}

/// The abstract state of a `Deck`: its cards from bottom (first) to top (last), the cards of
/// its default discard pile if it has one, whether that pile is displayed, which of the two is
/// hovered, and its position.
pub ghost struct DeckView<C> {
    pub cards: Seq<C>,
    pub discard: Option<Seq<C>>,
    pub display_discard: bool,
    pub hovered: Option<DeckToggle>,
    pub pos: Option<(u16, u16)>,
}

impl<C> DeckView<C> {
    /// The same deck with other cards
    pub open spec fn with_cards(self, cards: Seq<C>) -> Self {
        DeckView { cards, ..self }
    }

    /// The same deck with another discard pile
    pub open spec fn with_discard(self, discard: Option<Seq<C>>) -> Self {
        DeckView { discard, ..self }
    }

    /// The same deck with another hover state
    pub open spec fn with_hovered(self, hovered: Option<DeckToggle>) -> Self {
        DeckView { hovered, ..self }
    }
}

impl<C: Card> View for Deck<C> {
    type V = DeckView<C>;

    closed spec fn view(&self) -> DeckView<C> {
        DeckView {
            cards: self.deck@,
            discard: match self.default_discard {
                Some(d) => Some(d@),
                None => None,
            },
            display_discard: self.display_discard,
            hovered: self.hovered,
            pos: self.pos,
        }
    }
}

/// A uniformly chosen index below `bound`, from the thread-local generator of `rand`.
/// `rand::random_range` documents that it returns a value of the half-open range it is given
/// and panics on an empty range, which `requires` excludes. Which value comes back is chance,
/// so nothing more is stated.
#[verifier::external_body]
pub(crate) fn random_below(bound: usize) -> (j: usize)
    requires
        bound > 0,
    ensures
        j < bound,
{
    rand::random_range(0..bound)
}

/// The picks of a Fisher-Yates shuffle of `n` cards: one pick per step, the pick of step `k`
/// at most `n - 1 - k` (the position that step swaps)
pub open spec fn valid_draws(draws: Seq<usize>, n: nat) -> bool {
    &&& draws.len() == if n > 0 { n - 1 } else { 0 }
    &&& forall|k: int| 0 <= k < draws.len() ==> #[trigger] draws[k] <= n - 1 - k
}

/// The cards after the first `k` steps of a Fisher-Yates shuffle with the picks `draws`: step
/// `k` swaps the card at position `n - 1 - k` with the card at position `draws[k]`
pub open spec fn fisher_yates_steps<C>(cards: Seq<C>, draws: Seq<usize>, k: int) -> Seq<C>
    decreases k,
{
    if k <= 0 {
        cards
    } else {
        let prev = fisher_yates_steps(cards, draws, k - 1);
        let i = cards.len() - k;
        let j = draws[k - 1] as int;
        prev.update(i, prev[j]).update(j, prev[i])
    }
}

/// The cards after a Fisher-Yates shuffle with the picks `draws`
pub open spec fn fisher_yates<C>(cards: Seq<C>, draws: Seq<usize>) -> Seq<C> {
    fisher_yates_steps(cards, draws, draws.len() as int)
}

/// Choose by chance the picks of a Fisher-Yates shuffle of `n` cards: step `k` picks a position
/// from 0 to `n - 1 - k`
pub(crate) fn draw_shuffle_picks(n: usize) -> (draws: Vec<usize>)
    ensures
        valid_draws(draws@, n as nat),
{
    let mut draws: Vec<usize> = Vec::new();
    let mut i = n;
    while i > 1
        invariant
            i <= n,
            n > 0 ==> i >= 1,
            draws@.len() == n - i,
            forall|k: int| 0 <= k < draws@.len() ==> #[trigger] draws@[k] <= n - 1 - k,
        decreases i,
    {
        i = i - 1;
        let j = random_below(i + 1);
        draws.push(j);
    }
    draws
}

/// Apply the Fisher-Yates steps with the picks `draws` to `v`
pub(crate) fn shuffle_vec<T>(v: &mut Vec<T>, draws: &Vec<usize>)
    requires
        valid_draws(draws@, old(v)@.len()),
    ensures
        final(v)@ == fisher_yates(old(v)@, draws@),
        final(v)@.len() == old(v)@.len(),
        final(v)@.to_multiset() == old(v)@.to_multiset(),
{
    let n = v.len();
    let m = draws.len();
    let mut k: usize = 0;
    while k < m
        invariant
            n == v@.len(),
            n == old(v)@.len(),
            m == draws@.len(),
            valid_draws(draws@, n as nat),
            k <= m,
            v@ == fisher_yates_steps(old(v)@, draws@, k as int),
            v@.to_multiset() == old(v)@.to_multiset(),
        decreases m - k,
    {
        let i = n - 1 - k;
        let j = draws[k];
        let ghost s = v@;
        swap_items(v, i, j);
        proof {
            let s1 = s.update(i as int, s[j as int]);
            assert(s1.to_multiset() == s.to_multiset().insert(s[j as int]).remove(s[i as int]));
            assert(s1.update(j as int, s[i as int]).to_multiset() == s1.to_multiset().insert(
                s[i as int],
            ).remove(s1[j as int]));
            assert(v@.to_multiset() =~= s.to_multiset());
        }
        k = k + 1;
    }
}

impl<C: Card> Deck<C> {
    /// Create a new deck containing no cards
    pub fn new_empty(pos: Option<(u16, u16)>) -> (d: Self)
        ensures
            d@ == (DeckView::<C> {
                cards: Seq::empty(),
                discard: None,
                display_discard: false,
                hovered: None,
                pos,
            }),
    {
        Deck { deck: Vec::new(), default_discard: None, display_discard: false, hovered: None, pos }
    }

    /// Create a new empty deck with a default discard pile,
    /// and with an option to either display or hide the discard pile
    pub fn new_with_default_discard(discard: Vec<C>, display_discard: bool, pos: Option<(u16, u16)>) -> (d: Self)
        ensures
            d@ == (DeckView::<C> {
                cards: Seq::empty(),
                discard: Some(discard@),
                display_discard,
                hovered: None,
                pos,
            }),
    {
        let mut ret = Self::new_empty(pos);
        ret.default_discard = Some(discard);
        ret.display_discard = display_discard;
        ret
    }

    /// Set the position on screen
    pub fn set_pos(&mut self, pos: Option<(u16, u16)>)
        ensures
            final(self)@ == (DeckView { pos, ..old(self)@ }),
    {
        self.pos = pos
    }

    /// The position on screen, if set
    pub fn get_pos(&self) -> (r: Option<(u16, u16)>)
        ensures
            r == self@.pos,
    {
        self.pos
    }

    /// Mutably borrow the position on screen, if set
    pub fn get_pos_mut(&mut self) -> (r: Option<&mut (u16, u16)>)
        ensures
            old(self)@.pos is None ==> r is None && final(self)@ == old(self)@,
            old(self)@.pos is Some ==> r is Some && *r->0 == old(self)@.pos->0
                && final(self)@ == (DeckView { pos: Some(*final(r->0)), ..old(self)@ }),
    {
        self.pos.as_mut()
    }

    /// Draw a single card from the top (end) of the deck and return it
    /// to the function caller if it exists
    pub fn draw_card(&mut self) -> (r: Option<C>)
        ensures
            old(self)@.cards.len() == 0 ==> r is None && final(self)@ == old(self)@,
            old(self)@.cards.len() > 0 ==> r == Some(old(self)@.cards.last())
                && final(self)@ == old(self)@.with_cards(old(self)@.cards.drop_last()),
    {
        self.deck.pop()
    }

    /// Draw `n` cards from the top (end) of the deck and return them to the
    /// function caller. If the deck contains fewer than `n` cards before drawing,
    /// return the remainder of the Deck wrapped in an `Err` and allow the caller
    /// to decide how to proceed.
    pub fn draw_n(&mut self, n: usize) -> (r: Result<Vec<C>, Vec<C>>)
        ensures
            n <= old(self)@.cards.len() ==> r is Ok
                && r->Ok_0@ == old(self)@.cards.subrange(old(self)@.cards.len() - n, old(self)@.cards.len() as int)
                && final(self)@ == old(self)@.with_cards(old(self)@.cards.subrange(0, old(self)@.cards.len() - n)),
            n > old(self)@.cards.len() ==> r is Err && r->Err_0@ == old(self)@.cards
                && final(self)@ == old(self)@.with_cards(Seq::empty()),
    {
        if self.deck.len() >= n {
            Ok(self.deck.split_off(self.deck.len() - n))
        } else {
            let rest = self.deck.split_off(0);
            assert(self.deck@ =~= Seq::<C>::empty());
            Err(rest)
        }
    }

    /// Place the top card of the deck immediately onto the top of
    /// its discard pile (if it has one).
    pub fn top_deck_discard_default(&mut self) -> (r: Result<(), DeckError>)
        ensures
            old(self)@.discard is None ==> r == Err::<(), DeckError>(DeckError::NoDefaultDiscard)
                && final(self)@ == old(self)@,
            old(self)@.discard is Some && old(self)@.cards.len() == 0 ==> r == Err::<(), DeckError>(
                DeckError::DrawOnEmptyDeck,
            ) && final(self)@ == old(self)@,
            old(self)@.discard is Some && old(self)@.cards.len() > 0 ==> r is Ok
                && final(self)@ == old(self)@.with_cards(old(self)@.cards.drop_last()).with_discard(
                    Some(old(self)@.discard->0.push(old(self)@.cards.last())),
                ),
    {
        match &mut self.default_discard {
            None => Err(DeckError::NoDefaultDiscard),
            Some(d) => {
                if let Some(c) = self.deck.pop() {
                    d.push(c);
                    Ok(())
                } else {
                    Err(DeckError::DrawOnEmptyDeck)
                }
            },
        }
    }

    /// Place the top card of the deck immediately onto the top of the provided
    /// deck.
    pub fn top_deck_discard_to(&mut self, other: &mut Deck<C>) -> (r: Result<(), DeckError>)
        ensures
            old(self)@.cards.len() == 0 ==> r == Err::<(), DeckError>(DeckError::DrawOnEmptyDeck)
                && final(self)@ == old(self)@ && final(other)@ == old(other)@,
            old(self)@.cards.len() > 0 ==> r is Ok
                && final(self)@ == old(self)@.with_cards(old(self)@.cards.drop_last())
                && final(other)@ == old(other)@.with_cards(old(other)@.cards.push(old(self)@.cards.last())),
    {
        if let Some(c) = self.draw_card() {
            let mut moved = Vec::new();
            moved.push(c);
            assert(old(other).deck@.push(c) =~= old(other).deck@ + moved@);
            other.add_cards(&mut moved);
            Ok(())
        } else {
            Err(DeckError::DrawOnEmptyDeck)
        }
    }

    /// Borrow the top card of the deck, if it exists
    pub fn peek_top(&self) -> (r: Option<&C>)
        ensures
            self@.cards.len() == 0 ==> r is None,
            self@.cards.len() > 0 ==> r == Some(&self@.cards.last()),
    {
        self.deck.last()
    }

    /// Borrow the bottom card of the deck, if it exists
    pub fn peek_bottom(&self) -> (r: Option<&C>)
        ensures
            self@.cards.len() == 0 ==> r is None,
            self@.cards.len() > 0 ==> r == Some(&self@.cards[0]),
    {
        self.deck.first()
    }

    /// Randomize the positions of `Card`s in the `Deck` by the Fisher-Yates method: from the
    /// top down, each position swaps with a position at or below it chosen by chance;
    /// afterwards the deck holds the same cards, as many times each
    pub fn shuffle(&mut self)
        ensures
            final(self)@.cards.len() == old(self)@.cards.len(),
            final(self)@.cards.to_multiset() == old(self)@.cards.to_multiset(),
            final(self)@ == old(self)@.with_cards(final(self)@.cards),
            exists|draws: Seq<usize>|
                valid_draws(draws, old(self)@.cards.len()) && final(self)@.cards == fisher_yates(
                    old(self)@.cards,
                    draws,
                ),
    {
        let draws = draw_shuffle_picks(self.deck.len());
        self.shuffle_with(&draws);
    }

    /// Shuffle the deck by the Fisher-Yates method with the picks `draws`: step `k` swaps the
    /// card at position `n - 1 - k` (counting from the bottom, of `n` cards) with the card at
    /// position `draws[k]`
    pub fn shuffle_with(&mut self, draws: &Vec<usize>)
        requires
            valid_draws(draws@, old(self)@.cards.len()),
        ensures
            final(self)@ == old(self)@.with_cards(fisher_yates(old(self)@.cards, draws@)),
            final(self)@.cards.len() == old(self)@.cards.len(),
            final(self)@.cards.to_multiset() == old(self)@.cards.to_multiset(),
    {
        shuffle_vec(&mut self.deck, draws);
    }

    /// Return the contents of the deck's default discard pile to the bottom (beginning)
    /// of the deck.
    pub fn replenish_default(&mut self) -> (r: Result<(), DeckError>)
        ensures
            old(self)@.discard is None ==> r == Err::<(), DeckError>(DeckError::NoDefaultDiscard)
                && final(self)@ == old(self)@,
            old(self)@.discard is Some ==> r is Ok && final(self)@ == old(self)@.with_cards(
                old(self)@.discard->0 + old(self)@.cards,
            ).with_discard(Some(Seq::empty())),
    {
        let ghost old_cards = self.deck@;
        if let Some(default_discard) = &mut self.default_discard {
            let ghost old_discard = default_discard@;
            default_discard.append(&mut self.deck);
            self.deck = default_discard.split_off(0);
            assert(default_discard@ =~= Seq::<C>::empty());
            assert(self.deck@ =~= old_discard + old_cards);
            Ok(())
        } else {
            Err(DeckError::NoDefaultDiscard)
        }
    }

    /// Return the contents of the provided deck to the bottom (beginning) of
    /// the deck
    pub fn replenish_from(&mut self, other: &mut Deck<C>)
        ensures
            final(self)@ == old(self)@.with_cards(old(other)@.cards + old(self)@.cards),
            final(other)@ == old(other)@.with_cards(Seq::empty()),
    {
        let ghost joined = other.deck@ + self.deck@;
        other.deck.append(&mut self.deck);
        self.deck = other.deck.split_off(0);
        assert(other.deck@ =~= Seq::<C>::empty());
        assert(self.deck@ =~= joined);
    }

    /// Reverse the order of the deck's contents
    pub fn reverse(&mut self)
        ensures
            final(self)@ == old(self)@.with_cards(old(self)@.cards.reverse()),
    {
        let n = self.deck.len();
        let mut reversed: Vec<C> = Vec::new();
        while self.deck.len() > 0
            invariant
                n == old(self).deck@.len(),
                self.deck@.len() <= n,
                self.deck@ == old(self).deck@.subrange(0, self.deck@.len() as int),
                reversed@.len() == n - self.deck@.len(),
                forall|k: int| 0 <= k < reversed@.len() ==> #[trigger] reversed@[k] == old(self).deck@[n - 1 - k],
                self.default_discard == old(self).default_discard,
                self.display_discard == old(self).display_discard,
                self.hovered == old(self).hovered,
                self.pos == old(self).pos,
            decreases self.deck@.len(),
        {
            let c = self.deck.pop().unwrap();
            reversed.push(c);
            assert(self.deck@ =~= old(self).deck@.subrange(0, self.deck@.len() as int));
        }
        self.deck = reversed;
        assert(self.deck@ =~= old(self).deck@.reverse());
    }

    /// Add the provided cards to the top of the deck
    pub fn add_cards(&mut self, cards: &mut Vec<C>)
        ensures
            final(self)@ == old(self)@.with_cards(old(self)@.cards + old(cards)@),
            final(cards)@ == Seq::<C>::empty(),
    {
        self.deck.append(cards);
    }

    /// Push a single card onto the top of the deck
    pub fn push(&mut self, card: C)
        ensures
            final(self)@ == old(self)@.with_cards(old(self)@.cards.push(card)),
    {
        self.deck.push(card);
    }

    /// Remove the entire contents of the deck and return them to the caller
    pub fn get_inner_deck(&mut self) -> (cards: Vec<C>)
        ensures
            cards@ == old(self)@.cards,
            final(self)@ == old(self)@.with_cards(Seq::empty()),
    {
        let cards = self.deck.split_off(0);
        assert(self.deck@ =~= Seq::<C>::empty());
        cards
    }

    /// Borrow the deck
    pub fn inner_deck(&self) -> (cards: &Vec<C>)
        ensures
            cards@ == self@.cards,
    {
        &self.deck
    }

    /// Mutably borrow the deck
    pub fn inner_deck_mut(&mut self) -> (cards: &mut Vec<C>)
        ensures
            cards@ == old(self)@.cards,
            final(self)@ == old(self)@.with_cards(final(cards)@),
    {
        &mut self.deck
    }

    /// Borrow the default discard pile when the deck has one and displays it
    pub fn displayed_discard(&self) -> (r: Option<&Vec<C>>)
        ensures
            self@.display_discard && self@.discard is Some ==> r is Some && r->0@ == self@.discard->0,
            !(self@.display_discard && self@.discard is Some) ==> r is None,
    {
        if self.display_discard {
            match &self.default_discard {
                Some(d) => Some(d),
                None => None,
            }
        } else {
            None
        }
    }

    /// If the deck is hovered, return whether it is the deck or discard pile
    /// currently hovered over. If the deck is not hovered, return None
    pub fn is_hovered(&self) -> (r: Option<DeckToggle>)
        ensures
            r == self@.hovered,
    {
        self.hovered
    }

    /// Toggle between hovering over the deck and its the default discard (if it exists); a
    /// deck without a discard pile keeps its hover
    pub fn toggle_deck_hover(&mut self)
        ensures
            old(self)@.discard is Some ==> final(self)@ == old(self)@.with_hovered(
                match old(self)@.hovered {
                    Some(h) => Some(h.other()),
                    None => None,
                },
            ),
            old(self)@.discard is None ==> final(self)@ == old(self)@,
    {
        if self.default_discard.is_some() {
            if let Some(h) = &mut self.hovered {
                h.toggle()
            }
        }
    }

    /// Hover over the discard pile (if it exists)
    pub fn hover_discard(&mut self)
        ensures
            old(self)@.discard is Some ==> final(self)@ == old(self)@.with_hovered(Some(DeckToggle::Discard)),
            old(self)@.discard is None ==> final(self)@ == old(self)@,
    {
        if self.default_discard.is_some() {
            self.hovered = Some(DeckToggle::Discard);
        }
    }

    /// Hover over the deck
    pub fn hover_deck(&mut self)
        ensures
            final(self)@ == old(self)@.with_hovered(Some(DeckToggle::Deck)),
    {
        self.hovered = Some(DeckToggle::Deck);
    }

    /// Completely unhover the Deck
    pub fn unhover(&mut self)
        ensures
            final(self)@ == old(self)@.with_hovered(None),
    {
        self.hovered = None;
    }

    /// Draw a single card from the top (end) of the default discard
    /// (if it exists)
    pub fn draw_discard(&mut self) -> (r: Option<C>)
        ensures
            (match old(self)@.discard {
                Some(d) => d.len() > 0,
                None => false,
            }) ==> r == Some(old(self)@.discard->0.last())
                && final(self)@ == old(self)@.with_discard(Some(old(self)@.discard->0.drop_last())),
            !(match old(self)@.discard {
                Some(d) => d.len() > 0,
                None => false,
            }) ==> r is None && final(self)@ == old(self)@,
    {
        if let Some(dc) = &mut self.default_discard {
            dc.pop()
        } else {
            None
        }
    }

    /// Place passed cards onto the top (end) of the default discard (if it exists)
    pub fn play_cards_to_discard(&mut self, cards: &mut Vec<C>) -> (r: Result<(), DeckError>)
        ensures
            old(self)@.discard is None ==> r == Err::<(), DeckError>(DeckError::NoDefaultDiscard)
                && final(self)@ == old(self)@ && final(cards)@ == old(cards)@,
            old(self)@.discard is Some ==> r is Ok
                && final(self)@ == old(self)@.with_discard(Some(old(self)@.discard->0 + old(cards)@))
                && final(cards)@ == Seq::<C>::empty(),
    {
        if let Some(dc) = &mut self.default_discard {
            dc.append(cards);
            Ok(())
        } else {
            Err(DeckError::NoDefaultDiscard)
        }
    }
}


impl<C: Card> Clone for Deck<C> {
    /// A deck of clones of the cards and of the discard pile, with the same display flag,
    /// hover state and position
    fn clone(&self) -> (r: Self)
        ensures
            r@.cards.len() == self@.cards.len(),
            forall|k: int| 0 <= k < self@.cards.len() ==> cloned::<C>(self@.cards[k], #[trigger] r@.cards[k]),
            r@.discard is Some == self@.discard is Some,
            self@.discard matches Some(d) ==> (r@.discard->0.len() == d.len() && forall|k: int|
                0 <= k < d.len() ==> cloned::<C>(d[k], #[trigger] r@.discard->0[k])),
            r@.display_discard == self@.display_discard,
            r@.hovered == self@.hovered,
            r@.pos == self@.pos,
    {
        let default_discard = match &self.default_discard {
            Some(d) => Some(d.clone()),
            None => None,
        };
        Deck {
            deck: self.deck.clone(),
            default_discard,
            display_discard: self.display_discard,
            hovered: self.hovered,
            pos: self.pos,
        }
    }
}

/// Every card of `cards` turned to show (`up`) or hide its face
pub open spec fn all_turned<C: Card>(cards: Seq<FlippableCard<C>>, up: bool) -> Seq<FlippableCard<C>> {
    cards.map_values(|c: FlippableCard<C>| c.with_face(up))
}

impl<C: Card> Deck<FlippableCard<C>> {
    /// Place the top card of the deck immediately onto the top of
    /// its discard pile (if it has one) flipped face-up
    pub fn top_deck_discard_default_flip(&mut self) -> (r: Result<(), DeckError>)
        ensures
            old(self)@.discard is None ==> r == Err::<(), DeckError>(DeckError::NoDefaultDiscard)
                && final(self)@ == old(self)@,
            old(self)@.discard is Some && old(self)@.cards.len() == 0 ==> r == Err::<(), DeckError>(
                DeckError::DrawOnEmptyDeck,
            ) && final(self)@ == old(self)@,
            old(self)@.discard is Some && old(self)@.cards.len() > 0 ==> r is Ok
                && final(self)@ == old(self)@.with_cards(old(self)@.cards.drop_last()).with_discard(
                    Some(old(self)@.discard->0.push(old(self)@.cards.last().with_face(true))),
                ),
    {
        match &mut self.default_discard {
            None => Err(DeckError::NoDefaultDiscard),
            Some(d) => {
                if let Some(mut c) = self.deck.pop() {
                    c.flip_face_up();
                    d.push(c);
                    Ok(())
                } else {
                    Err(DeckError::DrawOnEmptyDeck)
                }
            },
        }
    }

    /// Flip all cards in the deck face-up
    pub fn all_face_up(&mut self)
        ensures
            final(self)@ == old(self)@.with_cards(all_turned(old(self)@.cards, true)),
    {
        let n = self.deck.len();
        for i in 0..n
            invariant
                n == self.deck@.len(),
                n == old(self).deck@.len(),
                forall|k: int| 0 <= k < i ==> self.deck@[k] == old(self).deck@[k].with_face(true),
                forall|k: int| i <= k < n ==> self.deck@[k] == old(self).deck@[k],
                self.default_discard == old(self).default_discard,
                self.display_discard == old(self).display_discard,
                self.hovered == old(self).hovered,
                self.pos == old(self).pos,
        {
            self.deck[i].flip_face_up();
        }
        assert(self.deck@ =~= all_turned(old(self).deck@, true));
    }

    /// Flip all cards in the deck face-down
    pub fn all_face_down(&mut self)
        ensures
            final(self)@ == old(self)@.with_cards(all_turned(old(self)@.cards, false)),
    {
        let n = self.deck.len();
        for i in 0..n
            invariant
                n == self.deck@.len(),
                n == old(self).deck@.len(),
                forall|k: int| 0 <= k < i ==> self.deck@[k] == old(self).deck@[k].with_face(false),
                forall|k: int| i <= k < n ==> self.deck@[k] == old(self).deck@[k],
                self.default_discard == old(self).default_discard,
                self.display_discard == old(self).display_discard,
                self.hovered == old(self).hovered,
                self.pos == old(self).pos,
        {
            self.deck[i].flip_face_down();
        }
        assert(self.deck@ =~= all_turned(old(self).deck@, false));
    }

    /// Flip only the top card of the deck face-up
    pub fn top_face_up(&mut self) -> (r: Result<(), DeckError>)
        ensures
            old(self)@.cards.len() == 0 ==> r == Err::<(), DeckError>(DeckError::NoValidCard)
                && final(self)@ == old(self)@,
            old(self)@.cards.len() > 0 ==> r is Ok && final(self)@ == old(self)@.with_cards(
                old(self)@.cards.update(old(self)@.cards.len() - 1, old(self)@.cards.last().with_face(true)),
            ),
    {
        let n = self.deck.len();
        if n > 0 {
            self.deck[n - 1].flip_face_up();
            Ok(())
        } else {
            Err(DeckError::NoValidCard)
        }
    }

    /// Flip only the top card of the deck face-down
    pub fn top_face_down(&mut self) -> (r: Result<(), DeckError>)
        ensures
            old(self)@.cards.len() == 0 ==> r == Err::<(), DeckError>(DeckError::NoValidCard)
                && final(self)@ == old(self)@,
            old(self)@.cards.len() > 0 ==> r is Ok && final(self)@ == old(self)@.with_cards(
                old(self)@.cards.update(old(self)@.cards.len() - 1, old(self)@.cards.last().with_face(false)),
            ),
    {
        let n = self.deck.len();
        if n > 0 {
            self.deck[n - 1].flip_face_down();
            Ok(())
        } else {
            Err(DeckError::NoValidCard)
        }
    }

    /// Toggle the flip state of the top card of the deck
    pub fn flip_top(&mut self) -> (r: Result<(), DeckError>)
        ensures
            old(self)@.cards.len() == 0 ==> r == Err::<(), DeckError>(DeckError::NoValidCard)
                && final(self)@ == old(self)@,
            old(self)@.cards.len() > 0 ==> r is Ok && final(self)@ == old(self)@.with_cards(
                old(self)@.cards.update(
                    old(self)@.cards.len() - 1,
                    old(self)@.cards.last().with_face(!old(self)@.cards.last().face_up()),
                ),
            ),
    {
        let n = self.deck.len();
        if n > 0 {
            self.deck[n - 1].flip();
            Ok(())
        } else {
            Err(DeckError::NoValidCard)
        }
    }
}

/// The rank of the cards at position `k` of the standard French deck: Ace to 10, then Jack,
/// Queen and King, four cards of each
pub open spec fn standard_french_rank(k: int) -> FrenchRank {
    if k < 40 {
        FrenchRank::Pip((k / 4 + 1) as u32)
    } else if k < 44 {
        FrenchRank::Jack
    } else if k < 48 {
        FrenchRank::Queen
    } else {
        FrenchRank::King
    }
}

/// The card at position `k` (from the bottom) of a new standard French deck: each rank in
/// turn, in the suits Spades, Hearts, Clubs and Diamonds
pub open spec fn standard_french_card(k: int) -> FrenchCard {
    let r = standard_french_rank(k);
    if k % 4 == 0 {
        FrenchCard::Spades(r)
    } else if k % 4 == 1 {
        FrenchCard::Hearts(r)
    } else if k % 4 == 2 {
        FrenchCard::Clubs(r)
    } else {
        FrenchCard::Diamonds(r)
    }
}

/// The 52 cards of a new standard French deck, bottom first
pub open spec fn standard_french_cards() -> Seq<FrenchCard> {
    Seq::new(52, |k: int| standard_french_card(k))
}

/// The cards held by a sequence of flippable cards, whichever way they face
pub open spec fn inner_cards<C: Card>(cards: Seq<FlippableCard<C>>) -> Seq<C> {
    cards.map_values(|c: FlippableCard<C>| c.inner())
}

/// Push the four suits of `rank`, face-up, in the order Spades, Hearts, Clubs, Diamonds
fn push_all_suits(deck: &mut Vec<FlippableCard<FrenchCard>>, rank: FrenchRank)
    ensures
        final(deck)@ == old(deck)@ + seq![
            FlippableCard::spec_new(FrenchCard::Spades(rank)),
            FlippableCard::spec_new(FrenchCard::Hearts(rank)),
            FlippableCard::spec_new(FrenchCard::Clubs(rank)),
            FlippableCard::spec_new(FrenchCard::Diamonds(rank)),
        ],
{
    deck.push(FlippableCard::new(FrenchCard::Spades(rank)));
    deck.push(FlippableCard::new(FrenchCard::Hearts(rank)));
    deck.push(FlippableCard::new(FrenchCard::Clubs(rank)));
    deck.push(FlippableCard::new(FrenchCard::Diamonds(rank)));
    assert(deck@ =~= old(deck)@ + seq![
        FlippableCard::spec_new(FrenchCard::Spades(rank)),
        FlippableCard::spec_new(FrenchCard::Hearts(rank)),
        FlippableCard::spec_new(FrenchCard::Clubs(rank)),
        FlippableCard::spec_new(FrenchCard::Diamonds(rank)),
    ]);
}

/// The 52 cards of the standard French deck, face-up, bottom first
fn standard_french_vec() -> (deck: Vec<FlippableCard<FrenchCard>>)
    ensures
        deck@.len() == 52,
        forall|k: int| 0 <= k < 52 ==> #[trigger] deck@[k] == FlippableCard::spec_new(standard_french_card(k)),
{
    let mut deck: Vec<FlippableCard<FrenchCard>> = Vec::new();
    for i in 1..11u32
        invariant
            deck@.len() == 4 * (i - 1),
            forall|k: int| 0 <= k < deck@.len() ==> #[trigger] deck@[k] == FlippableCard::spec_new(standard_french_card(k)),
    {
        let ghost before = deck@;
        push_all_suits(&mut deck, FrenchRank::Pip(i));
        assert forall|k: int| 0 <= k < deck@.len() implies #[trigger] deck@[k] == FlippableCard::spec_new(standard_french_card(k)) by {
            if k >= before.len() {
                assert(k / 4 + 1 == i);
            }
        }
    }

    let ranks = [FrenchRank::Jack, FrenchRank::Queen, FrenchRank::King];
    for j in 0..3usize
        invariant
            ranks@ == seq![FrenchRank::Jack, FrenchRank::Queen, FrenchRank::King],
            deck@.len() == 40 + 4 * j,
            forall|k: int| 0 <= k < deck@.len() ==> #[trigger] deck@[k] == FlippableCard::spec_new(standard_french_card(k)),
    {
        let ghost before = deck@;
        push_all_suits(&mut deck, ranks[j]);
        assert forall|k: int| 0 <= k < deck@.len() implies #[trigger] deck@[k] == FlippableCard::spec_new(standard_french_card(k)) by {
            if k >= before.len() {
                assert(k % 4 == k - before.len());
            }
        }
    }
    deck
}

impl Deck<FlippableCard<FrenchCard>> {
    /// Generate and return a standard 52-card flippable French-style deck (no Jokers)
    pub fn new_standard_french_deck(default_discard: bool, display_discard: bool, pos: Option<(u16, u16)>) -> (d: Deck<
        FlippableCard<FrenchCard>,
    >)
        ensures
            d@.cards.len() == 52,
            forall|k: int| 0 <= k < 52 ==> #[trigger] d@.cards[k] == FlippableCard::spec_new(standard_french_card(k)),
            d@.discard == (if default_discard { Some(Seq::<FlippableCard<FrenchCard>>::empty()) } else { None }),
            d@.display_discard == display_discard,
            d@.hovered is None,
            d@.pos == pos,
    {
        let deck = standard_french_vec();
        let default_discard = if default_discard {
            Some(Vec::new())
        } else {
            None
        };
        Deck { deck, default_discard, display_discard, hovered: None, pos }
    }

    /// Generate and return a 54-card French style deck with 2 Jokers
    pub fn new_joker_french_deck(default_discard: Option<Vec<FlippableCard<FrenchCard>>>, display_discard: bool) -> (d:
        Deck<FlippableCard<FrenchCard>>)
        ensures
            d@.cards.len() == 54,
            forall|k: int| 0 <= k < 52 ==> #[trigger] d@.cards[k] == FlippableCard::spec_new(standard_french_card(k)),
            d@.cards[52] == FlippableCard::spec_new(FrenchCard::Joker),
            d@.cards[53] == FlippableCard::spec_new(FrenchCard::Joker),
            d@.discard == (match default_discard {
                Some(v) => Some(v@),
                None => None,
            }),
            d@.display_discard == display_discard,
            d@.hovered is None,
            d@.pos is None,
    {
        let mut deck = standard_french_vec();
        deck.push(FlippableCard::new(FrenchCard::Joker));
        deck.push(FlippableCard::new(FrenchCard::Joker));
        Deck { deck, default_discard, display_discard, hovered: None, pos: None }
    }
}

/// Toggling the hover twice returns to the same part of the deck
pub proof fn lemma_toggle_twice(t: DeckToggle)
    ensures
        t.other().other() == t,
        t.other() != t,
{
}

/// Drawing right after pushing a card gives that card back and leaves the deck as it was
pub proof fn lemma_push_then_draw<C>(d: DeckView<C>, card: C)
    ensures
        d.with_cards(d.cards.push(card)).cards.last() == card,
        d.with_cards(d.with_cards(d.cards.push(card)).cards.drop_last()) == d,
{
    assert(d.cards.push(card).drop_last() =~= d.cards);
}

/// Reversing a deck twice gives it back
pub proof fn lemma_reverse_twice<C>(d: DeckView<C>)
    ensures
        d.with_cards(d.with_cards(d.cards.reverse()).cards.reverse()) == d,
{
    assert(d.cards.reverse().reverse() =~= d.cards);
}

/// Drawing `n` cards and adding them back on top gives the deck back
pub proof fn lemma_draw_n_then_add<C>(d: DeckView<C>, n: int)
    requires
        0 <= n <= d.cards.len(),
    ensures
        d.cards.subrange(0, d.cards.len() - n) + d.cards.subrange(d.cards.len() - n, d.cards.len() as int) == d.cards,
{
    assert(d.cards.subrange(0, d.cards.len() - n) + d.cards.subrange(d.cards.len() - n, d.cards.len() as int) =~= d.cards);
}

/// The text of a deck: its cards in a row (a highlighted blank when it is empty and its deck
/// is hovered), then, if it displays its discard pile, that pile in a row on the next line
/// after `=> `; the top card of the hovered part is highlighted
pub open spec fn deck_text<C: Card>(d: DeckView<C>) -> Seq<char> {
    (if d.cards.len() == 0 && d.hovered == Some(DeckToggle::Deck) {
        highlight_code() + seq![' ', ' '] + unhighlight_code()
    } else {
        Seq::empty()
    }) + row_text(d.cards, d.hovered == Some(DeckToggle::Deck)) + (if d.display_discard && d.discard is Some {
        seq!['\n', '=', '>', ' '] + row_text(d.discard->0, d.hovered == Some(DeckToggle::Discard))
    } else {
        Seq::empty()
    })
}

impl<C: Card> Deck<C> {
    /// The text of the deck: its cards, then its displayed discard pile on the next line
    pub fn to_string(&self) -> (r: String)
        ensures
            r@ == deck_text(self@),
    {
        proof {
            reveal_strlit("\x1b[100m  \x1b[40m");
            reveal_strlit("\n=> ");
        }
        let mut r = String::new();
        let deck_hovered = match self.hovered {
            Some(DeckToggle::Deck) => true,
            _ => false,
        };
        let discard_hovered = match self.hovered {
            Some(DeckToggle::Discard) => true,
            _ => false,
        };
        if self.deck.len() == 0 && deck_hovered {
            r.append("\x1b[100m  \x1b[40m");
        }
        append_row(&mut r, &self.deck, deck_hovered);
        if self.display_discard {
            if let Some(d) = &self.default_discard {
                r.append("\n=> ");
                append_row(&mut r, d, discard_hovered);
            }
        }
        assert(r@ =~= deck_text(self@));
        r
    }
}

} // verus!
