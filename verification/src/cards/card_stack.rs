use vstd::prelude::*;
use super::{Card, PlayTo, highlight_code, unhighlight_code};
use vstd::string::StringExecFns;

verus! {

/// A representation of a stack of cards which may be played to, without
/// the special functionality associated with a deck (e.g. drawing, shuffling)
/// Has an optional stack limit which allows the stack to reject being played
/// to if the played card would exceed its limit
#[derive(Debug)]
pub struct CardStack<C: Card> {
    stack: Vec<C>,
    variant: CardStackVariant,
    lim: Option<usize>,
    hovered_card: Option<usize>,
    pos: Option<(u16, u16)>,
}

/// Variant enum for use when displaying the CardStack. Indicates the order and direction
/// that the cards in the stack should be displayed.
#[derive(Clone, Copy, Debug, PartialEq, Eq, Structural)]
pub enum CardStackVariant {
    HorizontalLtR,
    HorizontalRtL,
    VerticalTtB,
    VerticalBtT,
    Flush,
}

/// Errors originating from CardStack functionality
#[derive(Clone, Copy, Debug, PartialEq, Eq, Structural)]
pub enum CardStackError {
    InvalidCardSelection,
    CardStackOverflow,
}

/// The abstract state of a `CardStack`: its cards from bottom (first) to top (last),
/// its display variant, its optional limit, its hovered index and its position.
pub ghost struct CardStackView<C> {
    pub cards: Seq<C>,
    pub variant: CardStackVariant,
    pub lim: Option<usize>,
    pub hovered: Option<usize>,
    pub pos: Option<(u16, u16)>,
}

impl<C> CardStackView<C> {
    /// The limit leaves room for `n` more cards
    pub open spec fn has_room_for(self, n: int) -> bool {
        match self.lim {
            None => true,
            Some(l) => self.cards.len() + n <= l,
        }
    }

    /// The same stack with other cards
    pub open spec fn with_cards(self, cards: Seq<C>) -> Self {
        CardStackView { cards, ..self }
    }

    /// The same stack with another hovered index
    pub open spec fn with_hovered(self, hovered: Option<usize>) -> Self {
        CardStackView { hovered, ..self }
    }

    /// The same stack hovering over its top (last) card, or over position 0 when empty
    pub open spec fn hovering_top(self) -> Self {
        self.with_hovered(Some(if self.cards.len() == 0 { 0 } else { (self.cards.len() - 1) as usize }))
    }
}

/// The index that precedes `c` when moving backwards through `len` positions, wrapping from
/// the first position to the last
pub open spec fn wrapping_prev(c: usize, len: nat) -> usize {
    if c == 0 {
        if len == 0 { 0 } else { (len - 1) as usize }
    } else {
        (c - 1) as usize
    }
}

/// `b` is a clone of the stack `a`: the same but for its cards, each a clone of the card of `a`
/// at its position
pub open spec fn stack_cloned<C: Card>(a: CardStackView<C>, b: CardStackView<C>) -> bool {
    &&& b == a.with_cards(b.cards)
    &&& b.cards.len() == a.cards.len()
    &&& forall|k: int| 0 <= k < a.cards.len() ==> cloned::<C>(a.cards[k], #[trigger] b.cards[k])
}

impl<C: Card> View for CardStack<C> {
    type V = CardStackView<C>;

    closed spec fn view(&self) -> CardStackView<C> {
        CardStackView {
            cards: self.stack@,
            variant: self.variant,
            lim: self.lim,
            hovered: self.hovered_card,
            pos: self.pos,
        }
    }
}

impl<C: Card> CardStack<C> {
    /// Return a new, empty, unhovered, unlimited CardStack; a limit is set with `set_lim`
    pub fn new(variant: CardStackVariant, lim: Option<usize>) -> (s: Self)
        ensures
            s@ == (CardStackView::<C> { cards: Seq::empty(), variant, lim: None, hovered: None, pos: None }),
    {
        CardStack { stack: Vec::new(), variant, lim: None, hovered_card: None, pos: None }
    }

    /// Return a new, unhovered, unlimited Cardstack containing the passed cards (in order); a
    /// limit is set with `set_lim`
    pub fn new_from(stack: Vec<C>, variant: CardStackVariant, lim: Option<usize>) -> (s: Self)
        ensures
            s@ == (CardStackView::<C> { cards: stack@, variant, lim: None, hovered: None, pos: None }),
    {
        CardStack { stack, variant, lim: None, hovered_card: None, pos: None }
    }

    /// Return the current length of the CardStack
    pub fn len(&self) -> (n: usize)
        ensures
            n == self@.cards.len(),
    {
        self.stack.len()
    }

    /// Collect all cards in the stack and return them to the caller
    pub fn gather_cards(&mut self) -> (cards: Vec<C>)
        ensures
            cards@ == old(self)@.cards,
            final(self)@ == old(self)@.with_cards(Seq::empty()),
    {
        let cards = self.stack.split_off(0);
        assert(self.stack@ =~= Seq::empty());
        cards
    }

    /// Return the display variant of the CardStack
    pub fn stack_variant(&self) -> (v: &CardStackVariant)
        ensures
            *v == self@.variant,
    {
        &self.variant
    }

    /// Directly set which card in the stack is currently hovered over by index,
    /// if the given index exists
    pub fn set_hovered_card(&mut self, stack: usize) -> (r: Result<(), CardStackError>)
        ensures
            stack < old(self)@.cards.len() ==> r is Ok && final(self)@ == old(self)@.with_hovered(Some(stack)),
            stack >= old(self)@.cards.len() ==> r == Err::<(), CardStackError>(CardStackError::InvalidCardSelection)
                && final(self)@ == old(self)@,
    {
        if stack < self.stack.len() {
            self.hovered_card = Some(stack);
            Ok(())
        } else {
            Err(CardStackError::InvalidCardSelection)
        }
    }

    /// Borrow the last card on the CardStack (if it exists)
    pub fn last(&self) -> (r: Option<&C>)
        ensures
            self@.cards.len() == 0 ==> r is None,
            self@.cards.len() > 0 ==> r == Some(&self@.cards.last()),
    {
        self.stack.last()
    }

    /// Mutably borrow the last card on the CardStack (if it exists)
    pub fn last_mut(&mut self) -> (r: Option<&mut C>)
        ensures
            old(self)@.cards.len() == 0 ==> r is None && final(self)@ == old(self)@,
            old(self)@.cards.len() > 0 ==> r is Some && *r->0 == old(self)@.cards.last()
                && final(self)@ == old(self)@.with_cards(
                    old(self)@.cards.update(old(self)@.cards.len() - 1, *final(r->0)),
                ),
    {
        let n = self.stack.len();
        if n == 0 {
            None
        } else {
            Some(&mut self.stack[n - 1])
        }
    }

    /// Hover over the next card in the stack, wrapping from the last card to the first
    pub fn inc_hovered_card(&mut self)
        requires
            old(self)@.hovered matches Some(c) ==> old(self)@.cards.len() > 0 && c < usize::MAX,
        ensures
            final(self)@ == old(self)@.with_hovered(
                match old(self)@.hovered {
                    Some(c) => Some(((c + 1) % (old(self)@.cards.len() as int)) as usize),
                    None => None,
                },
            ),
    {
        if let Some(c) = self.hovered_card {
            self.hovered_card = Some((c + 1) % self.stack.len());
        }
    }

    /// Hover over the previous card in the stack, wrapping from the first card to the last
    pub fn dec_hovered_card(&mut self)
        ensures
            final(self)@ == old(self)@.with_hovered(
                match old(self)@.hovered {
                    Some(c) => Some(wrapping_prev(c, old(self)@.cards.len())),
                    None => None,
                },
            ),
    {
        let mut tmp = false;
        let half: usize = isize::MAX as usize;

        if let Some(c) = self.hovered_card {
            if c > half {
                self.hovered_card = Some(c - half);
                tmp = true;
            }
        }

        if let Some(c) = self.hovered_card {
            self.hovered_card = Some(
                match c.checked_sub(1) {
                    Some(d) => d,
                    None => self.stack.len().saturating_sub(1),
                },
            );
        }

        if tmp {
            if let Some(c) = self.hovered_card {
                self.hovered_card = Some(c + half);
            }
        }
    }

    /// Return the index of the currently hovered card
    pub fn get_hovered_card_idx(&self) -> (r: Option<usize>)
        ensures
            r == self@.hovered,
    {
        self.hovered_card
    }

    /// Borrow the currently hovered card
    pub fn get_hovered_card(&self) -> (r: Option<&C>)
        ensures
            r == (match self@.hovered {
                Some(c) => if c < self@.cards.len() { Some(&self@.cards[c as int]) } else { None },
                None => None,
            }),
    {
        if let Some(c) = self.hovered_card {
            if c < self.stack.len() {
                Some(&self.stack[c])
            } else {
                None
            }
        } else {
            None
        }
    }

    /// Mutably borrow the currently hovered card
    pub fn get_hovered_card_mut(&mut self) -> (r: Option<&mut C>)
        requires
            old(self)@.hovered matches Some(c) ==> c < old(self)@.cards.len(),
        ensures
            old(self)@.hovered is None ==> r is None && final(self)@ == old(self)@,
            old(self)@.hovered matches Some(c) ==> r is Some
                && *r->0 == old(self)@.cards[c as int]
                && final(self)@ == old(self)@.with_cards(old(self)@.cards.update(c as int, *final(r->0))),
    {
        if let Some(c) = self.hovered_card {
            Some(&mut self.stack[c])
        } else {
            None
        }
    }
}


impl<C: Card> CardStack<C> {
    /// Remove the currently hovered card from the CardStack and return
    /// it to the caller
    pub fn take_hovered_card(&mut self) -> (r: Option<C>)
        requires
            old(self)@.hovered matches Some(c) ==> c < old(self)@.cards.len(),
        ensures
            old(self)@.hovered is None ==> r is None && final(self)@ == old(self)@,
            old(self)@.hovered matches Some(c) ==> r == Some(old(self)@.cards[c as int])
                && final(self)@ == old(self)@.with_cards(old(self)@.cards.remove(c as int)),
    {
        if let Some(c) = self.hovered_card {
            Some(self.stack.remove(c))
        } else {
            None
        }
    }

    /// Remove all cards from the currently hovered card (if it exists) to the end of the stack
    /// and return them (in order) to the caller
    pub fn take_hovered_stack(&mut self) -> (r: Option<CardStack<C>>)
        requires
            old(self)@.hovered matches Some(c) ==> c <= old(self)@.cards.len(),
        ensures
            old(self)@.hovered is None ==> r is None && final(self)@ == old(self)@,
            old(self)@.hovered matches Some(c) ==> r is Some
                && r->0@ == (CardStackView::<C> {
                    cards: old(self)@.cards.subrange(c as int, old(self)@.cards.len() as int),
                    variant: CardStackVariant::Flush,
                    lim: None,
                    hovered: None,
                    pos: None,
                })
                && final(self)@ == old(self)@.with_cards(old(self)@.cards.subrange(0, c as int)),
    {
        if let Some(c) = self.hovered_card {
            Some(CardStack::from(self.stack.split_off(c)))
        } else {
            None
        }
    }

    /// Hover over the last card in the CardStack
    pub fn hover(&mut self)
        ensures
            final(self)@ == old(self)@.hovering_top(),
    {
        self.hovered_card = Some(self.stack.len().saturating_sub(1));
    }

    /// Unhover the CardStack
    pub fn unhover(&mut self)
        ensures
            final(self)@ == old(self)@.with_hovered(None),
    {
        self.hovered_card = None;
    }

    /// Set the limit of the CardStack
    pub fn set_lim(&mut self, lim: usize)
        ensures
            final(self)@ == (CardStackView { lim: Some(lim), ..old(self)@ }),
    {
        self.lim = Some(lim);
    }

    /// Remove the limit of the CardStack
    pub fn unset_lim(&mut self)
        ensures
            final(self)@ == (CardStackView { lim: None, ..old(self)@ }),
    {
        self.lim = None;
    }

    /// Return the limit of the CardStack, if it exists
    pub fn get_lim(&self) -> (r: Option<usize>)
        ensures
            r == self@.lim,
    {
        self.lim
    }

    /// Borrow the card before the currently hovered card, if it exists
    pub fn peek_prev_card(&self) -> (r: Option<&C>)
        ensures
            r == (match self@.hovered {
                Some(c) => if 0 < c && c - 1 < self@.cards.len() { Some(&self@.cards[c - 1]) } else { None },
                None => None,
            }),
    {
        if let Some(c) = self.hovered_card {
            if c > 0 && c - 1 < self.stack.len() {
                return Some(&self.stack[c - 1]);
            }
        }
        None
    }

    /// Mutably borrow the card before the currently hovered card, if it exists
    pub fn prev_card_mut(&mut self) -> (r: Option<&mut C>)
        ensures
            (match old(self)@.hovered {
                Some(c) => 0 < c && c - 1 < old(self)@.cards.len(),
                None => false,
            }) ==> r is Some && *r->0 == old(self)@.cards[old(self)@.hovered->0 - 1]
                && final(self)@ == old(self)@.with_cards(
                    old(self)@.cards.update(old(self)@.hovered->0 - 1, *final(r->0)),
                ),
            !(match old(self)@.hovered {
                Some(c) => 0 < c && c - 1 < old(self)@.cards.len(),
                None => false,
            }) ==> r is None && final(self)@ == old(self)@,
    {
        if let Some(c) = self.hovered_card {
            if c > 0 && c - 1 < self.stack.len() {
                return Some(&mut self.stack[c - 1]);
            }
        }
        None
    }

    /// Borrow the card after the currently hovered card, if it exists
    pub fn peek_next_card(&self) -> (r: Option<&C>)
        ensures
            r == (match self@.hovered {
                Some(c) => if c + 1 < self@.cards.len() { Some(&self@.cards[c + 1]) } else { None },
                None => None,
            }),
    {
        if let Some(c) = self.hovered_card {
            if c < self.stack.len().saturating_sub(1) {
                return Some(&self.stack[c + 1]);
            }
        }
        None
    }

    /// Mutably borrow the card after the currently hovered card, if it exists
    pub fn next_card_mut(&mut self) -> (r: Option<&mut C>)
        ensures
            (match old(self)@.hovered {
                Some(c) => c + 1 < old(self)@.cards.len(),
                None => false,
            }) ==> r is Some && *r->0 == old(self)@.cards[old(self)@.hovered->0 + 1]
                && final(self)@ == old(self)@.with_cards(
                    old(self)@.cards.update(old(self)@.hovered->0 + 1, *final(r->0)),
                ),
            !(match old(self)@.hovered {
                Some(c) => c + 1 < old(self)@.cards.len(),
                None => false,
            }) ==> r is None && final(self)@ == old(self)@,
    {
        if let Some(c) = self.hovered_card {
            if c < self.stack.len().saturating_sub(1) {
                return Some(&mut self.stack[c + 1]);
            }
        }
        None
    }

    /// Play all of `cards` onto the top of the stack, in order, if the limit leaves room for
    /// all of them; `cards` is emptied only when they were played
    pub fn play_cards(&mut self, cards: &mut Vec<C>) -> (r: Result<(), CardStackError>)
        requires
            old(self)@.cards.len() + old(cards)@.len() <= usize::MAX,
        ensures
            old(self)@.has_room_for(old(cards)@.len() as int) ==> r is Ok
                && final(self)@ == old(self)@.with_cards(old(self)@.cards + old(cards)@)
                && final(cards)@ == Seq::<C>::empty(),
            !old(self)@.has_room_for(old(cards)@.len() as int) ==> r == Err::<(), CardStackError>(
                CardStackError::CardStackOverflow,
            ) && final(self)@ == old(self)@ && final(cards)@ == old(cards)@,
    {
        let limit = match self.lim {
            Some(l) => l,
            None => usize::MAX,
        };
        if self.len() + cards.len() <= limit {
            self.stack.append(cards);
            Ok(())
        } else {
            Err(CardStackError::CardStackOverflow)
        }
    }
}

impl<C: Card> PlayTo<C> for CardStack<C> {
    open spec fn accepts(&self, card: C) -> bool {
        self@.has_room_for(1)
    }

    open spec fn after_play(&self, card: C) -> CardStackView<C> {
        self@.with_cards(self@.cards.push(card))
    }

    /// Play a single card onto the top of the stack, unless the limit is already reached
    fn play_to(&mut self, card: C) -> (r: Result<(), C>) {
        let room = match self.lim {
            None => true,
            Some(l) => self.stack.len() < l,
        };
        if room {
            self.stack.push(card);
            Ok(())
        } else {
            Err(card)
        }
    }
}

impl<C: Card> From<Vec<C>> for CardStack<C> {
    /// An unhovered, unlimited, flush stack of the given cards
    fn from(value: Vec<C>) -> (s: Self)
        ensures
            s@ == (CardStackView::<C> {
                cards: value@,
                variant: CardStackVariant::Flush,
                lim: None,
                hovered: None,
                pos: None,
            }),
    {
        CardStack { stack: value, variant: CardStackVariant::Flush, lim: None, hovered_card: None, pos: None }
    }
}

impl<C: Card> vstd::std_specs::convert::FromSpecImpl<Vec<C>> for CardStack<C> {
    open spec fn obeys_from_spec() -> bool {
        true
    }

    closed spec fn from_spec(v: Vec<C>) -> Self {
        CardStack { stack: v, variant: CardStackVariant::Flush, lim: None, hovered_card: None, pos: None }
    }
}

impl<C: Card> vstd::std_specs::convert::FromSpecImpl<CardStack<C>> for Vec<C> {
    open spec fn obeys_from_spec() -> bool {
        true
    }

    closed spec fn from_spec(v: CardStack<C>) -> Self {
        v.stack
    }
}

impl<C: Card> From<CardStack<C>> for Vec<C> {
    /// The cards of the stack, from bottom to top
    fn from(value: CardStack<C>) -> (v: Self)
        ensures
            v@ == value@.cards,
    {
        value.stack
    }
}

impl<C: Card> Clone for CardStack<C> {
    /// A stack of clones of the cards, with the same variant, limit, hovered index and position
    fn clone(&self) -> (r: Self)
        ensures
            stack_cloned(self@, r@),
    {
        CardStack {
            stack: self.stack.clone(),
            variant: self.variant,
            lim: self.lim,
            hovered_card: self.hovered_card,
            pos: self.pos,
        }
    }
}

/// Taking the cards from the hovered card up and playing them back onto what is left gives
/// the stack's cards back, in order
pub proof fn lemma_take_then_play<C>(s: CardStackView<C>, c: int)
    requires
        0 <= c <= s.cards.len(),
    ensures
        s.with_cards(s.cards.subrange(0, c)).with_cards(
            s.cards.subrange(0, c) + s.cards.subrange(c, s.cards.len() as int),
        ) == s,
{
    assert(s.cards.subrange(0, c) + s.cards.subrange(c, s.cards.len() as int) =~= s.cards);
}

/// Moving the hovered card one forward and then one back (both wrapping) returns to it
pub proof fn lemma_next_then_prev(c: usize, len: nat)
    requires
        c < len,
        len <= usize::MAX,
    ensures
        wrapping_prev(((c + 1) % (len as int)) as usize, len) == c,
{
    if c + 1 == len {
        vstd::arithmetic::div_mod::lemma_mod_self_0(len as int);
    } else {
        vstd::arithmetic::div_mod::lemma_small_mod((c + 1) as nat, len);
    }
}

/// The text of the first `n` cards of a stack, each followed by a space, the hovered one
/// between the terminal codes that highlight it
pub open spec fn stack_text_upto<C: Card>(cards: Seq<C>, hovered: Option<usize>, n: int) -> Seq<char>
    decreases n,
{
    if n <= 0 {
        Seq::empty()
    } else {
        stack_text_upto(cards, hovered, n - 1) + (if hovered matches Some(h) && h == n - 1 {
            highlight_code() + cards[n - 1].text() + unhighlight_code()
        } else {
            cards[n - 1].text()
        }) + seq![' ']
    }
}

/// The text of a stack: its cards, each followed by a space, the hovered one highlighted; an
/// empty stack that is hovered prints as a highlighted blank of two spaces
pub open spec fn stack_text<C: Card>(s: CardStackView<C>) -> Seq<char> {
    if s.cards.len() == 0 && s.hovered is Some {
        highlight_code() + seq![' ', ' '] + unhighlight_code()
    } else {
        stack_text_upto(s.cards, s.hovered, s.cards.len() as int)
    }
}

impl<C: Card> CardStack<C> {
    /// The text of the stack: its cards, each followed by a space, the hovered one highlighted
    pub fn to_string(&self) -> (r: String)
        ensures
            r@ == stack_text(self@),
    {
        proof {
            reveal_strlit("\x1b[100m  \x1b[40m");
        }
        let mut r = String::new();
        if self.stack.len() == 0 && self.hovered_card.is_some() {
            r.append("\x1b[100m  \x1b[40m");
            return r;
        }
        let n = self.stack.len();
        let mut i: usize = 0;
        while i < n
            invariant
                n == self.stack@.len(),
                i <= n,
                r@ == stack_text_upto(self@.cards, self@.hovered, i as int),
            decreases n - i,
        {
            proof {
                reveal_strlit(" ");
                reveal_strlit("\x1b[100m");
                reveal_strlit("\x1b[40m ");
            }
            let ghost before = r@;
            let hovered_here = match self.hovered_card {
                Some(h) => h == i,
                None => false,
            };
            if hovered_here {
                r.append("\x1b[100m");
                r.append(self.stack[i].to_string().as_str());
                r.append("\x1b[40m ");
            } else {
                r.append(self.stack[i].to_string().as_str());
                r.append(" ");
            }
            i = i + 1;
            assert(r@ =~= stack_text_upto(self@.cards, self@.hovered, i as int));
        }
        r
    }
}

} // verus!
