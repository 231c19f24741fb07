use vstd::prelude::*;
use super::{Card, PlayTo};
use super::card_stack::{CardStack, CardStackError, CardStackVariant, CardStackView, stack_cloned, stack_text};
use vstd::string::StringExecFns;

verus! {

/// A representation of an array of card stacks which may each be played to.
#[derive(Debug)]
pub struct Tableau<C: Card> {
    stacks: Vec<CardStack<C>>,
    variant: TableauVariant,
    hovered_stack: Option<usize>,
    /// Only set if this element has no parent
    pos: Option<(u16, u16)>,
}

/// Variant enum for use when displaying the Tableau. Indicates the order and direction
/// that the stacks in the tableau should be displayed.
#[derive(Clone, Copy, Debug, PartialEq, Eq, Structural)]
pub enum TableauVariant {
    HorizontalLtR,
    HorizontalRtL,
    VerticalTtB,
    VerticalBtT,
}

/// Errors originating from Tableau functionality
#[derive(Clone, Copy, Debug, PartialEq, Eq, Structural)]
pub enum TableauError {
    CardStackError(CardStackError),
    InvalidStackSelection,
    InvalidHoveredStack,
}

/// The abstract state of a `Tableau`: its stacks in order, its display variant, the index of
/// the hovered stack, and its position.
pub ghost struct TableauView<C> {
    pub stacks: Seq<CardStackView<C>>,
    pub variant: TableauVariant,
    pub hovered: Option<usize>,
    pub pos: Option<(u16, u16)>,
}

impl<C> TableauView<C> {
    /// The same tableau with other stacks
    pub open spec fn with_stacks(self, stacks: Seq<CardStackView<C>>) -> Self {
        TableauView { stacks, ..self }
    }

    /// The same tableau with another hovered stack
    pub open spec fn with_hovered(self, hovered: Option<usize>) -> Self {
        TableauView { hovered, ..self }
    }

    /// The hovered stack, if any, is one of the tableau's stacks
    pub open spec fn hovered_in_range(self) -> bool {
        self.hovered matches Some(s) ==> s < self.stacks.len()
    }

    /// Every stack unhovered, except the one at `s` (if any) which hovers over its top card
    pub open spec fn stacks_hovering(self, s: Option<usize>) -> Seq<CardStackView<C>> {
        Seq::new(
            self.stacks.len(),
            |k: int|
                if s is Some && s->0 == k {
                    self.stacks[k].hovering_top()
                } else {
                    self.stacks[k].with_hovered(None)
                },
        )
    }
}

/// All the cards of a sequence of stacks, stack after stack, each from bottom to top
pub open spec fn all_cards<C>(stacks: Seq<CardStackView<C>>) -> Seq<C>
    decreases stacks.len(),
{
    if stacks.len() == 0 {
        Seq::empty()
    } else {
        all_cards(stacks.drop_last()) + stacks.last().cards
    }
}

/// The views of a sequence of stacks
pub open spec fn stack_views<C: Card>(stacks: Seq<CardStack<C>>) -> Seq<CardStackView<C>> {
    stacks.map_values(|s: CardStack<C>| s@)
}

/// Replacing one stack replaces its view
pub proof fn lemma_views_update<C: Card>(s: Seq<CardStack<C>>, i: int, x: CardStack<C>)
    requires
        0 <= i < s.len(),
    ensures
        stack_views(s.update(i, x)) == stack_views(s).update(i, x@),
        x@ == s[i]@ ==> stack_views(s.update(i, x)) == stack_views(s),
{
    assert(stack_views(s.update(i, x)) =~= stack_views(s).update(i, x@));
    if x@ == s[i]@ {
        assert(stack_views(s.update(i, x)) =~= stack_views(s));
    }
}

/// The views of joined sequences of stacks are the joined views
pub proof fn lemma_views_add<C: Card>(a: Seq<CardStack<C>>, b: Seq<CardStack<C>>)
    ensures
        stack_views(a + b) == stack_views(a) + stack_views(b),
{
    assert(stack_views(a + b) =~= stack_views(a) + stack_views(b));
}

impl<C: Card> View for Tableau<C> {
    type V = TableauView<C>;

    closed spec fn view(&self) -> TableauView<C> {
        TableauView {
            stacks: stack_views(self.stacks@),
            variant: self.variant,
            hovered: self.hovered_stack,
            pos: self.pos,
        }
    }
}

impl<C: Card> Tableau<C> {
    /// Return a new Tableau with `n_stacks` empty stacks of variant `stack_variant`
    pub fn new(tableau_variant: TableauVariant, stack_variant: CardStackVariant, n_stacks: usize, pos: Option<(u16, u16)>) -> (t: Self)
        ensures
            t@.stacks.len() == n_stacks,
            forall|k: int| 0 <= k < n_stacks ==> #[trigger] t@.stacks[k] == (CardStackView::<C> {
                cards: Seq::empty(),
                variant: stack_variant,
                lim: None,
                hovered: None,
                pos: None,
            }),
            t@.variant == tableau_variant,
            t@.hovered is None,
            t@.pos == pos,
    {
        let mut stacks: Vec<CardStack<C>> = Vec::new();
        for i in 0..n_stacks
            invariant
                stacks@.len() == i,
                forall|k: int| 0 <= k < i ==> #[trigger] stacks@[k]@ == (CardStackView::<C> {
                    cards: Seq::empty(),
                    variant: stack_variant,
                    lim: None,
                    hovered: None,
                    pos: None,
                }),
        {
            stacks.push(CardStack::new(stack_variant, None));
        }
        Tableau { stacks, variant: tableau_variant, hovered_stack: None, pos }
    }

    /// Set the position on screen
    pub fn set_pos(&mut self, pos: Option<(u16, u16)>)
        ensures
            final(self)@ == (TableauView { pos, ..old(self)@ }),
    {
        self.pos = pos
    }

    /// The position on screen, if set
    pub fn get_pos(&self) -> (r: Option<(u16, u16)>)
        ensures
            r == self@.pos,
    {
        self.pos
    }

    /// Mutably borrow the position on screen, if set
    pub fn get_pos_mut(&mut self) -> (r: Option<&mut (u16, u16)>)
        ensures
            old(self)@.pos is None ==> r is None && final(self)@ == old(self)@,
            old(self)@.pos is Some ==> r is Some && *r->0 == old(self)@.pos->0
                && final(self)@ == (TableauView { pos: Some(*final(r->0)), ..old(self)@ }),
    {
        self.pos.as_mut()
    }

    /// Set the display variant of the Tableau
    pub fn set_tableau_variant(&mut self, variant: TableauVariant)
        ensures
            final(self)@ == (TableauView { variant, ..old(self)@ }),
    {
        self.variant = variant;
    }

    /// Borrow the display variant of the Tableau
    pub fn get_tableau_variant(&self) -> (v: &TableauVariant)
        ensures
            *v == self@.variant,
    {
        &self.variant
    }

    /// Return the number of stacks in the Tableau
    pub fn num_stacks(&self) -> (n: usize)
        ensures
            n == self@.stacks.len(),
    {
        self.stacks.len()
    }

    /// Directly set the hovered stack to the passed index, if it exists
    pub fn set_hovered_stack(&mut self, idx: usize) -> (r: Result<(), TableauError>)
        ensures
            idx < old(self)@.stacks.len() ==> r is Ok && final(self)@ == old(self)@.with_hovered(Some(idx)),
            idx >= old(self)@.stacks.len() ==> r == Err::<(), TableauError>(TableauError::InvalidStackSelection)
                && final(self)@ == old(self)@,
    {
        if idx < self.stacks.len() {
            self.hovered_stack = Some(idx);
            Ok(())
        } else {
            Err(TableauError::InvalidStackSelection)
        }
    }

    /// Hover over the next stack in the Tableau, wrapping from the end to the beginning
    pub fn inc_hovered_stack(&mut self)
        requires
            old(self)@.hovered matches Some(c) ==> old(self)@.stacks.len() > 0 && c < usize::MAX,
        ensures
            final(self)@ == old(self)@.with_hovered(
                match old(self)@.hovered {
                    Some(c) => Some(((c + 1) % (old(self)@.stacks.len() as int)) as usize),
                    None => None,
                },
            ),
    {
        if let Some(c) = self.hovered_stack {
            self.hovered_stack = Some((c + 1) % self.stacks.len());
        }
    }

    /// Hover over the previous stack in the Tableau, wrapping from the beginning to the end
    pub fn dec_hovered_stack(&mut self)
        ensures
            final(self)@ == old(self)@.with_hovered(
                match old(self)@.hovered {
                    Some(c) => Some(super::card_stack::wrapping_prev(c, old(self)@.stacks.len())),
                    None => None,
                },
            ),
    {
        let mut tmp = false;
        let half: usize = isize::MAX as usize;

        if let Some(c) = self.hovered_stack {
            if c > half {
                self.hovered_stack = Some(c - half);
                tmp = true;
            }
        }

        if let Some(c) = self.hovered_stack {
            self.hovered_stack = Some(
                match c.checked_sub(1) {
                    Some(d) => d,
                    None => self.stacks.len().saturating_sub(1),
                },
            );
        }

        if tmp {
            if let Some(c) = self.hovered_stack {
                self.hovered_stack = Some(c + half);
            }
        }
    }

    /// Return the currently hovered stack of the Tableau, if any
    pub fn hovered_stack(&self) -> (r: Option<usize>)
        ensures
            r == self@.hovered,
    {
        self.hovered_stack
    }

    /// Mutably borrow the currently hovered CardStack, if any
    pub fn get_hovered_stack_mut(&mut self) -> (r: Option<&mut CardStack<C>>)
        requires
            old(self)@.hovered_in_range(),
        ensures
            old(self)@.hovered is None ==> r is None && final(self)@ == old(self)@,
            old(self)@.hovered matches Some(s) ==> r is Some
                && r->0@ == old(self)@.stacks[s as int]
                && final(self)@ == old(self)@.with_stacks(old(self)@.stacks.update(s as int, final(r->0)@)),
    {
        if let Some(c) = self.hovered_stack {
            let r = &mut self.stacks[c];
            proof {
                lemma_views_update(old(self).stacks@, c as int, *final(r));
            }
            Some(r)
        } else {
            None
        }
    }
}


impl<C: Card> Tableau<C> {
    /// Mutably borrow all stacks in provided range provided the range is valid
    pub fn stacks_mut(&mut self, range: core::ops::Range<usize>) -> (r: Option<&mut [CardStack<C>]>)
        ensures
            !(range.start <= range.end <= old(self)@.stacks.len()) ==> r is None && final(self)@ == old(self)@,
            range.start <= range.end <= old(self)@.stacks.len() ==> r is Some
                && stack_views(r->0@) == old(self)@.stacks.subrange(range.start as int, range.end as int)
                && final(self)@ == old(self)@.with_stacks(
                    old(self)@.stacks.subrange(0, range.start as int) + stack_views(final(r->0)@)
                        + old(self)@.stacks.subrange(range.end as int, old(self)@.stacks.len() as int),
                ),
    {
        if range.start <= range.end && range.end <= self.stacks.len() {
            let all = self.stacks.as_mut_slice();
            let (front, back) = all.split_at_mut(range.end);
            let (pre, mid) = front.split_at_mut(range.start);
            proof {
                assert(final(back)@ == back@);
                assert(final(pre)@ == pre@);
                let olds = old(self).stacks@;
                assert(olds.subrange(0, range.start as int) =~= pre@);
                assert(olds.subrange(range.end as int, olds.len() as int) =~= back@);
                assert(olds.subrange(range.start as int, range.end as int) =~= mid@);
                lemma_views_add(pre@ + final(mid)@, back@);
                lemma_views_add(pre@, final(mid)@);
                let oldv = stack_views(olds);
                assert(oldv.subrange(0, range.start as int) =~= stack_views(pre@));
                assert(oldv.subrange(range.end as int, olds.len() as int) =~= stack_views(back@));
                assert(oldv.subrange(range.start as int, range.end as int) =~= stack_views(mid@));
            }
            Some(mid)
        } else {
            None
        }
    }
}

impl<C: Card> Tableau<C> {
    /// Borrow all stacks in provided range provided the range is valid
    pub fn stacks(&self, range: core::ops::Range<usize>) -> (r: Option<&[CardStack<C>]>)
        ensures
            !(range.start <= range.end <= self@.stacks.len()) ==> r is None,
            range.start <= range.end <= self@.stacks.len() ==> r is Some
                && stack_views(r->0@) == self@.stacks.subrange(range.start as int, range.end as int),
    {
        if range.start <= range.end && range.end <= self.stacks.len() {
            let r = vstd::slice::slice_subrange(self.stacks.as_slice(), range.start, range.end);
            assert(stack_views(r@) =~= self@.stacks.subrange(range.start as int, range.end as int));
            Some(r)
        } else {
            None
        }
    }

    /// Play provided card to the indicated stack, if it exists
    pub fn play_card_to_stack(&mut self, card: C, i: usize) -> (r: Result<(), C>)
        ensures
            i < old(self)@.stacks.len() && old(self)@.stacks[i as int].has_room_for(1) ==> r is Ok
                && final(self)@ == old(self)@.with_stacks(old(self)@.stacks.update(
                    i as int,
                    old(self)@.stacks[i as int].with_cards(old(self)@.stacks[i as int].cards.push(card)),
                )),
            !(i < old(self)@.stacks.len() && old(self)@.stacks[i as int].has_room_for(1)) ==> r == Err::<(), C>(card)
                && final(self)@ == old(self)@,
    {
        if i < self.stacks.len() {
            let ghost olds = self.stacks@;
            let r = self.stacks[i].play_to(card);
            proof {
                lemma_views_update(olds, i as int, self.stacks@[i as int]);
                assert(self.stacks@ == olds.update(i as int, self.stacks@[i as int]));
            }
            r
        } else {
            Err(card)
        }
    }

    /// Play all provided cards to the indicated stack, if it exists
    pub fn play_cards_to_stack(&mut self, cards: &mut Vec<C>, i: usize) -> (r: Result<(), TableauError>)
        requires
            i < old(self)@.stacks.len() ==> old(self)@.stacks[i as int].cards.len() + old(cards)@.len() <= usize::MAX,
        ensures
            i >= old(self)@.stacks.len() ==> r == Err::<(), TableauError>(TableauError::InvalidStackSelection)
                && final(self)@ == old(self)@ && final(cards)@ == old(cards)@,
            i < old(self)@.stacks.len() && old(self)@.stacks[i as int].has_room_for(old(cards)@.len() as int) ==> r is Ok
                && final(self)@ == old(self)@.with_stacks(old(self)@.stacks.update(
                    i as int,
                    old(self)@.stacks[i as int].with_cards(old(self)@.stacks[i as int].cards + old(cards)@),
                ))
                && final(cards)@ == Seq::<C>::empty(),
            i < old(self)@.stacks.len() && !old(self)@.stacks[i as int].has_room_for(old(cards)@.len() as int) ==> r
                == Err::<(), TableauError>(TableauError::CardStackError(CardStackError::CardStackOverflow))
                && final(self)@ == old(self)@ && final(cards)@ == old(cards)@,
    {
        if i < self.stacks.len() {
            let ghost olds = self.stacks@;
            let r = self.stacks[i].play_cards(cards);
            proof {
                lemma_views_update(olds, i as int, self.stacks@[i as int]);
                assert(self.stacks@ == olds.update(i as int, self.stacks@[i as int]));
            }
            match r {
                Ok(()) => Ok(()),
                Err(e) => Err(TableauError::CardStackError(e)),
            }
        } else {
            Err(TableauError::InvalidStackSelection)
        }
    }

    /// Play all provided cards to the currently hovered stack, if it exists
    pub fn play_cards_to_hovered_stack(&mut self, cards: &mut Vec<C>) -> (r: Result<(), TableauError>)
        requires
            old(self)@.hovered matches Some(i) ==> (i < old(self)@.stacks.len() ==> old(self)@.stacks[i as int].cards.len()
                + old(cards)@.len() <= usize::MAX),
        ensures
            !(old(self)@.hovered matches Some(i) && i < old(self)@.stacks.len()) ==> r == Err::<(), TableauError>(
                TableauError::InvalidHoveredStack,
            ) && final(self)@ == old(self)@ && final(cards)@ == old(cards)@,
            old(self)@.hovered matches Some(i) ==> (i < old(self)@.stacks.len()
                && old(self)@.stacks[i as int].has_room_for(old(cards)@.len() as int) ==> r is Ok
                && final(self)@ == old(self)@.with_stacks(old(self)@.stacks.update(
                    i as int,
                    old(self)@.stacks[i as int].with_cards(old(self)@.stacks[i as int].cards + old(cards)@),
                ))
                && final(cards)@ == Seq::<C>::empty()),
            old(self)@.hovered matches Some(i) ==> (i < old(self)@.stacks.len()
                && !old(self)@.stacks[i as int].has_room_for(old(cards)@.len() as int) ==> r
                == Err::<(), TableauError>(TableauError::CardStackError(CardStackError::CardStackOverflow))
                && final(self)@ == old(self)@ && final(cards)@ == old(cards)@),
    {
        if let Some(i) = self.hovered_stack {
            if i < self.stacks.len() {
                return self.play_cards_to_stack(cards, i);
            }
        }
        Err(TableauError::InvalidHoveredStack)
    }

    /// Gather all cards from each stack into a single Vec and return them to the caller
    pub fn gather_all(&mut self) -> (cards: Vec<C>)
        ensures
            cards@ == all_cards(old(self)@.stacks),
            final(self)@ == old(self)@.with_stacks(
                old(self)@.stacks.map_values(|s: CardStackView<C>| s.with_cards(Seq::empty())),
            ),
    {
        let mut ret: Vec<C> = Vec::new();
        let n = self.stacks.len();
        for i in 0..n
            invariant
                n == self.stacks@.len(),
                n == old(self).stacks@.len(),
                ret@ == all_cards(stack_views(old(self).stacks@).subrange(0, i as int)),
                forall|k: int| 0 <= k < i ==> #[trigger] self.stacks@[k]@ == old(self).stacks@[k]@.with_cards(Seq::empty()),
                forall|k: int| i <= k < n ==> #[trigger] self.stacks@[k] == old(self).stacks@[k],
                self.variant == old(self).variant,
                self.hovered_stack == old(self).hovered_stack,
                self.pos == old(self).pos,
        {
            let mut gathered = self.stacks[i].gather_cards();
            proof {
                let olds = stack_views(old(self).stacks@);
                assert(olds.subrange(0, i + 1).drop_last() =~= olds.subrange(0, i as int));
            }
            ret.append(&mut gathered);
        }
        proof {
            let olds = stack_views(old(self).stacks@);
            assert(olds.subrange(0, n as int) =~= olds);
            assert(stack_views(self.stacks@) =~= old(self)@.stacks.map_values(
                |s: CardStackView<C>| s.with_cards(Seq::empty()),
            ));
        }
        ret
    }

    /// Hover over the Tableau. Default to hovering over the first stack of the Tableau
    pub fn hover(&mut self)
        requires
            old(self)@.stacks.len() > 0,
        ensures
            final(self)@ == old(self)@.with_hovered(Some(0)).with_stacks(old(self)@.stacks_hovering(Some(0))),
    {
        self.hovered_stack = Some(0);
        self.update_hovered_stack();
    }

    /// Unhover the Tableau. Also unhover any stack of the Tableau currently hovered
    pub fn unhover(&mut self)
        requires
            old(self)@.hovered_in_range(),
        ensures
            final(self)@ == old(self)@.with_hovered(None).with_stacks(
                match old(self)@.hovered {
                    Some(s) => old(self)@.stacks.update(s as int, old(self)@.stacks[s as int].with_hovered(None)),
                    None => old(self)@.stacks,
                },
            ),
    {
        self.unhover_stack();
        self.hovered_stack = None;
    }

    /// Notify the currently hovered stack that it is being hovered
    pub fn hover_stack(&mut self)
        requires
            old(self)@.hovered_in_range(),
        ensures
            final(self)@ == old(self)@.with_stacks(
                match old(self)@.hovered {
                    Some(s) => old(self)@.stacks.update(s as int, old(self)@.stacks[s as int].hovering_top()),
                    None => old(self)@.stacks,
                },
            ),
    {
        if let Some(s) = self.hovered_stack {
            let ghost olds = self.stacks@;
            self.stacks[s].hover();
            proof {
                lemma_views_update(olds, s as int, self.stacks@[s as int]);
                assert(self.stacks@ == olds.update(s as int, self.stacks@[s as int]));
            }
        }
    }

    /// Notify the currently hovered stack that it is being unhovered
    pub fn unhover_stack(&mut self)
        requires
            old(self)@.hovered_in_range(),
        ensures
            final(self)@ == old(self)@.with_stacks(
                match old(self)@.hovered {
                    Some(s) => old(self)@.stacks.update(s as int, old(self)@.stacks[s as int].with_hovered(None)),
                    None => old(self)@.stacks,
                },
            ),
    {
        if let Some(s) = self.hovered_stack {
            let ghost olds = self.stacks@;
            self.stacks[s].unhover();
            proof {
                lemma_views_update(olds, s as int, self.stacks@[s as int]);
                assert(self.stacks@ == olds.update(s as int, self.stacks@[s as int]));
            }
        }
    }

    /// Unhover all stacks, then only hover the currently hovered stack
    pub fn update_hovered_stack(&mut self)
        requires
            old(self)@.hovered_in_range(),
        ensures
            final(self)@ == old(self)@.with_stacks(old(self)@.stacks_hovering(old(self)@.hovered)),
    {
        let n = self.stacks.len();
        for i in 0..n
            invariant
                n == self.stacks@.len(),
                n == old(self).stacks@.len(),
                forall|k: int| 0 <= k < i ==> #[trigger] self.stacks@[k]@ == old(self).stacks@[k]@.with_hovered(None),
                forall|k: int| i <= k < n ==> #[trigger] self.stacks@[k] == old(self).stacks@[k],
                self.variant == old(self).variant,
                self.hovered_stack == old(self).hovered_stack,
                self.pos == old(self).pos,
        {
            self.stacks[i].unhover();
        }
        if let Some(s) = self.hovered_stack {
            self.stacks[s].hover();
        }
        assert(stack_views(self.stacks@) =~= old(self)@.stacks_hovering(old(self)@.hovered));
    }

    /// Borrow the card hovered in the currently hovered stack
    pub fn get_hovered_card(&self) -> (r: Option<&C>)
        requires
            self@.hovered_in_range(),
        ensures
            r == (match self@.hovered {
                Some(s) => match self@.stacks[s as int].hovered {
                    Some(c) => if c < self@.stacks[s as int].cards.len() {
                        Some(&self@.stacks[s as int].cards[c as int])
                    } else {
                        None
                    },
                    None => None,
                },
                None => None,
            }),
    {
        if let Some(s) = self.hovered_stack {
            self.stacks[s].get_hovered_card()
        } else {
            None
        }
    }

    /// Mutably borrow the card hovered in the currently hovered stack
    pub fn get_hovered_card_mut(&mut self) -> (r: Option<&mut C>)
        requires
            old(self)@.hovered_in_range(),
            old(self)@.hovered matches Some(s) ==> (old(self)@.stacks[s as int].hovered matches Some(c) ==> (c
                < old(self)@.stacks[s as int].cards.len())),
        ensures
            !(old(self)@.hovered matches Some(s) && old(self)@.stacks[s as int].hovered is Some) ==> r is None
                && final(self)@ == old(self)@,
            old(self)@.hovered matches Some(s) ==> (old(self)@.stacks[s as int].hovered matches Some(c) ==> r is Some
                && *r->0 == old(self)@.stacks[s as int].cards[c as int]
                && final(self)@ == old(self)@.with_stacks(old(self)@.stacks.update(
                    s as int,
                    old(self)@.stacks[s as int].with_cards(old(self)@.stacks[s as int].cards.update(c as int, *final(r->0))),
                ))),
    {
        if let Some(s) = self.hovered_stack {
            let ghost olds = self.stacks@;
            let stack = &mut self.stacks[s];
            proof {
                lemma_views_update(olds, s as int, *final(stack));
            }
            stack.get_hovered_card_mut()
        } else {
            None
        }
    }
}

impl<C: Card> PlayTo<C> for Tableau<C> {
    open spec fn accepts(&self, card: C) -> bool {
        self@.hovered matches Some(s) && s < self@.stacks.len() && self@.stacks[s as int].has_room_for(1)
    }

    open spec fn after_play(&self, card: C) -> TableauView<C> {
        self@.with_stacks(self@.stacks.update(
            self@.hovered->0 as int,
            self@.stacks[self@.hovered->0 as int].with_cards(self@.stacks[self@.hovered->0 as int].cards.push(card)),
        ))
    }

    /// Play the card onto the hovered stack, if there is one and it accepts the card
    fn play_to(&mut self, card: C) -> (r: Result<(), C>) {
        if let Some(c) = self.hovered_stack {
            self.play_card_to_stack(card, c)
        } else {
            Err(card)
        }
    }
}

impl<C: Card> core::ops::Index<usize> for Tableau<C> {
    type Output = CardStack<C>;

    /// The stack at `index`
    fn index(&self, index: usize) -> (s: &CardStack<C>)
        ensures
            s@ == self@.stacks[index as int],
    {
        &self.stacks[index]
    }
}

impl<C: Card> vstd::std_specs::core::IndexSpecImpl<usize> for Tableau<C> {
    open spec fn index_req(&self, index: &usize) -> bool {
        *index < self@.stacks.len()
    }
}

impl<C: Card> Clone for Tableau<C> {
    /// A tableau of clones of the stacks, with the same variant, hovered stack and position
    fn clone(&self) -> (r: Self)
        ensures
            r@.stacks.len() == self@.stacks.len(),
            forall|k: int| 0 <= k < self@.stacks.len() ==> stack_cloned(self@.stacks[k], #[trigger] r@.stacks[k]),
            r@ == self@.with_stacks(r@.stacks),
    {
        let stacks = self.stacks.clone();
        assert forall|k: int| 0 <= k < self@.stacks.len() implies stack_cloned(self@.stacks[k], #[trigger] stack_views(stacks@)[k]) by {
            assert(cloned::<CardStack<C>>(self.stacks@[k], stacks@[k]));
        }
        Tableau {
            stacks,
            variant: self.variant,
            hovered_stack: self.hovered_stack,
            pos: self.pos,
        }
    }
}

/// The text of the first `n` stacks of a tableau, each on a line of its own after `||`
pub open spec fn tableau_text<C: Card>(stacks: Seq<CardStackView<C>>, n: int) -> Seq<char>
    decreases n,
{
    if n <= 0 {
        Seq::empty()
    } else {
        tableau_text(stacks, n - 1) + seq!['|', '|'] + stack_text(stacks[n - 1]) + seq!['\n']
    }
}

impl<C: Card> Tableau<C> {
    /// The text of the tableau: each stack on a line of its own after `||`
    pub fn to_string(&self) -> (r: String)
        ensures
            r@ == tableau_text(self@.stacks, self@.stacks.len() as int),
    {
        let mut r = String::new();
        let n = self.stacks.len();
        let mut i: usize = 0;
        assert(stack_views(self.stacks@).len() == n);
        while i < n
            invariant
                n == self.stacks@.len(),
                stack_views(self.stacks@) == self@.stacks,
                i <= n,
                r@ == tableau_text(self@.stacks, i as int),
            decreases n - i,
        {
            proof {
                reveal_strlit("||");
                reveal_strlit("\n");
            }
            assert(stack_views(self.stacks@)[i as int] == self.stacks@[i as int]@);
            r.append("||");
            r.append(self.stacks[i].to_string().as_str());
            r.append("\n");
            i = i + 1;
            assert(r@ =~= tableau_text(self@.stacks, i as int));
        }
        r
    }
}

} // verus!
