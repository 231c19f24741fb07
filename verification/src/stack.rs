use vstd::prelude::*;
use crate::card::Card;
use crate::cards::PlayTo;

verus! {

/// How the cards of a stack are laid out
#[derive(Copy, Clone, Debug, PartialEq, Eq, Structural)]
pub enum StackVariant {
    Flush,
    FanHorizontal,
    FanVertical,
}

/// A stack of cards with a layout and an optional limit
#[derive(Clone, Debug)]
pub struct Stack<CardSet: Card> {
    stack: Vec<CardSet>,
    variant: StackVariant,
    lim: Option<usize>,
}

/// The abstract state of a `Stack`: its cards from bottom (first) to top (last), its layout and
/// its limit
pub ghost struct StackView<C> {
    pub cards: Seq<C>,
    pub variant: StackVariant,
    pub lim: Option<usize>,
}

impl<CardSet: Card> View for Stack<CardSet> {
    type V = StackView<CardSet>;

    closed spec fn view(&self) -> StackView<CardSet> {
        StackView { cards: self.stack@, variant: self.variant, lim: self.lim }
    }
}

impl<CardSet: Card> Stack<CardSet> {
    /// An empty stack of the given layout (flush when none is given) and limit
    pub fn new(variant: Option<StackVariant>, lim: Option<usize>) -> (s: Self)
        ensures
            s@ == (StackView::<CardSet> {
                cards: Seq::empty(),
                variant: match variant {
                    Some(v) => v,
                    None => StackVariant::Flush,
                },
                lim,
            }),
    {
        Stack { variant: variant.unwrap_or(StackVariant::Flush), stack: Vec::new(), lim }
    }
}

impl<CardSet: Card> PlayTo<CardSet> for Stack<CardSet> {
    /// A stack takes every card played to it
    open spec fn accepts(&self, card: CardSet) -> bool {
        true
    }

    /// The card goes on top
    open spec fn after_play(&self, card: CardSet) -> StackView<CardSet> {
        StackView { cards: self@.cards.push(card), ..self@ }
    }

    fn play_to(&mut self, card: CardSet) -> (r: Result<(), CardSet>) {
        self.stack.push(card);
        Ok(())
    }
}

} // verus!
