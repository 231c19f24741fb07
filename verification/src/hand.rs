use vstd::prelude::*;
use crate::card::Card;

verus! {

/// The cards a player holds
#[derive(Debug)]
pub struct Hand<CardSet: Card> {
    pub hand: Vec<CardSet>,
}

impl<CardSet: Card> Hand<CardSet> {
    /// A hand holding no cards
    pub fn new_empty() -> (h: Self)
        ensures
            h.hand@ == Seq::<CardSet>::empty(),
    {
        Hand { hand: Vec::new() }
    }
}

} // verus!
