use vstd::prelude::*;
use super::Card;
use vstd::string::StringExecFns;

verus! {

/// A struct which adds functionality for concealing and revealing the card contained within it.
#[derive(Copy, Debug)]
pub struct FlippableCard<C: Card>(C, pub bool);

impl<C: Card> FlippableCard<C> {
    /// The contained card
    pub closed spec fn inner(self) -> C {
        self.0
    }

    /// Whether the card shows its face
    pub closed spec fn face_up(self) -> bool {
        self.1
    }

    /// The same card turned to show (`up`) or hide its face
    pub closed spec fn with_face(self, up: bool) -> Self {
        FlippableCard(self.0, up)
    }

    /// The card `card`, face-up
    pub closed spec fn spec_new(card: C) -> Self {
        FlippableCard(card, true)
    }

    /// Turning a card keeps the card it contains and sets its face as asked
    pub broadcast proof fn lemma_with_face(self, up: bool)
        ensures
            #![trigger self.with_face(up)]
            self.with_face(up).inner() == self.inner(),
            self.with_face(up).face_up() == up,
            self.with_face(self.face_up()) == self,
    {
    }

    /// A new card contains the card it was made of and is face-up
    pub broadcast proof fn lemma_spec_new(card: C)
        ensures
            #![trigger Self::spec_new(card)]
            Self::spec_new(card).inner() == card,
            Self::spec_new(card).face_up(),
    {
    }

    /// Wrap a card, face-up
    pub fn new(card: C) -> (r: FlippableCard<C>)
        ensures
            r == Self::spec_new(card),
    {
        FlippableCard(card, true)
    }

    /// Invert the current flip state of the card
    pub fn flip(&mut self)
        ensures
            *final(self) == old(self).with_face(!old(self).face_up()),
    {
        self.1 = !self.1;
    }

    /// Set the card's flip state to face-up
    pub fn flip_face_up(&mut self)
        ensures
            *final(self) == old(self).with_face(true),
    {
        self.1 = true;
    }

    /// Set the card's flip state to face-down
    pub fn flip_face_down(&mut self)
        ensures
            *final(self) == old(self).with_face(false),
    {
        self.1 = false;
    }

    /// Consume the flippable card, returning the card it contained
    pub fn into_inner(self) -> (c: C)
        ensures
            c == self.inner(),
    {
        self.0
    }

    /// Return a reference to the contained card
    pub fn peek_inner(&self) -> (c: &C)
        ensures
            *c == self.inner(),
    {
        &self.0
    }

    /// Return a mutable reference to the contained card
    pub fn inner_mut(&mut self) -> (c: &mut C)
        ensures
            *c == old(self).inner(),
            final(self).inner() == *final(c),
            final(self).face_up() == old(self).face_up(),
    {
        &mut self.0
    }

    /// Consume the flippable card, returning the card it contained only if the flippable card was face-up
    pub fn into_inner_checked(self) -> (r: Result<C, Self>)
        ensures
            self.face_up() ==> r == Ok::<C, Self>(self.inner()),
            !self.face_up() ==> r == Err::<C, Self>(self),
    {
        if self.1 { Ok(self.0) } else { Err(self) }
    }

    /// Return a reference to the contained card only if the flippable card is face-up
    pub fn peek_inner_checked(&self) -> (r: Option<&C>)
        ensures
            self.face_up() ==> r == Some(&self.inner()),
            !self.face_up() ==> r is None,
    {
        if self.1 { Some(&self.0) } else { None }
    }

    /// Return a mutable reference to the contained card only if the flippable card is face-up
    pub fn inner_mut_checked(&mut self) -> (r: Option<&mut C>)
        ensures
            old(self).face_up() ==> r is Some && *r->0 == old(self).inner()
                && final(self).inner() == *final(r->0) && final(self).face_up(),
            !old(self).face_up() ==> r is None && *final(self) == *old(self),
    {
        if self.1 { Some(&mut self.0) } else { None }
    }
}

impl<C: Card> Clone for FlippableCard<C> {
    /// A card of the same face holding a clone of the contained card
    fn clone(&self) -> (r: Self)
        ensures
            r.face_up() == self.face_up(),
            cloned::<C>(self.inner(), r.inner()),
    {
        FlippableCard(self.0.clone(), self.1)
    }
}

/// Two flippable cards holding the same card and facing the same way are the same
pub proof fn lemma_flippable_ext<C: Card>(a: FlippableCard<C>, b: FlippableCard<C>)
    requires
        a.inner() == b.inner(),
        a.face_up() == b.face_up(),
    ensures
        a == b,
{
}

/// Turning a card twice leaves only the second turn, and turning it to the face it shows leaves
/// it as it is; so flipping a card twice gives it back
pub proof fn lemma_turn_twice<C: Card>(c: FlippableCard<C>, a: bool, b: bool)
    ensures
        c.with_face(a).with_face(b) == c.with_face(b),
        c.with_face(c.face_up()) == c,
        c.with_face(!c.face_up()).with_face(!c.with_face(!c.face_up()).face_up()) == c,
{
}

/// A clone of a flippable card is the same card when clones of the contained cards are
pub proof fn lemma_cloned_eq<C: Card>(a: FlippableCard<C>, b: FlippableCard<C>)
    requires
        cloned::<FlippableCard<C>>(a, b),
        forall|x: C, y: C| cloned::<C>(x, y) ==> x == y,
    ensures
        a == b,
{
}

pub broadcast group group_flippable_card {
    FlippableCard::lemma_with_face,
    FlippableCard::lemma_spec_new,
}

impl<C: Card> Card for FlippableCard<C> {
    /// A face-down card prints as `XX`
    open spec fn text(&self) -> Seq<char> {
        if self.face_up() { self.inner().text() } else { seq!['X', 'X'] }
    }

    fn to_string(&self) -> (s: String) {
        if self.1 {
            self.0.to_string()
        } else {
            proof {
                reveal_strlit("XX");
            }
            let mut s = String::new();
            s.append("XX");
            s
        }
    }

    /// A face-down card prints as two characters
    open spec fn display_len(&self) -> nat {
        if self.face_up() { self.inner().display_len() } else { 2 }
    }

    fn str_len(&self) -> (n: usize) {
        match self.1 {
            false => 2,
            true => self.0.str_len(),
        }
    }
}


} // verus!
