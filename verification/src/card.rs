use vstd::prelude::*;
use vstd::string::StringExecFns;
use crate::cards::{decimal_text, decimal_string};

verus! {

/// A card that can be turned to show or hide its face
pub trait Flippable: Sized {
    /// Whether the card shows its face
    spec fn is_face_up(&self) -> bool;

    /// The same card turned to show (`up`) or hide its face
    spec fn face_turned(&self, up: bool) -> Self;

    /// Turn the card over
    fn flip(&mut self)
        ensures
            *final(self) == old(self).face_turned(!old(self).is_face_up()),
    ;

    /// Turn the card face-up
    fn flip_face_up(&mut self)
        ensures
            *final(self) == old(self).face_turned(true),
    ;

    /// Turn the card face-down
    fn flip_face_down(&mut self)
        ensures
            *final(self) == old(self).face_turned(false),
    ;
}

/// A card of a suited deck
pub trait Card: Flippable + core::fmt::Debug + Clone {

}

/// A suit of cards
pub trait Suit: core::fmt::Debug + Clone + Copy {

}

/// A rank of cards, in a fixed order
pub trait Rank: core::fmt::Debug + Clone + Copy + PartialEq + Eq + PartialOrd + Ord {

}

/// The suits of the French deck
#[derive(Clone, Copy, Debug)]
pub enum FrenchSuit {
    Spades,
    Hearts,
    Clubs,
    Diamonds,
}

impl FrenchSuit {
    /// The symbol of the suit
    pub open spec fn text(self) -> Seq<char> {
        match self {
            FrenchSuit::Spades => seq!['♠'],
            FrenchSuit::Hearts => seq!['♥'],
            FrenchSuit::Clubs => seq!['♣'],
            FrenchSuit::Diamonds => seq!['♦'],
        }
    }

    /// The symbol of the suit
    pub fn to_string(&self) -> (r: String)
        ensures
            r@ == self.text(),
    {
        proof {
            reveal_strlit("♠");
            reveal_strlit("♥");
            reveal_strlit("♣");
            reveal_strlit("♦");
        }
        let symbol = match self {
            FrenchSuit::Spades => "♠",
            FrenchSuit::Hearts => "♥",
            FrenchSuit::Clubs => "♣",
            FrenchSuit::Diamonds => "♦",
        };
        let mut r = String::new();
        r.append(symbol);
        r
    }
}

impl Suit for FrenchSuit {

}

/// The ranks of the French deck: numbered pips, then the face cards
#[derive(Clone, Copy, Debug, PartialEq, Eq, Structural, PartialOrd, Ord)]
pub enum FrenchRank {
    Pip(u32),
    Jack,
    Queen,
    King,
}

impl FrenchRank {
    /// The text of the rank: `A` for `Pip(0)`, the number of any other pip, or the face's
    /// letter
    pub open spec fn text(self) -> Seq<char> {
        match self {
            FrenchRank::Pip(n) => if n == 0 { seq!['A'] } else { decimal_text(n as nat) },
            FrenchRank::Jack => seq!['J'],
            FrenchRank::Queen => seq!['Q'],
            FrenchRank::King => seq!['K'],
        }
    }

    /// The text of the rank
    pub fn to_string(&self) -> (r: String)
        ensures
            r@ == self.text(),
    {
        proof {
            reveal_strlit("A");
            reveal_strlit("J");
            reveal_strlit("K");
            reveal_strlit("Q");
        }
        match self {
            FrenchRank::Pip(0) => {
                let mut r = String::new();
                r.append("A");
                r
            },
            FrenchRank::Pip(n) => decimal_string(*n),
            FrenchRank::Jack => {
                let mut r = String::new();
                r.append("J");
                r
            },
            FrenchRank::Queen => {
                let mut r = String::new();
                r.append("Q");
                r
            },
            FrenchRank::King => {
                let mut r = String::new();
                r.append("K");
                r
            },
        }
    }
}

impl Rank for FrenchRank {

}

/// The suits of the Italian deck
#[derive(Clone, Copy, Debug)]
pub enum ItalianSuit {
    Swords,
    Cups,
    Batons,
    Coins,
}

impl ItalianSuit {
    /// The symbol of the suit
    pub open spec fn text(self) -> Seq<char> {
        match self {
            ItalianSuit::Swords => seq!['♠'],
            ItalianSuit::Cups => seq!['♥'],
            ItalianSuit::Batons => seq!['♣'],
            ItalianSuit::Coins => seq!['♦'],
        }
    }

    /// The symbol of the suit
    pub fn to_string(&self) -> (r: String)
        ensures
            r@ == self.text(),
    {
        proof {
            reveal_strlit("♠");
            reveal_strlit("♥");
            reveal_strlit("♣");
            reveal_strlit("♦");
        }
        let symbol = match self {
            ItalianSuit::Swords => "♠",
            ItalianSuit::Cups => "♥",
            ItalianSuit::Batons => "♣",
            ItalianSuit::Coins => "♦",
        };
        let mut r = String::new();
        r.append(symbol);
        r
    }
}

impl Suit for ItalianSuit {

}

/// The ranks of the Italian deck: numbered pips, then Jack, Knight and King
#[derive(Clone, Copy, Debug, PartialEq, Eq, Structural, PartialOrd, Ord)]
pub enum ItalianRank {
    Pip(u32),
    Jack,
    Knight,
    King,
}

impl ItalianRank {
    /// The text of the rank: `A` for `Pip(0)`, the number of any other pip, or the face's
    /// letter
    pub open spec fn text(self) -> Seq<char> {
        match self {
            ItalianRank::Pip(n) => if n == 0 { seq!['A'] } else { decimal_text(n as nat) },
            ItalianRank::Jack => seq!['J'],
            ItalianRank::Knight => seq!['k'],
            ItalianRank::King => seq!['K'],
        }
    }

    /// The text of the rank
    pub fn to_string(&self) -> (r: String)
        ensures
            r@ == self.text(),
    {
        proof {
            reveal_strlit("A");
            reveal_strlit("J");
            reveal_strlit("K");
            reveal_strlit("k");
        }
        match self {
            ItalianRank::Pip(0) => {
                let mut r = String::new();
                r.append("A");
                r
            },
            ItalianRank::Pip(n) => decimal_string(*n),
            ItalianRank::Jack => {
                let mut r = String::new();
                r.append("J");
                r
            },
            ItalianRank::Knight => {
                let mut r = String::new();
                r.append("k");
                r
            },
            ItalianRank::King => {
                let mut r = String::new();
                r.append("K");
                r
            },
        }
    }
}

impl Rank for ItalianRank {

}

/// The ranks of the Tarocchi deck: numbered pips, then Jack, Knight, Queen and King
#[derive(Clone, Copy, Debug, PartialEq, Eq, Structural, PartialOrd, Ord)]
pub enum TarocchiRank {
    Pip(u32),
    Jack,
    Knight,
    Queen,
    King,
}

impl TarocchiRank {
    /// The text of the rank: `A` for `Pip(0)`, the number of any other pip, or the face's
    /// letter
    pub open spec fn text(self) -> Seq<char> {
        match self {
            TarocchiRank::Pip(n) => if n == 0 { seq!['A'] } else { decimal_text(n as nat) },
            TarocchiRank::Jack => seq!['J'],
            TarocchiRank::Knight => seq!['k'],
            TarocchiRank::Queen => seq!['Q'],
            TarocchiRank::King => seq!['K'],
        }
    }

    /// The text of the rank
    pub fn to_string(&self) -> (r: String)
        ensures
            r@ == self.text(),
    {
        proof {
            reveal_strlit("A");
            reveal_strlit("J");
            reveal_strlit("K");
            reveal_strlit("Q");
            reveal_strlit("k");
        }
        match self {
            TarocchiRank::Pip(0) => {
                let mut r = String::new();
                r.append("A");
                r
            },
            TarocchiRank::Pip(n) => decimal_string(*n),
            TarocchiRank::Jack => {
                let mut r = String::new();
                r.append("J");
                r
            },
            TarocchiRank::Knight => {
                let mut r = String::new();
                r.append("k");
                r
            },
            TarocchiRank::Queen => {
                let mut r = String::new();
                r.append("Q");
                r
            },
            TarocchiRank::King => {
                let mut r = String::new();
                r.append("K");
                r
            },
        }
    }
}

impl Rank for TarocchiRank {

}

/// The suits of the Tarot deck, the trumps among them
#[derive(Clone, Copy, Debug)]
pub enum TarotSuit {
    Pip(u32),
    Jack,
    Knight,
    Queen,
    King,
    Trump(TarotTrumps),
}

impl Suit for TarotSuit {

}

/// The trumps of the Tarot deck, from the Fool to the World
#[derive(Clone, Copy, Debug, PartialEq, Eq, Structural, PartialOrd, Ord)]
pub enum TarotTrumps {
    Fool,
    Magician,
    HighPriestess,
    Empress,
    Emperor,
    Hierophant,
    Lovers,
    Chariot,
    Strength,
    Hermit,
    WheelOfFortune,
    Justice,
    HangedMan,
    Death,
    Temperance,
    Devil,
    Tower,
    Star,
    Moon,
    Sun,
    Judgement,
    World,
}

impl Rank for TarotTrumps {

}

/// A card made of a suit and a rank, which shows its face or not
#[derive(Clone, Debug)]
pub struct SuitRankCard<S: Suit, R: Rank> {
    suit: S,
    rank: R,
    is_face_up: bool,
}

pub type FrenchCard = SuitRankCard<FrenchSuit, FrenchRank>;

pub type ItalianCard = SuitRankCard<ItalianSuit, ItalianRank>;

pub type TarocchiCard = SuitRankCard<ItalianSuit, TarocchiRank>;

pub type TarotCard = SuitRankCard<TarotSuit, TarocchiRank>;

impl<S: Suit, R: Rank> SuitRankCard<S, R> {
    /// The suit of the card
    pub closed spec fn spec_suit(self) -> S {
        self.suit
    }

    /// The rank of the card
    pub closed spec fn spec_rank(self) -> R {
        self.rank
    }

    /// The card with the suit, rank and face given
    pub closed spec fn made(suit: S, rank: R, up: bool) -> Self {
        SuitRankCard { suit, rank, is_face_up: up }
    }

    /// A card is made of its suit, its rank and its face, and made again from them
    pub broadcast proof fn lemma_made(suit: S, rank: R, up: bool)
        ensures
            #![trigger Self::made(suit, rank, up)]
            Self::made(suit, rank, up).spec_suit() == suit,
            Self::made(suit, rank, up).spec_rank() == rank,
            Self::made(suit, rank, up).is_face_up() == up,
    {
    }

    /// A new card of the given suit and rank, face-up
    pub fn new(suit: S, rank: R) -> (c: SuitRankCard<S, R>)
        ensures
            c == Self::made(suit, rank, true),
    {
        SuitRankCard { suit, rank, is_face_up: true }
    }
}

impl<S: Suit, R: Rank> Card for SuitRankCard<S, R> {

}

impl<S: Suit, R: Rank> Flippable for SuitRankCard<S, R> {
    closed spec fn is_face_up(&self) -> bool {
        self.is_face_up
    }

    /// The same suit and rank with the face given
    closed spec fn face_turned(&self, up: bool) -> Self {
        SuitRankCard { is_face_up: up, ..*self }
    }

    fn flip(&mut self) {
        self.is_face_up = !self.is_face_up;
    }

    fn flip_face_up(&mut self) {
        self.is_face_up = true;
    }

    fn flip_face_down(&mut self) {
        self.is_face_up = false;
    }
}

/// Turning a card keeps its suit and rank and sets its face as asked
pub broadcast proof fn lemma_face_turned<S: Suit, R: Rank>(c: SuitRankCard<S, R>, up: bool)
    ensures
        #![trigger c.face_turned(up)]
        c.face_turned(up).spec_suit() == c.spec_suit(),
        c.face_turned(up).spec_rank() == c.spec_rank(),
        c.face_turned(up).is_face_up() == up,
{
}

} // verus!
