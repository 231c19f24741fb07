use vstd::prelude::*;
use vstd::std_specs::cmp::PartialOrdSpecImpl;
use core::cmp::Ordering;
use super::{Card, Rank, decimal_len, count_digits, decimal_text, decimal_string, colour_code, lemma_decimal_text_len};
use vstd::string::StringExecFns;

verus! {

/// A card of the French deck: a suit with a rank, or a Joker
#[derive(Clone, Copy, Debug, PartialEq, Eq, Structural)]
pub enum FrenchCard {
    Spades(FrenchRank),
    Hearts(FrenchRank),
    Clubs(FrenchRank),
    Diamonds(FrenchRank),
    Joker,
}

/// The rank of a French card: numbered pips (the Ace is `Pip(1)`), then the face cards
#[derive(Clone, Copy, Debug, PartialEq, Eq, Structural, Ord)]
pub enum FrenchRank {
    Pip(u32),
    Jack,
    Queen,
    King,
}

impl FrenchCard {
    /// The rank of a suited card; a Joker has none
    pub open spec fn spec_rank(self) -> Option<FrenchRank> {
        match self {
            FrenchCard::Spades(r) => Some(r),
            FrenchCard::Hearts(r) => Some(r),
            FrenchCard::Clubs(r) => Some(r),
            FrenchCard::Diamonds(r) => Some(r),
            FrenchCard::Joker => None,
        }
    }

    /// Both cards are of one suit (Jokers have no suit)
    pub open spec fn same_suit(self, other: FrenchCard) -> bool {
        ||| self is Spades && other is Spades
        ||| self is Hearts && other is Hearts
        ||| self is Clubs && other is Clubs
        ||| self is Diamonds && other is Diamonds
    }

    /// Spades, Clubs and the Joker count as black
    pub open spec fn spec_is_black(self) -> bool {
        self is Spades || self is Clubs || self is Joker
    }

    /// Hearts, Diamonds and the Joker count as red
    pub open spec fn spec_is_red(self) -> bool {
        self is Hearts || self is Diamonds || self is Joker
    }

    /// The rank of a suited card; a Joker has none
    pub fn rank(&self) -> (r: Option<FrenchRank>)
        ensures
            r == self.spec_rank(),
    {
        match self {
            FrenchCard::Spades(r) => Some(*r),
            FrenchCard::Hearts(r) => Some(*r),
            FrenchCard::Clubs(r) => Some(*r),
            FrenchCard::Diamonds(r) => Some(*r),
            FrenchCard::Joker => None,
        }
    }

    /// Whether both cards are of one suit
    pub fn suit_equals(&self, other: &FrenchCard) -> (b: bool)
        ensures
            b == self.same_suit(*other),
    {
        match (self, other) {
            (FrenchCard::Spades(_), FrenchCard::Spades(_)) => true,
            (FrenchCard::Hearts(_), FrenchCard::Hearts(_)) => true,
            (FrenchCard::Clubs(_), FrenchCard::Clubs(_)) => true,
            (FrenchCard::Diamonds(_), FrenchCard::Diamonds(_)) => true,
            _ => false,
        }
    }

    /// Spades, Clubs and the Joker are black
    pub fn is_black(&self) -> (b: bool)
        ensures
            b == self.spec_is_black(),
    {
        match self {
            FrenchCard::Spades(_) | FrenchCard::Clubs(_) | FrenchCard::Joker => true,
            _ => false,
        }
    }

    /// Hearts, Diamonds and the Joker are red
    pub fn is_red(&self) -> (b: bool)
        ensures
            b == self.spec_is_red(),
    {
        match self {
            FrenchCard::Hearts(_) | FrenchCard::Diamonds(_) | FrenchCard::Joker => true,
            _ => false,
        }
    }
}

impl FrenchRank {
    /// The text the rank prints as: `A` for the Ace, the number of a pip, or the face's letter
    pub open spec fn text(self) -> Seq<char> {
        match self {
            FrenchRank::Pip(n) => if n == 1 { seq!['A'] } else { decimal_text(n as nat) },
            FrenchRank::Jack => seq!['J'],
            FrenchRank::Queen => seq!['Q'],
            FrenchRank::King => seq!['K'],
        }
    }

    /// The text the rank prints as
    pub fn to_string(&self) -> (s: String)
        ensures
            s@ == self.text(),
    {
        proof {
            reveal_strlit("A");
            reveal_strlit("J");
            reveal_strlit("Q");
            reveal_strlit("K");
        }
        match self {
            FrenchRank::Pip(1) => {
                let mut s = String::new();
                s.append("A");
                s
            },
            FrenchRank::Pip(n) => decimal_string(*n),
            FrenchRank::Jack => {
                let mut s = String::new();
                s.append("J");
                s
            },
            FrenchRank::Queen => {
                let mut s = String::new();
                s.append("Q");
                s
            },
            FrenchRank::King => {
                let mut s = String::new();
                s.append("K");
                s
            },
        }
    }

    /// The text of the rank is as long as `display_len` says
    pub proof fn lemma_text_len(self)
        ensures
            self.text().len() == self.display_len(),
    {
        if let FrenchRank::Pip(n) = self {
            lemma_decimal_text_len(n as nat);
        }
    }

    /// How many characters the rank prints as: `A` for the Ace, the number of a pip, or a letter
    pub open spec fn display_len(self) -> nat {
        match self {
            FrenchRank::Pip(n) => decimal_len(n as nat),
            _ => 1,
        }
    }

    /// How many characters the rank prints as
    pub(crate) fn str_len(&self) -> (n: usize)
        ensures
            n == self.display_len(),
            n <= 10,
    {
        match self {
            FrenchRank::Pip(n) => count_digits(*n),
            _ => 1,
        }
    }
}

impl Card for FrenchCard {
    /// The rank and the suit symbol; the red suits are wrapped in terminal codes that turn the
    /// text red and back to white
    open spec fn text(&self) -> Seq<char> {
        match *self {
            FrenchCard::Spades(r) => r.text() + seq!['♠'],
            FrenchCard::Hearts(r) => colour_code('9', '1') + r.text() + seq!['♥'] + colour_code('3', '7'),
            FrenchCard::Clubs(r) => r.text() + seq!['♣'],
            FrenchCard::Diamonds(r) => colour_code('9', '1') + r.text() + seq!['♦'] + colour_code('3', '7'),
            FrenchCard::Joker => seq!['J', 'k'],
        }
    }

    fn to_string(&self) -> (s: String) {
        proof {
            reveal_strlit("♠");
            reveal_strlit("♥");
            reveal_strlit("♣");
            reveal_strlit("♦");
            reveal_strlit("Jk");
            reveal_strlit("\x1b[91m");
            reveal_strlit("\x1b[37m");
        }
        let mut s = String::new();
        match self {
            FrenchCard::Spades(r) => {
                s.append(r.to_string().as_str());
                s.append("♠");
            },
            FrenchCard::Hearts(r) => {
                s.append("\x1b[91m");
                s.append(r.to_string().as_str());
                s.append("♥");
                s.append("\x1b[37m");
            },
            FrenchCard::Clubs(r) => {
                s.append(r.to_string().as_str());
                s.append("♣");
            },
            FrenchCard::Diamonds(r) => {
                s.append("\x1b[91m");
                s.append(r.to_string().as_str());
                s.append("♦");
                s.append("\x1b[37m");
            },
            FrenchCard::Joker => {
                s.append("Jk");
            },
        }
        assert(s@ =~= self.text());
        s
    }

    /// The printed width: the rank (two characters for a ten) followed by the suit symbol
    open spec fn display_len(&self) -> nat {
        match self.spec_rank() {
            Some(FrenchRank::Pip(10)) => 3,
            _ => 2,
        }
    }

    fn str_len(&self) -> (n: usize) {
        match self {
            FrenchCard::Spades(r) | FrenchCard::Hearts(r) | FrenchCard::Clubs(r) | FrenchCard::Diamonds(r) => {
                match r {
                    FrenchRank::Pip(10) => 3,
                    _ => 2,
                }
            },
            _ => 2,
        }
    }
}

impl Rank for FrenchRank {
    open spec fn spec_next(&self) -> Option<FrenchRank> {
        match *self {
            FrenchRank::Pip(n) => if n == 10 { Some(FrenchRank::Jack) } else { Some(FrenchRank::Pip((n + 1) as u32)) },
            FrenchRank::Jack => Some(FrenchRank::Queen),
            FrenchRank::Queen => Some(FrenchRank::King),
            FrenchRank::King => None,
        }
    }

    open spec fn spec_prev(&self) -> Option<FrenchRank> {
        match *self {
            FrenchRank::Pip(n) => if n == 1 { None } else { Some(FrenchRank::Pip((n - 1) as u32)) },
            FrenchRank::Jack => Some(FrenchRank::Pip(10)),
            FrenchRank::Queen => Some(FrenchRank::Jack),
            FrenchRank::King => Some(FrenchRank::Queen),
        }
    }

    open spec fn next_defined(&self) -> bool {
        !(*self == FrenchRank::Pip(u32::MAX))
    }

    open spec fn prev_defined(&self) -> bool {
        !(*self == FrenchRank::Pip(0))
    }

    fn next(&self) -> (r: Option<FrenchRank>) {
        match self {
            FrenchRank::Pip(10) => Some(FrenchRank::Jack),
            FrenchRank::Pip(n) => Some(FrenchRank::Pip(n + 1)),
            FrenchRank::Jack => Some(FrenchRank::Queen),
            FrenchRank::Queen => Some(FrenchRank::King),
            FrenchRank::King => None,
        }
    }

    fn prev(&self) -> (r: Option<FrenchRank>) {
        match self {
            FrenchRank::Pip(1) => None,
            FrenchRank::Pip(n) => Some(FrenchRank::Pip(n - 1)),
            FrenchRank::Jack => Some(FrenchRank::Pip(10)),
            FrenchRank::Queen => Some(FrenchRank::Jack),
            FrenchRank::King => Some(FrenchRank::Queen),
        }
    }
}

/// The order of French ranks: pips by their number, then Jack, Queen and King
pub open spec fn french_rank_order(a: FrenchRank, b: FrenchRank) -> Ordering {
    match (a, b) {
        (FrenchRank::Pip(n), FrenchRank::Pip(m)) => if n < m {
            Ordering::Less
        } else if n == m {
            Ordering::Equal
        } else {
            Ordering::Greater
        },
        (FrenchRank::Pip(_), _) => Ordering::Less,
        (FrenchRank::Jack, FrenchRank::Pip(_)) => Ordering::Greater,
        (FrenchRank::Jack, FrenchRank::Jack) => Ordering::Equal,
        (FrenchRank::Jack, _) => Ordering::Less,
        (FrenchRank::Queen, FrenchRank::King) => Ordering::Less,
        (FrenchRank::Queen, FrenchRank::Queen) => Ordering::Equal,
        (FrenchRank::Queen, _) => Ordering::Greater,
        (FrenchRank::King, FrenchRank::King) => Ordering::Equal,
        (FrenchRank::King, _) => Ordering::Greater,
    }
}

impl PartialOrd for FrenchRank {
    fn partial_cmp(&self, other: &Self) -> (r: Option<Ordering>) {
        let o = match self {
            FrenchRank::Pip(n) => {
                match other {
                    FrenchRank::Pip(m) => if *n < *m {
                        Ordering::Less
                    } else if *n == *m {
                        Ordering::Equal
                    } else {
                        Ordering::Greater
                    },
                    _ => Ordering::Less,
                }
            },
            FrenchRank::Jack => {
                match other {
                    FrenchRank::Pip(_) => Ordering::Greater,
                    FrenchRank::Jack => Ordering::Equal,
                    _ => Ordering::Less,
                }
            },
            FrenchRank::Queen => {
                match other {
                    FrenchRank::Pip(_) => Ordering::Greater,
                    FrenchRank::Jack => Ordering::Greater,
                    FrenchRank::Queen => Ordering::Equal,
                    FrenchRank::King => Ordering::Less,
                }
            },
            FrenchRank::King => {
                match other {
                    FrenchRank::King => Ordering::Equal,
                    _ => Ordering::Greater,
                }
            },
        };
        Some(o)
    }
}

impl PartialOrdSpecImpl for FrenchRank {
    open spec fn obeys_partial_cmp_spec() -> bool {
        true
    }

    open spec fn partial_cmp_spec(&self, other: &FrenchRank) -> Option<Ordering> {
        Some(french_rank_order(*self, *other))
    }
}

/// Going up a rank and back down returns to the same rank, except from `Pip(0)`, which goes up
/// to the Ace, the lowest rank
pub proof fn lemma_french_next_prev(r: FrenchRank)
    requires
        r.next_defined(),
        r != FrenchRank::Pip(0),
    ensures
        r.spec_next() matches Some(n) ==> n.spec_prev() == Some(r),
{
}

/// Going down a rank and back up returns to the same rank, for the Ace to the 10 and the face
/// ranks
pub proof fn lemma_french_prev_next(r: FrenchRank)
    requires
        r matches FrenchRank::Pip(n) ==> 1 <= n <= 10,
    ensures
        r.spec_prev() matches Some(p) ==> p.spec_next() == Some(r),
{
}

/// The next rank is higher and the previous rank lower in the order of French ranks
pub proof fn lemma_french_next_higher(r: FrenchRank)
    requires
        r.next_defined(),
        r.prev_defined(),
    ensures
        r.spec_next() matches Some(n) ==> french_rank_order(r, n) == Ordering::Less,
        r.spec_prev() matches Some(p) ==> french_rank_order(r, p) == Ordering::Greater,
{
}

} // verus!
