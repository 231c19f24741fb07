use vstd::prelude::*;
use super::{Card, Rank, decimal_len, count_digits, decimal_text, decimal_string, lemma_decimal_text_len};
use vstd::string::StringExecFns;

verus! {

/// A card of the Tarocchi deck: the Italian suits with the ranks of `TarocchiRank`
#[derive(Clone, Debug)]
pub enum TarocchiCard {
    Swords(TarocchiRank),
    Cups(TarocchiRank),
    Batons(TarocchiRank),
    Coins(TarocchiRank),
}

/// The rank of a Tarocchi card: numbered pips (the Ace is `Pip(1)`), then Jack, Knight, Queen
/// and King
#[derive(Clone, Copy, Debug, PartialEq, Eq, Structural, PartialOrd, Ord)]
pub enum TarocchiRank {
    Pip(u32),
    Jack,
    Knight,
    Queen,
    King,
}

impl TarocchiRank {
    /// The text the rank prints as: `A` for the Ace, the number of a pip, or the face's letter
    pub open spec fn text(self) -> Seq<char> {
        match self {
            TarocchiRank::Pip(n) => if n == 1 { seq!['A'] } else { decimal_text(n as nat) },
            TarocchiRank::Jack => seq!['J'],
            TarocchiRank::Knight => seq!['k'],
            TarocchiRank::Queen => seq!['Q'],
            TarocchiRank::King => seq!['K'],
        }
    }

    /// The text the rank prints as
    pub fn to_string(&self) -> (s: String)
        ensures
            s@ == self.text(),
    {
        proof {
            reveal_strlit("A");
            reveal_strlit("J");
            reveal_strlit("K");
            reveal_strlit("Q");
            reveal_strlit("k");
        }
        match self {
            TarocchiRank::Pip(1) => {
                let mut s = String::new();
                s.append("A");
                s
            },
            TarocchiRank::Pip(n) => decimal_string(*n),
            TarocchiRank::Jack => {
                let mut s = String::new();
                s.append("J");
                s
            },
            TarocchiRank::Knight => {
                let mut s = String::new();
                s.append("k");
                s
            },
            TarocchiRank::Queen => {
                let mut s = String::new();
                s.append("Q");
                s
            },
            TarocchiRank::King => {
                let mut s = String::new();
                s.append("K");
                s
            },
        }
    }

    /// The text of the rank is as long as `display_len` says
    pub proof fn lemma_text_len(self)
        ensures
            self.text().len() == self.display_len(),
    {
        if let TarocchiRank::Pip(n) = self {
            lemma_decimal_text_len(n as nat);
        }
    }

    /// How many characters the rank prints as: `A` for the Ace, the number of a pip, or a letter
    pub open spec fn display_len(self) -> nat {
        match self {
            TarocchiRank::Pip(n) => decimal_len(n as nat),
            _ => 1,
        }
    }

    /// How many characters the rank prints as
    pub(crate) fn str_len(&self) -> (n: usize)
        ensures
            n == self.display_len(),
            n <= 10,
    {
        match self {
            TarocchiRank::Pip(n) => count_digits(*n),
            _ => 1,
        }
    }
}

impl TarocchiCard {
    /// The rank of the card
    pub open spec fn spec_rank(self) -> TarocchiRank {
        match self {
            TarocchiCard::Swords(r) => r,
            TarocchiCard::Cups(r) => r,
            TarocchiCard::Batons(r) => r,
            TarocchiCard::Coins(r) => r,
        }
    }
}

impl Card for TarocchiCard {
    /// The rank followed by the suit symbol
    open spec fn text(&self) -> Seq<char> {
        match *self {
            TarocchiCard::Swords(r) => r.text() + seq!['♠'],
            TarocchiCard::Cups(r) => r.text() + seq!['♥'],
            TarocchiCard::Batons(r) => r.text() + seq!['♣'],
            TarocchiCard::Coins(r) => r.text() + seq!['♦'],
        }
    }

    fn to_string(&self) -> (s: String) {
        proof {
            reveal_strlit("♠");
            reveal_strlit("♥");
            reveal_strlit("♣");
            reveal_strlit("♦");
        }
        let mut s = String::new();
        match self {
            TarocchiCard::Swords(r) => {
                s.append(r.to_string().as_str());
                s.append("♠");
            },
            TarocchiCard::Cups(r) => {
                s.append(r.to_string().as_str());
                s.append("♥");
            },
            TarocchiCard::Batons(r) => {
                s.append(r.to_string().as_str());
                s.append("♣");
            },
            TarocchiCard::Coins(r) => {
                s.append(r.to_string().as_str());
                s.append("♦");
            },
        }
        assert(s@ =~= self.text());
        s
    }

    /// The length of the text
    open spec fn display_len(&self) -> nat {
        self.text().len()
    }

    fn str_len(&self) -> (n: usize) {
        let r = match self {
            TarocchiCard::Swords(r) | TarocchiCard::Cups(r) | TarocchiCard::Batons(r) | TarocchiCard::Coins(r) => r,
        };
        proof {
            r.lemma_text_len();
        }
        r.str_len() + 1
    }
}

impl Rank for TarocchiRank {
    open spec fn spec_next(&self) -> Option<TarocchiRank> {
        match *self {
            TarocchiRank::Pip(n) => if n == 10 {
                Some(TarocchiRank::Jack)
            } else {
                Some(TarocchiRank::Pip((n + 1) as u32))
            },
            TarocchiRank::Jack => Some(TarocchiRank::Knight),
            TarocchiRank::Knight => Some(TarocchiRank::Queen),
            TarocchiRank::Queen => Some(TarocchiRank::King),
            TarocchiRank::King => None,
        }
    }

    open spec fn spec_prev(&self) -> Option<TarocchiRank> {
        match *self {
            TarocchiRank::Pip(n) => if n == 1 { None } else { Some(TarocchiRank::Pip((n - 1) as u32)) },
            TarocchiRank::Jack => Some(TarocchiRank::Pip(10)),
            TarocchiRank::Knight => Some(TarocchiRank::Jack),
            TarocchiRank::Queen => Some(TarocchiRank::Knight),
            TarocchiRank::King => Some(TarocchiRank::Queen),
        }
    }

    open spec fn next_defined(&self) -> bool {
        !(*self == TarocchiRank::Pip(u32::MAX))
    }

    open spec fn prev_defined(&self) -> bool {
        !(*self == TarocchiRank::Pip(0))
    }

    fn next(&self) -> (r: Option<TarocchiRank>) {
        match self {
            TarocchiRank::Pip(10) => Some(TarocchiRank::Jack),
            TarocchiRank::Pip(n) => Some(TarocchiRank::Pip(n + 1)),
            TarocchiRank::Jack => Some(TarocchiRank::Knight),
            TarocchiRank::Knight => Some(TarocchiRank::Queen),
            TarocchiRank::Queen => Some(TarocchiRank::King),
            TarocchiRank::King => None,
        }
    }

    fn prev(&self) -> (r: Option<TarocchiRank>) {
        match self {
            TarocchiRank::Pip(1) => None,
            TarocchiRank::Pip(n) => Some(TarocchiRank::Pip(n - 1)),
            TarocchiRank::Jack => Some(TarocchiRank::Pip(10)),
            TarocchiRank::Knight => Some(TarocchiRank::Jack),
            TarocchiRank::Queen => Some(TarocchiRank::Knight),
            TarocchiRank::King => Some(TarocchiRank::Queen),
        }
    }
}

/// Going up a rank and back down returns to the same rank, except from `Pip(0)`, which goes up
/// to the Ace, the lowest rank
pub proof fn lemma_tarocchi_next_prev(r: TarocchiRank)
    requires
        r.next_defined(),
        r != TarocchiRank::Pip(0),
    ensures
        r.spec_next() matches Some(n) ==> n.spec_prev() == Some(r),
{
}

/// Going down a rank and back up returns to the same rank, for the Ace to the 10 and the face
/// ranks
pub proof fn lemma_tarocchi_prev_next(r: TarocchiRank)
    requires
        r matches TarocchiRank::Pip(n) ==> 1 <= n <= 10,
    ensures
        r.spec_prev() matches Some(p) ==> p.spec_next() == Some(r),
{
}

} // verus!
