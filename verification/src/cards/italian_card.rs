use vstd::prelude::*;
use super::{Card, Rank, decimal_len, count_digits, decimal_text, decimal_string, lemma_decimal_text_len};
use vstd::string::StringExecFns;

verus! {

/// A card of the Italian deck: one of four suits with a rank
#[derive(Clone, Copy, Debug, PartialEq, Eq, Structural)]
pub enum ItalianCard {
    Swords(ItalianRank),
    Cups(ItalianRank),
    Batons(ItalianRank),
    Coins(ItalianRank),
}

/// The rank of an Italian card: numbered pips (the Ace is `Pip(1)`), then Jack, Knight and King
#[derive(Clone, Copy, Debug, PartialEq, Eq, Structural, PartialOrd, Ord)]
pub enum ItalianRank {
    Pip(u32),
    Jack,
    Knight,
    King,
}

impl ItalianRank {
    /// The text the rank prints as: `A` for the Ace, the number of a pip, or the face's letter
    pub open spec fn text(self) -> Seq<char> {
        match self {
            ItalianRank::Pip(n) => if n == 1 { seq!['A'] } else { decimal_text(n as nat) },
            ItalianRank::Jack => seq!['J'],
            ItalianRank::Knight => seq!['k'],
            ItalianRank::King => seq!['K'],
        }
    }

    /// The text the rank prints as
    pub fn to_string(&self) -> (s: String)
        ensures
            s@ == self.text(),
    {
        proof {
            reveal_strlit("A");
            reveal_strlit("J");
            reveal_strlit("K");
            reveal_strlit("k");
        }
        match self {
            ItalianRank::Pip(1) => {
                let mut s = String::new();
                s.append("A");
                s
            },
            ItalianRank::Pip(n) => decimal_string(*n),
            ItalianRank::Jack => {
                let mut s = String::new();
                s.append("J");
                s
            },
            ItalianRank::Knight => {
                let mut s = String::new();
                s.append("k");
                s
            },
            ItalianRank::King => {
                let mut s = String::new();
                s.append("K");
                s
            },
        }
    }

    /// The text of the rank is as long as `display_len` says
    pub proof fn lemma_text_len(self)
        ensures
            self.text().len() == self.display_len(),
    {
        if let ItalianRank::Pip(n) = self {
            lemma_decimal_text_len(n as nat);
        }
    }

    /// How many characters the rank prints as: `A` for the Ace, the number of a pip, or a letter
    pub open spec fn display_len(self) -> nat {
        match self {
            ItalianRank::Pip(n) => decimal_len(n as nat),
            _ => 1,
        }
    }

    /// How many characters the rank prints as
    fn str_len(&self) -> (n: usize)
        ensures
            n == self.display_len(),
            n <= 10,
    {
        match self {
            ItalianRank::Pip(n) => count_digits(*n),
            _ => 1,
        }
    }
}

impl ItalianCard {
    /// The rank of the card
    pub open spec fn spec_rank(self) -> ItalianRank {
        match self {
            ItalianCard::Swords(r) => r,
            ItalianCard::Cups(r) => r,
            ItalianCard::Batons(r) => r,
            ItalianCard::Coins(r) => r,
        }
    }
}

impl Card for ItalianCard {
    /// The rank followed by the suit symbol
    open spec fn text(&self) -> Seq<char> {
        match *self {
            ItalianCard::Swords(r) => r.text() + seq!['♠'],
            ItalianCard::Cups(r) => r.text() + seq!['♥'],
            ItalianCard::Batons(r) => r.text() + seq!['♣'],
            ItalianCard::Coins(r) => r.text() + seq!['♦'],
        }
    }

    fn to_string(&self) -> (s: String) {
        proof {
            reveal_strlit("♠");
            reveal_strlit("♥");
            reveal_strlit("♣");
            reveal_strlit("♦");
        }
        let mut s = String::new();
        match self {
            ItalianCard::Swords(r) => {
                s.append(r.to_string().as_str());
                s.append("♠");
            },
            ItalianCard::Cups(r) => {
                s.append(r.to_string().as_str());
                s.append("♥");
            },
            ItalianCard::Batons(r) => {
                s.append(r.to_string().as_str());
                s.append("♣");
            },
            ItalianCard::Coins(r) => {
                s.append(r.to_string().as_str());
                s.append("♦");
            },
        }
        assert(s@ =~= self.text());
        s
    }

    /// The length of the text
    open spec fn display_len(&self) -> nat {
        self.text().len()
    }

    fn str_len(&self) -> (n: usize) {
        let r = match self {
            ItalianCard::Swords(r) | ItalianCard::Cups(r) | ItalianCard::Batons(r) | ItalianCard::Coins(r) => r,
        };
        proof {
            r.lemma_text_len();
        }
        r.str_len() + 1
    }
}

impl Rank for ItalianRank {
    open spec fn spec_next(&self) -> Option<ItalianRank> {
        match *self {
            ItalianRank::Pip(n) => if n == 10 { Some(ItalianRank::Jack) } else { Some(ItalianRank::Pip((n + 1) as u32)) },
            ItalianRank::Jack => Some(ItalianRank::Knight),
            ItalianRank::Knight => Some(ItalianRank::King),
            ItalianRank::King => None,
        }
    }

    open spec fn spec_prev(&self) -> Option<ItalianRank> {
        match *self {
            ItalianRank::Pip(n) => if n == 1 { None } else { Some(ItalianRank::Pip((n - 1) as u32)) },
            ItalianRank::Jack => Some(ItalianRank::Pip(10)),
            ItalianRank::Knight => Some(ItalianRank::Jack),
            ItalianRank::King => Some(ItalianRank::Knight),
        }
    }

    open spec fn next_defined(&self) -> bool {
        !(*self == ItalianRank::Pip(u32::MAX))
    }

    open spec fn prev_defined(&self) -> bool {
        !(*self == ItalianRank::Pip(0))
    }

    fn next(&self) -> (r: Option<ItalianRank>) {
        match self {
            ItalianRank::Pip(10) => Some(ItalianRank::Jack),
            ItalianRank::Pip(n) => Some(ItalianRank::Pip(n + 1)),
            ItalianRank::Jack => Some(ItalianRank::Knight),
            ItalianRank::Knight => Some(ItalianRank::King),
            ItalianRank::King => None,
        }
    }

    fn prev(&self) -> (r: Option<ItalianRank>) {
        match self {
            ItalianRank::Pip(1) => None,
            ItalianRank::Pip(n) => Some(ItalianRank::Pip(n - 1)),
            ItalianRank::Jack => Some(ItalianRank::Pip(10)),
            ItalianRank::Knight => Some(ItalianRank::Jack),
            ItalianRank::King => Some(ItalianRank::Knight),
        }
    }
}

/// Going up a rank and back down returns to the same rank, except from `Pip(0)`, which goes up
/// to the Ace, the lowest rank
pub proof fn lemma_italian_next_prev(r: ItalianRank)
    requires
        r.next_defined(),
        r != ItalianRank::Pip(0),
    ensures
        r.spec_next() matches Some(n) ==> n.spec_prev() == Some(r),
{
}

/// Going down a rank and back up returns to the same rank, for the Ace to the 10 and the face
/// ranks
pub proof fn lemma_italian_prev_next(r: ItalianRank)
    requires
        r matches ItalianRank::Pip(n) ==> 1 <= n <= 10,
    ensures
        r.spec_prev() matches Some(p) ==> p.spec_next() == Some(r),
{
}

} // verus!
