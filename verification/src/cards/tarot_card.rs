use vstd::prelude::*;
use vstd::string::StringExecFns;
use super::{Card, Rank};
use super::tarocchi_card::TarocchiRank;

verus! {

/// A card of the Tarot deck: the Tarocchi suits, or one of the trumps
#[derive(Clone, Copy, Debug)]
pub enum TarotCard {
    Swords(TarocchiRank),
    Cups(TarocchiRank),
    Batons(TarocchiRank),
    Coins(TarocchiRank),
    Trump(TarotTrumps),
}

/// The trumps of the Tarot deck, from the Fool (0) to the World (XXI)
#[derive(Clone, Copy, Debug, PartialEq, Eq, Structural, PartialOrd, Ord)]
pub enum TarotTrumps {
    Fool,
    Magician,
    HighPriestess,
    Empress,
    Emperor,
    Hierophant,
    Lovers,
    Chariot,
    Strength,
    Hermit,
    WheelOfFortune,
    Justice,
    HangedMan,
    Death,
    Temperance,
    Devil,
    Tower,
    Star,
    Moon,
    Sun,
    Judgement,
    World,
}

/// The number of a trump, from 0 for the Fool to 21 for the World
pub open spec fn trump_number(t: TarotTrumps) -> int {
    match t {
        TarotTrumps::Fool => 0,
        TarotTrumps::Magician => 1,
        TarotTrumps::HighPriestess => 2,
        TarotTrumps::Empress => 3,
        TarotTrumps::Emperor => 4,
        TarotTrumps::Hierophant => 5,
        TarotTrumps::Lovers => 6,
        TarotTrumps::Chariot => 7,
        TarotTrumps::Strength => 8,
        TarotTrumps::Hermit => 9,
        TarotTrumps::WheelOfFortune => 10,
        TarotTrumps::Justice => 11,
        TarotTrumps::HangedMan => 12,
        TarotTrumps::Death => 13,
        TarotTrumps::Temperance => 14,
        TarotTrumps::Devil => 15,
        TarotTrumps::Tower => 16,
        TarotTrumps::Star => 17,
        TarotTrumps::Moon => 18,
        TarotTrumps::Sun => 19,
        TarotTrumps::Judgement => 20,
        TarotTrumps::World => 21,
    }
}

/// The trump numbered `n`, if there is one
pub open spec fn trump_numbered(n: int) -> Option<TarotTrumps> {
    if n == 0 {
        Some(TarotTrumps::Fool)
    } else if n == 1 {
        Some(TarotTrumps::Magician)
    } else if n == 2 {
        Some(TarotTrumps::HighPriestess)
    } else if n == 3 {
        Some(TarotTrumps::Empress)
    } else if n == 4 {
        Some(TarotTrumps::Emperor)
    } else if n == 5 {
        Some(TarotTrumps::Hierophant)
    } else if n == 6 {
        Some(TarotTrumps::Lovers)
    } else if n == 7 {
        Some(TarotTrumps::Chariot)
    } else if n == 8 {
        Some(TarotTrumps::Strength)
    } else if n == 9 {
        Some(TarotTrumps::Hermit)
    } else if n == 10 {
        Some(TarotTrumps::WheelOfFortune)
    } else if n == 11 {
        Some(TarotTrumps::Justice)
    } else if n == 12 {
        Some(TarotTrumps::HangedMan)
    } else if n == 13 {
        Some(TarotTrumps::Death)
    } else if n == 14 {
        Some(TarotTrumps::Temperance)
    } else if n == 15 {
        Some(TarotTrumps::Devil)
    } else if n == 16 {
        Some(TarotTrumps::Tower)
    } else if n == 17 {
        Some(TarotTrumps::Star)
    } else if n == 18 {
        Some(TarotTrumps::Moon)
    } else if n == 19 {
        Some(TarotTrumps::Sun)
    } else if n == 20 {
        Some(TarotTrumps::Judgement)
    } else if n == 21 {
        Some(TarotTrumps::World)
    } else {
        None
    }
}

impl TarotTrumps {
    /// The Roman numeral of the trump's number (0 for the Fool)
    pub open spec fn text(self) -> Seq<char> {
        match self {
            TarotTrumps::Fool => seq!['0'],
            TarotTrumps::Magician => seq!['I'],
            TarotTrumps::HighPriestess => seq!['I', 'I'],
            TarotTrumps::Empress => seq!['I', 'I', 'I'],
            TarotTrumps::Emperor => seq!['I', 'V'],
            TarotTrumps::Hierophant => seq!['V'],
            TarotTrumps::Lovers => seq!['V', 'I'],
            TarotTrumps::Chariot => seq!['V', 'I', 'I'],
            TarotTrumps::Strength => seq!['V', 'I', 'I', 'I'],
            TarotTrumps::Hermit => seq!['I', 'X'],
            TarotTrumps::WheelOfFortune => seq!['X'],
            TarotTrumps::Justice => seq!['X', 'I'],
            TarotTrumps::HangedMan => seq!['X', 'I', 'I'],
            TarotTrumps::Death => seq!['X', 'I', 'I', 'I'],
            TarotTrumps::Temperance => seq!['X', 'I', 'V'],
            TarotTrumps::Devil => seq!['X', 'V'],
            TarotTrumps::Tower => seq!['X', 'V', 'I'],
            TarotTrumps::Star => seq!['X', 'V', 'I', 'I'],
            TarotTrumps::Moon => seq!['X', 'V', 'I', 'I', 'I'],
            TarotTrumps::Sun => seq!['X', 'I', 'X'],
            TarotTrumps::Judgement => seq!['X', 'X'],
            TarotTrumps::World => seq!['X', 'X', 'I'],
        }
    }

    /// How many characters the trump prints as
    pub open spec fn display_len(self) -> nat {
        self.text().len()
    }

    /// The Roman numeral of the trump's number (0 for the Fool)
    pub fn to_string(&self) -> (s: String)
        ensures
            s@ == self.text(),
    {
        proof {
            reveal_strlit("0");
            reveal_strlit("I");
            reveal_strlit("II");
            reveal_strlit("III");
            reveal_strlit("IV");
            reveal_strlit("IX");
            reveal_strlit("V");
            reveal_strlit("VI");
            reveal_strlit("VII");
            reveal_strlit("VIII");
            reveal_strlit("X");
            reveal_strlit("XI");
            reveal_strlit("XII");
            reveal_strlit("XIII");
            reveal_strlit("XIV");
            reveal_strlit("XIX");
            reveal_strlit("XV");
            reveal_strlit("XVI");
            reveal_strlit("XVII");
            reveal_strlit("XVIII");
            reveal_strlit("XX");
            reveal_strlit("XXI");
        }
        let numeral = match self {
            TarotTrumps::Fool => "0",
            TarotTrumps::Magician => "I",
            TarotTrumps::HighPriestess => "II",
            TarotTrumps::Empress => "III",
            TarotTrumps::Emperor => "IV",
            TarotTrumps::Hierophant => "V",
            TarotTrumps::Lovers => "VI",
            TarotTrumps::Chariot => "VII",
            TarotTrumps::Strength => "VIII",
            TarotTrumps::Hermit => "IX",
            TarotTrumps::WheelOfFortune => "X",
            TarotTrumps::Justice => "XI",
            TarotTrumps::HangedMan => "XII",
            TarotTrumps::Death => "XIII",
            TarotTrumps::Temperance => "XIV",
            TarotTrumps::Devil => "XV",
            TarotTrumps::Tower => "XVI",
            TarotTrumps::Star => "XVII",
            TarotTrumps::Moon => "XVIII",
            TarotTrumps::Sun => "XIX",
            TarotTrumps::Judgement => "XX",
            TarotTrumps::World => "XXI",
        };
        let mut s = String::new();
        s.append(numeral);
        s
    }

    /// How many characters the trump prints as
    pub(crate) fn str_len(&self) -> (n: usize)
        ensures
            n == self.display_len(),
    {
        match self {
            TarotTrumps::Fool => 1,
            TarotTrumps::Magician => 1,
            TarotTrumps::HighPriestess => 2,
            TarotTrumps::Empress => 3,
            TarotTrumps::Emperor => 2,
            TarotTrumps::Hierophant => 1,
            TarotTrumps::Lovers => 2,
            TarotTrumps::Chariot => 3,
            TarotTrumps::Strength => 4,
            TarotTrumps::Hermit => 2,
            TarotTrumps::WheelOfFortune => 1,
            TarotTrumps::Justice => 2,
            TarotTrumps::HangedMan => 3,
            TarotTrumps::Death => 4,
            TarotTrumps::Temperance => 3,
            TarotTrumps::Devil => 2,
            TarotTrumps::Tower => 3,
            TarotTrumps::Star => 4,
            TarotTrumps::Moon => 5,
            TarotTrumps::Sun => 3,
            TarotTrumps::Judgement => 2,
            TarotTrumps::World => 3,
        }
    }
}

impl Card for TarotCard {
    /// A suited card prints its rank and suit symbol, a trump its numeral
    open spec fn text(&self) -> Seq<char> {
        match *self {
            TarotCard::Swords(r) => r.text() + seq!['♠'],
            TarotCard::Cups(r) => r.text() + seq!['♥'],
            TarotCard::Batons(r) => r.text() + seq!['♣'],
            TarotCard::Coins(r) => r.text() + seq!['♦'],
            TarotCard::Trump(t) => t.text(),
        }
    }

    /// The length of the text
    open spec fn display_len(&self) -> nat {
        self.text().len()
    }

    fn str_len(&self) -> (n: usize) {
        match self {
            TarotCard::Swords(r) | TarotCard::Cups(r) | TarotCard::Batons(r) | TarotCard::Coins(r) => {
                proof {
                    r.lemma_text_len();
                }
                r.str_len() + 1
            },
            TarotCard::Trump(t) => t.str_len(),
        }
    }

    fn to_string(&self) -> (s: String) {
        proof {
            reveal_strlit("♠");
            reveal_strlit("♥");
            reveal_strlit("♣");
            reveal_strlit("♦");
        }
        let mut s = String::new();
        match self {
            TarotCard::Swords(r) => {
                s.append(r.to_string().as_str());
                s.append("♠");
            },
            TarotCard::Cups(r) => {
                s.append(r.to_string().as_str());
                s.append("♥");
            },
            TarotCard::Batons(r) => {
                s.append(r.to_string().as_str());
                s.append("♣");
            },
            TarotCard::Coins(r) => {
                s.append(r.to_string().as_str());
                s.append("♦");
            },
            TarotCard::Trump(t) => {
                s.append(t.to_string().as_str());
            },
        }
        assert(s@ =~= self.text());
        s
    }
}

impl Rank for TarotTrumps {
    /// The trump numbered one more
    open spec fn spec_next(&self) -> Option<TarotTrumps> {
        trump_numbered(trump_number(*self) + 1)
    }

    /// The trump numbered one less
    open spec fn spec_prev(&self) -> Option<TarotTrumps> {
        trump_numbered(trump_number(*self) - 1)
    }

    open spec fn next_defined(&self) -> bool {
        true
    }

    open spec fn prev_defined(&self) -> bool {
        true
    }

    fn next(&self) -> (r: Option<TarotTrumps>) {
        match self {
            TarotTrumps::Fool => Some(TarotTrumps::Magician),
            TarotTrumps::Magician => Some(TarotTrumps::HighPriestess),
            TarotTrumps::HighPriestess => Some(TarotTrumps::Empress),
            TarotTrumps::Empress => Some(TarotTrumps::Emperor),
            TarotTrumps::Emperor => Some(TarotTrumps::Hierophant),
            TarotTrumps::Hierophant => Some(TarotTrumps::Lovers),
            TarotTrumps::Lovers => Some(TarotTrumps::Chariot),
            TarotTrumps::Chariot => Some(TarotTrumps::Strength),
            TarotTrumps::Strength => Some(TarotTrumps::Hermit),
            TarotTrumps::Hermit => Some(TarotTrumps::WheelOfFortune),
            TarotTrumps::WheelOfFortune => Some(TarotTrumps::Justice),
            TarotTrumps::Justice => Some(TarotTrumps::HangedMan),
            TarotTrumps::HangedMan => Some(TarotTrumps::Death),
            TarotTrumps::Death => Some(TarotTrumps::Temperance),
            TarotTrumps::Temperance => Some(TarotTrumps::Devil),
            TarotTrumps::Devil => Some(TarotTrumps::Tower),
            TarotTrumps::Tower => Some(TarotTrumps::Star),
            TarotTrumps::Star => Some(TarotTrumps::Moon),
            TarotTrumps::Moon => Some(TarotTrumps::Sun),
            TarotTrumps::Sun => Some(TarotTrumps::Judgement),
            TarotTrumps::Judgement => Some(TarotTrumps::World),
            TarotTrumps::World => None,
        }
    }

    fn prev(&self) -> (r: Option<TarotTrumps>) {
        match self {
            TarotTrumps::Fool => None,
            TarotTrumps::Magician => Some(TarotTrumps::Fool),
            TarotTrumps::HighPriestess => Some(TarotTrumps::Magician),
            TarotTrumps::Empress => Some(TarotTrumps::HighPriestess),
            TarotTrumps::Emperor => Some(TarotTrumps::Empress),
            TarotTrumps::Hierophant => Some(TarotTrumps::Emperor),
            TarotTrumps::Lovers => Some(TarotTrumps::Hierophant),
            TarotTrumps::Chariot => Some(TarotTrumps::Lovers),
            TarotTrumps::Strength => Some(TarotTrumps::Chariot),
            TarotTrumps::Hermit => Some(TarotTrumps::Strength),
            TarotTrumps::WheelOfFortune => Some(TarotTrumps::Hermit),
            TarotTrumps::Justice => Some(TarotTrumps::WheelOfFortune),
            TarotTrumps::HangedMan => Some(TarotTrumps::Justice),
            TarotTrumps::Death => Some(TarotTrumps::HangedMan),
            TarotTrumps::Temperance => Some(TarotTrumps::Death),
            TarotTrumps::Devil => Some(TarotTrumps::Temperance),
            TarotTrumps::Tower => Some(TarotTrumps::Devil),
            TarotTrumps::Star => Some(TarotTrumps::Tower),
            TarotTrumps::Moon => Some(TarotTrumps::Star),
            TarotTrumps::Sun => Some(TarotTrumps::Moon),
            TarotTrumps::Judgement => Some(TarotTrumps::Sun),
            TarotTrumps::World => Some(TarotTrumps::Judgement),
        }
    }
}

/// Each trump but the World has a next one, whose previous trump it is; each trump but the Fool
/// has a previous one, whose next trump it is
pub proof fn lemma_trump_next_prev(t: TarotTrumps)
    ensures
        t.spec_next() matches Some(n) ==> n.spec_prev() == Some(t),
        t.spec_prev() matches Some(p) ==> p.spec_next() == Some(t),
        t.spec_next() is None <==> t == TarotTrumps::World,
        t.spec_prev() is None <==> t == TarotTrumps::Fool,
{
}

} // verus!
