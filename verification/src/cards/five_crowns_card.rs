use vstd::prelude::*;
use vstd::string::StringExecFns;
use super::{Card, colour_code};
use super::french_card::FrenchRank;

verus! {

/// A card of the Five Crowns deck: five suits (the French ones and Stars) with French ranks,
/// or a Joker
#[derive(Clone, Debug)]
pub enum FiveCrownsCard {
    Spades(FrenchRank),
    Hearts(FrenchRank),
    Clubs(FrenchRank),
    Diamonds(FrenchRank),
    Stars(FrenchRank),
    Joker,
}

impl Card for FiveCrownsCard {
    /// The rank and the suit symbol; every suit but Spades is wrapped in terminal codes that
    /// colour it (red Hearts, green Clubs, cyan Diamonds, yellow Stars) and turn back to white;
    /// the Joker prints `Jkr` in three colours
    open spec fn text(&self) -> Seq<char> {
        match *self {
            FiveCrownsCard::Spades(r) => r.text() + seq!['♠'],
            FiveCrownsCard::Hearts(r) => colour_code('9', '1') + r.text() + seq!['♥'] + colour_code('3', '7'),
            FiveCrownsCard::Clubs(r) => colour_code('9', '2') + r.text() + seq!['♣'] + colour_code('3', '7'),
            FiveCrownsCard::Diamonds(r) => colour_code('3', '6') + r.text() + seq!['♦'] + colour_code('3', '7'),
            FiveCrownsCard::Stars(r) => colour_code('9', '3') + r.text() + seq!['★'] + colour_code('3', '7'),
            FiveCrownsCard::Joker => colour_code('9', '1') + seq!['J'] + colour_code('9', '2') + seq!['k']
                + colour_code('9', '3') + seq!['r'] + colour_code('3', '7'),
        }
    }

    /// The length of the text, terminal codes included
    open spec fn display_len(&self) -> nat {
        self.text().len()
    }

    fn str_len(&self) -> (n: usize) {
        match self {
            FiveCrownsCard::Spades(r) => {
                proof {
                    r.lemma_text_len();
                }
                r.str_len() + 1
            },
            FiveCrownsCard::Hearts(r) | FiveCrownsCard::Clubs(r) | FiveCrownsCard::Diamonds(r) | FiveCrownsCard::Stars(
                r,
            ) => {
                proof {
                    r.lemma_text_len();
                }
                r.str_len() + 11
            },
            FiveCrownsCard::Joker => 23,
        }
    }

    fn to_string(&self) -> (s: String) {
        proof {
            reveal_strlit("♠");
            reveal_strlit("♥");
            reveal_strlit("♣");
            reveal_strlit("♦");
            reveal_strlit("★");
            reveal_strlit("\x1b[91m");
            reveal_strlit("\x1b[92m");
            reveal_strlit("\x1b[36m");
            reveal_strlit("\x1b[93m");
            reveal_strlit("\x1b[37m");
            reveal_strlit("J");
            reveal_strlit("k");
            reveal_strlit("r");
        }
        let mut s = String::new();
        match self {
            FiveCrownsCard::Spades(r) => {
                s.append(r.to_string().as_str());
                s.append("♠");
            },
            FiveCrownsCard::Hearts(r) => {
                s.append("\x1b[91m");
                s.append(r.to_string().as_str());
                s.append("♥");
                s.append("\x1b[37m");
            },
            FiveCrownsCard::Clubs(r) => {
                s.append("\x1b[92m");
                s.append(r.to_string().as_str());
                s.append("♣");
                s.append("\x1b[37m");
            },
            FiveCrownsCard::Diamonds(r) => {
                s.append("\x1b[36m");
                s.append(r.to_string().as_str());
                s.append("♦");
                s.append("\x1b[37m");
            },
            FiveCrownsCard::Stars(r) => {
                s.append("\x1b[93m");
                s.append(r.to_string().as_str());
                s.append("★");
                s.append("\x1b[37m");
            },
            FiveCrownsCard::Joker => {
                s.append("\x1b[91m");
                s.append("J");
                s.append("\x1b[92m");
                s.append("k");
                s.append("\x1b[93m");
                s.append("r");
                s.append("\x1b[37m");
            },
        }
        assert(s@ =~= self.text());
        s
    }
}

} // verus!
