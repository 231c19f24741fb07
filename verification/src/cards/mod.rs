use vstd::prelude::*;
use vstd::string::StringExecFns;

pub mod card_stack;
pub mod deck;
pub mod tableau;
pub mod flippable_card;
pub mod french_card;
pub mod italian_card;
pub mod tarocchi_card;
pub mod tarot_card;
pub mod five_crowns_card;

pub use flippable_card::FlippableCard;

verus! {

/// Trait required to be implemented by any object to act as a Card throughout the library
pub trait Card: Sized + Clone + core::fmt::Debug {
    /// The text the card prints as
    spec fn text(&self) -> Seq<char>;

    /// The number of characters the card occupies when printed
    spec fn display_len(&self) -> nat;

    /// Returns the length of the string representation of the card
    fn str_len(&self) -> (n: usize)
        ensures
            n == self.display_len(),
    ;

    /// Returns the text the card prints as
    fn to_string(&self) -> (s: String)
        ensures
            s@ == self.text(),
    ;
}

/// The character of the decimal digit `d`
pub open spec fn digit_char(d: nat) -> char {
    if d == 0 {
        '0'
    } else if d == 1 {
        '1'
    } else if d == 2 {
        '2'
    } else if d == 3 {
        '3'
    } else if d == 4 {
        '4'
    } else if d == 5 {
        '5'
    } else if d == 6 {
        '6'
    } else if d == 7 {
        '7'
    } else if d == 8 {
        '8'
    } else {
        '9'
    }
}

/// The decimal numeral of `n`
pub open spec fn decimal_text(n: nat) -> Seq<char>
    decreases n,
{
    if n < 10 {
        seq![digit_char(n)]
    } else {
        decimal_text(n / 10).push(digit_char(n % 10))
    }
}

/// The numeral of `n` has as many characters as `n` has decimal digits
pub proof fn lemma_decimal_text_len(n: nat)
    ensures
        decimal_text(n).len() == decimal_len(n),
    decreases n,
{
    if n >= 10 {
        lemma_decimal_text_len(n / 10);
    }
}

/// The one-character string of the decimal digit `d`
fn digit_str(d: u32) -> (s: &'static str)
    requires
        d < 10,
    ensures
        s@ == seq![digit_char(d as nat)],
{
    proof {
        reveal_strlit("0");
        reveal_strlit("1");
        reveal_strlit("2");
        reveal_strlit("3");
        reveal_strlit("4");
        reveal_strlit("5");
        reveal_strlit("6");
        reveal_strlit("7");
        reveal_strlit("8");
        reveal_strlit("9");
    }
    match d {
        0 => "0",
        1 => "1",
        2 => "2",
        3 => "3",
        4 => "4",
        5 => "5",
        6 => "6",
        7 => "7",
        8 => "8",
        _ => "9",
    }
}

/// The terminal code `ESC [ a b m`, which sets the colour of the text that follows
pub open spec fn colour_code(a: char, b: char) -> Seq<char> {
    seq!['\x1b', '[', a, b, 'm']
}

/// The terminal code that gives the text that follows a grey background
pub open spec fn highlight_code() -> Seq<char> {
    seq!['\x1b', '[', '1', '0', '0', 'm']
}

/// The terminal code that gives the text that follows a black background
pub open spec fn unhighlight_code() -> Seq<char> {
    colour_code('4', '0')
}

/// The text of the first `n` of `cards`, each followed by a space
pub open spec fn spaced_text<C: Card>(cards: Seq<C>, n: int) -> Seq<char>
    decreases n,
{
    if n <= 0 {
        Seq::empty()
    } else {
        spaced_text(cards, n - 1) + cards[n - 1].text() + seq![' ']
    }
}

/// A row of cards: each but the last followed by a space, the last highlighted if asked
pub open spec fn row_text<C: Card>(cards: Seq<C>, highlight_last: bool) -> Seq<char> {
    if cards.len() == 0 {
        Seq::empty()
    } else {
        spaced_text(cards, cards.len() - 1) + if highlight_last {
            highlight_code() + cards.last().text() + unhighlight_code()
        } else {
            cards.last().text()
        }
    }
}

/// Append the text of `cards`, each but the last followed by a space, the last highlighted if
/// asked
pub(crate) fn append_row<C: Card>(s: &mut String, cards: &Vec<C>, highlight_last: bool)
    ensures
        final(s)@ == old(s)@ + row_text(cards@, highlight_last),
{
    proof {
        reveal_strlit(" ");
        reveal_strlit("\x1b[100m");
        reveal_strlit("\x1b[40m");
    }
    let n = cards.len();
    if n > 0 {
        let mut i: usize = 0;
        while i < n - 1
            invariant
                n == cards@.len(),
                n > 0,
                i <= n - 1,
                s@ == old(s)@ + spaced_text(cards@, i as int),
            decreases n - 1 - i,
        {
            let ghost before = s@;
            proof {
                reveal_strlit(" ");
            }
            s.append(cards[i].to_string().as_str());
            s.append(" ");
            assert(spaced_text(cards@, i + 1) == spaced_text(cards@, i as int) + cards@[i as int].text() + seq![' ']);
            assert(s@ =~= before + cards@[i as int].text() + seq![' ']);
            i = i + 1;
            assert(s@ =~= old(s)@ + spaced_text(cards@, i as int));
        }
        if highlight_last {
            s.append("\x1b[100m");
            s.append(cards[n - 1].to_string().as_str());
            s.append("\x1b[40m");
        } else {
            s.append(cards[n - 1].to_string().as_str());
        }
        assert(s@ =~= old(s)@ + row_text(cards@, highlight_last));
    } else {
        assert(s@ =~= old(s)@ + row_text(cards@, highlight_last));
    }
}

/// The decimal numeral of `n`
pub(crate) fn decimal_string(n: u32) -> (s: String)
    ensures
        s@ == decimal_text(n as nat),
    decreases n,
{
    if n < 10 {
        let mut s = String::new();
        s.append(digit_str(n));
        s
    } else {
        let mut s = decimal_string(n / 10);
        s.append(digit_str(n % 10));
        s
    }
}

/// The number of decimal digits of `n`
pub open spec fn decimal_len(n: nat) -> nat
    decreases n,
{
    if n < 10 {
        1
    } else {
        1 + decimal_len(n / 10)
    }
}

/// A `u32` has at most ten decimal digits
proof fn lemma_decimal_len_u32(n: u32)
    ensures
        1 <= decimal_len(n as nat) <= 10,
{
    reveal_with_fuel(decimal_len, 11);
}

/// The number of decimal digits of `n`, which is how many characters it prints as
pub(crate) fn count_digits(n: u32) -> (k: usize)
    ensures
        k == decimal_len(n as nat),
        1 <= k <= 10,
{
    proof {
        lemma_decimal_len_u32(n);
    }
    let mut m = n;
    let mut k: usize = 1;
    while m >= 10
        invariant
            1 <= k,
            k - 1 + decimal_len(m as nat) == decimal_len(n as nat),
            decimal_len(n as nat) <= 10,
        decreases m,
    {
        m = m / 10;
        k = k + 1;
    }
    k
}

/// A rank of a suited card: ranks come in a fixed order, and each may have a next-higher
/// and a next-lower rank
pub trait Rank: Sized + Copy {
    /// The next-highest rank, if there is one
    spec fn spec_next(&self) -> Option<Self>;

    /// The next-lowest rank, if there is one
    spec fn spec_prev(&self) -> Option<Self>;

    /// `next` can be computed for this rank without leaving the range of its number
    spec fn next_defined(&self) -> bool;

    /// `prev` can be computed for this rank without leaving the range of its number
    spec fn prev_defined(&self) -> bool;

    /// Returns the next-highest rank if it exists
    fn next(&self) -> (r: Option<Self>)
        requires
            self.next_defined(),
        ensures
            r == self.spec_next(),
    ;

    /// Returns the next lowest rank if it exists
    fn prev(&self) -> (r: Option<Self>)
        requires
            self.prev_defined(),
        ensures
            r == self.spec_prev(),
    ;
}

/// Anything that a single card may be played onto, and which may refuse it.
pub trait PlayTo<C>: Sized + View {
    /// Whether `card` would be accepted in the current state
    spec fn accepts(&self, card: C) -> bool;

    /// The abstract state after `card` has been accepted
    spec fn after_play(&self, card: C) -> Self::V;

    /// Play `card` here; a refused card is handed back unchanged in `Err`
    fn play_to(&mut self, card: C) -> (r: Result<(), C>)
        ensures
            r is Ok <==> old(self).accepts(card),
            r is Ok ==> final(self)@ == old(self).after_play(card),
            r matches Err(c) ==> c == card && final(self)@ == old(self)@,
    ;
}

} // verus!
