use vstd::prelude::*;
use vstd::multiset::Multiset;
use crate::cards::{FlippableCard, Rank};
use crate::cards::card_stack::{CardStack, CardStackVariant, CardStackView};
use crate::cards::deck::{Deck, DeckError, DeckToggle, DeckView, standard_french_cards, inner_cards, all_turned};
use crate::cards::french_card::{FrenchCard, FrenchRank};
use crate::cards::tableau::{Tableau, TableauError, TableauVariant, TableauView, all_cards};
use super::card_count::{
    lemma_pile_add, lemma_pile_empty, lemma_stacks_pile_update, lemma_stacks_pile_replace, lemma_pile_drop_last,
    lemma_pile_push, lemma_pile_all_turned, lemma_pile_reverse, lemma_pile_split, lemma_pile_turn,
    lemma_pile_contains, lemma_pile_len, lemma_stacks_pile_bound, lemma_stacks_pile_same_cards, lemma_stacks_pile_sub,
    lemma_stacks_pile_cleared, lemma_all_cards_pile, lemma_pile_permuted, pile, stacks_pile,
};
use crate::cards::deck::standard_french_card;
use crate::cards::tableau::stack_views;

verus! {

broadcast use {
    vstd::seq_lib::group_to_multiset_ensures,
    vstd::seq_lib::lemma_multiset_commutative,
    vstd::multiset::group_multiset_axioms,
    crate::cards::flippable_card::group_flippable_card,
};

/// The cards of a Klondike game: French cards that face up or down
pub type KlondikeCard = FlippableCard<FrenchCard>;

type KlondikeDeck = Deck<KlondikeCard>;

type KlondikeTableau = Tableau<KlondikeCard>;

type KlondikeFoundation = Tableau<KlondikeCard>;

/// Errors of a Klondike game's actions
#[derive(Clone, Debug)]
pub enum KlondikeGameError {
    CardError(KlondikeCard),
    TalonError(DeckError),
    TableauError(TableauError),
    FoundationError(TableauError),
    PlayError,
    HistoryError,
}

/// The three regions of a Klondike game
#[derive(Clone, Copy, Debug, PartialEq, Eq, Structural)]
pub enum KlondikeGameElement {
    Talon,
    Tableau,
    Foundation,
}

impl KlondikeGameElement {
    /// The element after this one in the cycle Talon, Tableau, Foundation
    pub open spec fn spec_next(self) -> KlondikeGameElement {
        match self {
            KlondikeGameElement::Talon => KlondikeGameElement::Tableau,
            KlondikeGameElement::Tableau => KlondikeGameElement::Foundation,
            KlondikeGameElement::Foundation => KlondikeGameElement::Talon,
        }
    }

    /// Cycles through Klondike Game elements in a specified order
    pub fn next_element(&mut self)
        ensures
            *final(self) == old(self).spec_next(),
    {
        *self = match self {
            KlondikeGameElement::Talon => KlondikeGameElement::Tableau,
            KlondikeGameElement::Tableau => KlondikeGameElement::Foundation,
            KlondikeGameElement::Foundation => KlondikeGameElement::Talon,
        }
    }
}

/// A Klondike solitaire game: the talon (deck and waste), seven tableau columns, four
/// foundations, the hovered region, the cards currently picked up (with the region and column
/// they came from), whether the game is won, and the earlier states for undoing moves
#[derive(Debug)]
pub struct KlondikeGame {
    talon: KlondikeDeck,
    tableau: KlondikeTableau,
    foundation: KlondikeFoundation,
    hovered_element: KlondikeGameElement,
    selected_cards: (Vec<KlondikeCard>, KlondikeGameElement, Option<usize>),
    win: bool,
    history: Vec<KlondikeGameWeak>,
}

/// A saved state of a Klondike game (all but the win flag and the history)
#[derive(Debug)]
struct KlondikeGameWeak {
    talon: KlondikeDeck,
    tableau: KlondikeTableau,
    foundation: KlondikeFoundation,
    hovered_element: KlondikeGameElement,
    selected_cards: (Vec<KlondikeCard>, KlondikeGameElement, Option<usize>),
}

/// The abstract state of the board of a Klondike game
pub ghost struct KlondikeBoard {
    pub talon: DeckView<KlondikeCard>,
    pub tableau: TableauView<KlondikeCard>,
    pub foundation: TableauView<KlondikeCard>,
    pub hovered_element: KlondikeGameElement,
    pub selected: Seq<KlondikeCard>,
    pub selected_from: KlondikeGameElement,
    pub selected_idx: Option<usize>,
}

/// The abstract state of a Klondike game: its board, whether it is won, and the saved boards,
/// oldest first
pub ghost struct KlondikeView {
    pub board: KlondikeBoard,
    pub win: bool,
    pub history: Seq<KlondikeBoard>,
}

/// The 52 cards of the standard French deck, counted with multiplicity
pub open spec fn standard_deck_cards() -> Multiset<FrenchCard> {
    standard_french_cards().to_multiset()
}

/// The hovered column (if any) is a column of the tableau, only it may hover over a card, and
/// the card it hovers over is at most one past its top
pub open spec fn hover_consistent(t: TableauView<KlondikeCard>) -> bool {
    &&& t.hovered_in_range()
    &&& forall|k: int|
        0 <= k < t.stacks.len() && #[trigger] t.stacks[k].hovered is Some ==> t.stacks[k].hovered->0
            <= t.stacks[k].cards.len() && t.hovered is Some && t.hovered->0 == k
}

/// Only the hovered column (if any) may hover over a card
pub open spec fn hover_confined(t: TableauView<KlondikeCard>) -> bool {
    forall|k: int|
        0 <= k < t.stacks.len() && #[trigger] t.stacks[k].hovered is Some ==> t.hovered is Some && t.hovered->0 == k
}

/// No column of the tableau has a limit
pub open spec fn no_limits(t: TableauView<KlondikeCard>) -> bool {
    forall|k: int| 0 <= k < t.stacks.len() ==> #[trigger] t.stacks[k].lim is None
}

/// Neither the tableau nor any of its columns is hovered
pub open spec fn unhovered(t: TableauView<KlondikeCard>) -> bool {
    &&& t.hovered is None
    &&& forall|k: int| 0 <= k < t.stacks.len() ==> #[trigger] t.stacks[k].hovered is None
}

impl KlondikeBoard {
    /// All cards of the board, counted with multiplicity, whichever way they face and wherever
    /// they lie
    pub open spec fn cards(self) -> Multiset<FrenchCard> {
        pile(self.talon.cards).add(
            match self.talon.discard {
                Some(d) => pile(d),
                None => Multiset::empty(),
            },
        ).add(stacks_pile(self.tableau.stacks)).add(stacks_pile(self.foundation.stacks)).add(pile(self.selected))
    }

    /// The board has its regions, no column limits, and exactly the 52 cards of a standard deck
    pub open spec fn sound(self) -> bool {
        &&& self.tableau.stacks.len() == 7
        &&& no_limits(self.tableau)
        &&& no_limits(self.foundation)
        &&& self.foundation.stacks.len() == 4
        &&& self.tableau.hovered_in_range()
        &&& self.foundation.hovered_in_range()
        &&& self.talon.discard is Some
        &&& self.cards() == standard_deck_cards()
    }

    /// A board reached in play: sound, with the hover state of each region matching the
    /// hovered region, and a picked-up selection that knows where it came from
    pub open spec fn wf(self) -> bool {
        &&& self.sound()
        &&& hover_consistent(self.tableau)
        &&& hover_consistent(self.foundation)
        &&& self.hovered_element != KlondikeGameElement::Tableau ==> unhovered(self.tableau)
        &&& self.hovered_element != KlondikeGameElement::Foundation ==> unhovered(self.foundation)
        &&& forall|j: int|
            0 <= j < 4 && #[trigger] self.foundation.stacks[j].hovered is Some
                && self.foundation.stacks[j].hovered->0 == self.foundation.stacks[j].cards.len()
                && self.foundation.stacks[j].cards.len() > 0 ==> self.selected.len() > 0 && self.selected_from
                == KlondikeGameElement::Foundation && self.selected_idx is Some && self.selected_idx->0 == j
        &&& self.selected.len() > 0 && self.selected_from == KlondikeGameElement::Tableau ==> (
        self.selected_idx matches Some(i) && i < 7)
        &&& self.selected.len() > 0 && self.selected_from == KlondikeGameElement::Foundation ==> (
        self.selected_idx matches Some(i) && i < 4)
    }
}

impl KlondikeBoard {
    /// The board can be dealt anew: it is sound, and in the tableau and in the foundations only
    /// the hovered column may hover over a card
    pub open spec fn ready(self) -> bool {
        &&& self.sound()
        &&& hover_confined(self.tableau)
        &&& hover_confined(self.foundation)
    }
}

impl KlondikeBoard {
    /// <Enter> can be pressed on this board: when the talon is the hovered region, its deck or
    /// its waste is hovered
    pub open spec fn playable(self) -> bool {
        self.hovered_element == KlondikeGameElement::Talon ==> self.talon.hovered is Some
    }
}

impl KlondikeView {
    /// The board is one reached in play, and every saved board is one on which <Enter> was
    /// pressed
    pub open spec fn wf(self) -> bool {
        &&& self.board.wf()
        &&& forall|k: int| 0 <= k < self.history.len() ==> (#[trigger] self.history[k]).wf() && self.history[k].playable()
    }
}

impl View for KlondikeGameWeak {
    type V = KlondikeBoard;

    closed spec fn view(&self) -> KlondikeBoard {
        KlondikeBoard {
            talon: self.talon@,
            tableau: self.tableau@,
            foundation: self.foundation@,
            hovered_element: self.hovered_element,
            selected: self.selected_cards.0@,
            selected_from: self.selected_cards.1,
            selected_idx: self.selected_cards.2,
        }
    }
}

impl View for KlondikeGame {
    type V = KlondikeView;

    closed spec fn view(&self) -> KlondikeView {
        KlondikeView {
            board: KlondikeBoard {
                talon: self.talon@,
                tableau: self.tableau@,
                foundation: self.foundation@,
                hovered_element: self.hovered_element,
                selected: self.selected_cards.0@,
                selected_from: self.selected_cards.1,
                selected_idx: self.selected_cards.2,
            },
            win: self.win,
            history: self.history@.map_values(|w: KlondikeGameWeak| w@),
        }
    }
}

/// A card of the standard deck: no Joker, and numbered pips only from Ace (1) to 10
pub open spec fn standard_card(c: FrenchCard) -> bool {
    &&& !(c is Joker)
    &&& c.spec_rank() matches Some(r) && (r matches FrenchRank::Pip(n) ==> 1 <= n <= 10)
}

/// Every card of the standard deck is a standard card
pub proof fn lemma_standard_card(c: FrenchCard)
    requires
        standard_deck_cards().count(c) > 0,
    ensures
        standard_card(c),
        c.spec_rank()->0.next_defined(),
        c.spec_rank()->0.prev_defined(),
{
    assert(standard_french_cards().contains(c));
    let k = choose|k: int| 0 <= k < 52 && standard_french_cards()[k] == c;
    assert(c == standard_french_card(k));
}

/// The top (last) card of the hovered column of `t`, if there is a hovered column and it holds
/// a card
pub open spec fn hovered_top(t: TableauView<KlondikeCard>) -> Option<KlondikeCard> {
    match t.hovered {
        Some(s) => if t.stacks[s as int].cards.len() > 0 {
            Some(t.stacks[s as int].cards.last())
        } else {
            None
        },
        None => None,
    }
}

/// The Klondike rules for placing the picked-up cards, whose first (lowest) card is `first`,
/// on the hovered column of the hovered region: on a tableau column the first card must be of
/// the other colour and one rank below the column's top card, or a King on an empty column; on
/// a foundation it must be of the top card's suit and one rank above it, or an Ace on an empty
/// foundation; nothing may be placed on the talon
pub open spec fn legal_move(b: KlondikeBoard) -> bool {
    b.selected.len() > 0 && {
        let first = b.selected[0].inner();
        match b.hovered_element {
            KlondikeGameElement::Tableau => match hovered_top(b.tableau) {
                Some(h) => first.spec_is_black() == h.inner().spec_is_red() && first.spec_rank()
                    == h.inner().spec_rank()->0.spec_prev(),
                None => first.spec_rank()->0 == FrenchRank::King,
            },
            KlondikeGameElement::Foundation => match hovered_top(b.foundation) {
                Some(h) => first.same_suit(h.inner()) && h.inner().spec_rank()->0.spec_next()
                    == first.spec_rank(),
                None => first.spec_rank() == Some(FrenchRank::Pip(1)),
            },
            KlondikeGameElement::Talon => false,
        }
    }
}

/// Every foundation has a King on top
pub open spec fn all_kings(foundation: TableauView<KlondikeCard>) -> bool {
    forall|k: int|
        0 <= k < 4 ==> #[trigger] foundation.stacks[k].cards.len() > 0
            && foundation.stacks[k].cards.last().inner().spec_rank() == Some(FrenchRank::King)
}

/// Unhovering the hovered column of a tableau in which only that column hovers unhovers every
/// column
pub proof fn lemma_unhover_all(t: TableauView<KlondikeCard>)
    requires
        t.hovered_in_range(),
        hover_confined(t),
    ensures
        (match t.hovered {
            Some(s) => t.stacks.update(s as int, t.stacks[s as int].with_hovered(None)),
            None => t.stacks,
        }) =~= t.stacks.map_values(|s: CardStackView<KlondikeCard>| s.with_hovered(None)),
{
    let u = match t.hovered {
        Some(s) => t.stacks.update(s as int, t.stacks[s as int].with_hovered(None)),
        None => t.stacks,
    };
    let m = t.stacks.map_values(|s: CardStackView<KlondikeCard>| s.with_hovered(None));
    assert forall|k: int| 0 <= k < t.stacks.len() implies #[trigger] u[k] == m[k] by {
        if t.hovered is Some && t.hovered->0 == k {
        } else {
            assert(t.stacks[k].hovered is None);
            assert(t.stacks[k].with_hovered(None) == t.stacks[k]);
        }
    }
}

/// A tableau all of whose columns hover as `stacks_hovering` makes them is consistently hovered
pub proof fn lemma_hovering_consistent(t: TableauView<KlondikeCard>, h: Option<usize>)
    requires
        h matches Some(s) ==> s < t.stacks.len(),
    ensures
        hover_consistent(t.with_hovered(h).with_stacks(t.stacks_hovering(h))),
        h is None ==> unhovered(t.with_hovered(h).with_stacks(t.stacks_hovering(h))),
{
}

/// The cards of a talon: its deck and its waste
pub open spec fn talon_pile(t: DeckView<KlondikeCard>) -> Multiset<FrenchCard> {
    pile(t.cards).add(
        match t.discard {
            Some(d) => pile(d),
            None => Multiset::empty(),
        },
    )
}

/// The talon after its top card, if any, went face-up onto the top of its waste
pub open spec fn deal_one(t: DeckView<KlondikeCard>) -> DeckView<KlondikeCard> {
    if t.cards.len() == 0 {
        t
    } else {
        t.with_cards(t.cards.drop_last()).with_discard(Some(t.discard->0.push(t.cards.last().with_face(true))))
    }
}

/// The talon after up to `n` cards were dealt one at a time from its deck to its waste
pub open spec fn dealt(t: DeckView<KlondikeCard>, n: nat) -> DeckView<KlondikeCard>
    decreases n,
{
    if n == 0 {
        t
    } else {
        deal_one(dealt(t, (n - 1) as nat))
    }
}

/// The talon after its waste, turned face-down and reversed, became its deck again
pub open spec fn recycled(t: DeckView<KlondikeCard>) -> DeckView<KlondikeCard> {
    t.with_cards(all_turned(t.discard->0 + t.cards, false).reverse()).with_discard(Some(Seq::empty()))
}

/// The talon after drawing from it: three cards are dealt from the deck to the waste; an
/// empty deck is first refilled from the waste
pub open spec fn talon_drawn(t: DeckView<KlondikeCard>) -> DeckView<KlondikeCard> {
    if t.cards.len() > 0 {
        dealt(t, 3)
    } else if t.discard->0.len() > 0 {
        dealt(recycled(t), 3)
    } else {
        t
    }
}

/// Drawing from the talon runs out of cards before three were dealt
pub open spec fn talon_draw_short(t: DeckView<KlondikeCard>) -> bool {
    if t.cards.len() > 0 {
        t.cards.len() < 3
    } else {
        0 < t.discard->0.len() < 3
    }
}

/// Dealing keeps the cards of the talon, its hover state and its having a waste
pub proof fn lemma_dealt(t: DeckView<KlondikeCard>, n: nat)
    requires
        t.discard is Some,
    ensures
        talon_pile(dealt(t, n)) == talon_pile(t),
        dealt(t, n).discard is Some,
        dealt(t, n).hovered == t.hovered,
        dealt(t, n).cards.len() == if t.cards.len() >= n { t.cards.len() - n } else { 0 },
        t.cards.len() == 0 ==> dealt(t, n) == t,
    decreases n,
{
    if n > 0 {
        lemma_dealt(t, (n - 1) as nat);
        let u = dealt(t, (n - 1) as nat);
        if u.cards.len() > 0 {
            let d = u.discard->0;
            lemma_pile_drop_last(u.cards);
            lemma_pile_push(d, u.cards.last().with_face(true));
            assert(talon_pile(deal_one(u)) =~= talon_pile(u));
        }
    }
}

/// Once the deck is empty, dealing more changes nothing
pub proof fn lemma_dealt_stops(t: DeckView<KlondikeCard>, i: nat, n: nat)
    requires
        i <= n,
        dealt(t, i).cards.len() == 0,
    ensures
        dealt(t, n) == dealt(t, i),
    decreases n,
{
    if n > i {
        lemma_dealt_stops(t, i, (n - 1) as nat);
    }
}

/// Recycling keeps the cards of the talon
pub proof fn lemma_recycled(t: DeckView<KlondikeCard>)
    requires
        t.discard is Some,
    ensures
        talon_pile(recycled(t)) == talon_pile(t),
{
    let d = t.discard->0;
    lemma_pile_reverse(all_turned(d + t.cards, false));
    lemma_pile_all_turned(d + t.cards, false);
    lemma_pile_add(d, t.cards);
    lemma_pile_empty::<FrenchCard>();
    assert(talon_pile(recycled(t)) =~= talon_pile(t));
}

/// How many cards the first `i` rounds of the opening deal put on the tableau: round `r` deals
/// one card to each of the columns `r` to 6
pub open spec fn deal_count(i: int) -> int
    decreases i,
{
    if i <= 0 {
        0
    } else {
        deal_count(i - 1) + 8 - i
    }
}

/// The opening deal deals 28 cards in its seven rounds, seven minus the round's number in each
pub proof fn lemma_deal_count(i: int)
    requires
        0 <= i <= 7,
    ensures
        0 <= deal_count(i) <= 28,
        i < 7 ==> deal_count(i + 1) == deal_count(i) + 7 - i,
        i < 7 ==> deal_count(i) + 7 - i <= 28,
        deal_count(7) == 28,
{
    reveal_with_fuel(deal_count, 8);
    if i == 0 {
    } else if i == 1 {
    } else if i == 2 {
    } else if i == 3 {
    } else if i == 4 {
    } else if i == 5 {
    } else if i == 6 {
    } else {
    }
}

/// The card that the opening deal from `d` (dealt from its end) puts at position `j` of column
/// `k`, for `j <= k`: it is dealt in round `j`, and only the top card (`j == k`) faces up
pub open spec fn dealt_card(d: Seq<KlondikeCard>, k: int, j: int) -> KlondikeCard {
    d[d.len() - 1 - deal_count(j) - (k - j)].with_face(j == k)
}

/// The first `n` cards that the opening deal from `d` puts on column `k`
pub open spec fn dealt_column(d: Seq<KlondikeCard>, k: int, n: int) -> Seq<KlondikeCard> {
    Seq::new(n as nat, |j: int| dealt_card(d, k, j))
}

/// How many cards column `k` holds during the opening deal, in round `i` just before column `s`
/// (`i <= s <= 7`) receives its card
pub open spec fn dealt_len(i: int, s: int, k: int) -> int {
    if k < i {
        k + 1
    } else if k < s {
        i + 1
    } else {
        i
    }
}

/// The columns `stacks` holding what the opening deal from `d` gave them in round `i` before
/// column `s` receives its card
pub open spec fn dealt_stacks(stacks: Seq<CardStackView<KlondikeCard>>, d: Seq<KlondikeCard>, i: int, s: int) -> Seq<
    CardStackView<KlondikeCard>,
> {
    Seq::new(stacks.len(), |k: int| stacks[k].with_cards(dealt_column(d, k, dealt_len(i, s, k))))
}

/// A shuffled deck to deal a new game from: the 52 cards of the standard deck, all face-down
pub open spec fn opening_deck(d: Seq<KlondikeCard>) -> bool {
    &&& d.len() == 52
    &&& pile(d) == standard_deck_cards()
    &&& forall|i: int| 0 <= i < 52 ==> !(#[trigger] d[i]).face_up()
}

/// The board of a new game dealt from the shuffled deck `d` on board `b`: column `k` of the
/// tableau holds `k + 1` cards with only the top one face-up, the foundations are empty, and
/// the remaining 24 cards form the talon, from which three are drawn; nothing is hovered but the
/// talon's deck and nothing is picked up
pub open spec fn fresh_board(b: KlondikeBoard, d: Seq<KlondikeCard>) -> KlondikeBoard {
    KlondikeBoard {
        talon: dealt(b.talon.with_cards(d.subrange(0, 24)).with_discard(Some(Seq::empty())), 3).with_hovered(
            Some(DeckToggle::Deck),
        ),
        tableau: b.tableau.with_hovered(None).with_stacks(
            Seq::new(
                b.tableau.stacks.len(),
                |k: int| b.tableau.stacks[k].with_cards(dealt_column(d, k, k + 1)).with_hovered(None),
            ),
        ),
        foundation: b.foundation.with_hovered(None).with_stacks(
            b.foundation.stacks.map_values(
                |s: CardStackView<KlondikeCard>| s.with_cards(Seq::empty()).with_hovered(None),
            ),
        ),
        hovered_element: KlondikeGameElement::Talon,
        selected: Seq::empty(),
        selected_from: KlondikeGameElement::Talon,
        selected_idx: None,
    }
}

/// The column with its top card, if it has one, turned face-up
pub open spec fn top_turned_up(s: CardStackView<KlondikeCard>) -> CardStackView<KlondikeCard> {
    if s.cards.len() == 0 {
        s
    } else {
        s.with_cards(s.cards.update(s.cards.len() - 1, s.cards.last().with_face(true)))
    }
}

/// The tableau with the top card of every column turned face-up
pub open spec fn tops_turned_up(t: TableauView<KlondikeCard>) -> TableauView<KlondikeCard> {
    t.with_stacks(t.stacks.map_values(|s: CardStackView<KlondikeCard>| top_turned_up(s)))
}

/// Turning up the tops of the columns keeps their cards
pub proof fn lemma_tops_turned_up(t: TableauView<KlondikeCard>)
    ensures
        stacks_pile(tops_turned_up(t).stacks) == stacks_pile(t.stacks),
        tops_turned_up(t).stacks.len() == t.stacks.len(),
        forall|k: int| 0 <= k < t.stacks.len() ==> (#[trigger] tops_turned_up(t).stacks[k]).cards.len()
            == t.stacks[k].cards.len() && tops_turned_up(t).stacks[k].hovered == t.stacks[k].hovered
            && tops_turned_up(t).stacks[k].lim == t.stacks[k].lim,
{
    let u = tops_turned_up(t);
    assert forall|k: int| 0 <= k < t.stacks.len() implies #[trigger] pile(u.stacks[k].cards) == pile(t.stacks[k].cards) by {
        let c = t.stacks[k].cards;
        if c.len() > 0 {
            lemma_pile_turn(c, c.len() - 1, true);
        }
    }
    lemma_stacks_pile_same_cards(u.stacks, t.stacks);
}

/// Moving the hovered index of a column from `start` to `end` passes only over face-down cards
pub open spec fn face_down_run(cards: Seq<KlondikeCard>, start: Option<usize>, end: Option<usize>) -> bool {
    match (start, end) {
        (None, None) => true,
        (Some(c0), Some(c1)) => c0 <= c1 && forall|j: int| c0 <= j < c1 ==> j < cards.len() && !(#[trigger] cards[j]).face_up(),
        _ => false,
    }
}

/// The hovered index moved from `start` past the face-down cards to the first face-up card
/// (or to one past the top)
pub open spec fn hover_settled(cards: Seq<KlondikeCard>, start: Option<usize>, end: Option<usize>) -> bool {
    &&& face_down_run(cards, start, end)
    &&& end matches Some(c1) ==> (c1 < cards.len() ==> cards[c1 as int].face_up())
}

/// The board after placing the selection on the hovered column, with its hovered card then at `h`
pub open spec fn placed_hovering(b: KlondikeBoard, h: Option<usize>) -> KlondikeBoard {
    let p = b.placed_on_column();
    let s = b.tableau.hovered->0 as int;
    p.with_tableau(p.tableau.with_stacks(p.tableau.stacks.update(s, p.tableau.stacks[s].with_hovered(h))))
}

impl KlondikeBoard {
    /// A board whose talon changed but kept its cards keeps its cards
    pub proof fn lemma_talon_change(self, t: DeckView<KlondikeCard>)
        requires
            talon_pile(t) == talon_pile(self.talon),
        ensures
            self.with_talon(t).cards() == self.cards(),
    {
        assert(self.with_talon(t).cards() =~= self.cards());
    }

    /// The same board with another talon
    pub open spec fn with_talon(self, talon: DeckView<KlondikeCard>) -> Self {
        KlondikeBoard { talon, ..self }
    }

    /// The same board with another tableau
    pub open spec fn with_tableau(self, tableau: TableauView<KlondikeCard>) -> Self {
        KlondikeBoard { tableau, ..self }
    }

    /// The same board with other foundations
    pub open spec fn with_foundation(self, foundation: TableauView<KlondikeCard>) -> Self {
        KlondikeBoard { foundation, ..self }
    }

    /// The same board with another selection
    pub open spec fn with_selection(
        self,
        selected: Seq<KlondikeCard>,
        from: KlondikeGameElement,
        idx: Option<usize>,
    ) -> Self {
        KlondikeBoard { selected, selected_from: from, selected_idx: idx, ..self }
    }

    /// The board after the picked-up cards went back where they came from: onto the waste,
    /// or onto the end of the column or foundation they were taken from
    pub open spec fn selection_returned(self) -> Self {
        if self.selected.len() == 0 {
            self
        } else {
            let back = match self.selected_from {
                KlondikeGameElement::Talon => self.with_talon(
                    self.talon.with_discard(Some(self.talon.discard->0 + self.selected)),
                ),
                KlondikeGameElement::Tableau => {
                    let i = self.selected_idx->0 as int;
                    self.with_tableau(self.tableau.with_stacks(self.tableau.stacks.update(
                        i,
                        self.tableau.stacks[i].with_cards(self.tableau.stacks[i].cards + self.selected),
                    )))
                },
                KlondikeGameElement::Foundation => {
                    let i = self.selected_idx->0 as int;
                    self.with_foundation(self.foundation.with_stacks(self.foundation.stacks.update(
                        i,
                        self.foundation.stacks[i].with_cards(self.foundation.stacks[i].cards + self.selected),
                    )))
                },
            };
            back.with_selection(Seq::empty(), KlondikeGameElement::Talon, None)
        }
    }

    /// The board after the top card of the waste, if any, was picked up
    pub open spec fn waste_top_picked(self) -> Self {
        let d = self.talon.discard->0;
        if d.len() == 0 {
            self
        } else {
            self.with_talon(self.talon.with_discard(Some(d.drop_last()))).with_selection(
                seq![d.last()],
                KlondikeGameElement::Talon,
                None,
            )
        }
    }

    /// The board after the cards of the hovered column, from its hovered card to its top, were
    /// picked up
    pub open spec fn column_picked(self) -> Self {
        match self.tableau.hovered {
            Some(s) => match self.tableau.stacks[s as int].hovered {
                Some(c) => {
                    let st = self.tableau.stacks[s as int];
                    self.with_tableau(self.tableau.with_stacks(
                        self.tableau.stacks.update(s as int, st.with_cards(st.cards.subrange(0, c as int))),
                    )).with_selection(
                        st.cards.subrange(c as int, st.cards.len() as int),
                        KlondikeGameElement::Tableau,
                        Some(s),
                    )
                },
                None => self,
            },
            None => self,
        }
    }

    /// The board after the hovered card of the hovered foundation, if that foundation is not
    /// empty, was picked up
    pub open spec fn foundation_picked(self) -> Self {
        match self.foundation.hovered {
            Some(s) => {
                let st = self.foundation.stacks[s as int];
                if st.cards.len() > 0 && st.hovered is Some {
                    let c = st.hovered->0 as int;
                    self.with_foundation(self.foundation.with_stacks(
                        self.foundation.stacks.update(s as int, st.with_cards(st.cards.remove(c))),
                    )).with_selection(seq![st.cards[c]], KlondikeGameElement::Foundation, Some(s))
                } else {
                    self
                }
            },
            None => self,
        }
    }

    /// Picking up the top card of the waste keeps a board reached in play so
    pub proof fn lemma_waste_top_picked(self)
        requires
            self.wf(),
            self.selected.len() == 0,
        ensures
            self.waste_top_picked().wf(),
    {
        let d = self.talon.discard->0;
        if d.len() > 0 {
            lemma_pile_drop_last(d);
            lemma_pile_empty::<FrenchCard>();
            assert(seq![d.last()] =~= Seq::<KlondikeCard>::empty().push(d.last()));
            lemma_pile_push(Seq::<KlondikeCard>::empty(), d.last());
            assert(pile(self.selected) =~= Multiset::empty());
            assert(self.waste_top_picked().cards() =~= self.cards());
        }
    }

    /// Picking up from the hovered column keeps a board reached in play so
    pub proof fn lemma_column_picked(self)
        requires
            self.wf(),
            self.selected.len() == 0,
            self.hovered_element == KlondikeGameElement::Tableau,
        ensures
            self.column_picked().wf(),
    {
        if let Some(s) = self.tableau.hovered {
            if let Some(c) = self.tableau.stacks[s as int].hovered {
                let st = self.tableau.stacks[s as int];
                let x = st.with_cards(st.cards.subrange(0, c as int));
                lemma_pile_split(st.cards, c as int);
                lemma_stacks_pile_replace(self.tableau.stacks, s as int, x);
                lemma_pile_empty::<FrenchCard>();
                assert(pile(self.selected) =~= Multiset::empty());
                assert(self.column_picked().cards() =~= self.cards());
            }
        }
    }

    /// Picking up from the hovered foundation keeps a board reached in play so
    pub proof fn lemma_foundation_picked(self)
        requires
            self.wf(),
            self.selected.len() == 0,
            self.hovered_element == KlondikeGameElement::Foundation,
        ensures
            self.foundation_picked().wf(),
            self.foundation.hovered matches Some(s) ==> (self.foundation.stacks[s as int].cards.len() > 0
                && self.foundation.stacks[s as int].hovered is Some ==> self.foundation.stacks[s as int].hovered->0
                < self.foundation.stacks[s as int].cards.len()),
    {
        if let Some(s) = self.foundation.hovered {
            let st = self.foundation.stacks[s as int];
            if st.cards.len() > 0 && st.hovered is Some {
                let c = st.hovered->0 as int;
                assert(c < st.cards.len());
                let x = st.with_cards(st.cards.remove(c));
                assert(st.cards.remove(c) =~= st.cards.subrange(0, c) + st.cards.subrange(c + 1, st.cards.len() as int));
                lemma_pile_split(st.cards, c);
                lemma_pile_split(st.cards.subrange(c, st.cards.len() as int), 1);
                assert(st.cards.subrange(c, st.cards.len() as int).subrange(0, 1) =~= seq![st.cards[c]]);
                assert(st.cards.subrange(c, st.cards.len() as int).subrange(1, st.cards.len() - c) =~= st.cards.subrange(
                    c + 1,
                    st.cards.len() as int,
                ));
                lemma_pile_add(st.cards.subrange(0, c), st.cards.subrange(c + 1, st.cards.len() as int));
                lemma_stacks_pile_replace(self.foundation.stacks, s as int, x);
                lemma_pile_empty::<FrenchCard>();
                assert(pile(self.selected) =~= Multiset::empty());
                assert(self.foundation_picked().cards() =~= self.cards());
            }
        }
    }

    /// The board after the picked-up cards were placed on the hovered column and the top card
    /// of every column was turned face-up (before the column's hovered card moves on)
    pub open spec fn placed_on_column(self) -> Self {
        let s = self.tableau.hovered->0 as int;
        let st = self.tableau.stacks[s];
        let t1 = self.tableau.with_stacks(self.tableau.stacks.update(s, st.with_cards(st.cards + self.selected)));
        self.with_tableau(tops_turned_up(t1)).with_selection(Seq::empty(), KlondikeGameElement::Tableau, None)
    }

    /// The board after the picked-up cards were placed on the hovered foundation, whose hovered
    /// card moved on by one (wrapping), and the top card of every column was turned face-up;
    /// the record of where the (now empty) selection came from is kept
    pub open spec fn placed_on_foundation(self) -> Self {
        let s = self.foundation.hovered->0 as int;
        let st = self.foundation.stacks[s];
        let n = st.cards.len() + self.selected.len();
        let h = match st.hovered {
            Some(c) => Some(((c + 1) % (n as int)) as usize),
            None => None,
        };
        self.with_foundation(self.foundation.with_stacks(
            self.foundation.stacks.update(s, st.with_cards(st.cards + self.selected).with_hovered(h)),
        )).with_tableau(tops_turned_up(self.tableau)).with_selection(Seq::empty(), self.selected_from, self.selected_idx)
    }

    /// Placing the selection on the hovered column keeps the cards of the board
    pub proof fn lemma_placed_on_column(self)
        requires
            self.wf(),
            self.hovered_element == KlondikeGameElement::Tableau,
            self.tableau.hovered is Some,
        ensures
            self.placed_on_column().cards() == self.cards(),
    {
        let s = self.tableau.hovered->0 as int;
        let st = self.tableau.stacks[s];
        let x = st.with_cards(st.cards + self.selected);
        let t1 = self.tableau.with_stacks(self.tableau.stacks.update(s, x));
        lemma_pile_add(st.cards, self.selected);
        lemma_stacks_pile_replace(self.tableau.stacks, s, x);
        lemma_tops_turned_up(t1);
        lemma_pile_empty::<FrenchCard>();
        assert(self.placed_on_column().cards() =~= self.cards());
    }

    /// Placing the selection on the hovered column, whichever card of it is then hovered (up
    /// to one past its top), keeps a board reached in play so
    pub proof fn lemma_placed_on_column_wf(self, h: Option<usize>)
        requires
            self.wf(),
            self.hovered_element == KlondikeGameElement::Tableau,
            self.tableau.hovered is Some,
            h matches Some(c) ==> c <= self.placed_on_column().tableau.stacks[self.tableau.hovered->0 as int].cards.len(),
        ensures
            ({
                let p = self.placed_on_column();
                let s = self.tableau.hovered->0 as int;
                p.with_tableau(p.tableau.with_stacks(p.tableau.stacks.update(s, p.tableau.stacks[s].with_hovered(h))))
            }).wf(),
    {
        let p = self.placed_on_column();
        let s = self.tableau.hovered->0 as int;
        let q = p.with_tableau(p.tableau.with_stacks(p.tableau.stacks.update(s, p.tableau.stacks[s].with_hovered(h))));
        let st = self.tableau.stacks[s];
        let t1 = self.tableau.with_stacks(self.tableau.stacks.update(s, st.with_cards(st.cards + self.selected)));
        self.lemma_placed_on_column();
        lemma_tops_turned_up(t1);
        assert forall|k: int| 0 <= k < q.tableau.stacks.len() implies #[trigger] pile(q.tableau.stacks[k].cards) == pile(
            p.tableau.stacks[k].cards,
        ) by {}
        lemma_stacks_pile_same_cards(q.tableau.stacks, p.tableau.stacks);
        assert(q.cards() =~= p.cards());
        assert(hover_consistent(q.tableau));
        assert(no_limits(q.tableau));
    }

    /// Placing the selection on the hovered foundation keeps a board reached in play so
    pub proof fn lemma_placed_on_foundation(self)
        requires
            self.wf(),
            self.hovered_element == KlondikeGameElement::Foundation,
            self.foundation.hovered is Some,
            self.selected.len() == 1,
        ensures
            self.placed_on_foundation().wf(),
    {
        let s = self.foundation.hovered->0 as int;
        let st = self.foundation.stacks[s];
        let n = st.cards.len() + self.selected.len();
        let h = match st.hovered {
            Some(c) => Some(((c + 1) % (n as int)) as usize),
            None => None,
        };
        let x = st.with_cards(st.cards + self.selected).with_hovered(h);
        lemma_pile_add(st.cards, self.selected);
        lemma_stacks_pile_replace(self.foundation.stacks, s, x);
        lemma_tops_turned_up(self.tableau);
        lemma_pile_empty::<FrenchCard>();
        let p = self.placed_on_foundation();
        assert(p.cards() =~= self.cards());
        assert(hover_consistent(p.tableau));
        assert(hover_consistent(p.foundation));
        assert(unhovered(p.tableau));
    }

    /// Returning the selection keeps the cards of the board
    pub proof fn lemma_selection_returned_cards(self)
        requires
            self.sound(),
            self.selected.len() > 0 && self.selected_from == KlondikeGameElement::Tableau ==> (
            self.selected_idx matches Some(i) && i < 7),
            self.selected.len() > 0 && self.selected_from == KlondikeGameElement::Foundation ==> (
            self.selected_idx matches Some(i) && i < 4),
        ensures
            self.selection_returned().cards() == self.cards(),
    {
        let r = self.selection_returned();
        if self.selected.len() > 0 {
            lemma_pile_empty::<FrenchCard>();
            let d = self.talon.discard->0;
            match self.selected_from {
                KlondikeGameElement::Talon => {
                    lemma_pile_add(d, self.selected);
                    assert(r.cards() =~= self.cards());
                },
                KlondikeGameElement::Tableau => {
                    let i = self.selected_idx->0 as int;
                    let st = self.tableau.stacks[i];
                    lemma_pile_add(st.cards, self.selected);
                    let x = st.with_cards(st.cards + self.selected);
                    lemma_stacks_pile_update(self.tableau.stacks, i, x);
                    assert forall|v: FrenchCard| #[trigger] stacks_pile(self.tableau.stacks.update(i, x)).count(v)
                        == stacks_pile(self.tableau.stacks).count(v) + pile(self.selected).count(v) by {
                        assert(stacks_pile(self.tableau.stacks.update(i, x)).add(pile(st.cards)).count(v)
                            == stacks_pile(self.tableau.stacks).add(pile(x.cards)).count(v));
                    }
                    assert(r.cards() =~= self.cards());
                },
                KlondikeGameElement::Foundation => {
                    let i = self.selected_idx->0 as int;
                    let st = self.foundation.stacks[i];
                    lemma_pile_add(st.cards, self.selected);
                    let x = st.with_cards(st.cards + self.selected);
                    lemma_stacks_pile_update(self.foundation.stacks, i, x);
                    assert forall|v: FrenchCard| #[trigger] stacks_pile(self.foundation.stacks.update(i, x)).count(v)
                        == stacks_pile(self.foundation.stacks).count(v) + pile(self.selected).count(v) by {
                        assert(stacks_pile(self.foundation.stacks.update(i, x)).add(pile(st.cards)).count(v)
                            == stacks_pile(self.foundation.stacks).add(pile(x.cards)).count(v));
                    }
                    assert(r.cards() =~= self.cards());
                },
            }
        }
    }

    /// Every card of the board is a standard card, and no pile holds more than 52 cards
    pub proof fn lemma_sound_cards(self)
        requires
            self.sound(),
        ensures
            self.talon.cards.len() <= 52,
            self.talon.discard->0.len() <= 52,
            self.selected.len() <= 52,
            forall|k: int| 0 <= k < 7 ==> #[trigger] self.tableau.stacks[k].cards.len() <= 52,
            forall|k: int| 0 <= k < 4 ==> #[trigger] self.foundation.stacks[k].cards.len() <= 52,
            forall|i: int| 0 <= i < self.selected.len() ==> standard_card(#[trigger] self.selected[i].inner()),
            forall|i: int| 0 <= i < self.talon.cards.len() ==> standard_card(#[trigger] self.talon.cards[i].inner()),
            forall|k: int, i: int|
                0 <= k < 7 && 0 <= i < self.tableau.stacks[k].cards.len() ==> standard_card(
                    #[trigger] self.tableau.stacks[k].cards[i].inner(),
                ),
            forall|k: int, i: int|
                0 <= k < 4 && 0 <= i < self.foundation.stacks[k].cards.len() ==> standard_card(
                    #[trigger] self.foundation.stacks[k].cards[i].inner(),
                ),
    {
        let d = self.talon.discard->0;
        lemma_pile_len(self.talon.cards);
        lemma_pile_len(d);
        lemma_pile_len(self.selected);
        assert(standard_deck_cards().len() == 52);
        assert forall|k: int| 0 <= k < 7 implies #[trigger] self.tableau.stacks[k].cards.len() <= 52 by {
            lemma_stacks_pile_bound(self.tableau.stacks, k);
        }
        assert forall|k: int| 0 <= k < 4 implies #[trigger] self.foundation.stacks[k].cards.len() <= 52 by {
            lemma_stacks_pile_bound(self.foundation.stacks, k);
        }
        assert forall|i: int| 0 <= i < self.selected.len() implies standard_card(#[trigger] self.selected[i].inner()) by {
            lemma_pile_contains(self.selected, i);
            lemma_standard_card(self.selected[i].inner());
        }
        assert forall|i: int| 0 <= i < self.talon.cards.len() implies standard_card(#[trigger] self.talon.cards[i].inner()) by {
            lemma_pile_contains(self.talon.cards, i);
            lemma_standard_card(self.talon.cards[i].inner());
        }
        assert forall|k: int, i: int| 0 <= k < 7 && 0 <= i < self.tableau.stacks[k].cards.len() implies standard_card(
            #[trigger] self.tableau.stacks[k].cards[i].inner(),
        ) by {
            let x = self.tableau.stacks[k].cards[i].inner();
            lemma_pile_contains(self.tableau.stacks[k].cards, i);
            lemma_stacks_pile_sub(self.tableau.stacks, k, x);
            lemma_standard_card(x);
        }
        assert forall|k: int, i: int| 0 <= k < 4 && 0 <= i < self.foundation.stacks[k].cards.len() implies standard_card(
            #[trigger] self.foundation.stacks[k].cards[i].inner(),
        ) by {
            let x = self.foundation.stacks[k].cards[i].inner();
            lemma_pile_contains(self.foundation.stacks[k].cards, i);
            lemma_stacks_pile_sub(self.foundation.stacks, k, x);
            lemma_standard_card(x);
        }
    }
}

impl KlondikeBoard {
    /// The board after the hovered region moved on to the next one (Talon, Tableau, Foundation,
    /// and back): the region left is unhovered, the tableau or foundation entered hovers over
    /// its first column's top card, and the talon entered hovers over its deck
    pub open spec fn cycled(self) -> Self {
        match self.hovered_element {
            KlondikeGameElement::Talon => KlondikeBoard {
                talon: self.talon.with_hovered(None),
                hovered_element: KlondikeGameElement::Tableau,
                tableau: self.tableau.with_hovered(Some(0)).with_stacks(self.tableau.stacks_hovering(Some(0))),
                ..self
            },
            KlondikeGameElement::Tableau => KlondikeBoard {
                tableau: self.tableau.with_hovered(None).with_stacks(
                    self.tableau.stacks.map_values(|s: CardStackView<KlondikeCard>| s.with_hovered(None)),
                ),
                hovered_element: KlondikeGameElement::Foundation,
                foundation: self.foundation.with_hovered(Some(0)).with_stacks(self.foundation.stacks_hovering(Some(0))),
                ..self
            },
            KlondikeGameElement::Foundation => KlondikeBoard {
                foundation: self.foundation.with_hovered(None).with_stacks(
                    self.foundation.stacks.map_values(|s: CardStackView<KlondikeCard>| s.with_hovered(None)),
                ),
                hovered_element: KlondikeGameElement::Talon,
                talon: self.talon.with_hovered(Some(DeckToggle::Deck)),
                ..self
            },
        }
    }

    /// The talon with its hover toggled between deck and waste
    pub open spec fn talon_toggled(self) -> Self {
        self.with_talon(self.talon.with_hovered(
            match self.talon.hovered {
                Some(h) => Some(h.other()),
                None => None,
            },
        ))
    }

    /// The board after the <Down> key: the talon toggles between deck and waste; the tableau or
    /// foundation hovers over the top card of its next column, wrapping from the last to the first
    pub open spec fn navigated_down(self) -> Self {
        match self.hovered_element {
            KlondikeGameElement::Talon => self.talon_toggled(),
            KlondikeGameElement::Tableau => {
                let h = match self.tableau.hovered {
                    Some(c) => Some(((c + 1) % 7) as usize),
                    None => None,
                };
                self.with_tableau(self.tableau.with_hovered(h).with_stacks(self.tableau.stacks_hovering(h)))
            },
            KlondikeGameElement::Foundation => {
                let h = match self.foundation.hovered {
                    Some(c) => Some(((c + 1) % 4) as usize),
                    None => None,
                };
                self.with_foundation(self.foundation.with_hovered(h).with_stacks(self.foundation.stacks_hovering(h)))
            },
        }
    }

    /// The board after the <Up> key: the talon toggles between deck and waste; the tableau or
    /// foundation hovers over the top card of its previous column, wrapping from the first to
    /// the last
    pub open spec fn navigated_up(self) -> Self {
        match self.hovered_element {
            KlondikeGameElement::Talon => self.talon_toggled(),
            KlondikeGameElement::Tableau => {
                let h = match self.tableau.hovered {
                    Some(c) => Some(crate::cards::card_stack::wrapping_prev(c, 7)),
                    None => None,
                };
                self.with_tableau(self.tableau.with_hovered(h).with_stacks(self.tableau.stacks_hovering(h)))
            },
            KlondikeGameElement::Foundation => {
                let h = match self.foundation.hovered {
                    Some(c) => Some(crate::cards::card_stack::wrapping_prev(c, 4)),
                    None => None,
                };
                self.with_foundation(self.foundation.with_hovered(h).with_stacks(self.foundation.stacks_hovering(h)))
            },
        }
    }

    /// `f` is the board after the <Enter> key on this board, and `ok` says whether that
    /// succeeded: on the talon's deck the selection goes back and the talon is drawn from; on
    /// its waste the top card is picked up (or a held selection goes back); on the tableau or a
    /// foundation cards are picked up when none are held, placed when the move is legal (the
    /// tableau column's hovered card then moves past face-down cards), and sent back otherwise
    pub open spec fn selection_performed(self, f: Self, ok: bool) -> bool {
        match self.hovered_element {
            KlondikeGameElement::Talon => if self.talon.hovered == Some(DeckToggle::Deck) {
                let b1 = self.selection_returned();
                f == b1.with_talon(talon_drawn(b1.talon)) && (ok <==> !talon_draw_short(b1.talon))
            } else if self.selected.len() == 0 {
                f == self.waste_top_picked() && ok
            } else {
                f == self.selection_returned() && ok
            },
            KlondikeGameElement::Tableau => if self.selected.len() == 0 {
                f == self.column_picked() && ok
            } else if legal_move(self) {
                match self.tableau.hovered {
                    None => f == self && !ok,
                    Some(s) => {
                        let h = f.tableau.stacks[s as int].hovered;
                        f == placed_hovering(self, h) && ok && hover_settled(
                            self.placed_on_column().tableau.stacks[s as int].cards,
                            self.tableau.stacks[s as int].hovered,
                            h,
                        )
                    },
                }
            } else {
                f == self.selection_returned() && ok
            },
            KlondikeGameElement::Foundation => if self.selected.len() == 0 {
                f == self.foundation_picked() && ok
            } else if self.selected.len() == 1 && legal_move(self) {
                match self.foundation.hovered {
                    None => f == self && !ok,
                    Some(s) => f == self.placed_on_foundation() && ok,
                }
            } else {
                f == self.selection_returned() && ok
            },
        }
    }

    /// The <Enter> key on this board checks for a win: a single King is legally placed on a
    /// foundation
    pub open spec fn selection_wins(self) -> bool {
        &&& self.hovered_element == KlondikeGameElement::Foundation
        &&& self.selected.len() == 1
        &&& legal_move(self)
        &&& self.selected[0].inner().spec_rank() == Some(FrenchRank::King)
    }
}

impl KlondikeGame {
    /// Cycle through game elements in a predictable order.
    /// Upon cycling, ensure that any subelements are "hovered" and "unhovered" as required
    fn cycle_selected_game_element(&mut self) -> (r: Result<(), KlondikeGameError>)
        requires
            old(self)@.wf(),
        ensures
            r is Ok,
            final(self)@.wf(),
            final(self)@.win == old(self)@.win,
            final(self)@.history == old(self)@.history,
            final(self)@.board == old(self)@.board.cycled(),
    {
        let ghost b = self@.board;
        match self.hovered_element {
            // Cycle from the Talon to the Tableau
            // Unhover Talon and hover Tableau
            KlondikeGameElement::Talon => {
                self.talon.unhover();
                self.hovered_element.next_element();
                self.tableau.hover();
                proof {
                    self.lemma_tableau_hover_keeps_cards(b);
                    lemma_hovering_consistent(b.tableau, Some(0));
                    let nb = self@.board;
                    assert(nb.sound());
                    assert(hover_consistent(nb.tableau));
                    assert(hover_consistent(nb.foundation));
                    assert(unhovered(nb.foundation));
                    assert(nb.wf());
                }
            },
            // Cycle from the Tableau to the Foundation
            // Unhover Tableau and hover Foundation
            KlondikeGameElement::Tableau => {
                self.tableau.unhover();
                self.hovered_element.next_element();
                self.foundation.hover();
                proof {
                    lemma_unhover_all(b.tableau);
                    lemma_hovering_consistent(b.foundation, Some(0));
                    self.lemma_hover_changes_keep_cards(b);
                    let nb = self@.board;
                    assert(nb.sound());
                    assert(hover_consistent(nb.tableau));
                    assert(hover_consistent(nb.foundation));
                    assert(unhovered(nb.tableau));
                    assert(nb.wf());
                }
            },
            // Cycle from Foundation back to the Talon
            // Unhover Foundation and hover Talon
            KlondikeGameElement::Foundation => {
                self.foundation.unhover();
                self.hovered_element.next_element();
                self.talon.hover_deck();
                proof {
                    lemma_unhover_all(b.foundation);
                    self.lemma_hover_changes_keep_cards(b);
                    let nb = self@.board;
                    assert(nb.sound());
                    assert(hover_consistent(nb.tableau));
                    assert(hover_consistent(nb.foundation));
                    assert(unhovered(nb.foundation));
                    assert(nb.wf());
                }
            },
        }
        proof {
            assert(self@.history =~= old(self)@.history);
        }
        Ok(())
    }

    /// Changing only which cards and columns are hovered keeps the cards of the board
    proof fn lemma_hover_changes_keep_cards(&self, b: KlondikeBoard)
        requires
            b.sound(),
            self@.board.talon.with_hovered(b.talon.hovered) == b.talon,
            self@.board.tableau.stacks.len() == b.tableau.stacks.len(),
            self@.board.foundation.stacks.len() == b.foundation.stacks.len(),
            forall|k: int|
                0 <= k < b.tableau.stacks.len() ==> #[trigger] self@.board.tableau.stacks[k].cards
                    == b.tableau.stacks[k].cards,
            forall|k: int|
                0 <= k < b.foundation.stacks.len() ==> #[trigger] self@.board.foundation.stacks[k].cards
                    == b.foundation.stacks[k].cards,
            self@.board.selected == b.selected,
        ensures
            self@.board.cards() == b.cards(),
    {
        lemma_stacks_pile_same_cards(self@.board.tableau.stacks, b.tableau.stacks);
        lemma_stacks_pile_same_cards(self@.board.foundation.stacks, b.foundation.stacks);
    }

    /// Unhovering the talon and hovering the tableau keeps the cards of the board
    proof fn lemma_tableau_hover_keeps_cards(&self, b: KlondikeBoard)
        requires
            b.sound(),
            self@.board.talon == b.talon.with_hovered(None),
            self@.board.tableau == b.tableau.with_hovered(Some(0)).with_stacks(b.tableau.stacks_hovering(Some(0))),
            self@.board.foundation == b.foundation,
            self@.board.selected == b.selected,
        ensures
            self@.board.cards() == b.cards(),
    {
        self.lemma_hover_changes_keep_cards(b);
    }

    /// Shift the hovered position within the currently hovered game element corresponding with the
    /// <Down> key.
    /// Due to wrapping/toggling behaviour within game elements, this action cannot produce an error.
    fn navigate_game_element_down(&mut self) -> (r: Result<(), KlondikeGameError>)
        requires
            old(self)@.wf(),
        ensures
            r is Ok,
            final(self)@.wf(),
            final(self)@.win == old(self)@.win,
            final(self)@.history == old(self)@.history,
            final(self)@.board == old(self)@.board.navigated_down(),
    {
        let ghost b = self@.board;
        match self.hovered_element {
            // Toggle between hovering the Talon deck and the Talon discard
            KlondikeGameElement::Talon => {
                self.talon.toggle_deck_hover();
            },
            // Step to next Tableau stack, wrapping from the end to the beginning
            KlondikeGameElement::Tableau => {
                self.tableau.inc_hovered_stack();
                self.tableau.update_hovered_stack();
            },
            // Step to next Foundation stack, wrapping from the end to the beginning
            KlondikeGameElement::Foundation => {
                self.foundation.inc_hovered_stack();
                self.foundation.update_hovered_stack();
            },
        }
        proof {
            self.lemma_hover_changes_keep_cards(b);
            assert(self@.history =~= old(self)@.history);
            if b.hovered_element == KlondikeGameElement::Tableau {
                lemma_hovering_consistent(b.tableau, self@.board.tableau.hovered);
            } else if b.hovered_element == KlondikeGameElement::Foundation {
                lemma_hovering_consistent(b.foundation, self@.board.foundation.hovered);
            }
        }
        Ok(())
    }

    /// Shift the hovered position within the currently hovered game element corresponding with the
    /// <Up> key.
    /// Due to wrapping/toggling behaviour within game elements, this action cannot produce an error.
    fn navigate_game_element_up(&mut self) -> (r: Result<(), KlondikeGameError>)
        requires
            old(self)@.wf(),
        ensures
            r is Ok,
            final(self)@.wf(),
            final(self)@.win == old(self)@.win,
            final(self)@.history == old(self)@.history,
            final(self)@.board == old(self)@.board.navigated_up(),
    {
        let ghost b = self@.board;
        match self.hovered_element {
            // Toggle between hovering the Talon deck and the Talon discard
            KlondikeGameElement::Talon => {
                self.talon.toggle_deck_hover();
            },
            // Step to the previous Tableau stack, wrapping from the beginning to the end
            KlondikeGameElement::Tableau => {
                self.tableau.dec_hovered_stack();
                self.tableau.update_hovered_stack();
            },
            // Step to the previous Foundation stack, wrapping from the beginning to the end
            KlondikeGameElement::Foundation => {
                self.foundation.dec_hovered_stack();
                self.foundation.update_hovered_stack();
            },
        }
        proof {
            self.lemma_hover_changes_keep_cards(b);
            assert(self@.history =~= old(self)@.history);
            if b.hovered_element == KlondikeGameElement::Tableau {
                lemma_hovering_consistent(b.tableau, self@.board.tableau.hovered);
            } else if b.hovered_element == KlondikeGameElement::Foundation {
                lemma_hovering_consistent(b.foundation, self@.board.foundation.hovered);
            }
        }
        Ok(())
    }
}

impl KlondikeGame {
    /// Moves the cards stores in `selected_cards` back to where they came from
    fn replace_selected_cards(&mut self) -> (r: Result<(), KlondikeGameError>)
        requires
            old(self)@.wf(),
        ensures
            r is Ok,
            final(self)@.wf(),
            final(self)@.board == old(self)@.board.selection_returned(),
            final(self)@.win == old(self)@.win,
            final(self)@.history == old(self)@.history,
    {
        let ghost b = self@.board;
        proof {
            b.lemma_sound_cards();
        }
        // Ensure that there really were cards selected
        if self.selected_cards.0.len() > 0 {
            match self.selected_cards.1 {
                KlondikeGameElement::Talon => {
                    match self.talon.play_cards_to_discard(&mut self.selected_cards.0) {
                        Ok(()) => {},
                        Err(e) => {
                            return Err(KlondikeGameError::TalonError(e));
                        },
                    }

                },
                KlondikeGameElement::Tableau => {
                    let idx = self.selected_cards.2.expect(
                        "A selection originating from the Tableau must have an associated index",
                    );
                    match self.tableau.play_cards_to_stack(&mut self.selected_cards.0, idx) {
                        Ok(()) => {},
                        Err(e) => {
                            return Err(KlondikeGameError::TableauError(e));
                        },
                    }

                },
                KlondikeGameElement::Foundation => {
                    let idx = self.selected_cards.2.expect(
                        "A selection originating from the Foundation must have an associated index",
                    );
                    match self.foundation.play_cards_to_stack(&mut self.selected_cards.0, idx) {
                        Ok(()) => {},
                        Err(e) => {
                            return Err(KlondikeGameError::FoundationError(e));
                        },
                    }

                },
            }

            // Reset `selected_cards`
            self.selected_cards = (Vec::new(), KlondikeGameElement::Talon, None);
            proof {
                assert(self@.board == b.selection_returned());
                b.lemma_selection_returned_cards();
            }
        }
        proof {
            assert(self@.history =~= old(self)@.history);
            let nb = self@.board;
            assert(nb.tableau.stacks.len() == 7);
            assert(no_limits(nb.tableau));
            assert(no_limits(nb.foundation));
            assert(nb.talon.discard is Some);
            assert(nb.cards() == standard_deck_cards());
            assert(nb.sound());
            assert(hover_consistent(nb.tableau));
            assert(hover_consistent(nb.foundation));
            assert(nb.wf());
        }
        Ok(())
    }

    /// Restore the game state to the immediately preceeding game state
    fn undo_move(&mut self) -> (r: Result<(), KlondikeGameError>)
        requires
            old(self)@.wf(),
        ensures
            final(self)@.wf(),
            final(self)@.win == old(self)@.win,
            old(self)@.history.len() > 0 ==> r is Ok && final(self)@.board == old(self)@.history.last()
                && final(self)@.history == old(self)@.history.drop_last(),
            old(self)@.history.len() == 0 ==> (r matches Err(KlondikeGameError::HistoryError)) && final(self)@ == old(self)@,
    {
        let state_res = self.history.pop();

        // Ensure that there is a previous game state before restoring it
        if let Some(state) = state_res {
            proof {
                assert(old(self)@.history.last() == state@);
                assert(self@.history =~= old(self)@.history.drop_last());
            }
            self.talon = state.talon;
            self.tableau = state.tableau;
            self.foundation = state.foundation;
            self.hovered_element = state.hovered_element;
            self.selected_cards = state.selected_cards;
            Ok(())
        } else {
            Err(KlondikeGameError::HistoryError)
        }
    }

    /// Check that there is a King at the top of each Foundation stack
    /// Triggered only when (legally) playing a King to a Foundation stack
    fn check_win_conds(&mut self)
        requires
            old(self)@.board.sound(),
        ensures
            final(self)@ == (KlondikeView { win: all_kings(old(self)@.board.foundation), ..old(self)@ }),
    {
        proof {
            self@.board.lemma_sound_cards();
        }
        let stacks = self.foundation.stacks(0..4).expect("There are 4 stacks in the Foundation");
        assert(crate::cards::tableau::stack_views(stacks@).len() == stacks@.len());
        let mut all = true;
        for k in 0..4
            invariant
                stacks@.len() == 4,
                crate::cards::tableau::stack_views(stacks@) == self@.board.foundation.stacks.subrange(0, 4),
                self@.board.sound(),
                all == forall|j: int| 0 <= j < k ==> #[trigger] self@.board.foundation.stacks[j].cards.len() > 0
                    && self@.board.foundation.stacks[j].cards.last().inner().spec_rank() == Some(FrenchRank::King),
        {
            assert(crate::cards::tableau::stack_views(stacks@)[k as int] == stacks@[k as int]@);
            match stacks[k].last() {
                Some(c) => {
                    proof {
                        self@.board.lemma_sound_cards();
                        let st = self@.board.foundation.stacks[k as int];
                        assert(standard_card(st.cards[st.cards.len() - 1].inner()));
                    }
                    if c.peek_inner().rank().expect("No Jokers in card set") != FrenchRank::King {
                        all = false;
                    }
                },
                None => {
                    all = false;
                },
            }
        }
        self.win = all;
    }

    // Ensure the legality of the currently attempted move
    fn check_move_legality(&mut self) -> (legal: bool)
        requires
            old(self)@.wf(),
        ensures
            legal == legal_move(old(self)@.board),
            final(self)@.board == old(self)@.board,
            final(self)@.history == old(self)@.history,
            final(self)@.win == (if legal && old(self)@.board.hovered_element == KlondikeGameElement::Foundation
                && old(self)@.board.selected[0].inner().spec_rank() == Some(FrenchRank::King) {
                all_kings(old(self)@.board.foundation)
            } else {
                old(self)@.win
            }),
    {
        proof {
            self@.board.lemma_sound_cards();
        }
        // If no cards are currently selected, no attempted move is possible
        if self.selected_cards.0.len() == 0 {
            return false;
        }
        let first_selected_card = *self.selected_cards.0[0].peek_inner();
        match self.hovered_element {
            // Rules for playing one or more cards to Tableau
            KlondikeGameElement::Tableau => {
                // For the case that the currently hovered Tableau stack contains at least one
                // card, the selection must fit the "bottom" (last) card of that stack
                let bottom = match self.tableau.hovered_stack() {
                    Some(s) => self.tableau[s].last(),
                    None => None,
                };
                if let Some(hovered_card) = bottom {
                    let hovered_card = hovered_card.peek_inner();
                    first_selected_card.is_black() == hovered_card.is_red() && first_selected_card.rank()
                        == hovered_card.rank().expect("No Jokers in card set").prev()
                } else {
                    first_selected_card.rank().expect("No Jokers in card set") == FrenchRank::King
                }
            },
            // Rules for playing to Foundation
            // May only play one card to the Foundation at a time
            KlondikeGameElement::Foundation => {
                // For the case that the currently hovered Foundation stack contains at least one
                // card, the selection must fit its last card
                let bottom = match self.foundation.hovered_stack() {
                    Some(s) => self.foundation[s].last(),
                    None => None,
                };
                if let Some(hovered_card) = bottom {
                    let hovered_card = *hovered_card.peek_inner();
                    // First check whether move is legal. Predicate validity of a win check on legality of move
                    let ret = first_selected_card.suit_equals(&hovered_card) && hovered_card.rank().expect(
                        "No Jokers in card set",
                    ).next() == first_selected_card.rank();

                    // Only check win conditions if the card being played to the Foundation is a King
                    if ret && first_selected_card.rank() == Some(FrenchRank::King) {
                        self.check_win_conds();
                    }
                    // Return the legality of the move
                    ret
                } else {
                    first_selected_card.rank() == Some(FrenchRank::Pip(1))
                }
            },
            // No card/s may be moved to the Talon
            KlondikeGameElement::Talon => false,
        }
    }
}

impl KlondikeGame {
    /// Draw 3 cards from talon into talon discard
    pub fn draw_from_talon(&mut self) -> (r: Result<(), KlondikeGameError>)
        requires
            old(self)@.board.sound(),
        ensures
            final(self)@.board.sound(),
            old(self)@.wf() ==> final(self)@.wf(),
            final(self)@.board.talon.hovered == old(self)@.board.talon.hovered,
            final(self)@ == (KlondikeView {
                board: old(self)@.board.with_talon(talon_drawn(old(self)@.board.talon)),
                ..old(self)@
            }),
            r is Ok <==> !talon_draw_short(old(self)@.board.talon),
            r is Err ==> (r matches Err(KlondikeGameError::TalonError(DeckError::DrawOnEmptyDeck))),
        decreases (if old(self)@.board.talon.cards.len() > 0 { 0int } else { 1int }),
    {
        let ghost b = self@.board;
        let ghost t = b.talon;
        proof {
            b.lemma_sound_cards();
        }
        if self.talon.inner_deck().len() > 0 {
            let mut i: usize = 0;
            while i < 3
                invariant
                    0 <= i <= 3,
                    t.discard is Some,
                    t == b.talon,
                    b == old(self)@.board,
                    old(self)@.board.sound(),
                    t.cards.len() >= i,
                    t.cards.len() > 0,
                    self@ == (KlondikeView { board: b.with_talon(dealt(t, i as nat)), ..old(self)@ }),
                decreases 3 - i,
            {
                proof {
                    lemma_dealt(t, i as nat);
                }
                match self.talon.top_deck_discard_default_flip() {
                    Ok(()) => {},
                    Err(e) => {
                        proof {
                            lemma_dealt(t, i as nat);
                            lemma_dealt(t, 3);
                            lemma_dealt_stops(t, i as nat, 3);
                            b.lemma_talon_change(dealt(t, 3));
                        }
                        return Err(KlondikeGameError::TalonError(e));
                    },
                }
                i = i + 1;
            }
            proof {
                lemma_dealt(t, 3);
                b.lemma_talon_change(dealt(t, 3));
            }
            Ok(())
        } else {
            match self.talon.replenish_default() {
                Ok(()) => {},
                Err(e) => {
                    return Err(KlondikeGameError::TalonError(e));
                },
            }
            if self.talon.inner_deck().len() > 0 {
                self.talon.all_face_down();
                self.talon.reverse();
                proof {
                    assert(self@.board.talon == recycled(t));
                    lemma_recycled(t);
                    b.lemma_talon_change(recycled(t));
                    assert(self@.history =~= old(self)@.history);
                }
                self.draw_from_talon()
            } else {
                proof {
                    assert(t.discard->0 =~= Seq::<KlondikeCard>::empty());
                    assert(self@.board.talon == t);
                    assert(self@.history =~= old(self)@.history);
                }
                Ok(())
            }
        }
    }
}

impl KlondikeGame {
    /// Borrow what is drawn of the game: the talon, the tableau, the foundations and the
    /// picked-up cards
    pub fn board_parts(&self) -> (r: (&Deck<KlondikeCard>, &Tableau<KlondikeCard>, &Tableau<KlondikeCard>, &Vec<KlondikeCard>))
        ensures
            r.0@ == self@.board.talon,
            r.1@ == self@.board.tableau,
            r.2@ == self@.board.foundation,
            r.3@ == self@.board.selected,
    {
        (&self.talon, &self.tableau, &self.foundation, &self.selected_cards.0)
    }

    /// A game holding the standard deck in its talon (face-up, the four suits of each rank in
    /// turn), an empty waste, seven empty tableau columns and four empty foundations, with the
    /// talon as the hovered region; `init` deals it
    pub fn new() -> (g: Self)
        ensures
            g@.wf(),
            g@.board.ready(),
            g@.win == false,
            g@.history.len() == 0,
            g@.board.hovered_element == KlondikeGameElement::Talon,
            g@.board.selected.len() == 0,
            g@.board.selected_from == KlondikeGameElement::Talon,
            g@.board.selected_idx is None,
            g@.board.talon.cards.len() == 52,
            forall|k: int| 0 <= k < 52 ==> #[trigger] g@.board.talon.cards[k] == FlippableCard::spec_new(
                standard_french_card(k),
            ),
            g@.board.talon.discard == Some(Seq::<KlondikeCard>::empty()),
            g@.board.talon.display_discard,
            g@.board.talon.hovered is None,
            g@.board.talon.pos == Some((0u16, 12u16)),
            g@.board.tableau.stacks.len() == 7,
            forall|k: int| 0 <= k < 7 ==> #[trigger] g@.board.tableau.stacks[k] == (CardStackView::<KlondikeCard> {
                cards: Seq::empty(),
                variant: CardStackVariant::HorizontalLtR,
                lim: None,
                hovered: None,
                pos: None,
            }),
            g@.board.tableau.variant == TableauVariant::VerticalTtB,
            g@.board.tableau.hovered is None,
            g@.board.tableau.pos == Some((0u16, 15u16)),
            g@.board.foundation.stacks.len() == 4,
            forall|k: int| 0 <= k < 4 ==> #[trigger] g@.board.foundation.stacks[k] == (CardStackView::<KlondikeCard> {
                cards: Seq::empty(),
                variant: CardStackVariant::Flush,
                lim: None,
                hovered: None,
                pos: None,
            }),
            g@.board.foundation.variant == TableauVariant::VerticalTtB,
            g@.board.foundation.hovered is None,
            g@.board.foundation.pos == Some((0u16, 23u16)),
    {
        let g = KlondikeGame {
            talon: KlondikeDeck::new_standard_french_deck(true, true, Some((0, 12))),
            tableau: KlondikeTableau::new(TableauVariant::VerticalTtB, CardStackVariant::HorizontalLtR, 7, Some((0, 15))),
            foundation: KlondikeFoundation::new(TableauVariant::VerticalTtB, CardStackVariant::Flush, 4, Some((0, 23))),
            hovered_element: KlondikeGameElement::Talon,
            selected_cards: (Vec::new(), KlondikeGameElement::Talon, None),
            win: false,
            history: Vec::new(),
        };
        proof {
            let b = g@.board;
            assert(inner_cards(b.talon.cards) =~= standard_french_cards());
            lemma_pile_empty::<FrenchCard>();
            lemma_stacks_pile_cleared(b.tableau.stacks);
            lemma_stacks_pile_cleared(b.foundation.stacks);
            assert(b.cards() =~= standard_deck_cards());
        }
        g
    }

    /// Start a new game: every card returns to the talon face-down, the talon is shuffled, the
    /// tableau is dealt from it, three cards are drawn from it, and play starts on the talon's
    /// deck with nothing picked up, no earlier moves to undo and the game not won
    pub fn init(&mut self)
        requires
            old(self)@.board.ready(),
        ensures
            final(self)@.wf(),
            final(self)@.board.playable(),
            final(self)@.win == false,
            final(self)@.history.len() == 0,
            exists|d: Seq<KlondikeCard>| opening_deck(d) && final(self)@.board == fresh_board(old(self)@.board, d),
    {
        let ghost b0 = self@.board;
        // Gather all cards from other regions into talon for shuffling and redistribution
        self.talon.replenish_default().expect("Talon is initialized with default discard");
        let mut gathered = self.tableau.gather_all();
        self.talon.add_cards(&mut gathered);
        let mut gathered = self.foundation.gather_all();
        self.talon.add_cards(&mut gathered);
        self.talon.add_cards(&mut self.selected_cards.0);
        let ghost g = self.talon@.cards;
        proof {
            let dd = b0.talon.discard->0;
            let a1 = all_cards(b0.tableau.stacks);
            let a2 = all_cards(b0.foundation.stacks);
            assert(g =~= dd + b0.talon.cards + a1 + a2 + b0.selected);
            lemma_all_cards_pile(b0.tableau.stacks);
            lemma_all_cards_pile(b0.foundation.stacks);
            lemma_pile_add(dd, b0.talon.cards);
            lemma_pile_add(dd + b0.talon.cards, a1);
            lemma_pile_add(dd + b0.talon.cards + a1, a2);
            lemma_pile_add(dd + b0.talon.cards + a1 + a2, b0.selected);
            assert(pile(g) =~= b0.cards());
        }
        // Ensure all cards are face-down before shuffling
        self.talon.all_face_down();
        // Shuffle talon (deck)
        self.talon.shuffle();
        let ghost d = self.talon@.cards;
        proof {
            let g0 = all_turned(g, false);
            lemma_pile_all_turned(g, false);
            lemma_pile_permuted(d, g0);
            lemma_pile_len(d);
            assert forall|i: int| 0 <= i < 52 implies !(#[trigger] d[i]).face_up() by {
                assert(d.to_multiset().count(d[i]) > 0);
                assert(g0.contains(d[i]));
                let j = choose|j: int| 0 <= j < g0.len() && g0[j] == d[i];
                assert(g0[j] == g[j].with_face(false));
            }
            let b1 = self@.board;
            lemma_pile_empty::<FrenchCard>();
            lemma_stacks_pile_cleared(b1.tableau.stacks);
            lemma_stacks_pile_cleared(b1.foundation.stacks);
            assert(b1.cards() =~= b0.cards());
        }
        // Draw cards from talon and play to tableau stacks
        self.deal_tableau();
        let ghost b2 = self@.board;
        // Deal first 3 cards from talon
        self.draw_from_talon().expect("Talon should not be emptied in initial setup");
        let ghost b3 = self@.board;
        // Deselect all elements
        self.talon.unhover();
        self.tableau.unhover();
        self.foundation.unhover();
        // Start game with talon selected
        self.hovered_element = KlondikeGameElement::Talon;
        self.talon.hover_deck();
        // Set win state to false as this is the start of a new game
        self.win = false;
        self.history = Vec::new();
        self.selected_cards = (Vec::new(), KlondikeGameElement::Talon, None);
        proof {
            lemma_unhover_all(b3.tableau);
            lemma_unhover_all(b3.foundation);
            let f = fresh_board(b0, d);
            let nb = self@.board;
            assert(nb.talon == f.talon);
            assert(nb.tableau.stacks =~= f.tableau.stacks);
            assert(nb.foundation.stacks =~= f.foundation.stacks);
            assert(nb == f);
            lemma_stacks_pile_same_cards(nb.tableau.stacks, b3.tableau.stacks);
            lemma_stacks_pile_same_cards(nb.foundation.stacks, b3.foundation.stacks);
            lemma_pile_empty::<FrenchCard>();
            assert(nb.cards() =~= b3.cards());
            assert(self@.history =~= Seq::<KlondikeBoard>::empty());
            assert(opening_deck(d));
        }
    }
}

impl KlondikeGame {
    /// Deal the opening tableau from the top of the talon: in round `i` one card goes face-up
    /// onto column `i` and one face-down card onto each column after it
    fn deal_tableau(&mut self)
        requires
            old(self)@.board.tableau.stacks.len() == 7,
            no_limits(old(self)@.board.tableau),
            forall|k: int| 0 <= k < 7 ==> #[trigger] old(self)@.board.tableau.stacks[k].cards.len() == 0,
            old(self)@.board.talon.cards.len() == 52,
            forall|i: int| 0 <= i < 52 ==> !(#[trigger] old(self)@.board.talon.cards[i]).face_up(),
        ensures
            final(self)@ == (KlondikeView {
                board: old(self)@.board.with_talon(
                    old(self)@.board.talon.with_cards(old(self)@.board.talon.cards.subrange(0, 24)),
                ).with_tableau(
                    old(self)@.board.tableau.with_stacks(
                        dealt_stacks(old(self)@.board.tableau.stacks, old(self)@.board.talon.cards, 7, 7),
                    ),
                ),
                ..old(self)@
            }),
            final(self)@.board.cards() == old(self)@.board.cards(),
    {
        let ghost v0 = self@;
        let ghost d = v0.board.talon.cards;
        let ghost t0 = v0.board.tableau;
        proof {
            assert forall|k: int| 0 <= k < 7 implies #[trigger] dealt_stacks(t0.stacks, d, 0, 0)[k] == t0.stacks[k] by {
                assert(dealt_column(d, k, 0) =~= t0.stacks[k].cards);
            }
            assert(t0.stacks =~= dealt_stacks(t0.stacks, d, 0, 0));
            assert(d.subrange(0, 52 - deal_count(0)) =~= d);
        }
        let n = self.tableau.num_stacks();
        for i in 0..n
            invariant
                n == 7,
                d == v0.board.talon.cards,
                t0 == v0.board.tableau,
                d.len() == 52,
                t0.stacks.len() == 7,
                no_limits(t0),
                forall|j: int| 0 <= j < 52 ==> !(#[trigger] d[j]).face_up(),
                self@ == (KlondikeView {
                    board: v0.board.with_talon(v0.board.talon.with_cards(d.subrange(0, 52 - deal_count(i as int)))).with_tableau(
                        t0.with_stacks(dealt_stacks(t0.stacks, d, i as int, i as int)),
                    ),
                    ..v0
                }),
                self@.board.cards() == v0.board.cards(),
        {
            proof {
                lemma_deal_count(i as int);
            }
            for s in i..n
                invariant
                    n == 7,
                    i < 7,
                    d == v0.board.talon.cards,
                    t0 == v0.board.tableau,
                    d.len() == 52,
                    t0.stacks.len() == 7,
                    no_limits(t0),
                    deal_count(i as int) + 7 - i <= 28,
                    deal_count(i as int) >= 0,
                    forall|j: int| 0 <= j < 52 ==> !(#[trigger] d[j]).face_up(),
                    self@ == (KlondikeView {
                        board: v0.board.with_talon(
                            v0.board.talon.with_cards(d.subrange(0, 52 - deal_count(i as int) - (s - i))),
                        ).with_tableau(t0.with_stacks(dealt_stacks(t0.stacks, d, i as int, s as int))),
                        ..v0
                    }),
                    self@.board.cards() == v0.board.cards(),
            {
                let ghost b1 = self@.board;
                let ghost l = 52 - deal_count(i as int) - (s - i);
                let mut c = self.talon.draw_card().unwrap();
                if s == i {
                    c.flip_face_up();
                }
                proof {
                    assert(d.subrange(0, l).last() == d[l - 1]);
                    assert(c == dealt_card(d, s as int, i as int));
                }
                self.tableau.play_card_to_stack(c, s).expect("There should be no issues in initial deal to tableau");
                proof {
                    let st = b1.tableau.stacks[s as int];
                    let x = st.with_cards(st.cards.push(c));
                    assert(d.subrange(0, l).drop_last() =~= d.subrange(0, l - 1));
                    assert(dealt_column(d, s as int, i as int).push(c) =~= dealt_column(d, s as int, i + 1));
                    assert(b1.tableau.stacks.update(s as int, x) =~= dealt_stacks(t0.stacks, d, i as int, s + 1));
                    lemma_pile_drop_last(d.subrange(0, l));
                    lemma_pile_push(st.cards, c);
                    lemma_stacks_pile_replace(b1.tableau.stacks, s as int, x);
                    assert(self@.board.cards() =~= b1.cards());
                }
            }
            proof {
                assert(dealt_stacks(t0.stacks, d, i as int, 7) =~= dealt_stacks(t0.stacks, d, i + 1, i + 1));
            }
        }
        proof {
            lemma_deal_count(7);
        }
    }
}

impl vstd::std_specs::convert::FromSpecImpl<&KlondikeGame> for KlondikeGameWeak {
    open spec fn obeys_from_spec() -> bool {
        false
    }

    closed spec fn from_spec(v: &KlondikeGame) -> Self {
        KlondikeGameWeak {
            talon: v.talon,
            tableau: v.tableau,
            foundation: v.foundation,
            hovered_element: v.hovered_element,
            selected_cards: v.selected_cards,
        }
    }
}

impl From<&KlondikeGame> for KlondikeGameWeak {
    /// A copy of the game's board
    fn from(value: &KlondikeGame) -> (w: Self)
        ensures
            w@ == value@.board,
    {
        let talon = value.talon.clone();
        let tableau = value.tableau.clone();
        let foundation = value.foundation.clone();
        let selected = value.selected_cards.0.clone();
        proof {
            assert forall|x: FrenchCard, y: FrenchCard| cloned::<FrenchCard>(x, y) implies x == y by {}
            assert forall|a: KlondikeCard, c: KlondikeCard| cloned::<KlondikeCard>(a, c) implies a == c by {
                crate::cards::flippable_card::lemma_cloned_eq(a, c);
            }
            assert(talon@.cards =~= value.talon@.cards);
            if value.talon@.discard is Some {
                assert(talon@.discard->0 =~= value.talon@.discard->0);
            }
            assert(talon@ == value.talon@);
            assert forall|k: int| 0 <= k < tableau@.stacks.len() implies #[trigger] tableau@.stacks[k] == value.tableau@.stacks[k] by {
                assert(tableau@.stacks[k].cards =~= value.tableau@.stacks[k].cards);
            }
            assert(tableau@.stacks =~= value.tableau@.stacks);
            assert forall|k: int| 0 <= k < foundation@.stacks.len() implies #[trigger] foundation@.stacks[k] == value.foundation@.stacks[k] by {
                assert(foundation@.stacks[k].cards =~= value.foundation@.stacks[k].cards);
            }
            assert(foundation@.stacks =~= value.foundation@.stacks);
            assert(selected@ =~= value.selected_cards.0@);
        }
        KlondikeGameWeak {
            talon,
            tableau,
            foundation,
            hovered_element: value.hovered_element,
            selected_cards: (selected, value.selected_cards.1, value.selected_cards.2),
        }
    }
}

impl KlondikeGame {
    /// Turn the top card of every tableau column face-up
    fn flip_tableau_tops(&mut self)
        requires
            old(self)@.board.tableau.stacks.len() == 7,
        ensures
            final(self)@ == (KlondikeView {
                board: old(self)@.board.with_tableau(tops_turned_up(old(self)@.board.tableau)),
                ..old(self)@
            }),
    {
        let ghost t0 = self.tableau@;
        let stacks = self.tableau.stacks_mut(0..7).expect("There are 7 stacks in the Tableau");
        let n = stacks.len();
        assert(stack_views(stacks@).len() == stacks@.len());
        assert forall|j: int| 0 <= j < 7 implies #[trigger] stacks@[j]@ == t0.stacks[j] by {
            assert(stack_views(stacks@)[j] == stacks@[j]@);
            assert(t0.stacks.subrange(0, 7)[j] == t0.stacks[j]);
        }
        for k in 0..n
            invariant
                n == stacks@.len(),
                n == 7,
                t0.stacks.len() == 7,
                forall|j: int| 0 <= j < k ==> #[trigger] stacks@[j]@ == top_turned_up(t0.stacks[j]),
                forall|j: int| k <= j < n ==> #[trigger] stacks@[j]@ == t0.stacks[j],
        {
            assert(stack_views(stacks@)[k as int] == stacks@[k as int]@);
            if let Some(c) = stacks[k].last_mut() {
                c.flip_face_up();
            }
        }
        proof {
            assert(t0.stacks.subrange(0, 0) + stack_views(stacks@) + t0.stacks.subrange(7, 7) =~= tops_turned_up(t0).stacks);
        }
    }
}

impl KlondikeGame {
    /// Analyzes the context in which the player made their selection and performs the correct
    /// game action, checking the legality of any card moves before performing them.
    #[verifier::rlimit(40)]
    fn perform_selection(&mut self) -> (r: Result<(), KlondikeGameError>)
        requires
            old(self)@.wf(),
            old(self)@.board.playable(),
        ensures
            final(self)@.wf(),
            final(self)@.board.playable(),
            final(self)@.history == old(self)@.history.push(old(self)@.board),
            old(self)@.board.selection_performed(final(self)@.board, r is Ok),
            final(self)@.win == (if old(self)@.board.selection_wins() {
                all_kings(old(self)@.board.foundation)
            } else {
                old(self)@.win
            }),
    {
        let ghost b = self@.board;
        proof {
            b.lemma_sound_cards();
        }
        let snapshot = KlondikeGameWeak::from(&*self);
        self.history.push(snapshot);
        proof {
            assert(self@.history =~= old(self)@.history.push(b));
            assert(self@.wf());
        }
        match self.hovered_element {
            KlondikeGameElement::Talon => {
                // Player is attempting to deal cards from the Talon
                if self.talon.is_hovered().expect("Talon (as a whole) is guaranteed to be hovered") == DeckToggle::Deck {
                    // Selecting Talon with cards selected is considered a mismove.
                    // Replace selected cards before dealing from Talon.
                    if self.selected_cards.0.len() > 0 {
                        self.replace_selected_cards().expect("Replacing a non-empty curr_selection should be infallible");
                    }
                    self.draw_from_talon()
                }
                // Player is attempting to take the top card from the Talon
                 else if self.selected_cards.0.len() == 0 {
                    if let Some(c) = self.talon.draw_discard() {
                        let mut picked = Vec::new();
                        picked.push(c);
                        self.selected_cards = (picked, KlondikeGameElement::Talon, None);
                    }
                    proof {
                        b.lemma_waste_top_picked();
                        assert(self@.board == b.waste_top_picked());
                    }
                    Ok(())
                }
                // Any other circumstance that the player may select the Talon is a mismove.
                // Replace any currently selected cards as a default.
                else {
                    self.replace_selected_cards()
                }
            },
            KlondikeGameElement::Tableau => {
                // Player is attempting to pick up a card/cards from the tableau
                if self.selected_cards.0.len() == 0 {
                    let ghost v0 = self@;
                    if let Some(sel_stack) = self.tableau.get_hovered_stack_mut() {
                        if let Some(take_stack) = sel_stack.take_hovered_stack() {
                            let taken: Vec<KlondikeCard> = take_stack.into();
                            self.selected_cards = (taken, KlondikeGameElement::Tableau, self.tableau.hovered_stack());
                        }
                    }
                    proof {
                        b.lemma_column_picked();
                        if let Some(s) = b.tableau.hovered {
                            if b.tableau.stacks[s as int].hovered is None {
                                assert(self@.board.tableau.stacks =~= b.tableau.stacks);
                            }
                        }
                        assert(self@.board == b.column_picked());
                        assert(self@.history == v0.history);
                    }
                    Ok(())
                }
                // Player is attempting to place their currently selected card/cards onto the tableau
                 else if self.check_move_legality() {
                    // Play selected cards to currently hovered stack
                    match self.tableau.play_cards_to_hovered_stack(&mut self.selected_cards.0) {
                        Ok(()) => {},
                        Err(e) => {
                            return Err(KlondikeGameError::TableauError(e));
                        },
                    }

                    // Flip any uncovered tableau card face-up
                    self.flip_tableau_tops();
                    let ghost v1 = self@;
                    let ghost s = b.tableau.hovered->0 as int;
                    let ghost top = v1.board.tableau.stacks[s];
                    proof {
                        b.lemma_placed_on_column();
                        lemma_tops_turned_up(b.tableau.with_stacks(b.tableau.stacks.update(
                            s,
                            b.tableau.stacks[s].with_cards(b.tableau.stacks[s].cards + b.selected),
                        )));
                        assert(v1.board.tableau == b.placed_on_column().tableau);
                        assert(top == top_turned_up(b.tableau.stacks[s].with_cards(b.tableau.stacks[s].cards + b.selected)));
                        assert(top.cards.len() > 0);
                        assert(top.cards.last().face_up());
                        assert(b.tableau.stacks[s].cards.len() <= 52);
                        assert(top.cards.len() <= 104);
                        assert(v1.board.tableau.stacks.update(s, top.with_hovered(top.hovered)) =~= v1.board.tableau.stacks);
                    }

                    // Fixes the case that the card selection gets stuck on a face-down card
                    let mut face_down = match self.tableau.get_hovered_card() {
                        Some(c) => c.peek_inner_checked().is_none(),
                        None => false,
                    };
                    while face_down
                        invariant
                            0 <= s < 7,
                            b.tableau.stacks.len() == 7,
                            v1.board.tableau.hovered == Some(s as usize),
                            v1.board.tableau.stacks.len() == 7,
                            top == v1.board.tableau.stacks[s],
                            top.cards.len() > 0,
                            top.cards.len() <= 104,
                            top.cards.last().face_up(),
                            top.hovered == b.tableau.stacks[s].hovered,
                            self@.board.tableau.stacks[s].hovered matches Some(c) ==> c <= top.cards.len(),
                            face_down_run(top.cards, b.tableau.stacks[s].hovered, self@.board.tableau.stacks[s].hovered),
                            face_down ==> (self@.board.tableau.stacks[s].hovered matches Some(c) && c < top.cards.len()
                                && !top.cards[c as int].face_up()),
                            !face_down ==> hover_settled(top.cards, b.tableau.stacks[s].hovered, self@.board.tableau.stacks[s].hovered),
                            self@ == (KlondikeView {
                                board: v1.board.with_tableau(v1.board.tableau.with_stacks(v1.board.tableau.stacks.update(
                                    s,
                                    top.with_hovered(self@.board.tableau.stacks[s].hovered),
                                ))),
                                ..v1
                            }),
                        decreases (match self@.board.tableau.stacks[s].hovered {
                            Some(c) => top.cards.len() - c,
                            None => 0,
                        }),
                    {
                        let ghost h = self@.board.tableau.stacks[s].hovered;
                        proof {
                            assert(self@.board.tableau.hovered == Some(s as usize));
                            assert(self@.board.tableau.stacks[s] == top.with_hovered(h));
                            assert(h->0 < top.cards.len() - 1);
                            vstd::arithmetic::div_mod::lemma_small_mod((h->0 + 1) as nat, top.cards.len());
                        }
                        let stack = self.tableau.get_hovered_stack_mut().unwrap();
                        stack.inc_hovered_card();
                        proof {
                            assert(self@.board.tableau.stacks =~= v1.board.tableau.stacks.update(
                                s,
                                top.with_hovered(self@.board.tableau.stacks[s].hovered),
                            ));
                        }
                        face_down = match self.tableau.get_hovered_card() {
                            Some(c) => c.peek_inner_checked().is_none(),
                            None => false,
                        };
                    }

                    // Reset selected_cards
                    self.selected_cards = (Vec::new(), KlondikeGameElement::Tableau, None);
                    proof {
                        let h = self@.board.tableau.stacks[s].hovered;
                        b.lemma_placed_on_column_wf(h);
                        let p = b.placed_on_column();
                        assert(self@.board == p.with_tableau(p.tableau.with_stacks(p.tableau.stacks.update(
                            s,
                            p.tableau.stacks[s].with_hovered(h),
                        ))));
                    }
                    Ok(())
                }
                // Player's attempted move failed; replace any selected cards as a default
                 else {
                    self.replace_selected_cards()
                }
            },
            KlondikeGameElement::Foundation => {
                // Player is attempting to take a cardfrom the Foundation
                if self.selected_cards.0.len() == 0 {
                    proof {
                        b.lemma_foundation_picked();
                    }
                    let ghost v0 = self@;
                    if let Some(sel_stack) = self.foundation.get_hovered_stack_mut() {
                        if sel_stack.len() > 0 {
                            if let Some(c) = sel_stack.take_hovered_card() {
                                let mut picked = Vec::new();
                                picked.push(c);
                                self.selected_cards = (picked, KlondikeGameElement::Foundation, self.foundation.hovered_stack());
                            }
                        }
                    }
                    proof {
                        if let Some(s) = b.foundation.hovered {
                            let st = b.foundation.stacks[s as int];
                            if !(st.cards.len() > 0 && st.hovered is Some) {
                                assert(self@.board.foundation.stacks =~= b.foundation.stacks);
                            }
                        }
                        assert(self@.board == b.foundation_picked());
                    }
                    Ok(())
                }
                // Player is attempting to play a card to the Foundation
                // It is only allowed to play a single card to the Foundation at a time
                 else if self.selected_cards.0.len() == 1 && self.check_move_legality() {
                    match self.foundation.play_cards_to_hovered_stack(&mut self.selected_cards.0) {
                        Ok(()) => {},
                        Err(e) => {
                            return Err(KlondikeGameError::TableauError(e));
                        },
                    }
                    let ghost f1 = self@.board.foundation;
                    proof {
                        let s = b.foundation.hovered->0 as int;
                        assert(f1.stacks[s].cards.len() > 0);
                        assert(f1.stacks[s].cards.len() <= 53) by {
                            assert(b.foundation.stacks[s].cards.len() <= 52);
                        }
                    }
                    self.foundation.get_hovered_stack_mut().unwrap().inc_hovered_card();
                    proof {
                        let s = b.foundation.hovered->0 as int;
                        let p = b.placed_on_foundation();
                        assert(self@.board.foundation.stacks =~= p.foundation.stacks);
                    }

                    // Flip any uncovered tableau card face-up
                    self.flip_tableau_tops();
                    proof {
                        b.lemma_placed_on_foundation();
                        assert(self@.board == b.placed_on_foundation());
                    }
                    Ok(())
                }
                // Any other circumstance that the player may select the Foundation is a mismove.
                // Replace any currently selected cards as a default.
                 else {
                    self.replace_selected_cards()
                }
            },
        }
    }
}

/// A key press of the player, as the game reads it
#[derive(Clone, Copy, Debug, PartialEq, Eq, Structural)]
pub enum KlondikeInput {
    /// <Esc>: leave the game
    Exit,
    /// <Enter>: draw, pick up or place at the hovered place
    Select,
    /// <Tab>: hover over the next region
    Cycle,
    /// <Down>: toggle the talon, or hover over the next column
    Down,
    /// <Up>: toggle the talon, or hover over the previous column
    Up,
    /// <Left>: hover over the previous card of the hovered tableau column
    Left,
    /// <Right>: hover over the next card of the hovered tableau column
    Right,
    /// <z>: put the picked-up cards back
    Deselect,
    /// <Ctrl> + <z>: undo the last move
    Undo,
    /// <n>: start a new game
    NewGame,
    /// Any other key or event
    Other,
}

/// What the terminal should do once the game has handled an input
#[derive(Clone, Copy, Debug, PartialEq, Eq, Structural)]
pub enum KlondikeAction {
    /// Leave the game
    Quit,
    /// Draw the game again
    Redraw,
    /// Clear the screen, then draw the game again
    ClearScreen,
    /// The game is won: clear the screen and wait for any key, which starts a new game
    WinScreen,
}

impl KlondikeBoard {
    /// The board after the <Left> key: on the tableau, the hovered column hovers over the card
    /// before its hovered card, when there is one and it faces up
    pub open spec fn stepped_left(self) -> Self {
        if self.hovered_element == KlondikeGameElement::Tableau && self.tableau.hovered is Some {
            let s = self.tableau.hovered->0 as int;
            let st = self.tableau.stacks[s];
            match st.hovered {
                Some(c) => if 0 < c && c - 1 < st.cards.len() && st.cards[c - 1].face_up() {
                    self.with_tableau(
                        self.tableau.with_stacks(self.tableau.stacks.update(s, st.with_hovered(Some((c - 1) as usize)))),
                    )
                } else {
                    self
                },
                None => self,
            }
        } else {
            self
        }
    }

    /// The board after the <Right> key: on the tableau, the hovered column hovers over the card
    /// after its hovered card, when there is one and it faces up
    pub open spec fn stepped_right(self) -> Self {
        if self.hovered_element == KlondikeGameElement::Tableau && self.tableau.hovered is Some {
            let s = self.tableau.hovered->0 as int;
            let st = self.tableau.stacks[s];
            match st.hovered {
                Some(c) => if c + 1 < st.cards.len() && st.cards[c + 1].face_up() {
                    self.with_tableau(
                        self.tableau.with_stacks(self.tableau.stacks.update(s, st.with_hovered(Some((c + 1) as usize)))),
                    )
                } else {
                    self
                },
                None => self,
            }
        } else {
            self
        }
    }
}

/// `f` is a new game after `v`: dealt from some shuffled standard deck, not won, with no moves
/// to undo
pub open spec fn restarted(v: KlondikeView, f: KlondikeView) -> bool {
    &&& exists|d: Seq<KlondikeCard>| opening_deck(d) && f.board == fresh_board(v.board, d)
    &&& !f.win
    &&& f.history.len() == 0
}

/// `f` and `a` are the game and the terminal's action after the game `v` handled `input`. A won
/// game starts anew on any input. Otherwise <Enter> saves the board for undoing and performs the
/// selection (a legal King on a foundation checks for a win); the keys that move the hover, put
/// the selection back or undo change only what they name; <n> starts a new game; <Esc> quits
pub open spec fn handled(v: KlondikeView, input: KlondikeInput, f: KlondikeView, a: KlondikeAction) -> bool {
    if v.win {
        restarted(v, f) && a == KlondikeAction::Redraw
    } else {
        match input {
            KlondikeInput::Exit => f == v && a == KlondikeAction::Quit,
            KlondikeInput::Select => {
                &&& f.history == v.history.push(v.board)
                &&& exists|ok: bool| v.board.selection_performed(f.board, ok)
                &&& f.win == (v.board.selection_wins() && all_kings(v.board.foundation))
                &&& a == (if f.win { KlondikeAction::WinScreen } else { KlondikeAction::Redraw })
            },
            KlondikeInput::Cycle => f == (KlondikeView { board: v.board.cycled(), ..v }) && a == KlondikeAction::Redraw,
            KlondikeInput::Down => f == (KlondikeView { board: v.board.navigated_down(), ..v }) && a
                == KlondikeAction::Redraw,
            KlondikeInput::Up => f == (KlondikeView { board: v.board.navigated_up(), ..v }) && a
                == KlondikeAction::Redraw,
            KlondikeInput::Left => f == (KlondikeView { board: v.board.stepped_left(), ..v }) && a
                == KlondikeAction::Redraw,
            KlondikeInput::Right => f == (KlondikeView { board: v.board.stepped_right(), ..v }) && a
                == KlondikeAction::Redraw,
            KlondikeInput::Deselect => f == (KlondikeView { board: v.board.selection_returned(), ..v }) && a
                == KlondikeAction::Redraw,
            KlondikeInput::Undo => (if v.history.len() > 0 {
                f == (KlondikeView { board: v.history.last(), history: v.history.drop_last(), ..v })
            } else {
                f == v
            }) && a == KlondikeAction::Redraw,
            KlondikeInput::NewGame => restarted(v, f) && a == KlondikeAction::ClearScreen,
            KlondikeInput::Other => f == v && a == KlondikeAction::Redraw,
        }
    }
}

impl KlondikeGame {
    /// Handle one input of the player and say what the terminal should do next; a won game
    /// starts anew on any input
    pub fn handle_input(&mut self, input: KlondikeInput) -> (a: KlondikeAction)
        requires
            old(self)@.wf(),
            input == KlondikeInput::Select && !old(self)@.win ==> old(self)@.board.playable(),
        ensures
            final(self)@.wf(),
            old(self)@.board.playable() ==> final(self)@.board.playable(),
            handled(old(self)@, input, final(self)@, a),
    {
        if self.win {
            self.init();
            self.win = false;
            return KlondikeAction::Redraw;
        }
        match input {
            KlondikeInput::Exit => KlondikeAction::Quit,
            KlondikeInput::Select => {
                let r = self.perform_selection();
                proof {
                    assert(old(self)@.board.selection_performed(self@.board, r is Ok));
                }
                if self.win {
                    KlondikeAction::WinScreen
                } else {
                    KlondikeAction::Redraw
                }
            },
            KlondikeInput::Cycle => {
                let _ = self.cycle_selected_game_element();
                KlondikeAction::Redraw
            },
            KlondikeInput::Down => {
                let _ = self.navigate_game_element_down();
                KlondikeAction::Redraw
            },
            KlondikeInput::Up => {
                let _ = self.navigate_game_element_up();
                KlondikeAction::Redraw
            },
            KlondikeInput::Left => {
                self.hover_previous_card();
                KlondikeAction::Redraw
            },
            KlondikeInput::Right => {
                self.hover_next_card();
                KlondikeAction::Redraw
            },
            KlondikeInput::Deselect => {
                let _ = self.replace_selected_cards();
                KlondikeAction::Redraw
            },
            KlondikeInput::Undo => {
                let _ = self.undo_move();
                KlondikeAction::Redraw
            },
            KlondikeInput::NewGame => {
                self.init();
                KlondikeAction::ClearScreen
            },
            KlondikeInput::Other => KlondikeAction::Redraw,
        }
    }

    /// In the hovered tableau column, hover over the previous card if it faces up
    fn hover_previous_card(&mut self)
        requires
            old(self)@.wf(),
        ensures
            final(self)@ == (KlondikeView { board: old(self)@.board.stepped_left(), ..old(self)@ }),
            final(self)@.wf(),
    {
        let ghost b = self@.board;
        proof {
            b.lemma_sound_cards();
        }
        if self.hovered_element == KlondikeGameElement::Tableau {
            if let Some(curr_stack) = self.tableau.get_hovered_stack_mut() {
                if let Some(c) = curr_stack.peek_prev_card() {
                    if c.peek_inner_checked().is_some() {
                        curr_stack.dec_hovered_card();
                    }
                }
            }
        }
        proof {
            assert(self@.history =~= old(self)@.history);
            if b.hovered_element == KlondikeGameElement::Tableau && b.tableau.hovered is Some {
                let s = b.tableau.hovered->0 as int;
                if self@.board.tableau.stacks[s] == b.tableau.stacks[s] {
                    assert(self@.board.tableau.stacks =~= b.tableau.stacks);
                }
            }
            assert(self@.board == b.stepped_left());
            lemma_stacks_pile_same_cards(self@.board.tableau.stacks, b.tableau.stacks);
            assert(self@.board.cards() == b.cards());
        }
    }

    /// In the hovered tableau column, hover over the next card if it faces up
    fn hover_next_card(&mut self)
        requires
            old(self)@.wf(),
        ensures
            final(self)@ == (KlondikeView { board: old(self)@.board.stepped_right(), ..old(self)@ }),
            final(self)@.wf(),
    {
        let ghost b = self@.board;
        proof {
            b.lemma_sound_cards();
        }
        if self.hovered_element == KlondikeGameElement::Tableau {
            if let Some(curr_stack) = self.tableau.get_hovered_stack_mut() {
                if let Some(c) = curr_stack.peek_next_card() {
                    if c.peek_inner_checked().is_some() {
                        curr_stack.inc_hovered_card();
                    }
                }
            }
        }
        proof {
            assert(self@.history =~= old(self)@.history);
            if b.hovered_element == KlondikeGameElement::Tableau && b.tableau.hovered is Some {
                let s = b.tableau.hovered->0 as int;
                if self@.board.tableau.stacks[s] == b.tableau.stacks[s] {
                    assert(self@.board.tableau.stacks =~= b.tableau.stacks);
                }
                let st = b.tableau.stacks[s];
                if st.hovered is Some && st.hovered->0 + 1 < st.cards.len() {
                    vstd::arithmetic::div_mod::lemma_small_mod((st.hovered->0 + 1) as nat, st.cards.len());
                }
            }
            assert(self@.board == b.stepped_right());
            lemma_stacks_pile_same_cards(self@.board.tableau.stacks, b.tableau.stacks);
            assert(self@.board.cards() == b.cards());
        }
    }
}

/// The cycle of regions has period three: moving on three times comes back to the start
pub proof fn lemma_next_element_period(e: KlondikeGameElement)
    ensures
        e.spec_next().spec_next().spec_next() == e,
        e.spec_next() != e,
{
}

/// Undoing right after a selection restores the board, and the earlier boards, from before it
pub proof fn lemma_select_then_undo(
    v0: KlondikeView,
    v1: KlondikeView,
    a1: KlondikeAction,
    v2: KlondikeView,
    a2: KlondikeAction,
)
    requires
        !v0.win,
        handled(v0, KlondikeInput::Select, v1, a1),
        !v1.win,
        handled(v1, KlondikeInput::Undo, v2, a2),
    ensures
        v2.board == v0.board,
        v2.history == v0.history,
        !v2.win,
{
    assert(v1.history.drop_last() =~= v0.history);
}

/// The number of a rank: pips by their number, then 11, 12 and 13 for Jack, Queen and King
pub open spec fn rank_number(r: FrenchRank) -> int {
    match r {
        FrenchRank::Pip(n) => n as int,
        FrenchRank::Jack => 11,
        FrenchRank::Queen => 12,
        FrenchRank::King => 13,
    }
}

/// Both cards are of one suit, told by their variants
pub open spec fn suits_match(a: FrenchCard, b: FrenchCard) -> bool {
    &&& (a is Spades) == (b is Spades)
    &&& (a is Hearts) == (b is Hearts)
    &&& (a is Clubs) == (b is Clubs)
    &&& (a is Diamonds) == (b is Diamonds)
}

/// The Klondike rule for a tableau column: the picked-up cards may go onto a column whose top
/// card is `h` exactly when their first card is of the other colour (red on black or black on
/// red) and one rank lower; onto an empty column exactly when it is a King
pub proof fn lemma_tableau_rule(b: KlondikeBoard)
    requires
        b.hovered_element == KlondikeGameElement::Tableau,
        b.selected.len() > 0,
        standard_card(b.selected[0].inner()),
        b.tableau.hovered matches Some(s) ==> s < b.tableau.stacks.len() && (b.tableau.stacks[s as int].cards.len()
            > 0 ==> standard_card(b.tableau.stacks[s as int].cards.last().inner())),
    ensures
        ({
            let first = b.selected[0].inner();
            match b.tableau.hovered {
                Some(s) => if b.tableau.stacks[s as int].cards.len() > 0 {
                    let h = b.tableau.stacks[s as int].cards.last().inner();
                    legal_move(b) <==> (first.spec_is_red() != h.spec_is_red() && rank_number(
                        first.spec_rank()->0,
                    ) + 1 == rank_number(h.spec_rank()->0))
                } else {
                    legal_move(b) <==> first.spec_rank() == Some(FrenchRank::King)
                },
                None => legal_move(b) <==> first.spec_rank() == Some(FrenchRank::King),
            }
        }),
{
}

/// The Klondike rule for a foundation: a card may go onto a foundation whose top card is `h`
/// exactly when it is of the same suit and one rank higher; onto an empty foundation exactly
/// when it is an Ace
pub proof fn lemma_foundation_rule(b: KlondikeBoard)
    requires
        b.hovered_element == KlondikeGameElement::Foundation,
        b.selected.len() > 0,
        standard_card(b.selected[0].inner()),
        b.foundation.hovered matches Some(s) ==> s < b.foundation.stacks.len() && (
        b.foundation.stacks[s as int].cards.len() > 0 ==> standard_card(
            b.foundation.stacks[s as int].cards.last().inner(),
        )),
    ensures
        ({
            let first = b.selected[0].inner();
            match b.foundation.hovered {
                Some(s) => if b.foundation.stacks[s as int].cards.len() > 0 {
                    let h = b.foundation.stacks[s as int].cards.last().inner();
                    legal_move(b) <==> (suits_match(first, h) && rank_number(first.spec_rank()->0) == rank_number(
                        h.spec_rank()->0,
                    ) + 1)
                } else {
                    legal_move(b) <==> first.spec_rank() == Some(FrenchRank::Pip(1))
                },
                None => legal_move(b) <==> first.spec_rank() == Some(FrenchRank::Pip(1)),
            }
        }),
{
}

/// <Enter> on a tableau column with cards picked up places them there, on top of the column in
/// order, exactly when the rule of `lemma_tableau_rule` allows it; otherwise the cards go back
/// where they came from
pub proof fn lemma_tableau_placement(v0: KlondikeView, v1: KlondikeView, a: KlondikeAction)
    requires
        !v0.win,
        v0.wf(),
        handled(v0, KlondikeInput::Select, v1, a),
        v0.board.hovered_element == KlondikeGameElement::Tableau,
        v0.board.selected.len() > 0,
        v0.board.tableau.hovered is Some,
    ensures
        ({
            let s = v0.board.tableau.hovered->0 as int;
            legal_move(v0.board) ==> v1.board.selected.len() == 0 && v1.board.tableau.stacks[s].cards.len()
                == v0.board.tableau.stacks[s].cards.len() + v0.board.selected.len() && inner_cards(
                v1.board.tableau.stacks[s].cards,
            ) == inner_cards(v0.board.tableau.stacks[s].cards + v0.board.selected)
        }),
        !legal_move(v0.board) ==> v1.board == v0.board.selection_returned(),
{
    let b = v0.board;
    if legal_move(b) {
        let s = b.tableau.hovered->0 as int;
        let st = b.tableau.stacks[s];
        let t1 = b.tableau.with_stacks(b.tableau.stacks.update(s, st.with_cards(st.cards + b.selected)));
        lemma_tops_turned_up(t1);
        let c = st.cards + b.selected;
        if c.len() > 0 {
            assert(inner_cards(c.update(c.len() - 1, c.last().with_face(true))) =~= inner_cards(c));
        }
    }
}

/// Putting picked-up cards back (with <z>) returns them to the top of the very pile they came
/// from, in order: the waste, or the tableau column or foundation of the recorded index,
/// whichever column is hovered; every other pile stays as it was and nothing stays picked up
pub proof fn lemma_return_to_origin(v0: KlondikeView, v1: KlondikeView, a: KlondikeAction)
    requires
        !v0.win,
        v0.wf(),
        handled(v0, KlondikeInput::Deselect, v1, a),
        v0.board.selected.len() > 0,
    ensures
        v1.board.selected.len() == 0,
        v0.board.selected_from == KlondikeGameElement::Talon ==> v1.board.talon.discard == Some(
            v0.board.talon.discard->0 + v0.board.selected,
        ) && v1.board.talon.cards == v0.board.talon.cards && v1.board.tableau == v0.board.tableau
            && v1.board.foundation == v0.board.foundation,
        v0.board.selected_from == KlondikeGameElement::Tableau ==> ({
            let i = v0.board.selected_idx->0 as int;
            &&& v1.board.tableau.stacks[i].cards == v0.board.tableau.stacks[i].cards + v0.board.selected
            &&& forall|k: int| 0 <= k < 7 && k != i ==> #[trigger] v1.board.tableau.stacks[k] == v0.board.tableau.stacks[k]
            &&& v1.board.talon == v0.board.talon
            &&& v1.board.foundation == v0.board.foundation
        }),
        v0.board.selected_from == KlondikeGameElement::Foundation ==> ({
            let i = v0.board.selected_idx->0 as int;
            &&& v1.board.foundation.stacks[i].cards == v0.board.foundation.stacks[i].cards + v0.board.selected
            &&& forall|k: int| 0 <= k < 4 && k != i ==> #[trigger] v1.board.foundation.stacks[k] == v0.board.foundation.stacks[k]
            &&& v1.board.talon == v0.board.talon
            &&& v1.board.tableau == v0.board.tableau
        }),
{
}

/// Drawing from an empty talon first turns its waste over into a new deck: the card dealt first
/// comes out first again, so the three cards now dealt are the waste's first three, face-up,
/// and the rest of the waste lies face-down in the deck in reverse order
pub proof fn lemma_recycle_turns_over(t: DeckView<KlondikeCard>)
    requires
        t.cards.len() == 0,
        t.discard is Some,
        t.discard->0.len() >= 3,
    ensures
        ({
            let w = t.discard->0;
            let n = w.len() as int;
            let f = talon_drawn(t);
            &&& f.discard == Some(seq![w[0].with_face(true), w[1].with_face(true), w[2].with_face(true)])
            &&& f.cards.len() == n - 3
            &&& forall|k: int| 0 <= k < n - 3 ==> #[trigger] f.cards[k] == w[n - 1 - k].with_face(false)
            &&& f.hovered == t.hovered
        }),
{
    let w = t.discard->0;
    let n = w.len() as int;
    let r = recycled(t);
    let d = all_turned(w + t.cards, false).reverse();
    assert(w + t.cards =~= w);
    reveal_with_fuel(dealt, 4);
    crate::cards::flippable_card::lemma_turn_twice(w[0], false, true);
    crate::cards::flippable_card::lemma_turn_twice(w[1], false, true);
    crate::cards::flippable_card::lemma_turn_twice(w[2], false, true);
    assert(d.len() == n);
    assert(d[n - 1] == w[0].with_face(false));
    assert(d[n - 2] == w[1].with_face(false));
    assert(d[n - 3] == w[2].with_face(false));
    let d1 = dealt(r, 1);
    let d2 = dealt(r, 2);
    let d3 = dealt(r, 3);
    assert(d1.cards =~= d.subrange(0, n - 1));
    assert(d2.cards =~= d.subrange(0, n - 2));
    assert(d3.cards =~= d.subrange(0, n - 3));
    assert(d3.discard->0 =~= seq![w[0].with_face(true), w[1].with_face(true), w[2].with_face(true)]);
}

/// <Enter> declares the game won only when every one of the four foundations already has a
/// King on top, and the terminal is then told to show the win screen
pub proof fn lemma_win_needs_four_kings(v0: KlondikeView, v1: KlondikeView, a: KlondikeAction)
    requires
        !v0.win,
        handled(v0, KlondikeInput::Select, v1, a),
    ensures
        v1.win ==> forall|k: int|
            0 <= k < 4 ==> #[trigger] v0.board.foundation.stacks[k].cards.len() > 0
                && v0.board.foundation.stacks[k].cards.last().inner().spec_rank() == Some(FrenchRank::King),
        (exists|k: int|
            0 <= k < 4 && (#[trigger] v0.board.foundation.stacks[k].cards.len() == 0
                || v0.board.foundation.stacks[k].cards.last().inner().spec_rank() != Some(FrenchRank::King))) ==> !v1.win,
        v1.win <==> a == KlondikeAction::WinScreen,
{
}

/// <Enter> keeps the 52 cards of the board, whatever it does, and saves the board it was
/// pressed on as the last one to undo to
pub proof fn lemma_select_keeps_cards(v0: KlondikeView, v1: KlondikeView, a: KlondikeAction)
    requires
        v0.wf(),
        v1.wf(),
        !v0.win,
        handled(v0, KlondikeInput::Select, v1, a),
    ensures
        v1.board.cards() == v0.board.cards(),
        v1.board.cards() == standard_deck_cards(),
        v1.history.len() == v0.history.len() + 1,
        v1.history.last() == v0.board,
{
}

/// Three presses of <Tab> come back to the region hovered at first, holding the same cards and
/// the same selection
pub proof fn lemma_cycle_thrice(
    v0: KlondikeView,
    v1: KlondikeView,
    a1: KlondikeAction,
    v2: KlondikeView,
    a2: KlondikeAction,
    v3: KlondikeView,
    a3: KlondikeAction,
)
    requires
        !v0.win,
        handled(v0, KlondikeInput::Cycle, v1, a1),
        handled(v1, KlondikeInput::Cycle, v2, a2),
        handled(v2, KlondikeInput::Cycle, v3, a3),
    ensures
        v3.board.hovered_element == v0.board.hovered_element,
        v3.board.selected == v0.board.selected,
        v3.board.talon.cards == v0.board.talon.cards,
        v3.board.talon.discard == v0.board.talon.discard,
        v3.history == v0.history,
{
}

/// On the talon, <Down> then <Up> gives back the same game; on the tableau or the foundations
/// it comes back to the same column
pub proof fn lemma_down_then_up(
    v0: KlondikeView,
    v1: KlondikeView,
    a1: KlondikeAction,
    v2: KlondikeView,
    a2: KlondikeAction,
)
    requires
        v0.wf(),
        !v0.win,
        handled(v0, KlondikeInput::Down, v1, a1),
        handled(v1, KlondikeInput::Up, v2, a2),
    ensures
        v0.board.hovered_element == KlondikeGameElement::Talon ==> v2 == v0,
        v2.board.tableau.hovered == v0.board.tableau.hovered,
        v2.board.foundation.hovered == v0.board.foundation.hovered,
{
    let b = v0.board;
    if b.hovered_element == KlondikeGameElement::Talon {
        if let Some(h) = b.talon.hovered {
            assert(h.other().other() == h);
        }
        assert(v2.board.talon == b.talon);
        assert(v2.board == b);
    }
}

/// After <z> nothing is picked up any more
pub proof fn lemma_deselect_empties(v0: KlondikeView, v1: KlondikeView, a: KlondikeAction)
    requires
        !v0.win,
        handled(v0, KlondikeInput::Deselect, v1, a),
    ensures
        v1.board.selected.len() == 0,
{
}

/// A new game has the Klondike layout: column `k` of the tableau holds `k + 1` cards of which
/// only the top one faces up, the foundations are empty, and the talon holds 21 face-down cards
/// beside a waste of three face-up cards
pub proof fn lemma_fresh_layout(v: KlondikeView, f: KlondikeView)
    requires
        v.board.sound(),
        restarted(v, f),
    ensures
        forall|k: int| 0 <= k < 7 ==> (#[trigger] f.board.tableau.stacks[k]).cards.len() == k + 1,
        forall|k: int, j: int|
            0 <= k < 7 && 0 <= j <= k ==> (#[trigger] f.board.tableau.stacks[k].cards[j]).face_up() == (j == k),
        forall|k: int| 0 <= k < 4 ==> (#[trigger] f.board.foundation.stacks[k]).cards.len() == 0,
        f.board.talon.cards.len() == 21,
        forall|i: int| 0 <= i < 21 ==> !(#[trigger] f.board.talon.cards[i]).face_up(),
        f.board.talon.discard->0.len() == 3,
        forall|i: int| 0 <= i < 3 ==> (#[trigger] f.board.talon.discard->0[i]).face_up(),
{
    let d = choose|d: Seq<KlondikeCard>| opening_deck(d) && f.board == fresh_board(v.board, d);
    let t = v.board.talon.with_cards(d.subrange(0, 24)).with_discard(Some(Seq::empty()));
    reveal_with_fuel(dealt, 4);
    assert(dealt(t, 3).cards =~= d.subrange(0, 21));
    assert(dealt(t, 3).discard->0 =~= seq![d[23].with_face(true), d[22].with_face(true), d[21].with_face(true)]);
}

} // verus!
