use vstd::prelude::*;
use vstd::multiset::Multiset;
use crate::cards::FlippableCard;
use crate::cards::card_stack::{CardStackVariant, CardStackView};
use crate::cards::deck::{Deck, DeckError, DeckView, standard_french_card, standard_french_cards, inner_cards, all_turned};
use crate::cards::french_card::FrenchCard;
use crate::cards::tableau::{Tableau, TableauVariant, TableauView, all_cards};
use super::card_count::{
    lemma_pile_add, lemma_pile_empty, lemma_pile_drop_last, lemma_pile_push, lemma_pile_all_turned, lemma_pile_split,
    lemma_pile_turn, lemma_pile_len, lemma_stacks_pile_replace, lemma_stacks_pile_cleared, lemma_all_cards_pile,
    lemma_pile_permuted, pile, stacks_pile,
};
use super::klondike::{
    KlondikeCard, standard_deck_cards, talon_pile, talon_drawn, talon_draw_short, recycled, dealt, lemma_dealt,
    lemma_dealt_stops, lemma_recycled, no_limits, opening_deck,
};

verus! {

broadcast use {
    vstd::seq_lib::group_to_multiset_ensures,
    vstd::seq_lib::lemma_multiset_commutative,
    vstd::multiset::group_multiset_axioms,
    crate::cards::flippable_card::group_flippable_card,
};

/// A game of Canfield solitaire: the talon (deck and waste), the stock, four tableau columns
/// and four foundations
pub struct Canfield {
    talon: Deck<FlippableCard<FrenchCard>>,
    stock: Deck<FlippableCard<FrenchCard>>,
    tableau: Tableau<FlippableCard<FrenchCard>>,
    foundation: Tableau<FlippableCard<FrenchCard>>,
}

/// The abstract state of a Canfield game
pub ghost struct CanfieldView {
    pub talon: DeckView<KlondikeCard>,
    pub stock: DeckView<KlondikeCard>,
    pub tableau: TableauView<KlondikeCard>,
    pub foundation: TableauView<KlondikeCard>,
}

impl View for Canfield {
    type V = CanfieldView;

    closed spec fn view(&self) -> CanfieldView {
        CanfieldView {
            talon: self.talon@,
            stock: self.stock@,
            tableau: self.tableau@,
            foundation: self.foundation@,
        }
    }
}

impl CanfieldView {
    /// All cards of the game, counted with multiplicity, whichever way they face
    pub open spec fn cards(self) -> Multiset<FrenchCard> {
        talon_pile(self.talon).add(talon_pile(self.stock)).add(stacks_pile(self.tableau.stacks)).add(
            stacks_pile(self.foundation.stacks),
        )
    }

    /// The game has its regions, a talon with a waste and a stock without one, no column
    /// limits, and exactly the 52 cards of a standard deck
    pub open spec fn sound(self) -> bool {
        &&& self.talon.discard is Some
        &&& self.stock.discard is None
        &&& self.tableau.stacks.len() == 4
        &&& self.foundation.stacks.len() == 4
        &&& no_limits(self.tableau)
        &&& no_limits(self.foundation)
        &&& self.cards() == standard_deck_cards()
    }
}

/// The game `v` after dealing from the shuffled deck `d` (from its end): the top 13 cards form
/// the stock with its top card face-up, the next card goes face-up onto the first foundation,
/// the next four go face-up onto the four tableau columns, and the other 34 stay in the talon
pub open spec fn canfield_dealt(v: CanfieldView, d: Seq<KlondikeCard>) -> CanfieldView {
    CanfieldView {
        talon: v.talon.with_cards(d.subrange(0, 34)).with_discard(Some(Seq::empty())),
        stock: v.stock.with_cards(d.subrange(39, 51).push(d[51].with_face(true))),
        tableau: v.tableau.with_stacks(
            Seq::new(4, |k: int| v.tableau.stacks[k].with_cards(seq![d[37 - k].with_face(true)])),
        ),
        foundation: v.foundation.with_stacks(
            Seq::new(
                4,
                |k: int|
                    v.foundation.stacks[k].with_cards(
                        if k == 0 {
                            seq![d[38].with_face(true)]
                        } else {
                            Seq::empty()
                        },
                    ),
            ),
        ),
    }
}

impl Canfield {
    /// A game holding the standard deck (face-up, the four suits of each rank in turn) in a
    /// talon with an empty waste, an empty stock, and empty tableau columns and foundations
    pub fn new_game_default() -> (g: Self)
        ensures
            g@.sound(),
            g@.talon.cards.len() == 52,
            forall|k: int| 0 <= k < 52 ==> #[trigger] g@.talon.cards[k] == FlippableCard::spec_new(
                standard_french_card(k),
            ),
            g@.talon.discard == Some(Seq::<KlondikeCard>::empty()),
            g@.talon.display_discard,
            g@.talon.hovered is None,
            g@.talon.pos is None,
            g@.stock == (DeckView::<KlondikeCard> {
                cards: Seq::empty(),
                discard: None,
                display_discard: false,
                hovered: None,
                pos: None,
            }),
            forall|k: int| 0 <= k < 4 ==> #[trigger] g@.tableau.stacks[k] == (CardStackView::<KlondikeCard> {
                cards: Seq::empty(),
                variant: CardStackVariant::VerticalTtB,
                lim: None,
                hovered: None,
                pos: None,
            }),
            g@.tableau.variant == TableauVariant::HorizontalLtR,
            g@.tableau.hovered is None,
            g@.tableau.pos is None,
            forall|k: int| 0 <= k < 4 ==> #[trigger] g@.foundation.stacks[k] == (CardStackView::<KlondikeCard> {
                cards: Seq::empty(),
                variant: CardStackVariant::Flush,
                lim: None,
                hovered: None,
                pos: None,
            }),
            g@.foundation.variant == TableauVariant::HorizontalLtR,
            g@.foundation.hovered is None,
            g@.foundation.pos is None,
    {
        let g = Canfield {
            talon: Deck::new_standard_french_deck(true, true, None),
            stock: Deck::new_empty(None),
            tableau: Tableau::new(TableauVariant::HorizontalLtR, CardStackVariant::VerticalTtB, 4, None),
            foundation: Tableau::new(TableauVariant::HorizontalLtR, CardStackVariant::Flush, 4, None),
        };
        proof {
            let v = g@;
            assert(inner_cards(v.talon.cards) =~= standard_french_cards());
            lemma_pile_empty::<FrenchCard>();
            lemma_stacks_pile_cleared(v.tableau.stacks);
            lemma_stacks_pile_cleared(v.foundation.stacks);
            assert(v.cards() =~= standard_deck_cards());
        }
        g
    }
}

impl Canfield {
    /// Start a new game: every card returns to the talon face-down and the talon is shuffled;
    /// then 13 cards form the stock (its top card face-up), one card goes face-up onto the first
    /// foundation and one face-up onto each tableau column
    pub fn init_game(&mut self)
        requires
            old(self)@.sound(),
        ensures
            final(self)@.sound(),
            exists|d: Seq<KlondikeCard>| opening_deck(d) && final(self)@ == canfield_dealt(old(self)@, d),
    {
        let ghost v0 = self@;
        // Gather all cards from other regions into talon for shuffling and redistribution
        self.talon.replenish_default().expect("Talon is initialized with default discard");
        let mut gathered = self.tableau.gather_all();
        self.talon.add_cards(&mut gathered);
        let mut gathered = self.foundation.gather_all();
        self.talon.add_cards(&mut gathered);
        self.talon.replenish_from(&mut self.stock);
        let ghost g = self.talon@.cards;
        proof {
            let dd = v0.talon.discard->0;
            let a1 = all_cards(v0.tableau.stacks);
            let a2 = all_cards(v0.foundation.stacks);
            assert(g =~= v0.stock.cards + (dd + v0.talon.cards + a1 + a2));
            lemma_all_cards_pile(v0.tableau.stacks);
            lemma_all_cards_pile(v0.foundation.stacks);
            lemma_pile_add(dd, v0.talon.cards);
            lemma_pile_add(dd + v0.talon.cards, a1);
            lemma_pile_add(dd + v0.talon.cards + a1, a2);
            lemma_pile_add(v0.stock.cards, dd + v0.talon.cards + a1 + a2);
            lemma_pile_empty::<FrenchCard>();
            assert(pile(g) =~= v0.cards());
        }
        // Ensure all cards are face-down before shuffling
        self.talon.all_face_down();
        // Shuffle talon (deck)
        self.talon.shuffle();
        let ghost d = self.talon@.cards;
        proof {
            let g0 = all_turned(g, false);
            lemma_pile_all_turned(g, false);
            lemma_pile_permuted(d, g0);
            lemma_pile_len(d);
            assert forall|i: int| 0 <= i < 52 implies !(#[trigger] d[i]).face_up() by {
                assert(d.to_multiset().count(d[i]) > 0);
                assert(g0.contains(d[i]));
                let j = choose|j: int| 0 <= j < g0.len() && g0[j] == d[i];
                assert(g0[j] == g[j].with_face(false));
            }
            assert(opening_deck(d));
        }
        let ghost v1 = self@;
        // Draw 13 cards from talon to become the new stock pile. Flip the top card face-up
        let mut drawn = self.talon.draw_n(13).expect("Talon should not be emptied in initial setup");
        self.stock.add_cards(&mut drawn);
        self.stock.top_face_up().expect("Stock should not be empty, it was just dealt 13 cards");
        proof {
            assert(v1.stock.cards =~= Seq::<KlondikeCard>::empty());
            assert(self@.stock.cards =~= d.subrange(39, 51).push(d[51].with_face(true)));
            lemma_pile_split(d, 39);
            let s0 = Seq::<KlondikeCard>::empty() + d.subrange(39, 52);
            assert(s0 =~= d.subrange(39, 52));
            lemma_pile_turn(d.subrange(39, 52), 12, true);
            assert(d.subrange(39, 52).update(12, d.subrange(39, 52)[12].with_face(true)) =~= self@.stock.cards);
        }
        // Draw one card from talon to be first foundation card
        let mut c = self.talon.draw_card().expect("Talon should not be emptied in initial setup");
        c.flip_face_up();
        let ghost f1 = self@.foundation;
        self.foundation.play_card_to_stack(c, 0).expect("Foundation stack 0 should exist");
        proof {
            lemma_pile_drop_last(d.subrange(0, 39));
            assert(d.subrange(0, 39).drop_last() =~= d.subrange(0, 38));
            let x = f1.stacks[0].with_cards(f1.stacks[0].cards.push(c));
            lemma_pile_push(f1.stacks[0].cards, c);
            lemma_stacks_pile_replace(f1.stacks, 0, x);
            assert(f1.stacks[0].cards.push(c) =~= seq![d[38].with_face(true)]);
            assert(self@.foundation.stacks =~= canfield_dealt(v0, d).foundation.stacks);
            assert(self@.tableau.stacks =~= Seq::new(
                4,
                |k: int|
                    if k < 0 {
                        v1.tableau.stacks[k].with_cards(seq![d[37 - k].with_face(true)])
                    } else {
                        v1.tableau.stacks[k]
                    },
            ));
            lemma_stacks_pile_cleared(f1.stacks);
            lemma_stacks_pile_cleared(v1.tableau.stacks);
            lemma_pile_empty::<FrenchCard>();
            assert(pile(d.subrange(0, 38)).add(pile(self@.stock.cards)).add(pile(x.cards)) =~= pile(d));
            assert(self@.cards() =~= v0.cards());
        }
        // Play one card from talon to each tableau stack
        for i in 0..4
            invariant
                d.len() == 52,
                opening_deck(d),
                self@.talon == v1.talon.with_cards(d.subrange(0, 38 - i as int)),
                self@.stock == canfield_dealt(v0, d).stock,
                self@.foundation == canfield_dealt(v0, d).foundation,
                self@.tableau == v1.tableau.with_stacks(
                    Seq::new(
                        4,
                        |k: int|
                            if k < i {
                                v1.tableau.stacks[k].with_cards(seq![d[37 - k].with_face(true)])
                            } else {
                                v1.tableau.stacks[k]
                            },
                    ),
                ),
                v1.tableau.stacks.len() == 4,
                no_limits(v1.tableau),
                forall|k: int| 0 <= k < 4 ==> (#[trigger] v1.tableau.stacks[k]).cards.len() == 0,
                self@.cards() == v0.cards(),
        {
            let ghost t1 = self@.tableau;
            let mut c = self.talon.draw_card().expect("Talon should not be emptied in initial setup");
            c.flip_face_up();
            self.tableau.play_card_to_stack(c, i).expect("Tableau stack should exist");
            proof {
                let l = 38 - i as int;
                lemma_pile_drop_last(d.subrange(0, l));
                assert(d.subrange(0, l).drop_last() =~= d.subrange(0, l - 1));
                let x = t1.stacks[i as int].with_cards(t1.stacks[i as int].cards.push(c));
                lemma_pile_push(t1.stacks[i as int].cards, c);
                lemma_stacks_pile_replace(t1.stacks, i as int, x);
                assert(t1.stacks[i as int].cards.push(c) =~= seq![d[37 - i].with_face(true)]);
                assert(self@.cards() =~= v0.cards());
                assert(self@.tableau.stacks =~= Seq::new(
                    4,
                    |k: int|
                        if k < i + 1 {
                            v1.tableau.stacks[k].with_cards(seq![d[37 - k].with_face(true)])
                        } else {
                            v1.tableau.stacks[k]
                        },
                ));
            }
        }
        proof {
            let f = canfield_dealt(v0, d);
            assert(self@.tableau.stacks =~= f.tableau.stacks);
            assert(self@ == f);
        }
    }

    /// Draw 3 cards from the talon into its waste, face-up; an empty talon is first refilled
    /// from its waste, turned face-down and reversed
    pub fn draw_talon(&mut self) -> (r: Result<(), DeckError>)
        requires
            old(self)@.sound(),
        ensures
            final(self)@.sound(),
            final(self)@ == (CanfieldView { talon: talon_drawn(old(self)@.talon), ..old(self)@ }),
            r is Ok <==> !talon_draw_short(old(self)@.talon),
            r is Err ==> r == Err::<(), DeckError>(DeckError::DrawOnEmptyDeck),
        decreases (if old(self)@.talon.cards.len() > 0 { 0int } else { 1int }),
    {
        let ghost v = self@;
        let ghost t = v.talon;
        if self.talon.inner_deck().len() > 0 {
            let mut i: usize = 0;
            while i < 3
                invariant
                    0 <= i <= 3,
                    t.discard is Some,
                    v.sound(),
                    v == old(self)@,
                    t == v.talon,
                    t.cards.len() > 0,
                    t.cards.len() >= i,
                    self@ == (CanfieldView { talon: dealt(t, i as nat), ..v }),
                decreases 3 - i,
            {
                proof {
                    lemma_dealt(t, i as nat);
                }
                match self.talon.top_deck_discard_default_flip() {
                    Ok(()) => {},
                    Err(e) => {
                        proof {
                            lemma_dealt(t, i as nat);
                            lemma_dealt(t, 3);
                            lemma_dealt_stops(t, i as nat, 3);
                        }
                        return Err(e);
                    },
                }
                i = i + 1;
            }
            proof {
                lemma_dealt(t, 3);
                assert(self@.cards() =~= v.cards());
            }
            Ok(())
        } else {
            match self.talon.replenish_default() {
                Ok(()) => {},
                Err(e) => {
                    return Err(e);
                },
            }
            if self.talon.inner_deck().len() > 0 {
                self.talon.all_face_down();
                self.talon.reverse();
                proof {
                    assert(self@.talon == recycled(t));
                    lemma_recycled(t);
                    assert(self@.cards() =~= v.cards());
                }
                self.draw_talon()
            } else {
                proof {
                    assert(t.discard->0 =~= Seq::<KlondikeCard>::empty());
                    assert(self@.talon == t);
                }
                Ok(())
            }
        }
    }
}

/// A new Canfield deal has the Canfield layout: a stock of 13 cards of which only the top one
/// faces up, one face-up card on the first foundation and none on the others, one face-up card
/// on each tableau column, and 34 face-down cards in the talon beside an empty waste
pub proof fn lemma_canfield_layout(v: CanfieldView, d: Seq<KlondikeCard>)
    requires
        v.sound(),
        opening_deck(d),
    ensures
        ({
            let f = canfield_dealt(v, d);
            &&& f.stock.cards.len() == 13
            &&& forall|i: int| 0 <= i < 13 ==> (#[trigger] f.stock.cards[i]).face_up() == (i == 12)
            &&& f.foundation.stacks[0].cards.len() == 1
            &&& f.foundation.stacks[0].cards[0].face_up()
            &&& forall|k: int| 1 <= k < 4 ==> (#[trigger] f.foundation.stacks[k]).cards.len() == 0
            &&& forall|k: int| 0 <= k < 4 ==> (#[trigger] f.tableau.stacks[k]).cards.len() == 1
                && f.tableau.stacks[k].cards[0].face_up()
            &&& f.talon.cards.len() == 34
            &&& forall|i: int| 0 <= i < 34 ==> !(#[trigger] f.talon.cards[i]).face_up()
            &&& f.talon.discard == Some(Seq::<KlondikeCard>::empty())
        }),
{
}

} // verus!
