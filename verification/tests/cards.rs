use card_games::cards::card_stack::{CardStack, CardStackError, CardStackVariant};
use card_games::cards::deck::{Deck, DeckError, DeckToggle};
use card_games::cards::five_crowns_card::FiveCrownsCard;
use card_games::cards::french_card::{FrenchCard, FrenchRank};
use card_games::cards::italian_card::{ItalianCard, ItalianRank};
use card_games::cards::tableau::{Tableau, TableauError, TableauVariant};
use card_games::cards::tarocchi_card::{TarocchiCard, TarocchiRank};
use card_games::cards::tarot_card::{TarotCard, TarotTrumps};
use card_games::cards::{Card, FlippableCard, PlayTo, Rank};

fn fc(card: FrenchCard) -> FlippableCard<FrenchCard> {
    FlippableCard::new(card)
}

#[test]
fn flippable_card_hides_its_face() {
    let mut c = fc(FrenchCard::Hearts(FrenchRank::Queen));
    assert_eq!(c.peek_inner_checked(), Some(&FrenchCard::Hearts(FrenchRank::Queen)));
    c.flip();
    assert_eq!(c.peek_inner_checked(), None);
    assert_eq!(*c.peek_inner(), FrenchCard::Hearts(FrenchRank::Queen));
    assert_eq!(c.str_len(), 2);
    c.flip_face_up();
    assert!(c.peek_inner_checked().is_some());
    c.flip_face_down();
    assert!(c.into_inner_checked().is_err());
    let c = fc(FrenchCard::Spades(FrenchRank::Pip(10)));
    assert_eq!(c.str_len(), 3);
    assert_eq!(c.into_inner(), FrenchCard::Spades(FrenchRank::Pip(10)));
}

#[test]
fn french_card_colours_and_suits() {
    let h = FrenchCard::Hearts(FrenchRank::Pip(3));
    let s = FrenchCard::Spades(FrenchRank::Pip(3));
    assert!(h.is_red() && !h.is_black());
    assert!(s.is_black() && !s.is_red());
    assert!(FrenchCard::Joker.is_red() && FrenchCard::Joker.is_black());
    assert!(h.suit_equals(&FrenchCard::Hearts(FrenchRank::King)));
    assert!(!h.suit_equals(&s));
    assert!(!FrenchCard::Joker.suit_equals(&FrenchCard::Joker));
    assert_eq!(h.rank(), Some(FrenchRank::Pip(3)));
    assert_eq!(FrenchCard::Joker.rank(), None);
    assert_eq!(FrenchCard::Joker.str_len(), 2);
}

#[test]
fn french_rank_steps() {
    assert_eq!(FrenchRank::Pip(10).next(), Some(FrenchRank::Jack));
    assert_eq!(FrenchRank::Pip(4).next(), Some(FrenchRank::Pip(5)));
    assert_eq!(FrenchRank::King.next(), None);
    assert_eq!(FrenchRank::Pip(1).prev(), None);
    assert_eq!(FrenchRank::Jack.prev(), Some(FrenchRank::Pip(10)));
    assert_eq!(FrenchRank::King.prev(), Some(FrenchRank::Queen));
    // Going up and back down returns to the rank
    for r in [FrenchRank::Pip(1), FrenchRank::Pip(9), FrenchRank::Pip(10), FrenchRank::Jack, FrenchRank::Queen] {
        assert_eq!(r.next().unwrap().prev(), Some(r));
    }
    // The exception: Pip(0) goes up to the Ace, which has no lower rank
    assert_eq!(FrenchRank::Pip(0).next().unwrap().prev(), None);
    assert!(FrenchRank::Pip(10) < FrenchRank::Jack);
    assert!(FrenchRank::Pip(2) < FrenchRank::Pip(3));
    assert!(FrenchRank::King > FrenchRank::Queen);
}

#[test]
fn other_decks_ranks_and_widths() {
    assert_eq!(ItalianRank::Pip(10).next(), Some(ItalianRank::Jack));
    assert_eq!(ItalianRank::Knight.prev(), Some(ItalianRank::Jack));
    assert_eq!(ItalianRank::King.next(), None);
    assert_eq!(TarocchiRank::Knight.next(), Some(TarocchiRank::Queen));
    assert_eq!(TarocchiRank::Pip(1).prev(), None);
    assert_eq!(TarotTrumps::Moon.next(), Some(TarotTrumps::Sun));
    assert_eq!(TarotTrumps::World.next(), None);
    assert_eq!(TarotTrumps::Fool.prev(), None);
    assert_eq!(TarotTrumps::Magician.prev(), Some(TarotTrumps::Fool));
    assert_eq!(ItalianCard::Swords(ItalianRank::Pip(7)).str_len(), 2);
    assert_eq!(ItalianCard::Coins(ItalianRank::Pip(10)).str_len(), 3);
    assert_eq!(ItalianCard::Cups(ItalianRank::Knight).str_len(), 2);
    assert_eq!(TarocchiCard::Batons(TarocchiRank::Pip(123)).str_len(), 4);
    assert_eq!(TarotCard::Trump(TarotTrumps::Moon).str_len(), 5);
    assert_eq!(TarotCard::Trump(TarotTrumps::Fool).str_len(), 1);
    assert_eq!(TarotCard::Cups(TarocchiRank::Queen).str_len(), 2);
    assert_eq!(FiveCrownsCard::Spades(FrenchRank::Pip(10)).str_len(), 3);
    assert_eq!(FiveCrownsCard::Hearts(FrenchRank::Pip(10)).str_len(), 13);
    assert_eq!(FiveCrownsCard::Stars(FrenchRank::King).str_len(), 12);
    assert_eq!(FiveCrownsCard::Joker.str_len(), 23);
}

#[test]
fn card_stack_hover_and_take() {
    let cards = vec![
        fc(FrenchCard::Spades(FrenchRank::Pip(1))),
        fc(FrenchCard::Hearts(FrenchRank::Pip(2))),
        fc(FrenchCard::Clubs(FrenchRank::Pip(3))),
    ];
    let mut s = CardStack::new_from(cards, CardStackVariant::Flush, None);
    assert_eq!(s.len(), 3);
    assert_eq!(s.get_hovered_card_idx(), None);
    s.hover();
    assert_eq!(s.get_hovered_card_idx(), Some(2));
    s.inc_hovered_card();
    assert_eq!(s.get_hovered_card_idx(), Some(0));
    s.dec_hovered_card();
    assert_eq!(s.get_hovered_card_idx(), Some(2));
    assert!(s.set_hovered_card(1).is_ok());
    assert!(matches!(s.set_hovered_card(3), Err(CardStackError::InvalidCardSelection)));
    assert_eq!(s.peek_prev_card().unwrap().peek_inner(), &FrenchCard::Spades(FrenchRank::Pip(1)));
    assert_eq!(s.peek_next_card().unwrap().peek_inner(), &FrenchCard::Clubs(FrenchRank::Pip(3)));
    let taken = s.take_hovered_stack().unwrap();
    assert_eq!(s.len(), 1);
    assert_eq!(taken.len(), 2);
    // Playing the taken cards back gives the stack back
    let mut back: Vec<FlippableCard<FrenchCard>> = taken.into();
    assert!(s.play_cards(&mut back).is_ok());
    assert!(back.is_empty());
    assert_eq!(s.len(), 3);
    assert_eq!(s.last().unwrap().peek_inner(), &FrenchCard::Clubs(FrenchRank::Pip(3)));
    s.unhover();
    assert_eq!(s.take_hovered_card().map(|c| c.into_inner()), None);
}

#[test]
fn card_stack_limit_refuses() {
    // A new stack is unlimited, whatever limit is passed; the limit is set afterwards
    let mut s: CardStack<FlippableCard<FrenchCard>> = CardStack::new(CardStackVariant::VerticalTtB, Some(1));
    assert_eq!(s.get_lim(), None);
    s.set_lim(1);
    assert!(s.play_to(fc(FrenchCard::Joker)).is_ok());
    match s.play_to(fc(FrenchCard::Hearts(FrenchRank::King))) {
        Err(c) => assert_eq!(c.into_inner(), FrenchCard::Hearts(FrenchRank::King)),
        Ok(()) => panic!("a full stack accepted a card"),
    }
    let mut more = vec![fc(FrenchCard::Joker)];
    assert!(matches!(s.play_cards(&mut more), Err(CardStackError::CardStackOverflow)));
    assert_eq!(more.len(), 1);
    assert_eq!(s.get_lim(), Some(1));
    s.unset_lim();
    assert!(s.play_cards(&mut more).is_ok());
    assert_eq!(s.gather_cards().len(), 2);
    assert_eq!(s.len(), 0);
}

#[test]
fn standard_deck_and_drawing() {
    let mut d = Deck::new_standard_french_deck(true, true, None);
    assert_eq!(d.inner_deck().len(), 52);
    assert_eq!(d.peek_bottom().unwrap().peek_inner(), &FrenchCard::Spades(FrenchRank::Pip(1)));
    assert_eq!(d.peek_top().unwrap().peek_inner(), &FrenchCard::Diamonds(FrenchRank::King));
    let top = d.draw_card().unwrap();
    assert_eq!(top.peek_inner(), &FrenchCard::Diamonds(FrenchRank::King));
    // Pushing a card back and drawing it again gives it back
    d.push(top);
    assert_eq!(d.draw_card().unwrap().into_inner(), FrenchCard::Diamonds(FrenchRank::King));
    assert_eq!(d.inner_deck().len(), 51);
    let five = d.draw_n(5).unwrap();
    assert_eq!(five.len(), 5);
    assert_eq!(d.inner_deck().len(), 46);
    let mut rest = d.draw_n(100).unwrap_err();
    assert_eq!(rest.len(), 46);
    assert_eq!(d.inner_deck().len(), 0);
    d.add_cards(&mut rest);
    assert_eq!(d.inner_deck().len(), 46);
    let jokers = Deck::new_joker_french_deck(None, false);
    assert_eq!(jokers.inner_deck().len(), 54);
    assert_eq!(jokers.peek_top().unwrap().peek_inner(), &FrenchCard::Joker);
}

#[test]
fn deck_discard_errors_and_replenish() {
    let mut no_discard: Deck<FlippableCard<FrenchCard>> = Deck::new_empty(None);
    assert_eq!(no_discard.top_deck_discard_default(), Err(DeckError::NoDefaultDiscard));
    assert_eq!(no_discard.replenish_default(), Err(DeckError::NoDefaultDiscard));
    let mut d = Deck::new_with_default_discard(Vec::new(), true, None);
    assert_eq!(d.top_deck_discard_default(), Err(DeckError::DrawOnEmptyDeck));
    assert_eq!(d.top_face_up(), Err(DeckError::NoValidCard));
    d.push(fc(FrenchCard::Spades(FrenchRank::Pip(2))));
    d.push(fc(FrenchCard::Hearts(FrenchRank::Pip(3))));
    d.all_face_down();
    assert!(d.top_deck_discard_default_flip().is_ok());
    let shown = d.displayed_discard().unwrap();
    assert_eq!(shown.len(), 1);
    assert!(shown[0].peek_inner_checked().is_some());
    assert_eq!(d.draw_discard().unwrap().into_inner(), FrenchCard::Hearts(FrenchRank::Pip(3)));
    let mut back = vec![fc(FrenchCard::Clubs(FrenchRank::Pip(4)))];
    assert!(d.play_cards_to_discard(&mut back).is_ok());
    assert!(d.replenish_default().is_ok());
    assert_eq!(d.inner_deck().len(), 2);
    assert_eq!(d.peek_bottom().unwrap().peek_inner(), &FrenchCard::Clubs(FrenchRank::Pip(4)));
    assert_eq!(d.displayed_discard().unwrap().len(), 0);
}

#[test]
fn deck_reverse_and_shuffle() {
    let mut d = Deck::new_standard_french_deck(false, false, None);
    d.reverse();
    assert_eq!(d.peek_bottom().unwrap().peek_inner(), &FrenchCard::Diamonds(FrenchRank::King));
    d.reverse();
    assert_eq!(d.peek_bottom().unwrap().peek_inner(), &FrenchCard::Spades(FrenchRank::Pip(1)));
    let before: Vec<FrenchCard> = d.inner_deck().iter().map(|c| *c.peek_inner()).collect();
    d.shuffle();
    let after: Vec<FrenchCard> = d.inner_deck().iter().map(|c| *c.peek_inner()).collect();
    assert_eq!(after.len(), 52);
    for c in &before {
        assert_eq!(after.iter().filter(|x| *x == c).count(), 1);
    }
}

#[test]
fn deck_toggle_twice() {
    let mut t = DeckToggle::Deck;
    t.toggle();
    assert_eq!(t, DeckToggle::Discard);
    t.toggle();
    assert_eq!(t, DeckToggle::Deck);
    let mut d: Deck<FlippableCard<FrenchCard>> = Deck::new_with_default_discard(Vec::new(), true, Some((1, 2)));
    assert_eq!(d.is_hovered(), None);
    d.hover_deck();
    d.toggle_deck_hover();
    assert_eq!(d.is_hovered(), Some(DeckToggle::Discard));
    d.unhover();
    assert_eq!(d.is_hovered(), None);
    assert_eq!(d.get_pos(), Some((1, 2)));
    // Without a discard pile the hover stays on the deck
    let mut no_discard: Deck<FlippableCard<FrenchCard>> = Deck::new_empty(None);
    no_discard.hover_deck();
    no_discard.toggle_deck_hover();
    assert_eq!(no_discard.is_hovered(), Some(DeckToggle::Deck));
}

#[test]
fn tableau_stacks_and_hover() {
    let mut t: Tableau<FlippableCard<FrenchCard>> =
        Tableau::new(TableauVariant::VerticalTtB, CardStackVariant::HorizontalLtR, 3, None);
    assert_eq!(t.num_stacks(), 3);
    assert!(t.play_card_to_stack(fc(FrenchCard::Joker), 1).is_ok());
    assert!(t.play_card_to_stack(fc(FrenchCard::Joker), 3).is_err());
    let mut cards = vec![fc(FrenchCard::Spades(FrenchRank::King)), fc(FrenchCard::Hearts(FrenchRank::Queen))];
    assert!(t.play_cards_to_stack(&mut cards, 2).is_ok());
    let mut none = vec![fc(FrenchCard::Joker)];
    assert!(matches!(t.play_cards_to_stack(&mut none, 7), Err(TableauError::InvalidStackSelection)));
    assert!(matches!(t.play_cards_to_hovered_stack(&mut none), Err(TableauError::InvalidHoveredStack)));
    t.hover();
    assert_eq!(t.hovered_stack(), Some(0));
    t.dec_hovered_stack();
    assert_eq!(t.hovered_stack(), Some(2));
    t.update_hovered_stack();
    assert_eq!(t.get_hovered_card().unwrap().peek_inner(), &FrenchCard::Hearts(FrenchRank::Queen));
    t.inc_hovered_stack();
    assert_eq!(t.hovered_stack(), Some(0));
    assert_eq!(t.stacks(0..3).unwrap().len(), 3);
    assert!(t.stacks(2..5).is_none());
    assert_eq!(t[2].len(), 2);
    let all = t.gather_all();
    assert_eq!(all.len(), 3);
    assert_eq!(t[1].len(), 0);
    t.unhover();
    assert_eq!(t.hovered_stack(), None);
}

#[test]
fn card_texts() {
    assert_eq!(FrenchCard::Spades(FrenchRank::Pip(1)).to_string(), "A♠");
    assert_eq!(FrenchCard::Hearts(FrenchRank::Pip(10)).to_string(), "\x1b[91m10♥\x1b[37m");
    assert_eq!(FrenchCard::Clubs(FrenchRank::Jack).to_string(), "J♣");
    assert_eq!(FrenchCard::Diamonds(FrenchRank::Pip(7)).to_string(), "\x1b[91m7♦\x1b[37m");
    assert_eq!(FrenchCard::Joker.to_string(), "Jk");
    assert_eq!(FrenchRank::Pip(42).to_string(), "42");
    let mut c = fc(FrenchCard::Clubs(FrenchRank::King));
    assert_eq!(c.to_string(), "K♣");
    c.flip();
    assert_eq!(c.to_string(), "XX");
    assert_eq!(ItalianCard::Cups(ItalianRank::Knight).to_string(), "k♥");
    assert_eq!(ItalianCard::Swords(ItalianRank::Pip(1)).to_string(), "A♠");
    assert_eq!(TarocchiCard::Coins(TarocchiRank::Queen).to_string(), "Q♦");
    assert_eq!(TarotCard::Trump(TarotTrumps::Moon).to_string(), "XVIII");
    assert_eq!(TarotCard::Batons(TarocchiRank::Pip(9)).to_string(), "9♣");
    assert_eq!(FiveCrownsCard::Stars(FrenchRank::Pip(3)).to_string(), "\x1b[93m3★\x1b[37m");
    assert_eq!(FiveCrownsCard::Joker.to_string(), "\x1b[91mJ\x1b[92mk\x1b[93mr\x1b[37m");
}

#[test]
fn width_is_the_length_of_the_text() {
    let italian = [ItalianCard::Swords(ItalianRank::Pip(10)), ItalianCard::Coins(ItalianRank::King)];
    for c in italian {
        assert_eq!(c.str_len(), c.to_string().chars().count());
    }
    let tarot = [TarotCard::Trump(TarotTrumps::Judgement), TarotCard::Cups(TarocchiRank::Pip(1234))];
    for c in tarot {
        assert_eq!(c.str_len(), c.to_string().chars().count());
    }
    let five = [FiveCrownsCard::Hearts(FrenchRank::Pip(10)), FiveCrownsCard::Joker, FiveCrownsCard::Spades(FrenchRank::Queen)];
    for c in five {
        assert_eq!(c.str_len(), c.to_string().chars().count());
    }
    assert_eq!(TarocchiCard::Cups(TarocchiRank::Pip(77)).str_len(), TarocchiCard::Cups(TarocchiRank::Pip(77)).to_string().chars().count());
}

#[test]
fn stack_deck_and_tableau_texts() {
    let mut s = CardStack::new_from(
        vec![fc(FrenchCard::Spades(FrenchRank::Pip(1))), fc(FrenchCard::Spades(FrenchRank::King))],
        CardStackVariant::Flush,
        None,
    );
    assert_eq!(s.to_string(), "A♠ K♠ ");
    s.hover();
    assert_eq!(s.to_string(), "A♠ \x1b[100mK♠\x1b[40m ");
    let mut empty: CardStack<FlippableCard<FrenchCard>> = CardStack::new(CardStackVariant::Flush, None);
    assert_eq!(empty.to_string(), "");
    empty.hover();
    assert_eq!(empty.to_string(), "\x1b[100m  \x1b[40m");
    let mut d = Deck::new_with_default_discard(vec![fc(FrenchCard::Joker)], true, None);
    d.push(fc(FrenchCard::Clubs(FrenchRank::Pip(2))));
    d.push(fc(FrenchCard::Clubs(FrenchRank::Pip(3))));
    assert_eq!(d.to_string(), "2♣ 3♣\n=> Jk");
    d.hover_discard();
    assert_eq!(d.to_string(), "2♣ 3♣\n=> \x1b[100mJk\x1b[40m");
    let mut t: Tableau<FlippableCard<FrenchCard>> = Tableau::new(TableauVariant::VerticalTtB, CardStackVariant::Flush, 2, None);
    assert!(t.play_card_to_stack(fc(FrenchCard::Joker), 0).is_ok());
    assert_eq!(t.to_string(), "||Jk \n||\n");
}

#[test]
fn rank_steps_undo_each_other() {
    for r in [ItalianRank::Pip(1), ItalianRank::Pip(10), ItalianRank::Jack, ItalianRank::Knight] {
        assert_eq!(r.next().unwrap().prev(), Some(r));
    }
    for r in [ItalianRank::Pip(2), ItalianRank::Jack, ItalianRank::King] {
        assert_eq!(r.prev().unwrap().next(), Some(r));
    }
    for r in [TarocchiRank::Pip(5), TarocchiRank::Pip(10), TarocchiRank::Knight, TarocchiRank::Queen] {
        assert_eq!(r.next().unwrap().prev(), Some(r));
        assert_eq!(r.prev().unwrap().next(), Some(r));
    }
    // Pip(11) goes down to the 10, whose next rank is the Jack
    assert_eq!(TarocchiRank::Pip(11).prev().unwrap().next(), Some(TarocchiRank::Jack));
    let mut t = TarotTrumps::Fool;
    let mut count = 0;
    while let Some(n) = t.next() {
        assert_eq!(n.prev(), Some(t));
        t = n;
        count += 1;
    }
    assert_eq!(t, TarotTrumps::World);
    assert_eq!(count, 21);
}

#[test]
fn shuffle_with_given_picks() {
    let mut d: Deck<FlippableCard<FrenchCard>> = Deck::new_empty(None);
    d.push(fc(FrenchCard::Spades(FrenchRank::Pip(1))));
    d.push(fc(FrenchCard::Spades(FrenchRank::Pip(2))));
    d.push(fc(FrenchCard::Spades(FrenchRank::Pip(3))));
    // Step 0 swaps position 2 with 0, step 1 swaps position 1 with 0
    d.shuffle_with(&vec![0, 0]);
    let order: Vec<FrenchCard> = d.inner_deck().iter().map(|c| *c.peek_inner()).collect();
    assert_eq!(
        order,
        vec![FrenchCard::Spades(FrenchRank::Pip(2)), FrenchCard::Spades(FrenchRank::Pip(3)), FrenchCard::Spades(FrenchRank::Pip(1))]
    );
    // Picking each step's own position leaves the order as it is
    d.shuffle_with(&vec![2, 1]);
    let again: Vec<FrenchCard> = d.inner_deck().iter().map(|c| *c.peek_inner()).collect();
    assert_eq!(again, order);
}

#[test]
fn flipping_twice_gives_the_card_back() {
    for up in [true, false] {
        let mut c = fc(FrenchCard::Diamonds(FrenchRank::Pip(6)));
        if !up {
            c.flip_face_down();
        }
        c.flip();
        assert_eq!(c.peek_inner_checked().is_some(), !up);
        c.flip();
        assert_eq!(c.peek_inner_checked().is_some(), up);
        assert_eq!(*c.peek_inner(), FrenchCard::Diamonds(FrenchRank::Pip(6)));
    }
}
