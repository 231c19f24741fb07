use card_games::card::{Flippable, FrenchRank, FrenchSuit, SuitRankCard};
use card_games::cards::PlayTo;
use card_games::deck::Deck;
use card_games::hand::Hand;
use card_games::player::Player;
use card_games::stack::{Stack, StackVariant};

#[test]
fn suit_rank_card_flips() {
    let mut c = SuitRankCard::new(FrenchSuit::Hearts, FrenchRank::Queen);
    c.flip();
    c.flip_face_up();
    c.flip_face_down();
    let d: Deck<SuitRankCard<FrenchSuit, FrenchRank>> = Deck::new_empty();
    assert_eq!(d.get_inner_deck().len(), 0);
}

#[test]
fn legacy_standard_deck() {
    let mut d = Deck::new_standard_french_deck();
    assert_eq!(d.get_inner_deck().len(), 52);
    assert!(d.draw().is_ok());
    assert_eq!(d.get_inner_deck().len(), 51);
    d.shuffle();
    assert_eq!(d.get_inner_deck().len(), 51);
    d.all_face_down();
    d.all_face_up();
    let mut empty: Deck<SuitRankCard<FrenchSuit, FrenchRank>> = Deck::new_empty();
    assert_eq!(empty.draw().err(), Some(""));
}

#[test]
fn legacy_replenish_copies_into_the_deck() {
    let mut d = Deck::new_standard_french_deck();
    let card = d.draw().unwrap();
    d.get_inner_deck_mut().truncate(2);
    d.push(card);
    assert_eq!(d.get_inner_deck().len(), 3);
    // The discard pile takes the deck and the deck becomes a copy of it
    d.replenish(None, false);
    assert_eq!(d.get_inner_deck().len(), 3);
    let mut other = Deck::new_standard_french_deck();
    d.replenish(Some(&mut other), true);
    assert_eq!(d.get_inner_deck().len(), 55);
    assert_eq!(other.get_inner_deck().len(), 55);
}

#[test]
fn player_and_stack() {
    let mut p: Player<SuitRankCard<FrenchSuit, FrenchRank>> = Player::new(String::from("Ann"));
    assert_eq!(p.name, "Ann");
    p.set_selected_card(3);
    p.dec_selected_card();
    let mut discard = Deck::new_empty();
    p.discard_to_deck(SuitRankCard::new(FrenchSuit::Clubs, FrenchRank::Pip(2)), &mut discard);
    assert_eq!(discard.get_inner_deck().len(), 1);
    let h: Hand<SuitRankCard<FrenchSuit, FrenchRank>> = Hand::new_empty();
    assert!(h.hand.is_empty());
    let mut s = Stack::new(Some(StackVariant::FanVertical), Some(2));
    assert!(s.play_to(SuitRankCard::new(FrenchSuit::Spades, FrenchRank::King)).is_ok());
    let _ = Stack::<SuitRankCard<FrenchSuit, FrenchRank>>::new(None, None);
}

#[test]
fn legacy_texts() {
    assert_eq!(FrenchRank::Pip(0).to_string(), "A");
    assert_eq!(FrenchRank::Pip(5).to_string(), "5");
    assert_eq!(FrenchRank::Queen.to_string(), "Q");
    assert_eq!(FrenchSuit::Diamonds.to_string(), "♦");
    assert_eq!(card_games::card::ItalianRank::Knight.to_string(), "k");
    assert_eq!(card_games::card::ItalianSuit::Batons.to_string(), "♣");
    assert_eq!(card_games::card::TarocchiRank::Pip(12).to_string(), "12");
}

#[test]
fn legacy_shuffle_with_given_picks() {
    let mut d = Deck::new_standard_french_deck();
    d.get_inner_deck_mut().truncate(3);
    let before: Vec<String> = d.get_inner_deck().iter().map(|c| format!("{:?}", c)).collect();
    d.shuffle_with(&vec![0, 0]);
    let after: Vec<String> = d.get_inner_deck().iter().map(|c| format!("{:?}", c)).collect();
    assert_eq!(after, vec![before[1].clone(), before[2].clone(), before[0].clone()]);
}
