use card_games::cards::deck::DeckToggle;
use card_games::cards::french_card::{FrenchCard, FrenchRank};
use card_games::game::klondike::{KlondikeAction, KlondikeGame, KlondikeGameElement, KlondikeInput};

fn all_cards(game: &KlondikeGame) -> Vec<FrenchCard> {
    let (talon, tableau, foundation, selected) = game.board_parts();
    let mut cards: Vec<FrenchCard> = talon.inner_deck().iter().map(|c| *c.peek_inner()).collect();
    if let Some(waste) = talon.displayed_discard() {
        cards.extend(waste.iter().map(|c| *c.peek_inner()));
    }
    for t in [tableau, foundation] {
        for s in t.stacks(0..t.num_stacks()).unwrap() {
            let v: Vec<_> = s.clone().into();
            cards.extend(v.iter().map(|c| *c.peek_inner()));
        }
    }
    cards.extend(selected.iter().map(|c| *c.peek_inner()));
    cards
}

fn assert_standard_deck(game: &KlondikeGame) {
    let cards = all_cards(game);
    assert_eq!(cards.len(), 52);
    for c in &cards {
        assert!(*c != FrenchCard::Joker);
        assert_eq!(cards.iter().filter(|x| *x == c).count(), 1);
    }
}

fn new_game() -> KlondikeGame {
    let mut game = KlondikeGame::new();
    game.init();
    game
}

fn talon_sizes(game: &KlondikeGame) -> (usize, usize) {
    let (talon, _, _, _) = game.board_parts();
    (talon.inner_deck().len(), talon.displayed_discard().unwrap().len())
}

#[test]
fn next_element_cycles_in_three() {
    let mut e = KlondikeGameElement::Talon;
    e.next_element();
    assert_eq!(e, KlondikeGameElement::Tableau);
    e.next_element();
    assert_eq!(e, KlondikeGameElement::Foundation);
    e.next_element();
    assert_eq!(e, KlondikeGameElement::Talon);
}

#[test]
fn new_game_holds_the_standard_deck() {
    let game = KlondikeGame::new();
    assert_standard_deck(&game);
    let (talon, tableau, foundation, selected) = game.board_parts();
    assert_eq!(talon.inner_deck().len(), 52);
    assert_eq!(tableau.num_stacks(), 7);
    assert_eq!(foundation.num_stacks(), 4);
    assert!(selected.is_empty());
}

#[test]
fn init_deals_the_klondike_layout() {
    let game = new_game();
    assert_standard_deck(&game);
    let (talon, tableau, foundation, selected) = game.board_parts();
    assert_eq!(talon.inner_deck().len(), 21);
    assert!(talon.inner_deck().iter().all(|c| c.peek_inner_checked().is_none()));
    let waste = talon.displayed_discard().unwrap();
    assert_eq!(waste.len(), 3);
    assert!(waste.iter().all(|c| c.peek_inner_checked().is_some()));
    assert_eq!(talon.is_hovered(), Some(DeckToggle::Deck));
    let stacks = tableau.stacks(0..7).unwrap();
    for (k, s) in stacks.iter().enumerate() {
        let cards: Vec<_> = s.clone().into();
        assert_eq!(cards.len(), k + 1);
        for (j, c) in cards.iter().enumerate() {
            assert_eq!(c.peek_inner_checked().is_some(), j == k);
        }
        assert_eq!(s.get_hovered_card_idx(), None);
    }
    assert_eq!(tableau.hovered_stack(), None);
    assert!(foundation.stacks(0..4).unwrap().iter().all(|s| s.len() == 0));
    assert!(selected.is_empty());
}

#[test]
fn select_on_deck_draws_three_and_undo_restores() {
    let mut game = new_game();
    let before = all_cards(&game);
    assert_eq!(game.handle_input(KlondikeInput::Select), KlondikeAction::Redraw);
    assert_eq!(talon_sizes(&game), (18, 6));
    assert_standard_deck(&game);
    assert_eq!(game.handle_input(KlondikeInput::Undo), KlondikeAction::Redraw);
    assert_eq!(talon_sizes(&game), (21, 3));
    assert_eq!(all_cards(&game), before);
    // Nothing left to undo: nothing changes
    assert_eq!(game.handle_input(KlondikeInput::Undo), KlondikeAction::Redraw);
    assert_eq!(all_cards(&game), before);
}

#[test]
fn drawing_recycles_the_waste() {
    let mut game = new_game();
    for _ in 0..7 {
        assert!(game.draw_from_talon().is_ok());
    }
    assert_eq!(talon_sizes(&game), (0, 24));
    assert!(game.draw_from_talon().is_ok());
    assert_eq!(talon_sizes(&game), (21, 3));
    assert_standard_deck(&game);
}

#[test]
fn cycling_moves_the_hover() {
    let mut game = new_game();
    game.handle_input(KlondikeInput::Cycle);
    {
        let (talon, tableau, foundation, _) = game.board_parts();
        assert_eq!(talon.is_hovered(), None);
        assert_eq!(tableau.hovered_stack(), Some(0));
        assert_eq!(foundation.hovered_stack(), None);
    }
    game.handle_input(KlondikeInput::Down);
    assert_eq!(game.board_parts().1.hovered_stack(), Some(1));
    game.handle_input(KlondikeInput::Up);
    game.handle_input(KlondikeInput::Up);
    assert_eq!(game.board_parts().1.hovered_stack(), Some(6));
    game.handle_input(KlondikeInput::Cycle);
    {
        let (_, tableau, foundation, _) = game.board_parts();
        assert_eq!(tableau.hovered_stack(), None);
        assert_eq!(foundation.hovered_stack(), Some(0));
    }
    game.handle_input(KlondikeInput::Cycle);
    assert_eq!(game.board_parts().0.is_hovered(), Some(DeckToggle::Deck));
    assert_standard_deck(&game);
}

#[test]
fn down_then_up_on_talon_restores() {
    let mut game = new_game();
    game.handle_input(KlondikeInput::Down);
    assert_eq!(game.board_parts().0.is_hovered(), Some(DeckToggle::Discard));
    game.handle_input(KlondikeInput::Up);
    assert_eq!(game.board_parts().0.is_hovered(), Some(DeckToggle::Deck));
}

#[test]
fn pick_from_waste_and_deselect() {
    let mut game = new_game();
    let top = *game.board_parts().0.displayed_discard().unwrap()[2].peek_inner();
    game.handle_input(KlondikeInput::Down);
    game.handle_input(KlondikeInput::Select);
    {
        let (_, _, _, selected) = game.board_parts();
        assert_eq!(selected.len(), 1);
        assert_eq!(*selected[0].peek_inner(), top);
    }
    assert_eq!(talon_sizes(&game), (21, 2));
    game.handle_input(KlondikeInput::Deselect);
    assert!(game.board_parts().3.is_empty());
    assert_eq!(talon_sizes(&game), (21, 3));
    assert_eq!(*game.board_parts().0.displayed_discard().unwrap()[2].peek_inner(), top);
    assert_standard_deck(&game);
}

#[test]
fn left_and_right_stay_on_face_up_cards() {
    let mut game = new_game();
    game.handle_input(KlondikeInput::Cycle);
    game.handle_input(KlondikeInput::Down);
    // Column 1 holds a face-down card under a face-up one, which is hovered
    let hovered = |g: &KlondikeGame| g.board_parts().1.stacks(1..2).unwrap()[0].get_hovered_card_idx();
    assert_eq!(hovered(&game), Some(1));
    game.handle_input(KlondikeInput::Left);
    assert_eq!(hovered(&game), Some(1));
    game.handle_input(KlondikeInput::Right);
    assert_eq!(hovered(&game), Some(1));
}

#[test]
fn exit_other_and_new_game() {
    let mut game = new_game();
    let before = all_cards(&game);
    assert_eq!(game.handle_input(KlondikeInput::Exit), KlondikeAction::Quit);
    assert_eq!(game.handle_input(KlondikeInput::Other), KlondikeAction::Redraw);
    assert_eq!(all_cards(&game), before);
    game.handle_input(KlondikeInput::Select);
    assert_eq!(game.handle_input(KlondikeInput::NewGame), KlondikeAction::ClearScreen);
    assert_eq!(talon_sizes(&game), (21, 3));
    assert_standard_deck(&game);
    // A new game has nothing to undo
    let after = all_cards(&game);
    game.handle_input(KlondikeInput::Undo);
    assert_eq!(all_cards(&game), after);
}

#[test]
fn picking_from_an_empty_foundation_does_nothing() {
    let mut game = new_game();
    game.handle_input(KlondikeInput::Cycle);
    game.handle_input(KlondikeInput::Cycle);
    let before = all_cards(&game);
    assert_eq!(game.handle_input(KlondikeInput::Select), KlondikeAction::Redraw);
    assert!(game.board_parts().3.is_empty());
    assert_eq!(all_cards(&game), before);
}

#[test]
fn a_new_game_can_be_played_before_dealing() {
    let mut game = KlondikeGame::new();
    assert_eq!(game.handle_input(KlondikeInput::Down), KlondikeAction::Redraw);
    assert_eq!(game.board_parts().0.is_hovered(), None);
    assert_eq!(game.handle_input(KlondikeInput::Deselect), KlondikeAction::Redraw);
    for _ in 0..3 {
        game.handle_input(KlondikeInput::Cycle);
    }
    assert_eq!(game.board_parts().0.is_hovered(), Some(DeckToggle::Deck));
    assert_eq!(game.handle_input(KlondikeInput::Select), KlondikeAction::Redraw);
    let (talon, _, _, selected) = game.board_parts();
    assert_eq!(talon.inner_deck().len(), 49);
    let waste: Vec<FrenchCard> = talon.displayed_discard().unwrap().iter().map(|c| *c.peek_inner()).collect();
    assert_eq!(
        waste,
        vec![
            FrenchCard::Diamonds(FrenchRank::King),
            FrenchCard::Clubs(FrenchRank::King),
            FrenchCard::Hearts(FrenchRank::King)
        ]
    );
    assert!(selected.is_empty());
    assert_standard_deck(&game);
}
