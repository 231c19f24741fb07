use card_games::cards::deck::DeckError;
use card_games::game::canfield::Canfield;

#[test]
fn canfield_draws_until_the_talon_runs_short() {
    let mut game = Canfield::new_game_default();
    game.init_game();
    // 34 cards stay in the talon: eleven full draws, then one card short
    for _ in 0..11 {
        assert_eq!(game.draw_talon(), Ok(()));
    }
    assert_eq!(game.draw_talon(), Err(DeckError::DrawOnEmptyDeck));
    // The empty talon is refilled from its waste
    assert_eq!(game.draw_talon(), Ok(()));
}

#[test]
fn canfield_deals_again() {
    let mut game = Canfield::new_game_default();
    game.init_game();
    game.init_game();
    for _ in 0..11 {
        assert_eq!(game.draw_talon(), Ok(()));
    }
    assert_eq!(game.draw_talon(), Err(DeckError::DrawOnEmptyDeck));
}

#[test]
fn canfield_draws_from_a_fresh_talon() {
    let mut game = Canfield::new_game_default();
    for _ in 0..17 {
        assert_eq!(game.draw_talon(), Ok(()));
    }
    assert_eq!(game.draw_talon(), Err(DeckError::DrawOnEmptyDeck));
}
