# card_games

A library for building playable card games in the terminal, with Klondike solitaire as the
first game, verified with Verus.

- `src/cards/`: cards (French, Italian, Tarocchi, Tarot, Five Crowns, and face-up/face-down
  wrappers), card stacks, decks with a discard pile, and tableaus of stacks. Each type has an
  abstract view; every operation states its effect on that view.
- `src/game/klondike.rs`: Klondike. The board keeps exactly the 52 cards of a standard deck
  through every input; `handle_input` decides what each key press does and what the terminal
  should do next; dealing, drawing from the talon, picking up, placing by the rules, putting
  back, undoing and winning are stated over the board.
- `src/game/canfield.rs`: dealing and drawing for Canfield.
- `src/game/card_count.rs`: counting cards across piles.
- `src/ui/`: boxed and centred messages.
- `src/card.rs`, `src/deck.rs`, `src/hand.rs`, `src/player.rs`, `src/stack.rs`: an earlier,
  simpler card model (suit-and-rank cards, a deck, a hand, a player, a stack).
- `app/`: the terminal program: it reads key presses with crossterm, hands them to the game
  and draws the board.

Everything in `src/` is verified except two trusted calls: the chance picks of a shuffle come
from `rand`, and exchanging two cards uses std's slice `swap`.
