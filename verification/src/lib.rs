pub mod cards;
pub(crate) mod vec_ops;
pub mod game;
pub mod ui;
pub mod card;
pub mod deck;
pub mod hand;
pub mod player;
pub mod stack;
pub mod prelude;
