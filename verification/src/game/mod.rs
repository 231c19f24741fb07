pub mod card_count;
pub mod klondike;
pub mod canfield;
