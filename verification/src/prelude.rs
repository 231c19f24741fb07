pub use crate::cards::{Card, Rank, FlippableCard};
pub use crate::cards::french_card::FrenchCard;
pub use crate::cards::italian_card::ItalianCard;
pub use crate::cards::five_crowns_card::FiveCrownsCard;
pub use crate::cards::tarocchi_card::TarocchiCard;
pub use crate::cards::tarot_card::TarotCard;
