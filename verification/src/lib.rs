//! A standard deck of playing cards: ranks, suits and cards, a deck that is
//! dealt from, shuffled and reset, and hands that collect cards and put them
//! in order.

pub mod card;
pub mod cards;
pub mod compare;
pub mod deck;
pub mod error;
pub mod hand;
pub mod order;
mod random;
pub mod rank;
pub mod suit;

pub use card::Card;
pub use cards::{cards_of_rank, cards_of_suit, Cards};
pub use deck::{Deck, DeckStep, DeckView};
pub use error::CardError;
pub use hand::Hand;
pub use order::CardOrder;
pub use rank::Rank;
pub use suit::Suit;
