use vstd::prelude::*;

verus! {

/// Why an operation on cards, decks or hands could not be carried out.
#[derive(Copy, Clone, Debug, PartialEq, Eq, Hash, Structural)]
pub enum CardError {
    /// A card was asked of a deck that has no undealt card left.
    EmptyDeck,
    /// A character does not stand for any rank, or for any suit.
    InvalidEncoding,
    /// A string is not the two-character code of a card.
    InvalidCardString,
    /// A position does not exist in the hand.
    IndexOutOfRange,
}

} // verus!
