use crate::compare::{lexicographic, ordering_of, reverse_of, reversed};
use crate::error::CardError;
use crate::rank::Rank;
use crate::suit::Suit;
use std::cmp::Ordering;
use std::slice::Iter;
use vstd::prelude::*;
use vstd::std_specs::iter::IteratorSpec;
use vstd::std_specs::slice::into_iter_elts;
use vstd::string::*;

verus! {

/// A playing card has a rank and a suit.
#[derive(Copy, Clone, Hash, PartialEq, Eq, Ord, Debug, Structural)]
pub struct Card {
    /// The card's rank, e.g. Jack
    pub rank: Rank,
    /// The card's suit, e.g. Hearts
    pub suit: Suit,
}

/// The one-character string that stands for a rank.
fn rank_code(rank: Rank) -> (s: &'static str)
    ensures
        s@ == seq![rank.spec_char()],
{
    match rank {
        Rank::Two => {
            proof {
                reveal_strlit("2");
            }
            "2"
        },
        Rank::Three => {
            proof {
                reveal_strlit("3");
            }
            "3"
        },
        Rank::Four => {
            proof {
                reveal_strlit("4");
            }
            "4"
        },
        Rank::Five => {
            proof {
                reveal_strlit("5");
            }
            "5"
        },
        Rank::Six => {
            proof {
                reveal_strlit("6");
            }
            "6"
        },
        Rank::Seven => {
            proof {
                reveal_strlit("7");
            }
            "7"
        },
        Rank::Eight => {
            proof {
                reveal_strlit("8");
            }
            "8"
        },
        Rank::Nine => {
            proof {
                reveal_strlit("9");
            }
            "9"
        },
        Rank::Ten => {
            proof {
                reveal_strlit("T");
            }
            "T"
        },
        Rank::Jack => {
            proof {
                reveal_strlit("J");
            }
            "J"
        },
        Rank::Queen => {
            proof {
                reveal_strlit("Q");
            }
            "Q"
        },
        Rank::King => {
            proof {
                reveal_strlit("K");
            }
            "K"
        },
        Rank::Ace => {
            proof {
                reveal_strlit("A");
            }
            "A"
        },
    }
}

/// The one-character string that stands for a suit.
fn suit_code(suit: Suit) -> (s: &'static str)
    ensures
        s@ == seq![suit.spec_char()],
{
    match suit {
        Suit::Spades => {
            proof {
                reveal_strlit("S");
            }
            "S"
        },
        Suit::Hearts => {
            proof {
                reveal_strlit("H");
            }
            "H"
        },
        Suit::Diamonds => {
            proof {
                reveal_strlit("D");
            }
            "D"
        },
        Suit::Clubs => {
            proof {
                reveal_strlit("C");
            }
            "C"
        },
    }
}

impl PartialOrd for Card {
    /// Compares by rank and then suit.
    fn partial_cmp(&self, other: &Card) -> (r: Option<Ordering>) {
        Some(self.cmp(other))
    }
}

impl vstd::std_specs::cmp::PartialOrdSpecImpl for Card {
    open spec fn obeys_partial_cmp_spec() -> bool {
        true
    }

    open spec fn partial_cmp_spec(&self, other: &Card) -> Option<Ordering> {
        Some(self.rank_then_suit(*other))
    }
}

impl Card {
    /// The number that identifies the card among the 52 of a standard deck:
    /// thirteen for each suit before its own, plus the position of its rank.
    pub open spec fn spec_ordinal(self) -> int {
        self.suit.spec_ordinal() * 13 + self.rank.spec_ordinal()
    }

    /// The card that the number `i` identifies.
    pub open spec fn from_ordinal(i: int) -> Card {
        Card { rank: Rank::from_ordinal(i % 13), suit: Suit::from_ordinal(i / 13) }
    }

    /// The 52 cards of a standard deck in their canonical order: suit by
    /// suit, and from Two up to Ace within each suit. The card at position
    /// `i` is the one that `i` identifies.
    pub open spec fn standard_deck() -> Seq<Card> {
        Seq::new(52, |i: int| Card::from_ordinal(i))
    }

    /// The two-character code of the card: its rank, then its suit.
    pub open spec fn code(self) -> Seq<char> {
        seq![self.rank.spec_char(), self.suit.spec_char()]
    }

    /// The English name of the card, e.g. "Ace of Spades".
    pub open spec fn spec_name(self) -> Seq<char> {
        self.rank.spec_name() + " of "@ + self.suit.spec_name()
    }

    /// The card that a string of characters stands for. The string holds
    /// two characters, one for a rank and one for a suit, in either order;
    /// where both orders could be read, rank then suit is.
    pub open spec fn parse(s: Seq<char>) -> Result<Card, CardError> {
        if s.len() != 2 {
            Err(CardError::InvalidCardString)
        } else if Rank::spec_from_char(s[0]) is Some && Suit::spec_from_char(s[1]) is Some {
            Ok(
                Card {
                    rank: Rank::spec_from_char(s[0])->Some_0,
                    suit: Suit::spec_from_char(s[1])->Some_0,
                },
            )
        } else if Suit::spec_from_char(s[0]) is Some && Rank::spec_from_char(s[1]) is Some {
            Ok(
                Card {
                    rank: Rank::spec_from_char(s[1])->Some_0,
                    suit: Suit::spec_from_char(s[0])->Some_0,
                },
            )
        } else {
            Err(CardError::InvalidCardString)
        }
    }

    /// How the card stands to another by rank, then by suit.
    pub open spec fn rank_then_suit(self, other: Card) -> Ordering {
        lexicographic(
            ordering_of(self.rank.spec_ordinal(), other.rank.spec_ordinal()),
            ordering_of(self.suit.spec_ordinal(), other.suit.spec_ordinal()),
        )
    }

    /// How the card stands to another by rank from high to low, then by
    /// suit. Only the ranks are turned round: the suits go as ever.
    pub open spec fn desc_rank_then_suit(self, other: Card) -> Ordering {
        lexicographic(
            reversed(ordering_of(self.rank.spec_ordinal(), other.rank.spec_ordinal())),
            ordering_of(self.suit.spec_ordinal(), other.suit.spec_ordinal()),
        )
    }

    /// How the card stands to another by suit, then by rank.
    pub open spec fn suit_then_rank(self, other: Card) -> Ordering {
        lexicographic(
            ordering_of(self.suit.spec_ordinal(), other.suit.spec_ordinal()),
            ordering_of(self.rank.spec_ordinal(), other.rank.spec_ordinal()),
        )
    }

    /// How the card stands to another by suit, then by rank from high to
    /// low. Only the ranks are turned round: the suits go as ever.
    pub open spec fn suit_then_desc_rank(self, other: Card) -> Ordering {
        lexicographic(
            ordering_of(self.suit.spec_ordinal(), other.suit.spec_ordinal()),
            reversed(ordering_of(self.rank.spec_ordinal(), other.rank.spec_ordinal())),
        )
    }

    /// Creates a card with the given rank and suit.
    pub fn new(rank: Rank, suit: Suit) -> (card: Card)
        ensures
            card == (Card { rank, suit }),
    {
        Card { rank: rank, suit: suit }
    }

    /// Compares by rank and then suit: the order of cards where none other
    /// is asked for.
    pub fn cmp(&self, other: &Card) -> (r: Ordering)
        ensures
            r == self.rank_then_suit(*other),
    {
        self.cmp_rank_then_suit(other)
    }

    /// Compares by rank and then suit.
    pub fn cmp_rank_then_suit(&self, other: &Card) -> (r: Ordering)
        ensures
            r == self.rank_then_suit(*other),
    {
        let result: Ordering = self.rank.cmp(&other.rank);
        match result {
            Ordering::Equal => self.suit.cmp(&other.suit),
            _ => result,
        }
    }

    /// Compares by descending rank and then suit.
    pub fn cmp_desc_rank_then_suit(&self, other: &Card) -> (r: Ordering)
        ensures
            r == self.desc_rank_then_suit(*other),
    {
        // Reverse order of the rank
        let result: Ordering = reverse_of(self.rank.cmp(&other.rank));
        match result {
            Ordering::Equal => self.suit.cmp(&other.suit),
            _ => result,
        }
    }

    /// Compares by suit and then rank.
    pub fn cmp_suit_then_rank(&self, other: &Card) -> (r: Ordering)
        ensures
            r == self.suit_then_rank(*other),
    {
        let result: Ordering = self.suit.cmp(&other.suit);
        match result {
            Ordering::Equal => self.rank.cmp(&other.rank),
            _ => result,
        }
    }

    /// Compares by suit and then descending rank.
    pub fn cmp_suit_then_desc_rank(&self, other: &Card) -> (r: Ordering)
        ensures
            r == self.suit_then_desc_rank(*other),
    {
        let result: Ordering = self.suit.cmp(&other.suit);
        match result {
            Ordering::Equal => reverse_of(self.rank.cmp(&other.rank)),
            _ => result,
        }
    }

    /// Creates a card from its two-character code, e.g. "AS" returns the Ace
    /// of Spades. The rank and the suit may stand in either order, and an
    /// Ace may be written '1'.
    pub fn from_str(s: &str) -> (r: Result<Card, CardError>)
        ensures
            r == Card::parse(s@),
    {
        if s.unicode_len() != 2 {
            return Err(CardError::InvalidCardString);
        }
        let c1 = s.get_char(0);
        let c2 = s.get_char(1);

        // Test rank / suit
        if let Ok(rank) = Rank::from_char(c1) {
            if let Ok(suit) = Suit::from_char(c2) {
                return Ok(Card::new(rank, suit));
            }
        }
        // Try suit / rank
        if let Ok(suit) = Suit::from_char(c1) {
            if let Ok(rank) = Rank::from_char(c2) {
                return Ok(Card::new(rank, suit));
            }
        }
        Err(CardError::InvalidCardString)
    }

    /// Turns the card into a short string consisting of rank, suit, e.g. "AS".
    pub fn to_str(&self) -> (s: String)
        ensures
            s@ == self.code(),
    {
        let result = String::from_str(rank_code(self.rank));
        let result = result.concat(suit_code(self.suit));
        assert(result@ =~= self.code());
        result
    }

    /// Returns an English formatted name of the card, e.g. "Ace of Spades".
    pub fn name(&self) -> (s: String)
        ensures
            s@ == self.spec_name(),
    {
        let mut name: String = String::from_str(self.rank.to_str());
        name = name.concat(" of ");
        name = name.concat(self.suit.to_str());
        name
    }

    /// Returns the number that identifies the card among the 52 of a
    /// standard deck, which can be used for indexing.
    pub fn ordinal(&self) -> (r: usize)
        ensures
            r == self.spec_ordinal(),
            r < 52,
    {
        self.suit.ordinal() * 13 + self.rank.ordinal()
    }

    /// Tests if the card is Hearts.
    pub fn is_hearts(&self) -> (b: bool)
        ensures
            b == (self.suit == Suit::Hearts),
    {
        self.suit == Suit::Hearts
    }

    /// Tests if the card is Clubs.
    pub fn is_clubs(&self) -> (b: bool)
        ensures
            b == (self.suit == Suit::Clubs),
    {
        self.suit == Suit::Clubs
    }

    /// Tests if the card is Spades.
    pub fn is_spades(&self) -> (b: bool)
        ensures
            b == (self.suit == Suit::Spades),
    {
        self.suit == Suit::Spades
    }

    /// Tests if the card is Diamonds.
    pub fn is_diamonds(&self) -> (b: bool)
        ensures
            b == (self.suit == Suit::Diamonds),
    {
        self.suit == Suit::Diamonds
    }

    /// Returns a slice containing all the cards of a standard 52-card deck,
    /// in their canonical order.
    pub fn all_cards() -> (r: &'static [Card])
        ensures
            r@ == Card::standard_deck(),
    {
        let r: &'static [Card] = &[
            Card { suit: Suit::Spades, rank: Rank::Two },
            Card { suit: Suit::Spades, rank: Rank::Three },
            Card { suit: Suit::Spades, rank: Rank::Four },
            Card { suit: Suit::Spades, rank: Rank::Five },
            Card { suit: Suit::Spades, rank: Rank::Six },
            Card { suit: Suit::Spades, rank: Rank::Seven },
            Card { suit: Suit::Spades, rank: Rank::Eight },
            Card { suit: Suit::Spades, rank: Rank::Nine },
            Card { suit: Suit::Spades, rank: Rank::Ten },
            Card { suit: Suit::Spades, rank: Rank::Jack },
            Card { suit: Suit::Spades, rank: Rank::Queen },
            Card { suit: Suit::Spades, rank: Rank::King },
            Card { suit: Suit::Spades, rank: Rank::Ace },

            Card { suit: Suit::Hearts, rank: Rank::Two },
            Card { suit: Suit::Hearts, rank: Rank::Three },
            Card { suit: Suit::Hearts, rank: Rank::Four },
            Card { suit: Suit::Hearts, rank: Rank::Five },
            Card { suit: Suit::Hearts, rank: Rank::Six },
            Card { suit: Suit::Hearts, rank: Rank::Seven },
            Card { suit: Suit::Hearts, rank: Rank::Eight },
            Card { suit: Suit::Hearts, rank: Rank::Nine },
            Card { suit: Suit::Hearts, rank: Rank::Ten },
            Card { suit: Suit::Hearts, rank: Rank::Jack },
            Card { suit: Suit::Hearts, rank: Rank::Queen },
            Card { suit: Suit::Hearts, rank: Rank::King },
            Card { suit: Suit::Hearts, rank: Rank::Ace },

            Card { suit: Suit::Diamonds, rank: Rank::Two },
            Card { suit: Suit::Diamonds, rank: Rank::Three },
            Card { suit: Suit::Diamonds, rank: Rank::Four },
            Card { suit: Suit::Diamonds, rank: Rank::Five },
            Card { suit: Suit::Diamonds, rank: Rank::Six },
            Card { suit: Suit::Diamonds, rank: Rank::Seven },
            Card { suit: Suit::Diamonds, rank: Rank::Eight },
            Card { suit: Suit::Diamonds, rank: Rank::Nine },
            Card { suit: Suit::Diamonds, rank: Rank::Ten },
            Card { suit: Suit::Diamonds, rank: Rank::Jack },
            Card { suit: Suit::Diamonds, rank: Rank::Queen },
            Card { suit: Suit::Diamonds, rank: Rank::King },
            Card { suit: Suit::Diamonds, rank: Rank::Ace },

            Card { suit: Suit::Clubs, rank: Rank::Two },
            Card { suit: Suit::Clubs, rank: Rank::Three },
            Card { suit: Suit::Clubs, rank: Rank::Four },
            Card { suit: Suit::Clubs, rank: Rank::Five },
            Card { suit: Suit::Clubs, rank: Rank::Six },
            Card { suit: Suit::Clubs, rank: Rank::Seven },
            Card { suit: Suit::Clubs, rank: Rank::Eight },
            Card { suit: Suit::Clubs, rank: Rank::Nine },
            Card { suit: Suit::Clubs, rank: Rank::Ten },
            Card { suit: Suit::Clubs, rank: Rank::Jack },
            Card { suit: Suit::Clubs, rank: Rank::Queen },
            Card { suit: Suit::Clubs, rank: Rank::King },
            Card { suit: Suit::Clubs, rank: Rank::Ace },
        ];
        assert(r@ =~= Card::standard_deck());
        r
    }

    /// Returns an iterator through the cards of a standard deck, in their
    /// canonical order.
    pub fn iterator() -> (it: Iter<'static, Card>)
        ensures
            it.obeys_prophetic_iter_laws(),
            it.remaining() == Card::standard_deck().as_ref(),
            into_iter_elts(it) == Card::standard_deck(),
            it.decrease() is Some,
            it.initial_value_relation(&it),
    {
        Card::all_cards().iter()
    }

    /// The number of a card and the card of a number are inverse to each
    /// other: the 52 cards stand one to one for the numbers 0 to 51.
    pub proof fn lemma_ordinal_bijective(card: Card, i: int)
        ensures
            0 <= card.spec_ordinal() < 52,
            Card::from_ordinal(card.spec_ordinal()) == card,
            Card::standard_deck()[card.spec_ordinal()] == card,
            0 <= i < 52 ==> Card::from_ordinal(i).spec_ordinal() == i,
    {
    }

    /// No two different cards have the same number.
    pub proof fn lemma_ordinal_injective(a: Card, b: Card)
        ensures
            a.spec_ordinal() == b.spec_ordinal() <==> a == b,
    {
        Card::lemma_ordinal_bijective(a, 0);
        Card::lemma_ordinal_bijective(b, 0);
    }

    /// A standard deck holds 52 cards, no card twice: the card at each
    /// position has that position for its number, so the numbers of the
    /// cards at two different positions differ.
    pub proof fn lemma_standard_deck_distinct(i: int, j: int)
        requires
            0 <= i < 52,
            0 <= j < 52,
        ensures
            Card::standard_deck().len() == 52,
            Card::standard_deck()[i].spec_ordinal() == i,
            i != j ==> Card::standard_deck()[i] != Card::standard_deck()[j],
            i != j ==> Card::standard_deck()[i].spec_ordinal()
                != Card::standard_deck()[j].spec_ordinal(),
    {
    }

    /// What `to_str` writes, `from_str` reads back as the same card. The
    /// two characters are also read in the other order, suit then rank, and
    /// an Ace is also read where '1' stands for its rank.
    pub proof fn lemma_code_round_trip(card: Card)
        ensures
            Card::parse(card.code()) == Ok::<Card, CardError>(card),
            Card::parse(seq![card.suit.spec_char(), card.rank.spec_char()]) == Ok::<
                Card,
                CardError,
            >(card),
            card.rank == Rank::Ace ==> Card::parse(seq!['1', card.suit.spec_char()]) == Ok::<
                Card,
                CardError,
            >(card),
            card.rank == Rank::Ace ==> Card::parse(seq![card.suit.spec_char(), '1']) == Ok::<
                Card,
                CardError,
            >(card),
    {
        Rank::lemma_char_round_trip(card.rank, '1');
        Suit::lemma_char_round_trip(card.suit, 'S');
    }

    /// A string that is not two characters long stands for no card, and
    /// neither does one that holds two ranks or two suits.
    pub proof fn lemma_parse_rejects(s: Seq<char>)
        ensures
            s.len() != 2 ==> Card::parse(s) == Err::<Card, CardError>(
                CardError::InvalidCardString,
            ),
            Card::parse(s) is Ok ==> s.len() == 2 && (Suit::spec_from_char(s[0]) is Some
                || Suit::spec_from_char(s[1]) is Some) && (Rank::spec_from_char(s[0]) is Some
                || Rank::spec_from_char(s[1]) is Some),
            Card::parse(s) is Err ==> Card::parse(s) == Err::<Card, CardError>(
                CardError::InvalidCardString,
            ),
    {
    }
}

} // verus!
