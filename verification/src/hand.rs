use crate::card::Card;
use crate::cards::{cards_of_rank, cards_of_suit, Cards};
use crate::error::CardError;
use crate::rank::Rank;
use crate::suit::Suit;
use vstd::prelude::*;
use vstd::string::*;

verus! {

/// A hand is zero or more cards that represents some aspect of a game, e.g.
/// the cards a person is holding. A hand may be shuffled or sorted and there
/// are functions for adding or removing cards. Unlike a deck, a hand keeps no
/// dealt cards apart.
pub struct Hand {
    /// The cards of the hand, in their order
    pub cards: Vec<Card>,
}

impl View for Hand {
    type V = Seq<Card>;

    /// The cards of the hand, in their order.
    open spec fn view(&self) -> Seq<Card> {
        self.cards@
    }
}

impl Cards for Hand {
    open spec fn spec_cards(&self) -> Seq<Card> {
        self.cards@
    }

    open spec fn kept_apart(&self) -> Seq<Card> {
        Seq::empty()
    }

    fn cards(&self) -> (r: &[Card]) {
        self.cards.as_slice()
    }

    fn mut_cards(&mut self) -> (r: &mut [Card]) {
        self.cards.as_mut_slice()
    }
}

/// The cards of `s` without the first one that equals `card`, or `s` itself
/// where none does.
pub open spec fn without_first(s: Seq<Card>, card: Card) -> Seq<Card> {
    match s.index_of_first(card) {
        Some(i) => s.remove(i),
        None => s,
    }
}

/// Taking a card out of cards that do not hold it changes nothing, and what
/// is taken out of cards that hold it is the first of them that equals it:
/// the one at the position `i` before which none equals it.
pub proof fn lemma_without_first(s: Seq<Card>, card: Card, i: int)
    ensures
        !s.contains(card) ==> without_first(s, card) == s,
        0 <= i < s.len() && s[i] == card && (forall|j: int| 0 <= j < i ==> s[j] != card)
            ==> without_first(s, card) == s.remove(i),
{
    s.index_of_first_ensures(card);
    if 0 <= i < s.len() && s[i] == card && (forall|j: int| 0 <= j < i ==> s[j] != card) {
        assert(s.index_of_first(card) == Some(i));
    }
}

/// The cards of `s` after each card of `removed`, taken in turn, has had its
/// first match taken out of what was left.
pub open spec fn without_each(s: Seq<Card>, removed: Seq<Card>) -> Seq<Card> {
    removed.fold_left(s, |rest: Seq<Card>, card: Card| without_first(rest, card))
}

/// The codes of the cards of `s`, with a comma between one and the next.
pub open spec fn joined_codes(s: Seq<Card>) -> Seq<char>
    decreases s.len(),
{
    if s.len() == 0 {
        Seq::empty()
    } else if s.len() == 1 {
        s[0].code()
    } else {
        joined_codes(s.drop_last()) + seq![','] + s.last().code()
    }
}

impl Hand {
    /// Make a new empty hand.
    pub fn new() -> (hand: Hand)
        ensures
            hand@ == Seq::<Card>::empty(),
    {
        Hand { cards: Vec::new() }
    }

    /// Makes a hand from another hand.
    pub fn from_hand(hand: Hand) -> (copy: Hand)
        ensures
            copy@ == hand@,
    {
        Hand::from_cards(hand.cards())
    }

    /// Makes a hand from a slice.
    pub fn from_cards(cards: &[Card]) -> (hand: Hand)
        ensures
            hand@ == cards@,
    {
        let mut hand = Hand::new();
        hand.push_cards(cards);
        hand
    }

    /// Makes a hand from the two-character codes of its cards. Each of them
    /// is to be the code of a card.
    pub fn from_strings(card_slice: &[&str]) -> (hand: Hand)
        requires
            forall|i: int| 0 <= i < card_slice@.len() ==> Card::parse(card_slice@[i]@) is Ok,
        ensures
            hand@.len() == card_slice@.len(),
            forall|i: int|
                0 <= i < card_slice@.len() ==> Card::parse(card_slice@[i]@) == Ok::<
                    Card,
                    CardError,
                >(hand@[i]),
    {
        let mut cards: Vec<Card> = Vec::with_capacity(card_slice.len());
        let mut i: usize = 0;
        while i < card_slice.len()
            invariant
                i <= card_slice@.len(),
                cards@.len() == i,
                forall|k: int| 0 <= k < card_slice@.len() ==> Card::parse(card_slice@[k]@) is Ok,
                forall|k: int|
                    0 <= k < i ==> Card::parse(card_slice@[k]@) == Ok::<Card, CardError>(
                        cards@[k],
                    ),
            decreases card_slice.len() - i,
        {
            let card = Card::from_str(card_slice[i]).unwrap();
            cards.push(card);
            i += 1;
        }
        Hand { cards: cards }
    }

    /// Adds one card to the hand.
    pub fn push(&mut self, card: Card)
        ensures
            final(self)@ == old(self)@.push(card),
    {
        self.cards.push(card);
    }

    /// Adds zero or more cards to the hand.
    pub fn push_cards(&mut self, cards: &[Card])
        ensures
            final(self)@ == old(self)@ + cards@,
    {
        self.cards.extend_from_slice(cards);
        assert(self.cards@ =~= old(self)@ + cards@);
    }

    /// Adds zero or more cards from some other hand.
    pub fn push_hand(&mut self, other: &Hand)
        ensures
            final(self)@ == old(self)@ + other@,
    {
        self.push_cards(other.cards());
    }

    /// Returns the number of cards.
    pub fn len(&self) -> (n: usize)
        ensures
            n == self@.len(),
    {
        self.cards.len()
    }

    /// Removes the card at a position from the hand and returns it. Where
    /// the hand has no such position, it is left as it is.
    pub fn remove(&mut self, index: usize) -> (r: Result<Card, CardError>)
        ensures
            index < old(self)@.len() ==> r == Ok::<Card, CardError>(old(self)@[index as int])
                && final(self)@ == old(self)@.remove(index as int),
            index >= old(self)@.len() ==> r == Err::<Card, CardError>(
                CardError::IndexOutOfRange,
            ) && final(self)@ == old(self)@,
    {
        if index >= self.cards.len() {
            return Err(CardError::IndexOutOfRange);
        }
        Ok(self.cards.remove(index))
    }

    /// Removes the first instance of every given card from the hand, one
    /// after the other.
    pub fn remove_cards(&mut self, cards: &[Card])
        ensures
            final(self)@ == without_each(old(self)@, cards@),
    {
        let ghost take_out = |rest: Seq<Card>, card: Card| without_first(rest, card);
        let mut i: usize = 0;
        while i < cards.len()
            invariant
                i <= cards@.len(),
                take_out == |rest: Seq<Card>, card: Card| without_first(rest, card),
                self@ == cards@.take(i as int).fold_left(old(self)@, take_out),
            decreases cards.len() - i,
        {
            proof {
                assert(cards@.take(i + 1).drop_last() =~= cards@.take(i as int));
            }
            self.remove_card(cards[i]);
            i += 1;
        }
        proof {
            assert(cards@.take(i as int) =~= cards@);
        }
    }

    /// Removes the first instance of the matching card from the hand. A
    /// hand without such a card is left as it is.
    pub fn remove_card(&mut self, card: Card)
        ensures
            final(self)@ == without_first(old(self)@, card),
    {
        let mut i: usize = 0;
        while i < self.cards.len()
            invariant
                i <= self@.len(),
                self@ == old(self)@,
                forall|k: int| 0 <= k < i ==> self@[k] != card,
            decreases self@.len() - i,
        {
            if self.cards[i] == card {
                proof {
                    lemma_without_first(self@, card, i as int);
                }
                self.cards.remove(i);
                return ;
            }
            i += 1;
        }
        proof {
            lemma_without_first(self@, card, 0);
        }
    }

    /// Returns cards of the specified rank.
    pub fn cards_of_rank(&self, rank: Rank) -> (found: Vec<Card>)
        ensures
            found@ == self@.filter(|c: Card| c.rank == rank),
    {
        cards_of_rank(self.cards.as_slice(), rank)
    }

    /// Returns cards of the specified suit.
    pub fn cards_of_suit(&self, suit: Suit) -> (found: Vec<Card>)
        ensures
            found@ == self@.filter(|c: Card| c.suit == suit),
    {
        cards_of_suit(self.cards.as_slice(), suit)
    }

    /// Writes the hand as the codes of its cards with a comma between one
    /// and the next, e.g. "QH,2D".
    pub fn to_str(&self) -> (s: String)
        ensures
            s@ == joined_codes(self@),
    {
        let mut result = String::new();
        let mut i: usize = 0;
        while i < self.cards.len()
            invariant
                i <= self@.len(),
                result@ == joined_codes(self@.take(i as int)),
            decreases self@.len() - i,
        {
            proof {
                reveal_strlit(",");
                assert(self@.take(i + 1).drop_last() =~= self@.take(i as int));
            }
            if i > 0 {
                result.append(",");
            }
            let code = self.cards[i].to_str();
            result.append(code.as_str());
            proof {
                assert(result@ =~= joined_codes(self@.take(i + 1)));
            }
            i += 1;
        }
        proof {
            assert(self@.take(i as int) =~= self@);
        }
        result
    }
}

} // verus!
