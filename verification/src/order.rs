use crate::card::Card;
use crate::compare::ordering_of;
use std::cmp::Ordering;
use vstd::prelude::*;
use vstd::relations::{sorted_by, total_ordering};
use vstd::seq_lib::lemma_sorted_unique;

verus! {

/// The orders in which cards are compared and sorted. Each goes by both the
/// rank and the suit of a card, so that only a card and itself compare as
/// equal.
#[derive(Copy, Clone, Debug, PartialEq, Eq, Hash, Structural)]
pub enum CardOrder {
    /// By rank from low to high, Ace high, then by suit.
    RankThenSuit,
    /// By rank from high to low, then by suit.
    DescRankThenSuit,
    /// By suit, then by rank from low to high.
    SuitThenRank,
    /// By suit, then by rank from high to low.
    SuitThenDescRank,
}

impl CardOrder {
    /// How the card `a` stands to the card `b` in this order.
    pub open spec fn ordering(self, a: Card, b: Card) -> Ordering {
        match self {
            CardOrder::RankThenSuit => a.rank_then_suit(b),
            CardOrder::DescRankThenSuit => a.desc_rank_then_suit(b),
            CardOrder::SuitThenRank => a.suit_then_rank(b),
            CardOrder::SuitThenDescRank => a.suit_then_desc_rank(b),
        }
    }

    /// The place of a card among the 52 when they are laid out in this
    /// order, from 0 for the card that comes first.
    pub open spec fn key(self, card: Card) -> int {
        match self {
            CardOrder::RankThenSuit => card.rank.spec_ordinal() * 4 + card.suit.spec_ordinal(),
            CardOrder::DescRankThenSuit => (12 - card.rank.spec_ordinal()) * 4
                + card.suit.spec_ordinal(),
            CardOrder::SuitThenRank => card.suit.spec_ordinal() * 13 + card.rank.spec_ordinal(),
            CardOrder::SuitThenDescRank => card.suit.spec_ordinal() * 13 + (12
                - card.rank.spec_ordinal()),
        }
    }

    /// Whether no card of `s` stands before one that this order puts ahead
    /// of it.
    pub open spec fn in_order(self, s: Seq<Card>) -> bool {
        forall|i: int, j: int|
            0 <= i < j < s.len() ==> !(self.ordering(#[trigger] s[i], #[trigger] s[j])
                is Greater)
    }

    /// Whether `after` is `before` sorted in this order: the same cards, as
    /// often as before, and in order.
    pub open spec fn sorts(self, before: Seq<Card>, after: Seq<Card>) -> bool {
        &&& after.to_multiset() == before.to_multiset()
        &&& self.in_order(after)
    }

    /// Whether the places of the cards of `s` never fall from one to the next.
    pub open spec fn keys_ascend(self, s: Seq<Card>) -> bool {
        forall|i: int, j: int|
            0 <= i < j < s.len() ==> self.key(#[trigger] s[i]) <= self.key(#[trigger] s[j])
    }

    /// Compares two cards in this order.
    pub fn compare(&self, a: &Card, b: &Card) -> (r: Ordering)
        ensures
            r == self.ordering(*a, *b),
    {
        match self {
            CardOrder::RankThenSuit => a.cmp_rank_then_suit(b),
            CardOrder::DescRankThenSuit => a.cmp_desc_rank_then_suit(b),
            CardOrder::SuitThenRank => a.cmp_suit_then_rank(b),
            CardOrder::SuitThenDescRank => a.cmp_suit_then_desc_rank(b),
        }
    }

    /// Tells whether the card `a` may stand before the card `b` in this
    /// order: whether it comes first or is the same card.
    pub fn precedes(&self, a: &Card, b: &Card) -> (r: bool)
        ensures
            r == !(self.ordering(*a, *b) is Greater),
            r == (self.key(*a) <= self.key(*b)),
    {
        proof {
            self.lemma_ordering_by_key(*a, *b);
        }
        match self.compare(a, b) {
            Ordering::Greater => false,
            _ => true,
        }
    }

    /// Each order compares two cards as it compares their places in it, and
    /// the places are those of the 52 cards, one for each.
    pub proof fn lemma_ordering_by_key(self, a: Card, b: Card)
        ensures
            self.ordering(a, b) == ordering_of(self.key(a), self.key(b)),
            0 <= self.key(a) < 52,
            self.key(a) == self.key(b) <==> a == b,
    {
    }

    /// Each order is a total order of the cards: a card is equal to itself
    /// and to no other, two cards compare the opposite way when they are
    /// exchanged, and what comes before a card comes before all that the
    /// card comes before.
    pub proof fn lemma_total_order(self, a: Card, b: Card, c: Card)
        ensures
            self.ordering(a, b) is Equal <==> a == b,
            self.ordering(a, b) is Less <==> self.ordering(b, a) is Greater,
            !(self.ordering(a, b) is Greater) && !(self.ordering(b, c) is Greater) ==> !(
            self.ordering(a, c) is Greater),
    {
        self.lemma_ordering_by_key(a, b);
        self.lemma_ordering_by_key(b, a);
        self.lemma_ordering_by_key(b, c);
        self.lemma_ordering_by_key(a, c);
    }

    /// A sequence is in order exactly when the places of its cards ascend.
    pub proof fn lemma_in_order_by_key(self, s: Seq<Card>)
        ensures
            self.in_order(s) <==> self.keys_ascend(s),
    {
        if self.in_order(s) {
            assert forall|i: int, j: int| 0 <= i < j < s.len() implies self.key(#[trigger] s[i])
                <= self.key(#[trigger] s[j]) by {
                self.lemma_ordering_by_key(s[i], s[j]);
            }
        }
        if self.keys_ascend(s) {
            assert forall|i: int, j: int| 0 <= i < j < s.len() implies !(self.ordering(
                #[trigger] s[i],
                #[trigger] s[j],
            ) is Greater) by {
                self.lemma_ordering_by_key(s[i], s[j]);
            }
        }
    }

    /// There is one way only to put given cards in order: two sequences
    /// that are in order and hold the same cards, each as often as the
    /// other, are the same sequence. So what a sort returns is fixed by its
    /// input, and equal cards cannot be told to have changed places.
    pub proof fn lemma_in_order_unique(self, a: Seq<Card>, b: Seq<Card>)
        requires
            self.in_order(a),
            self.in_order(b),
            a.to_multiset() == b.to_multiset(),
        ensures
            a == b,
    {
        let leq = |x: Card, y: Card| self.key(x) <= self.key(y);
        assert(total_ordering(leq)) by {
            assert forall|x: Card, y: Card| #[trigger] leq(x, y) && #[trigger] leq(y, x) implies x
                == y by {
                self.lemma_ordering_by_key(x, y);
            }
        }
        self.lemma_in_order_by_key(a);
        self.lemma_in_order_by_key(b);
        assert(sorted_by(a, leq));
        assert(sorted_by(b, leq));
        lemma_sorted_unique(a, b, leq);
    }

    /// Sorting twice is sorting once: what comes of sorting cards that a
    /// sort in the same order has returned is what that sort returned.
    pub proof fn lemma_sort_idempotent(self, s: Seq<Card>, once: Seq<Card>, twice: Seq<Card>)
        requires
            self.sorts(s, once),
            self.sorts(once, twice),
        ensures
            twice == once,
    {
        self.lemma_in_order_unique(twice, once);
    }
}

} // verus!
