use crate::card::Card;
use crate::order::CardOrder;
use crate::random::draw_below;
use crate::rank::Rank;
use crate::suit::Suit;
use vstd::prelude::*;
use vstd::seq_lib::*;

verus! {

/// The sequence `s` with the cards at the positions `i` and `j` exchanged.
pub open spec fn swapped(s: Seq<Card>, i: int, j: int) -> Seq<Card> {
    s.update(i, s[j]).update(j, s[i])
}

/// Exchanging two cards of a sequence changes neither how many cards it
/// holds nor which.
pub proof fn lemma_swapped_same_cards(s: Seq<Card>, i: int, j: int)
    requires
        0 <= i < s.len(),
        0 <= j < s.len(),
    ensures
        swapped(s, i, j).len() == s.len(),
        swapped(s, i, j).to_multiset() == s.to_multiset(),
{
    broadcast use group_to_multiset_ensures;

    let t = s.update(i, s[j]);
    assert(t.to_multiset() =~= s.to_multiset().insert(s[j]).remove(s[i]));
    assert(swapped(s, i, j).to_multiset() =~= t.to_multiset().insert(s[i]).remove(t[j]));
    assert(s.to_multiset().count(s[i]) > 0);
    assert(swapped(s, i, j).to_multiset() =~= s.to_multiset());
}

/// Whether `draws` can be the positions that are drawn while `n` cards are
/// shuffled: one for each position from the last down to the second, in
/// that order, and each at or below the position that it is drawn for.
pub open spec fn draws_fit(n: nat, draws: Seq<int>) -> bool {
    &&& draws.len() == if n == 0 {
        0
    } else {
        n - 1
    }
    &&& forall|k: int| 0 <= k < draws.len() ==> 0 <= #[trigger] draws[k] <= n - 1 - k
}

/// The cards of `s` after a shuffle in which the positions `draws` were
/// drawn: for each position from the last downwards, the card at it has
/// been exchanged with the card at the position drawn for it.
pub open spec fn shuffled_with(s: Seq<Card>, draws: Seq<int>) -> Seq<Card>
    decreases draws.len(),
{
    if draws.len() == 0 {
        s
    } else {
        swapped(shuffled_with(s, draws.drop_last()), s.len() - draws.len(), draws.last())
    }
}

/// Whatever positions are drawn, a shuffle changes neither how many cards
/// there are nor which: every card is there as often as before.
pub proof fn lemma_shuffled_same_cards(s: Seq<Card>, draws: Seq<int>)
    requires
        forall|k: int| 0 <= k < draws.len() ==> 0 <= #[trigger] draws[k] <= s.len() - 1 - k,
    ensures
        shuffled_with(s, draws).len() == s.len(),
        shuffled_with(s, draws).to_multiset() == s.to_multiset(),
    decreases draws.len(),
{
    if draws.len() > 0 {
        let earlier = draws.drop_last();
        assert forall|k: int| 0 <= k < earlier.len() implies 0 <= #[trigger] earlier[k] <= s.len()
            - 1 - k by {
            assert(earlier[k] == draws[k]);
        }
        lemma_shuffled_same_cards(s, earlier);
        assert(0 <= draws[draws.len() - 1] <= s.len() - draws.len());
        lemma_swapped_same_cards(
            shuffled_with(s, earlier),
            s.len() - draws.len(),
            draws.last(),
        );
    }
}

/// One step of a shuffle: exchanges the card at position `i` with the card
/// at the position `j` that was drawn for it, at or below `i`.
pub fn shuffle_step(cards: &mut [Card], i: usize, j: usize)
    requires
        j <= i < old(cards)@.len(),
    ensures
        final(cards)@ == swapped(old(cards)@, i as int, j as int),
{
    let a = cards[i];
    let b = cards[j];
    cards[i] = b;
    cards[j] = a;
}

/// Shuffles the cards into a random order, in place, as Knuth describes it:
/// for each position from the last down to the second, a position at or
/// below it is drawn at random, and the cards at the two are exchanged.
/// Whatever is drawn, the cards afterwards are the cards before. Fewer than
/// two cards are left as they are.
pub fn shuffle(cards: &mut [Card])
    ensures
        exists|draws: Seq<int>|
            draws_fit(old(cards)@.len(), draws) && final(cards)@ == #[trigger] shuffled_with(
                old(cards)@,
                draws,
            ),
        final(cards)@.len() == old(cards)@.len(),
        final(cards)@.to_multiset() == old(cards)@.to_multiset(),
        old(cards)@.len() < 2 ==> final(cards)@ == old(cards)@,
{
    let n = cards.len();
    let ghost before = cards@;
    let ghost mut draws: Seq<int> = Seq::empty();
    if n < 2 {
        assert(draws_fit(n as nat, draws) && cards@ == shuffled_with(before, draws));
        return ;
    }
    let mut rng = rand::thread_rng();
    let mut i: usize = n - 1;
    while i > 0
        invariant
            i < n,
            before.len() == n,
            cards@.len() == n,
            draws.len() == n - 1 - i,
            forall|k: int| 0 <= k < draws.len() ==> 0 <= #[trigger] draws[k] <= n - 1 - k,
            cards@ == shuffled_with(before, draws),
        decreases i,
    {
        let j = draw_below(&mut rng, i + 1);
        shuffle_step(cards, i, j);
        proof {
            let earlier = draws;
            draws = draws.push(j as int);
            assert(draws.drop_last() =~= earlier);
        }
        i -= 1;
    }
    proof {
        lemma_shuffled_same_cards(before, draws);
        assert(draws_fit(n as nat, draws) && cards@ == shuffled_with(before, draws));
    }
}

/// A card added to the merged run and to one of the runs it comes from
/// leaves the merged run holding the cards of both.
proof fn lemma_merge_step(merged: Seq<Card>, a: Seq<Card>, b: Seq<Card>, card: Card)
    requires
        merged.to_multiset() == a.to_multiset().add(b.to_multiset()),
    ensures
        merged.push(card).to_multiset() == a.push(card).to_multiset().add(b.to_multiset()),
        merged.push(card).to_multiset() == a.to_multiset().add(b.push(card).to_multiset()),
{
    broadcast use {group_to_multiset_ensures, vstd::multiset::group_multiset_axioms};

    assert(merged.push(card).to_multiset() =~= merged.to_multiset().insert(card));
    assert(a.push(card).to_multiset() =~= a.to_multiset().insert(card));
    assert(b.push(card).to_multiset() =~= b.to_multiset().insert(card));
    assert(merged.to_multiset().insert(card) =~= a.to_multiset().insert(card).add(
        b.to_multiset(),
    ));
    assert(merged.to_multiset().insert(card) =~= a.to_multiset().add(
        b.to_multiset().insert(card),
    ));
}

/// Merges two runs of cards, each with its places ascending, into one.
/// Where a card of each run could come next, the one of `left` does.
fn merge(left: &Vec<Card>, right: &Vec<Card>, order: CardOrder) -> (out: Vec<Card>)
    requires
        order.keys_ascend(left@),
        order.keys_ascend(right@),
    ensures
        order.keys_ascend(out@),
        out@.to_multiset() == left@.to_multiset().add(right@.to_multiset()),
{
    let mut out: Vec<Card> = Vec::new();
    let mut i: usize = 0;
    let mut j: usize = 0;
    proof {
        broadcast use {group_to_multiset_ensures, vstd::multiset::group_multiset_axioms};

        assert(left@.take(0) =~= Seq::<Card>::empty());
        assert(right@.take(0) =~= Seq::<Card>::empty());
        assert(out@ =~= Seq::<Card>::empty());
        assert(out@.to_multiset() =~= left@.take(0).to_multiset().add(
            right@.take(0).to_multiset(),
        ));
    }
    while i < left.len() || j < right.len()
        invariant
            i <= left.len(),
            j <= right.len(),
            order.keys_ascend(left@),
            order.keys_ascend(right@),
            order.keys_ascend(out@),
            out@.to_multiset() == left@.take(i as int).to_multiset().add(
                right@.take(j as int).to_multiset(),
            ),
            forall|k: int, p: int|
                0 <= k < out@.len() && i <= p < left@.len() ==> order.key(#[trigger] out@[k])
                    <= order.key(#[trigger] left@[p]),
            forall|k: int, p: int|
                0 <= k < out@.len() && j <= p < right@.len() ==> order.key(#[trigger] out@[k])
                    <= order.key(#[trigger] right@[p]),
        decreases (left.len() - i) + (right.len() - j),
    {
        let from_left = if i >= left.len() {
            false
        } else if j >= right.len() {
            true
        } else {
            order.precedes(&left[i], &right[j])
        };
        let ghost merged = out@;
        if from_left {
            let card = left[i];
            out.push(card);
            proof {
                assert(left@.take(i + 1) =~= left@.take(i as int).push(card));
                lemma_merge_step(merged, left@.take(i as int), right@.take(j as int), card);
                assert forall|a: int, b: int| 0 <= a < b < out@.len() implies order.key(
                    #[trigger] out@[a],
                ) <= order.key(#[trigger] out@[b]) by {
                    if b < merged.len() {
                        assert(out@[a] == merged[a] && out@[b] == merged[b]);
                    } else {
                        assert(out@[a] == merged[a] && out@[b] == left@[i as int]);
                    }
                }
            }
            i += 1;
        } else {
            let card = right[j];
            out.push(card);
            proof {
                assert(right@.take(j + 1) =~= right@.take(j as int).push(card));
                lemma_merge_step(merged, left@.take(i as int), right@.take(j as int), card);
                assert forall|a: int, b: int| 0 <= a < b < out@.len() implies order.key(
                    #[trigger] out@[a],
                ) <= order.key(#[trigger] out@[b]) by {
                    if b < merged.len() {
                        assert(out@[a] == merged[a] && out@[b] == merged[b]);
                    } else {
                        assert(out@[a] == merged[a] && out@[b] == right@[j as int]);
                    }
                }
            }
            j += 1;
        }
    }
    proof {
        assert(left@.take(i as int) =~= left@);
        assert(right@.take(j as int) =~= right@);
    }
    out
}

/// Returns the cards of `cards` from position `lo` up to, not including,
/// position `hi`, sorted by their places in `order`: each half sorted, and
/// the two merged.
fn sorted_copy(cards: &[Card], lo: usize, hi: usize, order: CardOrder) -> (out: Vec<Card>)
    requires
        lo <= hi <= cards@.len(),
    ensures
        order.keys_ascend(out@),
        out@.to_multiset() == cards@.subrange(lo as int, hi as int).to_multiset(),
    decreases hi - lo,
{
    if hi - lo < 2 {
        let mut out: Vec<Card> = Vec::new();
        if lo < hi {
            out.push(cards[lo]);
        }
        proof {
            assert(out@ =~= cards@.subrange(lo as int, hi as int));
        }
        out
    } else {
        let mid = lo + (hi - lo) / 2;
        let left = sorted_copy(cards, lo, mid, order);
        let right = sorted_copy(cards, mid, hi, order);
        proof {
            let first = cards@.subrange(lo as int, mid as int);
            let second = cards@.subrange(mid as int, hi as int);
            assert(cards@.subrange(lo as int, hi as int) =~= first + second);
            lemma_multiset_commutative(first, second);
        }
        merge(&left, &right, order)
    }
}

/// Sorts the cards in the given order, in place. The cards afterwards are
/// the cards before, each as often as before, and none stands before one
/// that the order puts ahead of it.
pub fn sort_by_order(cards: &mut [Card], order: CardOrder)
    ensures
        order.sorts(old(cards)@, final(cards)@),
        final(cards)@.len() == old(cards)@.len(),
{
    let n = cards.len();
    let ghost before = cards@;
    let sorted = sorted_copy(cards, 0, n, order);
    proof {
        assert(before.subrange(0, n as int) =~= before);
        sorted@.to_multiset_ensures();
        before.to_multiset_ensures();
    }
    let mut i: usize = 0;
    while i < n
        invariant
            i <= n,
            cards@.len() == n,
            sorted@.len() == n,
            forall|k: int| 0 <= k < i ==> cards@[k] == sorted@[k],
        decreases n - i,
    {
        cards[i] = sorted[i];
        i += 1;
    }
    proof {
        assert(cards@ =~= sorted@);
        order.lemma_in_order_by_key(sorted@);
    }
}

/// Sorts the cards by rank (low to high) and then suit.
pub fn sort_ascending_rank_suit(cards: &mut [Card])
    ensures
        CardOrder::RankThenSuit.sorts(old(cards)@, final(cards)@),
        final(cards)@.len() == old(cards)@.len(),
{
    sort_by_order(cards, CardOrder::RankThenSuit);
}

/// Sorts the cards by suit and then rank (low to high).
pub fn sort_suit_ascending_rank(cards: &mut [Card])
    ensures
        CardOrder::SuitThenRank.sorts(old(cards)@, final(cards)@),
        final(cards)@.len() == old(cards)@.len(),
{
    sort_by_order(cards, CardOrder::SuitThenRank);
}

/// Sorts the cards by suit and then rank (high to low).
pub fn sort_suit_descending_rank(cards: &mut [Card])
    ensures
        CardOrder::SuitThenDescRank.sorts(old(cards)@, final(cards)@),
        final(cards)@.len() == old(cards)@.len(),
{
    sort_by_order(cards, CardOrder::SuitThenDescRank);
}

/// Sorts the cards by rank (high to low) and then suit.
pub fn sort_descending_rank_suit(cards: &mut [Card])
    ensures
        CardOrder::DescRankThenSuit.sorts(old(cards)@, final(cards)@),
        final(cards)@.len() == old(cards)@.len(),
{
    sort_by_order(cards, CardOrder::DescRankThenSuit);
}

/// Returns cards of the specified rank, in the order in which they stand.
pub fn cards_of_rank(cards: &[Card], rank: Rank) -> (found: Vec<Card>)
    ensures
        found@ == cards@.filter(|c: Card| c.rank == rank),
{
    let ghost wanted = |c: Card| c.rank == rank;
    let mut found: Vec<Card> = Vec::new();
    let mut i: usize = 0;
    proof {
        assert(cards@.take(0) =~= Seq::<Card>::empty());
        reveal(Seq::filter);
    }
    while i < cards.len()
        invariant
            i <= cards.len(),
            wanted == |c: Card| c.rank == rank,
            found@ == cards@.take(i as int).filter(wanted),
        decreases cards.len() - i,
    {
        let card = cards[i];
        proof {
            assert(cards@.take(i + 1) =~= cards@.take(i as int).push(card));
            cards@.take(i as int).lemma_filter_push(card, wanted);
        }
        if card.rank == rank {
            found.push(card);
        }
        i += 1;
    }
    proof {
        assert(cards@.take(i as int) =~= cards@);
    }
    found
}

/// Returns cards of the specified suit, in the order in which they stand.
pub fn cards_of_suit(cards: &[Card], suit: Suit) -> (found: Vec<Card>)
    ensures
        found@ == cards@.filter(|c: Card| c.suit == suit),
{
    let ghost wanted = |c: Card| c.suit == suit;
    let mut found: Vec<Card> = Vec::new();
    let mut i: usize = 0;
    proof {
        assert(cards@.take(0) =~= Seq::<Card>::empty());
        reveal(Seq::filter);
    }
    while i < cards.len()
        invariant
            i <= cards.len(),
            wanted == |c: Card| c.suit == suit,
            found@ == cards@.take(i as int).filter(wanted),
        decreases cards.len() - i,
    {
        let card = cards[i];
        proof {
            assert(cards@.take(i + 1) =~= cards@.take(i as int).push(card));
            cards@.take(i as int).lemma_filter_push(card, wanted);
        }
        if card.suit == suit {
            found.push(card);
        }
        i += 1;
    }
    proof {
        assert(cards@.take(i as int) =~= cards@);
    }
    found
}

/// What a deck and a hand of cards have in common: a sequence of cards that
/// can be looked at, shuffled and sorted where it lies.
pub trait Cards {
    /// The cards that are looked at, shuffled and sorted, in their order.
    spec fn spec_cards(&self) -> Seq<Card>;

    /// The cards that the collection holds besides those: no shuffle and no
    /// sort touches them.
    spec fn kept_apart(&self) -> Seq<Card>;

    /// Returns the cards, in their order.
    fn cards(&self) -> (r: &[Card])
        ensures
            r@ == self.spec_cards(),
    ;

    /// Returns the cards for changing their order where they lie.
    fn mut_cards(&mut self) -> (r: &mut [Card])
        ensures
            r@ == old(self).spec_cards(),
            final(self).spec_cards() == final(r)@,
            final(self).kept_apart() == old(self).kept_apart(),
    ;

    /// Shuffle the cards into a random order.
    fn shuffle(&mut self)
        ensures
            exists|draws: Seq<int>|
                draws_fit(old(self).spec_cards().len(), draws) && final(self).spec_cards()
                    == #[trigger] shuffled_with(old(self).spec_cards(), draws),
            final(self).spec_cards().len() == old(self).spec_cards().len(),
            final(self).spec_cards().to_multiset() == old(self).spec_cards().to_multiset(),
            old(self).spec_cards().len() < 2 ==> final(self).spec_cards() == old(
                self,
            ).spec_cards(),
            final(self).kept_apart() == old(self).kept_apart(),
    {
        shuffle(self.mut_cards());
    }

    /// Sort the cards by rank (low to high) and then by suit.
    fn sort(&mut self)
        ensures
            CardOrder::RankThenSuit.sorts(old(self).spec_cards(), final(self).spec_cards()),
            final(self).spec_cards().len() == old(self).spec_cards().len(),
            final(self).kept_apart() == old(self).kept_apart(),
    {
        sort_ascending_rank_suit(self.mut_cards());
    }

    /// Sort the cards by suit and then by rank (low to high).
    fn sort_suit_ascending_rank(&mut self)
        ensures
            CardOrder::SuitThenRank.sorts(old(self).spec_cards(), final(self).spec_cards()),
            final(self).spec_cards().len() == old(self).spec_cards().len(),
            final(self).kept_apart() == old(self).kept_apart(),
    {
        sort_suit_ascending_rank(self.mut_cards());
    }

    /// Sorts the cards by suit and then by rank (high to low).
    fn sort_suit_descending_rank(&mut self)
        ensures
            CardOrder::SuitThenDescRank.sorts(old(self).spec_cards(), final(self).spec_cards()),
            final(self).spec_cards().len() == old(self).spec_cards().len(),
            final(self).kept_apart() == old(self).kept_apart(),
    {
        sort_suit_descending_rank(self.mut_cards());
    }

    /// Sort the cards by rank (high to low) and then by suit.
    fn sort_descending_rank_suit(&mut self)
        ensures
            CardOrder::DescRankThenSuit.sorts(old(self).spec_cards(), final(self).spec_cards()),
            final(self).spec_cards().len() == old(self).spec_cards().len(),
            final(self).kept_apart() == old(self).kept_apart(),
    {
        sort_descending_rank_suit(self.mut_cards());
    }
}

} // verus!
