use crate::card::Card;
use crate::cards::{draws_fit, shuffled_with, Cards};
use crate::error::CardError;
use crate::hand::Hand;
use vstd::multiset::Multiset;
use vstd::prelude::*;
use vstd::seq_lib::lemma_multiset_commutative;

verus! {

/// What a deck holds: the pile of cards that are still to be dealt, of which
/// the last is dealt first, and the pile of cards that have been dealt, in
/// the order in which they were.
pub struct DeckView {
    pub undealt: Seq<Card>,
    pub dealt: Seq<Card>,
}

/// What is done with a deck that changes its piles.
pub enum DeckStep {
    /// As many cards as the number says are asked for, one by one or at once.
    Deal(nat),
    /// The dealt cards are put back onto the undealt pile.
    Reset,
    /// The undealt pile is shuffled.
    Shuffle,
}

impl DeckView {
    /// The number of cards in both piles.
    pub open spec fn count(self) -> nat {
        self.undealt.len() + self.dealt.len()
    }

    /// All cards of the deck, dealt or not, each as often as the deck holds
    /// it.
    pub open spec fn holdings(self) -> Multiset<Card> {
        self.undealt.to_multiset().add(self.dealt.to_multiset())
    }

    /// The number of cards that are dealt when `n` are asked for: `n`, or
    /// all that are left where they are fewer.
    pub open spec fn dealable(self, n: nat) -> nat {
        if n <= self.undealt.len() {
            n
        } else {
            self.undealt.len()
        }
    }

    /// The cards that are dealt when `n` are asked for, in the order in
    /// which they are dealt: from the end of the undealt pile backwards.
    pub open spec fn hand_out(self, n: nat) -> Seq<Card> {
        Seq::new(self.dealable(n), |i: int| self.undealt[self.undealt.len() - 1 - i])
    }

    /// The piles after `n` cards have been asked for: the cards that were
    /// dealt have left the end of the undealt pile and lie on the dealt one.
    pub open spec fn deal(self, n: nat) -> DeckView {
        DeckView {
            undealt: self.undealt.take(self.undealt.len() - self.dealable(n)),
            dealt: self.dealt + self.hand_out(n),
        }
    }

    /// The piles after a reset: the dealt cards are back on the undealt
    /// pile, the one dealt last first, and none is dealt.
    pub open spec fn reset(self) -> DeckView {
        DeckView { undealt: self.undealt + self.dealt.reverse(), dealt: Seq::empty() }
    }

    /// Whether the piles `after` may be what a step makes of these piles. A
    /// shuffle may leave the undealt pile in any order of its cards.
    pub open spec fn leads_to(self, step: DeckStep, after: DeckView) -> bool {
        match step {
            DeckStep::Deal(n) => after == self.deal(n),
            DeckStep::Reset => after == self.reset(),
            DeckStep::Shuffle => after.dealt == self.dealt && after.undealt.to_multiset()
                == self.undealt.to_multiset(),
        }
    }

    /// Whether `states` are the piles that a deck goes through while the
    /// `steps` are done with it one after the other: from the first of them,
    /// each step leads to the next.
    pub open spec fn history(states: Seq<DeckView>, steps: Seq<DeckStep>) -> bool {
        &&& states.len() == steps.len() + 1
        &&& forall|i: int|
            #![trigger steps[i]]
            0 <= i < steps.len() ==> states[i].leads_to(steps[i], states[i + 1])
    }

    /// Neither dealing nor a reset changes the number of cards, and a deal
    /// hands out as many cards as can be dealt.
    pub proof fn lemma_count_is_kept(self, n: nat)
        ensures
            self.deal(n).count() == self.count(),
            self.reset().count() == self.count(),
            self.hand_out(n).len() == self.dealable(n),
            self.deal(n).undealt.len() + self.dealable(n) == self.undealt.len(),
    {
    }

    /// Dealing `n + 1` cards is dealing `n` cards and then one: card by
    /// card, the last card of what is left is dealt next, until none is
    /// left, and then no more is dealt.
    pub proof fn lemma_deal_one_more(self, n: nat)
        ensures
            self.deal(n + 1) == self.deal(n).deal(1),
            self.hand_out(n + 1) == self.hand_out(n) + self.deal(n).hand_out(1),
            self.deal(n).undealt.len() > 0 ==> self.deal(n).hand_out(1) == seq![
                self.deal(n).undealt.last(),
            ],
            self.deal(n).undealt.len() == 0 ==> self.deal(n + 1) == self.deal(n),
            self.deal(0) == self,
    {
        let step = self.deal(n);
        assert(self.hand_out(n + 1) =~= self.hand_out(n) + step.hand_out(1));
        assert(self.deal(n + 1).undealt =~= step.deal(1).undealt);
        assert(self.deal(n + 1).dealt =~= step.deal(1).dealt);
        if step.undealt.len() > 0 {
            assert(step.hand_out(1) =~= seq![step.undealt.last()]);
        }
        assert(self.deal(0).undealt =~= self.undealt);
        assert(self.deal(0).dealt =~= self.dealt);
    }

    /// Dealing exhausts the undealt pile: it yields a card for each one of
    /// the pile and no more, and once as many cards have been asked for as
    /// the pile held, none is left on it.
    pub proof fn lemma_deal_exhausts(self, n: nat)
        ensures
            self.hand_out(n).len() <= self.undealt.len(),
            n >= self.undealt.len() ==> self.deal(n).undealt.len() == 0 && self.hand_out(n).len()
                == self.undealt.len(),
            n < self.undealt.len() ==> self.deal(n).undealt.len() > 0,
    {
    }

    /// A reset undoes what was dealt: after it the piles are as a reset
    /// would have left them before the deal. Where no card had been dealt
    /// before, they are as they were before the deal.
    pub proof fn lemma_reset_undoes_deal(self, n: nat)
        ensures
            self.deal(n).reset() == self.reset(),
            self.dealt.len() == 0 ==> self.deal(n).reset() == self,
    {
        let after = self.deal(n).reset();
        assert(after.undealt =~= self.reset().undealt);
        if self.dealt.len() == 0 {
            assert(self.reset().undealt =~= self.undealt);
            assert(self.reset().dealt =~= self.dealt);
        }
    }

    /// Dealing until no card is left hands out the undealt pile from its
    /// end backwards: the cards that were on it, each as often as it was.
    pub proof fn lemma_deal_all(self, n: nat)
        requires
            n >= self.undealt.len(),
        ensures
            self.hand_out(n) == self.undealt.reverse(),
            self.hand_out(n).to_multiset() == self.undealt.to_multiset(),
    {
        assert(self.hand_out(n) =~= self.undealt.reverse());
        self.undealt.lemma_reverse_to_multiset();
    }

    /// No step takes a card from the deck or adds one to it: after a deal,
    /// a reset or a shuffle the two piles together hold the cards that they
    /// held before, each as often as before, and so as many.
    pub proof fn lemma_step_keeps_cards(self, step: DeckStep, after: DeckView)
        requires
            self.leads_to(step, after),
        ensures
            after.holdings() == self.holdings(),
            after.count() == self.count(),
    {
        broadcast use vstd::multiset::group_multiset_axioms;

        match step {
            DeckStep::Deal(n) => {
                let kept = after.undealt;
                let out = self.undealt.skip(kept.len() as int);
                assert(self.undealt =~= kept + out);
                assert(self.hand_out(n) =~= out.reverse());
                out.lemma_reverse_to_multiset();
                lemma_multiset_commutative(kept, out);
                lemma_multiset_commutative(self.dealt, self.hand_out(n));
                assert(after.holdings() =~= self.holdings());
            },
            DeckStep::Reset => {
                self.dealt.lemma_reverse_to_multiset();
                lemma_multiset_commutative(self.undealt, self.dealt.reverse());
                Seq::<Card>::empty().to_multiset_ensures();
                vstd::multiset::lemma_multiset_empty_len(Seq::<Card>::empty().to_multiset());
                assert(after.holdings() =~= self.holdings());
            },
            DeckStep::Shuffle => {
                self.undealt.to_multiset_ensures();
                after.undealt.to_multiset_ensures();
            },
        }
    }

    /// While a deck is dealt from, shuffled and reset, in whatever order and
    /// however often, it holds the cards that it was made with, each as
    /// often as then, and so as many of them.
    pub proof fn lemma_history_keeps_cards(states: Seq<DeckView>, steps: Seq<DeckStep>, i: int)
        requires
            DeckView::history(states, steps),
            0 <= i < states.len(),
        ensures
            states[i].holdings() == states[0].holdings(),
            states[i].count() == states[0].count(),
        decreases i,
    {
        if i > 0 {
            DeckView::lemma_history_keeps_cards(states, steps, i - 1);
            let step = steps[i - 1];
            assert(states[i - 1].leads_to(step, states[i - 1 + 1]));
            states[i - 1].lemma_step_keeps_cards(step, states[i]);
        }
    }

    /// Dealing again after a reset deals the same cards in the same order:
    /// from a deck of which no card has been dealt, the cards that a deal
    /// hands out are those that the same deal hands out after a reset.
    pub proof fn lemma_deal_again_after_reset(self, n: nat)
        requires
            self.dealt.len() == 0,
        ensures
            self.deal(n).reset().hand_out(n) == self.hand_out(n),
            self.deal(n).reset().deal(n) == self.deal(n),
    {
        self.lemma_reset_undoes_deal(n);
    }
}

/// This represents a deck of zero or more cards. Internally the deck
/// consists of an undealt and a dealt pile of cards. The dealt pile starts
/// off empty and receives cards as they are dealt from the undealt pile.
/// The deck may be reset to return the dealt cards to the undealt pile. A
/// deck may be shuffled to randomize its order.
pub struct Deck {
    /// The cards that are still to be dealt
    cards: Vec<Card>,
    /// Dealt cards are cards which have been dealt in calls but are still
    /// members of the deck: they remain dealt until the deck is reset.
    dealt_cards: Vec<Card>,
}

impl View for Deck {
    type V = DeckView;

    closed spec fn view(&self) -> DeckView {
        DeckView { undealt: self.cards@, dealt: self.dealt_cards@ }
    }
}

impl Cards for Deck {
    open spec fn spec_cards(&self) -> Seq<Card> {
        self@.undealt
    }

    open spec fn kept_apart(&self) -> Seq<Card> {
        self@.dealt
    }

    fn cards(&self) -> (r: &[Card]) {
        self.cards.as_slice()
    }

    fn mut_cards(&mut self) -> (r: &mut [Card]) {
        self.cards.as_mut_slice()
    }
}

impl Deck {
    /// Whether the cards of the deck can be counted: whether their number
    /// fits the machine's word. Every deck that `new` or `from_cards` has
    /// made is so, and stays so whatever is done with it.
    pub open spec fn wf(&self) -> bool {
        self@.count() <= usize::MAX
    }

    /// Creates a new deck containing the standard set of 52 cards, in their
    /// canonical order and none of them dealt.
    pub fn new() -> (deck: Deck)
        ensures
            deck@ == (DeckView { undealt: Card::standard_deck(), dealt: Seq::empty() }),
            deck.wf(),
    {
        Deck::from_cards(Card::all_cards())
    }

    /// Creates a new deck containing the specified cards, in their order and
    /// none of them dealt. Whatever cards are given make a deck, be they few
    /// or many or some of them the same.
    pub fn from_cards(cards: &[Card]) -> (deck: Deck)
        ensures
            deck@ == (DeckView { undealt: cards@, dealt: Seq::empty() }),
            deck.wf(),
    {
        let mut deck = Deck { cards: Vec::new(), dealt_cards: Vec::new() };
        deck.populate(cards);
        assert(deck.cards@.len() == deck.cards.len());
        deck
    }

    fn populate(&mut self, cards: &[Card])
        ensures
            final(self)@ == (DeckView {
                undealt: old(self)@.undealt + cards@,
                dealt: old(self)@.dealt,
            }),
    {
        self.cards.extend_from_slice(cards);
        assert(self.cards@ =~= old(self)@.undealt + cards@);
    }

    /// Returns the number of remaining undealt cards.
    pub fn undealt_count(&self) -> (n: usize)
        ensures
            n == self@.undealt.len(),
    {
        self.cards.len()
    }

    /// Returns the number of dealt cards.
    pub fn dealt_count(&self) -> (n: usize)
        ensures
            n == self@.dealt.len(),
    {
        self.dealt_cards.len()
    }

    /// Returns the number of cards, dealt or undealt, within the deck.
    pub fn count(&self) -> (n: usize)
        requires
            self.wf(),
        ensures
            n == self@.count(),
    {
        self.undealt_count() + self.dealt_count()
    }

    /// Deals the card from the undealt pile. If there are no cards left, the
    /// function will return an error and leave the deck as it is.
    pub fn deal_one(&mut self) -> (r: Result<Card, CardError>)
        ensures
            old(self)@.undealt.len() > 0 ==> r == Ok::<Card, CardError>(
                old(self)@.undealt.last(),
            ),
            old(self)@.undealt.len() == 0 ==> r == Err::<Card, CardError>(
                CardError::EmptyDeck,
            ) && final(self)@ == old(self)@,
            final(self)@ == old(self)@.deal(1),
            final(self)@.count() == old(self)@.count(),
    {
        if self.cards.is_empty() {
            proof {
                old(self)@.lemma_deal_one_more(0);
            }
            return Err(CardError::EmptyDeck);
        }
        let card = self.cards.pop().unwrap();
        self.dealt_cards.push(card);
        proof {
            let before = old(self)@;
            assert(before.hand_out(1) =~= seq![card]);
            assert(self@.undealt =~= before.deal(1).undealt);
            assert(self@.dealt =~= before.deal(1).dealt);
        }
        Ok(card)
    }

    /// Deals one or more card from the undealt pile and returns them in the
    /// order in which they were dealt. Where fewer cards are left than were
    /// asked for, those that are left are dealt.
    pub fn deal(&mut self, numcards: usize) -> (result: Vec<Card>)
        ensures
            result@ == old(self)@.hand_out(numcards as nat),
            result@.len() == old(self)@.dealable(numcards as nat),
            final(self)@ == old(self)@.deal(numcards as nat),
            final(self)@.count() == old(self)@.count(),
    {
        let ghost start = self@;
        let mut result: Vec<Card> = Vec::new();
        let mut i: usize = 0;
        proof {
            start.lemma_deal_one_more(0);
            assert(start.hand_out(0) =~= result@);
        }
        while i < numcards
            invariant
                i <= numcards,
                self@ == start.deal(i as nat),
                result@ == start.hand_out(i as nat),
            ensures
                self@ == start.deal(numcards as nat),
                result@ == start.hand_out(numcards as nat),
            decreases numcards - i,
        {
            let dealt: Result<Card, CardError> = self.deal_one();
            proof {
                start.lemma_deal_one_more(i as nat);
            }
            if let Ok(card) = dealt {
                result.push(card);
            } else {
                // No cards so no point continuing
                proof {
                    assert(start.deal(numcards as nat).undealt =~= start.deal(
                        i as nat,
                    ).undealt);
                    assert(start.hand_out(numcards as nat) =~= start.hand_out(i as nat));
                }
                break ;
            }
            i += 1;
        }
        proof {
            start.lemma_count_is_kept(numcards as nat);
        }
        result
    }

    /// Deals one or more card straight to the hand, where they are added in
    /// the order in which they were dealt. Returns the number of cards
    /// dealt: fewer than were asked for where fewer were left.
    pub fn deal_to_hand(&mut self, hand: &mut Hand, numcards: usize) -> (dealt: usize)
        ensures
            dealt == old(self)@.dealable(numcards as nat),
            final(hand)@ == old(hand)@ + old(self)@.hand_out(numcards as nat),
            final(self)@ == old(self)@.deal(numcards as nat),
            final(self)@.count() == old(self)@.count(),
    {
        let ghost start = self@;
        let ghost held = hand@;
        let mut dealt: usize = 0;
        proof {
            start.lemma_deal_one_more(0);
            assert(held + start.hand_out(0) =~= held);
        }
        while dealt < numcards
            invariant
                dealt <= numcards,
                dealt == start.dealable(dealt as nat),
                self@ == start.deal(dealt as nat),
                hand@ == held + start.hand_out(dealt as nat),
            ensures
                dealt == start.dealable(numcards as nat),
                self@ == start.deal(numcards as nat),
                hand@ == held + start.hand_out(numcards as nat),
            decreases numcards - dealt,
        {
            let result: Result<Card, CardError> = self.deal_one();
            proof {
                start.lemma_deal_one_more(dealt as nat);
            }
            if let Ok(card) = result {
                hand.push(card);
                proof {
                    assert(hand@ =~= held + start.hand_out((dealt + 1) as nat));
                }
                dealt += 1;
            } else {
                // No cards so no point continuing
                proof {
                    assert(start.deal(numcards as nat).undealt =~= start.deal(
                        dealt as nat,
                    ).undealt);
                    assert(start.hand_out(numcards as nat) =~= start.hand_out(dealt as nat));
                }
                break ;
            }
        }
        proof {
            start.lemma_count_is_kept(numcards as nat);
        }
        dealt
    }

    /// Returns the undealt cards as a slice.
    pub fn undealt_as_slice(&self) -> (r: &[Card])
        ensures
            r@ == self@.undealt,
    {
        self.cards.as_slice()
    }

    /// Returns the dealt cards as a slice.
    pub fn dealt_as_slice(&self) -> (r: &[Card])
        ensures
            r@ == self@.dealt,
    {
        self.dealt_cards.as_slice()
    }

    /// Return the dealt cards back to the end of the undealt pile. Order is
    /// preserved according to the default order or the last shuffle.
    pub fn reset(&mut self)
        ensures
            final(self)@ == old(self)@.reset(),
            final(self)@.count() == old(self)@.count(),
    {
        let ghost start = self@;
        // Put cards back into undealt deck in reverse order
        while self.dealt_cards.len() > 0
            invariant
                self@.undealt + self@.dealt.reverse() == start.undealt + start.dealt.reverse(),
            decreases self@.dealt.len(),
        {
            let ghost before = self@;
            let card = self.dealt_cards.pop().unwrap();
            self.cards.push(card);
            proof {
                assert(self@.undealt + self@.dealt.reverse() =~= before.undealt
                    + before.dealt.reverse());
            }
        }
        proof {
            assert(self@.undealt =~= self@.undealt + self@.dealt.reverse());
            assert(self@.dealt =~= Seq::<Card>::empty());
        }
    }

    /// Resets and shuffles the deck: no card is dealt afterwards, and the
    /// undealt pile holds all cards of the deck in a random order.
    pub fn reset_shuffle(&mut self)
        ensures
            exists|draws: Seq<int>|
                draws_fit(old(self)@.count(), draws) && final(self)@.undealt
                    == #[trigger] shuffled_with(old(self)@.reset().undealt, draws),
            final(self)@.dealt == Seq::<Card>::empty(),
            final(self)@.undealt.len() == old(self)@.count(),
            final(self)@.undealt.to_multiset() == old(self)@.reset().undealt.to_multiset(),
            final(self)@.count() == old(self)@.count(),
    {
        self.reset();
        self.shuffle();
    }

    /// A new deck deals 52 cards of which no two have the same number: it
    /// deals each card of the standard deck once.
    pub proof fn lemma_new_deck_deals_distinct(i: int, j: int)
        requires
            0 <= i < 52,
            0 <= j < 52,
            i != j,
        ensures
            ({
                let dealt = (DeckView {
                    undealt: Card::standard_deck(),
                    dealt: Seq::empty(),
                }).hand_out(52);
                &&& dealt.len() == 52
                &&& dealt[i].spec_ordinal() == 51 - i
                &&& dealt[i].spec_ordinal() != dealt[j].spec_ordinal()
                &&& dealt[i] != dealt[j]
            }),
    {
        Card::lemma_standard_deck_distinct(51 - i, 51 - j);
    }
}

} // verus!
