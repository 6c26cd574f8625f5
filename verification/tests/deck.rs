use deckofcards::{Card, CardError, Cards, Deck, Hand, Rank, Suit};
use std::collections::HashSet;

fn card(s: &str) -> Card {
    match Card::from_str(s) {
        Ok(card) => card,
        Err(_) => panic!("Not a known card {}", s),
    }
}

fn six_cards() -> [Card; 6] {
    [card("AH"), card("2C"), card("3D"), card("4S"), card("5H"), card("6C")]
}

fn sorted(cards: &[Card]) -> Vec<Card> {
    let mut v = cards.to_vec();
    v.sort();
    v
}

#[test]
fn test_shuffle() {
    // This code is going create a bunch of decks and shuffle them. It will
    // test that the cards at ends of the deck appear to be shuffled.
    let loop_count = 50;
    let mut top_matches = 0;
    let mut bottom_matches = 0;

    for _ in 0..loop_count {
        let mut d = Deck::new();
        // Get cards before shuffling
        let t1 = *d.undealt_as_slice().last().unwrap();
        let b1 = *d.undealt_as_slice().first().unwrap();
        // Shuffle
        d.shuffle();
        // Get end cards after shuffling
        let t2 = *d.undealt_as_slice().last().unwrap();
        let b2 = *d.undealt_as_slice().first().unwrap();
        // Increment if top and bottom appear to be unshuffled
        if t1 == t2 {
            top_matches += 1;
        }
        if b1 == b2 {
            bottom_matches += 1;
        }
    }

    println!(
        "top card matched {} times, bottom card matched {} times",
        top_matches, bottom_matches
    );

    // We expect shuffling of both top and bottom at least some of the iterations of the loop
    assert!(top_matches < loop_count);
    assert!(bottom_matches < loop_count);
}

#[test]
fn deck_count() {
    let mut d = Deck::new();
    assert_eq!(d.dealt_count(), 0);
    assert_eq!(d.undealt_count(), 52);
    assert_eq!(d.count(), 52);

    let _ = d.deal_one();
    assert_eq!(d.dealt_count(), 1);
    assert_eq!(d.undealt_count(), 51);
    assert_eq!(d.count(), 52);

    let _ = d.deal(10);
    assert_eq!(d.dealt_count(), 11);
    assert_eq!(d.undealt_count(), 41);
    assert_eq!(d.count(), 52);

    let _ = d.deal(100);
    assert_eq!(d.dealt_count(), 52);
    assert_eq!(d.undealt_count(), 0);
    assert_eq!(d.count(), 52);
}

#[test]
fn deck_unique() {
    let mut set: HashSet<usize> = HashSet::new();
    let mut d = Deck::new();
    loop {
        let c = d.deal_one();
        if c.is_err() {
            break;
        }
        let card = c.unwrap();
        set.insert(card.ordinal());
    }
    assert_eq!(set.len(), d.count());
}

#[test]
fn deck_dealt_cards() {
    let mut d = Deck::new();
    let mut dealt = 0;
    loop {
        let c = d.deal_one();
        if c.is_err() {
            break;
        }
        dealt += 1;
    }
    assert_eq!(dealt, 52);
}

#[test]
fn deck_deal_one_fails_with_empty_deck_after_the_last_card() {
    let mut d = Deck::new();
    for _ in 0..52 {
        assert!(d.deal_one().is_ok());
    }
    assert_eq!(d.deal_one(), Err(CardError::EmptyDeck));
    // the failure changes nothing, and is repeated
    assert_eq!(d.undealt_count(), 0);
    assert_eq!(d.dealt_count(), 52);
    assert_eq!(d.deal_one(), Err(CardError::EmptyDeck));
    assert_eq!(d.count(), 52);
}

#[test]
fn deck_deal_one_on_a_deck_without_cards() {
    let mut d = Deck::from_cards(&[]);
    assert_eq!(d.count(), 0);
    assert_eq!(d.deal_one(), Err(CardError::EmptyDeck));
    assert_eq!(d.deal(3), vec![]);
    d.reset();
    d.shuffle();
    d.reset_shuffle();
    assert_eq!(d.count(), 0);
}

#[test]
fn deck_reset() {
    let c1 = card("AH");
    let c2 = card("2C");
    let c3 = card("3D");
    let c4 = card("4S");
    let c5 = card("5H");
    let c6 = card("6C");
    let cards: [Card; 6] = [c1, c2, c3, c4, c5, c6];
    let mut d = Deck::from_cards(&cards);
    assert_eq!(d.count(), 6);
    assert_eq!(d.deal_one().unwrap(), c6);
    assert_eq!(d.deal_one().unwrap(), c5);
    assert_eq!(d.deal_one().unwrap(), c4);
    assert_eq!(d.deal_one().unwrap(), c3);
    assert_eq!(d.deal_one().unwrap(), c2);
    assert_eq!(d.deal_one().unwrap(), c1);
    d.reset();
    // Partially deal
    assert_eq!(d.deal_one().unwrap(), c6);
    assert_eq!(d.deal_one().unwrap(), c5);
    assert_eq!(d.deal_one().unwrap(), c4);
    d.reset();
    assert_eq!(d.deal_one().unwrap(), c6);
    assert_eq!(d.deal_one().unwrap(), c5);
    assert_eq!(d.deal_one().unwrap(), c4);
    assert_eq!(d.deal_one().unwrap(), c3);
    assert_eq!(d.deal_one().unwrap(), c2);
    assert_eq!(d.deal_one().unwrap(), c1);
}

#[test]
fn deck_reset_restores_the_piles() {
    let cards = six_cards();
    for k in 0..=8 {
        let mut d = Deck::from_cards(&cards);
        let first = d.deal(k);
        assert_eq!(first.len(), k.min(6));
        assert_eq!(d.dealt_as_slice(), first.as_slice());
        d.reset();
        assert_eq!(d.undealt_as_slice(), &cards);
        assert_eq!(d.dealt_as_slice(), &[]);
        let second = d.deal(k);
        assert_eq!(first, second);
    }
}

#[test]
fn deck_reset_puts_the_last_dealt_first() {
    let mut d = Deck::from_cards(&[card("AH"), card("2C"), card("3D")]);
    assert_eq!(d.deal(2), vec![card("3D"), card("2C")]);
    assert_eq!(d.undealt_as_slice(), &[card("AH")]);
    assert_eq!(d.dealt_as_slice(), &[card("3D"), card("2C")]);
    d.reset();
    assert_eq!(d.undealt_as_slice(), &[card("AH"), card("2C"), card("3D")]);
    assert_eq!(d.dealt_count(), 0);
}

#[test]
fn deck_reset_of_a_fresh_deck_changes_nothing() {
    let mut d = Deck::new();
    d.reset();
    assert_eq!(d.undealt_as_slice(), Card::all_cards());
    assert_eq!(d.dealt_count(), 0);
}

#[test]
fn deck_new_holds_the_standard_cards_undealt() {
    let d = Deck::new();
    assert_eq!(d.undealt_as_slice(), Card::all_cards());
    assert_eq!(d.dealt_as_slice(), &[]);
    assert_eq!(d.cards(), Card::all_cards());
}

#[test]
fn deck_new_deals_from_the_end_of_the_table() {
    let mut d = Deck::new();
    assert_eq!(d.deal_one(), Ok(Card::new(Rank::Ace, Suit::Clubs)));
    assert_eq!(d.deal_one(), Ok(Card::new(Rank::King, Suit::Clubs)));
    assert_eq!(d.deal(2), vec![card("QC"), card("JC")]);
    assert_eq!(d.dealt_as_slice(), &[card("AC"), card("KC"), card("QC"), card("JC")]);
}

#[test]
fn deck_from_cards_keeps_order_and_duplicates() {
    let cards = [card("AH"), card("AH"), card("2C"), card("AH")];
    let mut d = Deck::from_cards(&cards);
    assert_eq!(d.count(), 4);
    assert_eq!(d.undealt_as_slice(), &cards);
    assert_eq!(d.deal(4), vec![card("AH"), card("2C"), card("AH"), card("AH")]);

    let mut many: Vec<Card> = Vec::new();
    many.extend_from_slice(Card::all_cards());
    many.extend_from_slice(Card::all_cards());
    let d = Deck::from_cards(&many);
    assert_eq!(d.count(), 104);
    assert_eq!(d.undealt_count(), 104);
}

#[test]
fn deck_deal_is_a_partial_success() {
    let mut d = Deck::from_cards(&six_cards());
    assert_eq!(d.deal(0), vec![]);
    assert_eq!(d.undealt_count(), 6);
    assert_eq!(d.deal(4), vec![card("6C"), card("5H"), card("4S"), card("3D")]);
    assert_eq!(d.deal(4), vec![card("2C"), card("AH")]);
    assert_eq!(d.deal(4), vec![]);
    assert_eq!(d.deal(usize::MAX), vec![]);
    assert_eq!(d.dealt_count(), 6);
    assert_eq!(d.count(), 6);
}

#[test]
fn deck_deal_to_hand() {
    let mut d = Deck::from_cards(&six_cards());
    let mut hand = Hand::from_cards(&[card("KS")]);
    assert_eq!(d.deal_to_hand(&mut hand, 2), 2);
    assert_eq!(hand.cards(), &[card("KS"), card("6C"), card("5H")]);
    assert_eq!(d.undealt_count(), 4);
    assert_eq!(d.dealt_as_slice(), &[card("6C"), card("5H")]);
    assert_eq!(d.deal_to_hand(&mut hand, 0), 0);
    assert_eq!(d.deal_to_hand(&mut hand, 10), 4);
    assert_eq!(hand.len(), 7);
    assert_eq!(
        hand.cards(),
        &[card("KS"), card("6C"), card("5H"), card("4S"), card("3D"), card("2C"), card("AH")]
    );
    assert_eq!(d.deal_to_hand(&mut hand, usize::MAX), 0);
    assert_eq!(hand.len(), 7);
    assert_eq!(d.count(), 6);
}

#[test]
fn deck_count_is_constant() {
    let cards = [card("AH"), card("AH"), card("2C"), card("9D"), card("9D")];
    let mut d = Deck::from_cards(&cards);
    let n = cards.len();
    let mut hand = Hand::new();
    d.shuffle();
    assert_eq!(d.undealt_count() + d.dealt_count(), n);
    let _ = d.deal_one();
    assert_eq!(d.undealt_count() + d.dealt_count(), n);
    d.shuffle();
    assert_eq!(d.undealt_count() + d.dealt_count(), n);
    let _ = d.deal(2);
    assert_eq!(d.undealt_count() + d.dealt_count(), n);
    d.reset();
    assert_eq!(d.undealt_count() + d.dealt_count(), n);
    let _ = d.deal_to_hand(&mut hand, 9);
    assert_eq!(d.undealt_count() + d.dealt_count(), n);
    let _ = d.deal_one();
    assert_eq!(d.undealt_count() + d.dealt_count(), n);
    d.reset_shuffle();
    assert_eq!((d.undealt_count(), d.dealt_count()), (n, 0));
    assert_eq!(d.count(), n);
}

#[test]
fn deck_shuffle_same_cards() {
    let c1 = card("AH");
    let c2 = card("2C");
    let c3 = card("3D");
    let c4 = card("4S");
    let c5 = card("5H");
    let c6 = card("6C");
    let cards: [Card; 6] = [c1, c2, c3, c4, c5, c6];
    let mut d = Deck::from_cards(&cards);
    d.shuffle();
    let mut set: HashSet<Card> = HashSet::new();
    loop {
        let c = d.deal_one();
        if c.is_err() {
            break;
        }
        let card = c.unwrap();
        set.insert(card);
    }
    assert!(set.contains(&c1));
    assert!(set.contains(&c2));
    assert!(set.contains(&c3));
    assert!(set.contains(&c4));
    assert!(set.contains(&c5));
    assert!(set.contains(&c6));
}

#[test]
fn deck_shuffle_new_order() {
    let mut d = Deck::new();
    d.shuffle();
    loop {
        let c = d.deal_one();
        if c.is_err() {
            break;
        }
    }
}

#[test]
fn deck_shuffle_keeps_each_card_as_often_as_before() {
    let cards = [card("AH"), card("AH"), card("2C"), card("9D"), card("9D"), card("9D")];
    for _ in 0..20 {
        let mut d = Deck::from_cards(&cards);
        d.shuffle();
        d.shuffle();
        assert_eq!(d.undealt_count(), 6);
        assert_eq!(sorted(d.undealt_as_slice()), sorted(&cards));
    }
    for _ in 0..20 {
        let mut d = Deck::new();
        d.shuffle();
        assert_eq!(sorted(d.undealt_as_slice()), sorted(Card::all_cards()));
    }
}

#[test]
fn deck_shuffle_leaves_the_dealt_cards() {
    for _ in 0..20 {
        let mut d = Deck::from_cards(&six_cards());
        let dealt = d.deal(3);
        d.shuffle();
        assert_eq!(d.dealt_as_slice(), dealt.as_slice());
        assert_eq!(sorted(d.undealt_as_slice()), sorted(&six_cards()[..3]));
    }
}

#[test]
fn deck_shuffle_of_one_card_or_none() {
    let mut d = Deck::from_cards(&[card("AH")]);
    d.shuffle();
    assert_eq!(d.undealt_as_slice(), &[card("AH")]);
    let mut d = Deck::from_cards(&six_cards());
    let _ = d.deal(6);
    d.shuffle();
    assert_eq!(d.undealt_count(), 0);
    assert_eq!(d.dealt_count(), 6);
}

#[test]
fn deck_shuffle_reaches_every_order_of_three() {
    let cards = [card("AH"), card("2C"), card("3D")];
    let mut seen: HashSet<Vec<Card>> = HashSet::new();
    for _ in 0..600 {
        let mut d = Deck::from_cards(&cards);
        d.shuffle();
        seen.insert(d.undealt_as_slice().to_vec());
    }
    assert_eq!(seen.len(), 6);
}

#[test]
fn deck_reset_shuffle() {
    for _ in 0..20 {
        let mut d = Deck::from_cards(&six_cards());
        let _ = d.deal(4);
        d.reset_shuffle();
        assert_eq!(d.dealt_count(), 0);
        assert_eq!(d.undealt_count(), 6);
        assert_eq!(sorted(d.undealt_as_slice()), sorted(&six_cards()));
    }
}

#[test]
fn deck_mut_cards_is_the_undealt_pile() {
    let mut d = Deck::from_cards(&six_cards());
    let _ = d.deal(2);
    {
        let undealt = d.mut_cards();
        assert_eq!(undealt.len(), 4);
        undealt.swap(0, 3);
    }
    assert_eq!(d.undealt_as_slice(), &[card("4S"), card("2C"), card("3D"), card("AH")]);
    assert_eq!(d.dealt_as_slice(), &[card("6C"), card("5H")]);
}

#[test]
fn deck_sorts_the_undealt_pile_only() {
    let mut d = Deck::from_cards(&six_cards());
    let _ = d.deal(2);
    d.sort_descending_rank_suit();
    assert_eq!(d.undealt_as_slice(), &[card("AH"), card("4S"), card("3D"), card("2C")]);
    assert_eq!(d.dealt_as_slice(), &[card("6C"), card("5H")]);
}
