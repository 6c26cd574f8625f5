use deckofcards::{Card, CardError, Rank, Suit};
use std::cmp::Ordering;
use std::collections::HashSet;

fn card(s: &str) -> Card {
    match Card::from_str(s) {
        Ok(card) => card,
        Err(_) => panic!("Not a known card {}", s),
    }
}

#[test]
fn card_equality() {
    let card1 = card("AH");
    let card2 = card("AH");
    assert_eq!(card1, card1);
    assert_eq!(card1, card2);
    assert_eq!(card2, card1);
    let card3 = card("AS");
    assert!(card1 != card3);
    let card4 = card("2H");
    assert!(card1 != card4);
}

#[test]
fn card_hash_is_structural() {
    let mut set: HashSet<Card> = HashSet::new();
    set.insert(card("AH"));
    set.insert(Card::new(Rank::Ace, Suit::Hearts));
    set.insert(card("HA"));
    assert_eq!(set.len(), 1);
    set.insert(card("2H"));
    set.insert(card("AS"));
    assert_eq!(set.len(), 3);
}

#[test]
fn card_from_str() {
    assert_eq!(Card::from_str("TC").unwrap(), Card::new(Rank::Ten, Suit::Clubs));
    assert_eq!(Card::from_str("CT").unwrap(), Card::new(Rank::Ten, Suit::Clubs));
    assert_eq!(Card::from_str("AD").unwrap(), Card::new(Rank::Ace, Suit::Diamonds));
    assert_eq!(Card::from_str("1S").unwrap(), Card::new(Rank::Ace, Suit::Spades));
    assert!(Card::from_str("ADC").is_err());
    assert!(Card::from_str("A").is_err());
    assert!(Card::from_str("C").is_err());
    assert!(Card::from_str("AA").is_err());
    assert!(Card::from_str("DD").is_err());
    assert!(Card::from_str("").is_err());
}

#[test]
fn card_from_str_errors_are_invalid_card_string() {
    for s in ["", "A", "C", "ADC", "AA", "DD", "as", "A S", "0S", "AX", " AS", "ASAS"] {
        assert_eq!(Card::from_str(s), Err(CardError::InvalidCardString), "{:?}", s);
    }
}

#[test]
fn card_from_str_does_not_abort_on_other_scripts() {
    // two bytes but one character, one character of three bytes, two symbols
    assert_eq!(Card::from_str("\u{e9}"), Err(CardError::InvalidCardString));
    assert_eq!(Card::from_str("\u{2660}"), Err(CardError::InvalidCardString));
    assert_eq!(Card::from_str("A\u{2660}"), Err(CardError::InvalidCardString));
    assert_eq!(Card::from_str("\u{2660}\u{2665}"), Err(CardError::InvalidCardString));
}

#[test]
fn card_from_str_one_is_an_ace_in_both_orders() {
    for suit in Suit::suits() {
        let ace = Card::new(Rank::Ace, *suit);
        assert_eq!(Card::from_str(&format!("1{}", suit.to_char())), Ok(ace));
        assert_eq!(Card::from_str(&format!("{}1", suit.to_char())), Ok(ace));
    }
}

#[test]
fn card_to_str() {
    assert_eq!(Card::new(Rank::Ten, Suit::Clubs).to_str(), "TC");
    assert_eq!(Card::new(Rank::Queen, Suit::Spades).to_str(), "QS");
    assert_eq!(Card::new(Rank::Ace, Suit::Diamonds).to_str(), "AD");
    assert_eq!(Card::new(Rank::Three, Suit::Hearts).to_str(), "3H");
}

#[test]
fn card_to_str_is_rank_then_suit_however_it_was_read() {
    assert_eq!(card("CT").to_str(), "TC");
    assert_eq!(card("S1").to_str(), "AS");
    assert_eq!(card("1H").to_str(), "AH");
}

#[test]
fn card_codec_round_trip() {
    for c in Card::all_cards() {
        let code = c.to_str();
        assert_eq!(code.chars().count(), 2);
        assert_eq!(Card::from_str(&code), Ok(*c));
        let other_way: String = code.chars().rev().collect();
        assert_eq!(Card::from_str(&other_way), Ok(*c));
    }
}

#[test]
fn card_name() {
    assert_eq!(Card::new(Rank::Ace, Suit::Spades).name(), "Ace of Spades");
    assert_eq!(Card::new(Rank::Two, Suit::Diamonds).name(), "Two of Diamonds");
    assert_eq!(Card::new(Rank::Ten, Suit::Clubs).name(), "Ten of Clubs");
    assert_eq!(Card::new(Rank::Queen, Suit::Hearts).name(), "Queen of Hearts");
    for c in Card::all_cards() {
        assert_eq!(c.name(), format!("{} of {}", c.rank.to_str(), c.suit.to_str()));
    }
}

#[test]
fn card_new_keeps_rank_and_suit() {
    let c = Card::new(Rank::Jack, Suit::Hearts);
    assert_eq!(c.rank, Rank::Jack);
    assert_eq!(c.suit, Suit::Hearts);
}

#[test]
fn card_ordinal() {
    assert_eq!(card("2S").ordinal(), 0);
    assert_eq!(card("AS").ordinal(), 12);
    assert_eq!(card("2H").ordinal(), 13);
    assert_eq!(card("TH").ordinal(), 21);
    assert_eq!(card("2D").ordinal(), 26);
    assert_eq!(card("KD").ordinal(), 37);
    assert_eq!(card("2C").ordinal(), 39);
    assert_eq!(card("AC").ordinal(), 51);
    for c in Card::all_cards() {
        assert_eq!(c.ordinal(), c.suit.ordinal() * 13 + c.rank.ordinal());
    }
}

#[test]
fn card_all_cards() {
    let cards = Card::all_cards();
    assert_eq!(cards.len(), 52);
}

#[test]
fn card_all_cards_is_suit_major_rank_minor() {
    let cards = Card::all_cards();
    let mut i = 0;
    for suit in Suit::suits() {
        for rank in Rank::ranks() {
            assert_eq!(cards[i], Card::new(*rank, *suit));
            assert_eq!(cards[i].ordinal(), i);
            i += 1;
        }
    }
    assert_eq!(i, 52);
    assert_eq!(cards[0], card("2S"));
    assert_eq!(cards[12], card("AS"));
    assert_eq!(cards[13], card("2H"));
    assert_eq!(cards[51], card("AC"));
}

#[test]
fn card_iterator_walks_all_cards() {
    let walked: Vec<Card> = Card::iterator().copied().collect();
    assert_eq!(walked.as_slice(), Card::all_cards());
    // restartable, with no state kept between two walks
    assert_eq!(Card::iterator().count(), 52);
    assert_eq!(*Card::iterator().next().unwrap(), card("2S"));
}

#[test]
fn card_suit_tests() {
    assert!(card("3H").is_hearts());
    assert!(!card("3H").is_clubs());
    assert!(!card("3H").is_spades());
    assert!(!card("3H").is_diamonds());
    assert!(card("3C").is_clubs());
    assert!(card("3S").is_spades());
    assert!(card("3D").is_diamonds());
    for c in Card::all_cards() {
        let hits = [c.is_hearts(), c.is_clubs(), c.is_spades(), c.is_diamonds()];
        assert_eq!(hits.iter().filter(|h| **h).count(), 1);
    }
}

#[test]
fn card_cmp_rank_then_suit() {
    assert_eq!(card("2C").cmp_rank_then_suit(&card("3S")), Ordering::Less);
    assert_eq!(card("AS").cmp_rank_then_suit(&card("KC")), Ordering::Greater);
    assert_eq!(card("5S").cmp_rank_then_suit(&card("5H")), Ordering::Less);
    assert_eq!(card("5C").cmp_rank_then_suit(&card("5D")), Ordering::Greater);
    assert_eq!(card("5C").cmp_rank_then_suit(&card("5C")), Ordering::Equal);
}

#[test]
fn card_cmp_desc_rank_then_suit() {
    assert_eq!(card("2C").cmp_desc_rank_then_suit(&card("3S")), Ordering::Greater);
    assert_eq!(card("AS").cmp_desc_rank_then_suit(&card("KC")), Ordering::Less);
    // the suit still goes up where the ranks are the same
    assert_eq!(card("5S").cmp_desc_rank_then_suit(&card("5H")), Ordering::Less);
    assert_eq!(card("5C").cmp_desc_rank_then_suit(&card("5D")), Ordering::Greater);
    assert_eq!(card("5C").cmp_desc_rank_then_suit(&card("5C")), Ordering::Equal);
}

#[test]
fn card_cmp_suit_then_rank() {
    assert_eq!(card("AS").cmp_suit_then_rank(&card("2H")), Ordering::Less);
    assert_eq!(card("2C").cmp_suit_then_rank(&card("AD")), Ordering::Greater);
    assert_eq!(card("5H").cmp_suit_then_rank(&card("6H")), Ordering::Less);
    assert_eq!(card("AH").cmp_suit_then_rank(&card("KH")), Ordering::Greater);
    assert_eq!(card("KH").cmp_suit_then_rank(&card("KH")), Ordering::Equal);
}

#[test]
fn card_cmp_suit_then_desc_rank() {
    // the suit still goes up
    assert_eq!(card("AS").cmp_suit_then_desc_rank(&card("2H")), Ordering::Less);
    assert_eq!(card("2C").cmp_suit_then_desc_rank(&card("AD")), Ordering::Greater);
    assert_eq!(card("5H").cmp_suit_then_desc_rank(&card("6H")), Ordering::Greater);
    assert_eq!(card("AH").cmp_suit_then_desc_rank(&card("KH")), Ordering::Less);
    assert_eq!(card("KH").cmp_suit_then_desc_rank(&card("KH")), Ordering::Equal);
}

#[test]
fn card_cmp_is_rank_then_suit_and_agrees_with_std_order() {
    for a in Card::all_cards() {
        for b in Card::all_cards() {
            assert_eq!(a.cmp(b), a.cmp_rank_then_suit(b));
            assert_eq!(a.cmp(b), Ord::cmp(a, b));
            assert_eq!(a.partial_cmp(b), Some(a.cmp(b)));
            assert_eq!(a < b, a.cmp(b) == Ordering::Less);
            assert_eq!(a >= b, a.cmp(b) != Ordering::Less);
            assert_eq!(a.cmp(b) == Ordering::Equal, a == b);
        }
    }
}

#[test]
fn card_comparators_go_by_two_keys() {
    for a in Card::all_cards() {
        for b in Card::all_cards() {
            let ranks = a.rank.ordinal().cmp(&b.rank.ordinal());
            let suits = a.suit.ordinal().cmp(&b.suit.ordinal());
            assert_eq!(a.cmp_rank_then_suit(b), ranks.then(suits));
            assert_eq!(a.cmp_desc_rank_then_suit(b), ranks.reverse().then(suits));
            assert_eq!(a.cmp_suit_then_rank(b), suits.then(ranks));
            assert_eq!(a.cmp_suit_then_desc_rank(b), suits.then(ranks.reverse()));
        }
    }
}
