use crate::compare::ordering_of;
use crate::error::CardError;
use std::cmp::Ordering;
use std::slice::Iter;
use vstd::prelude::*;
use vstd::std_specs::iter::IteratorSpec;
use vstd::std_specs::slice::into_iter_elts;

verus! {

/// The thirteen ranks of a standard deck, from Two up to Ace.
#[derive(Copy, Clone, Hash, Eq, PartialEq, Ord, Debug, Structural)]
pub enum Rank {
    Two,
    Three,
    Four,
    Five,
    Six,
    Seven,
    Eight,
    Nine,
    Ten,
    Jack,
    Queen,
    King,
    Ace,
}

impl PartialOrd for Rank {
    /// Compares two ranks by their position in the fixed order, Ace high.
    fn partial_cmp(&self, other: &Rank) -> (r: Option<Ordering>) {
        Some(self.cmp(other))
    }
}

impl vstd::std_specs::cmp::PartialOrdSpecImpl for Rank {
    open spec fn obeys_partial_cmp_spec() -> bool {
        true
    }

    open spec fn partial_cmp_spec(&self, other: &Rank) -> Option<Ordering> {
        Some(ordering_of(self.spec_ordinal(), other.spec_ordinal()))
    }
}

impl Rank {
    /// The ranks in their fixed order, Ace high.
    pub open spec fn all() -> Seq<Rank> {
        seq![
            Rank::Two,
            Rank::Three,
            Rank::Four,
            Rank::Five,
            Rank::Six,
            Rank::Seven,
            Rank::Eight,
            Rank::Nine,
            Rank::Ten,
            Rank::Jack,
            Rank::Queen,
            Rank::King,
            Rank::Ace,
        ]
    }

    /// The position of the rank in the fixed order: 0 for Two, 12 for Ace.
    pub open spec fn spec_ordinal(self) -> int {
        match self {
            Rank::Two => 0,
            Rank::Three => 1,
            Rank::Four => 2,
            Rank::Five => 3,
            Rank::Six => 4,
            Rank::Seven => 5,
            Rank::Eight => 6,
            Rank::Nine => 7,
            Rank::Ten => 8,
            Rank::Jack => 9,
            Rank::Queen => 10,
            Rank::King => 11,
            Rank::Ace => 12,
        }
    }

    /// The rank at position `i` of the fixed order.
    pub open spec fn from_ordinal(i: int) -> Rank {
        if i == 0 {
            Rank::Two
        } else if i == 1 {
            Rank::Three
        } else if i == 2 {
            Rank::Four
        } else if i == 3 {
            Rank::Five
        } else if i == 4 {
            Rank::Six
        } else if i == 5 {
            Rank::Seven
        } else if i == 6 {
            Rank::Eight
        } else if i == 7 {
            Rank::Nine
        } else if i == 8 {
            Rank::Ten
        } else if i == 9 {
            Rank::Jack
        } else if i == 10 {
            Rank::Queen
        } else if i == 11 {
            Rank::King
        } else {
            Rank::Ace
        }
    }

    /// The position of the rank where an Ace counts as a one: 0 for Ace,
    /// 1 for Two, 12 for King.
    pub open spec fn ace_low_ordinal(self) -> int {
        if self == Rank::Ace {
            0
        } else {
            self.spec_ordinal() + 1
        }
    }

    /// The character that stands for the rank.
    pub open spec fn spec_char(self) -> char {
        match self {
            Rank::Two => '2',
            Rank::Three => '3',
            Rank::Four => '4',
            Rank::Five => '5',
            Rank::Six => '6',
            Rank::Seven => '7',
            Rank::Eight => '8',
            Rank::Nine => '9',
            Rank::Ten => 'T',
            Rank::Jack => 'J',
            Rank::Queen => 'Q',
            Rank::King => 'K',
            Rank::Ace => 'A',
        }
    }

    /// The rank that a character stands for, if any. An Ace may be written
    /// 'A' or '1'.
    pub open spec fn spec_from_char(ch: char) -> Option<Rank> {
        if ch == '2' {
            Some(Rank::Two)
        } else if ch == '3' {
            Some(Rank::Three)
        } else if ch == '4' {
            Some(Rank::Four)
        } else if ch == '5' {
            Some(Rank::Five)
        } else if ch == '6' {
            Some(Rank::Six)
        } else if ch == '7' {
            Some(Rank::Seven)
        } else if ch == '8' {
            Some(Rank::Eight)
        } else if ch == '9' {
            Some(Rank::Nine)
        } else if ch == 'T' {
            Some(Rank::Ten)
        } else if ch == 'J' {
            Some(Rank::Jack)
        } else if ch == 'Q' {
            Some(Rank::Queen)
        } else if ch == 'K' {
            Some(Rank::King)
        } else if ch == 'A' || ch == '1' {
            Some(Rank::Ace)
        } else {
            None
        }
    }

    /// The English name of the rank.
    pub open spec fn spec_name(self) -> Seq<char> {
        match self {
            Rank::Two => "Two"@,
            Rank::Three => "Three"@,
            Rank::Four => "Four"@,
            Rank::Five => "Five"@,
            Rank::Six => "Six"@,
            Rank::Seven => "Seven"@,
            Rank::Eight => "Eight"@,
            Rank::Nine => "Nine"@,
            Rank::Ten => "Ten"@,
            Rank::Jack => "Jack"@,
            Rank::Queen => "Queen"@,
            Rank::King => "King"@,
            Rank::Ace => "Ace"@,
        }
    }

    /// Returns an iterator through the ranks in their fixed order.
    pub fn iterator() -> (it: Iter<'static, Rank>)
        ensures
            it.obeys_prophetic_iter_laws(),
            it.remaining() == Rank::all().as_ref(),
            into_iter_elts(it) == Rank::all(),
            it.decrease() is Some,
            it.initial_value_relation(&it),
    {
        Rank::ranks().iter()
    }

    /// Returns the position of the rank in the fixed order.
    pub fn ordinal(&self) -> (r: usize)
        ensures
            r == self.spec_ordinal(),
            r < 13,
    {
        match *self {
            Rank::Two => 0,
            Rank::Three => 1,
            Rank::Four => 2,
            Rank::Five => 3,
            Rank::Six => 4,
            Rank::Seven => 5,
            Rank::Eight => 6,
            Rank::Nine => 7,
            Rank::Ten => 8,
            Rank::Jack => 9,
            Rank::Queen => 10,
            Rank::King => 11,
            Rank::Ace => 12,
        }
    }

    /// Compares two ranks by their position in the fixed order, Ace high.
    pub fn cmp(&self, other: &Rank) -> (r: Ordering)
        ensures
            r == ordering_of(self.spec_ordinal(), other.spec_ordinal()),
    {
        let ord1 = self.ordinal();
        let ord2 = other.ordinal();
        if ord1 < ord2 {
            return Ordering::Less;
        } else if ord1 > ord2 {
            return Ordering::Greater;
        }
        Ordering::Equal
    }

    /// Compares two ranks with the Ace counted as a one, below the Two.
    pub fn cmp_ace_low(&self, other: &Rank) -> (r: Ordering)
        ensures
            r == ordering_of(self.ace_low_ordinal(), other.ace_low_ordinal()),
    {
        let mut ord1 = self.ordinal() + 1;
        let mut ord2 = other.ordinal() + 1;
        if *self == Rank::Ace {
            ord1 = 0;
        }
        if *other == Rank::Ace {
            ord2 = 0;
        }
        if ord1 < ord2 {
            return Ordering::Less;
        } else if ord1 > ord2 {
            return Ordering::Greater;
        }
        Ordering::Equal
    }

    /// Returns the rank that a character stands for.
    pub fn from_char(ch: char) -> (r: Result<Rank, CardError>)
        ensures
            r == match Rank::spec_from_char(ch) {
                Some(rank) => Ok::<Rank, CardError>(rank),
                None => Err::<Rank, CardError>(CardError::InvalidEncoding),
            },
    {
        let rank = match ch {
            '2' => Rank::Two,
            '3' => Rank::Three,
            '4' => Rank::Four,
            '5' => Rank::Five,
            '6' => Rank::Six,
            '7' => Rank::Seven,
            '8' => Rank::Eight,
            '9' => Rank::Nine,
            'T' => Rank::Ten,
            'J' => Rank::Jack,
            'Q' => Rank::Queen,
            'K' => Rank::King,
            'A' | '1' => Rank::Ace,
            _ => {
                return Err(CardError::InvalidEncoding);
            },
        };
        Ok(rank)
    }

    /// Returns the character that stands for the rank.
    pub fn to_char(&self) -> (c: char)
        ensures
            c == self.spec_char(),
    {
        match *self {
            Rank::Two => '2',
            Rank::Three => '3',
            Rank::Four => '4',
            Rank::Five => '5',
            Rank::Six => '6',
            Rank::Seven => '7',
            Rank::Eight => '8',
            Rank::Nine => '9',
            Rank::Ten => 'T',
            Rank::Jack => 'J',
            Rank::Queen => 'Q',
            Rank::King => 'K',
            Rank::Ace => 'A',
        }
    }

    /// Returns the English name of the rank.
    pub fn to_str(&self) -> (s: &'static str)
        ensures
            s@ == self.spec_name(),
    {
        match *self {
            Rank::Two => "Two",
            Rank::Three => "Three",
            Rank::Four => "Four",
            Rank::Five => "Five",
            Rank::Six => "Six",
            Rank::Seven => "Seven",
            Rank::Eight => "Eight",
            Rank::Nine => "Nine",
            Rank::Ten => "Ten",
            Rank::Jack => "Jack",
            Rank::Queen => "Queen",
            Rank::King => "King",
            Rank::Ace => "Ace",
        }
    }

    /// Returns the ranks in their fixed order.
    pub fn ranks() -> (r: &'static [Rank])
        ensures
            r@ == Rank::all(),
    {
        let r: &'static [Rank] = &[
            Rank::Two,
            Rank::Three,
            Rank::Four,
            Rank::Five,
            Rank::Six,
            Rank::Seven,
            Rank::Eight,
            Rank::Nine,
            Rank::Ten,
            Rank::Jack,
            Rank::Queen,
            Rank::King,
            Rank::Ace,
        ];
        r
    }

    /// The position of a rank and the rank at a position are inverse to each
    /// other: the thirteen ranks stand one to one for the positions 0 to 12.
    pub proof fn lemma_ordinal_bijective(rank: Rank, i: int)
        ensures
            0 <= rank.spec_ordinal() < 13,
            Rank::from_ordinal(rank.spec_ordinal()) == rank,
            Rank::all()[rank.spec_ordinal()] == rank,
            0 <= i < 13 ==> Rank::from_ordinal(i).spec_ordinal() == i,
    {
    }

    /// Reading a character is the exact inverse of writing one: the
    /// character of a rank reads back as that rank, and a character that
    /// reads as a rank is that rank's character, or '1' for an Ace.
    pub proof fn lemma_char_round_trip(rank: Rank, ch: char)
        ensures
            Rank::spec_from_char(rank.spec_char()) == Some(rank),
            Rank::spec_from_char(ch) == Some(rank) ==> rank.spec_char() == ch || (ch == '1'
                && rank == Rank::Ace),
            Rank::spec_from_char('1') == Some(Rank::Ace),
    {
    }
}

} // verus!
