use crate::compare::ordering_of;
use crate::error::CardError;
use std::cmp::Ordering;
use std::slice::Iter;
use vstd::prelude::*;
use vstd::std_specs::iter::IteratorSpec;
use vstd::std_specs::slice::into_iter_elts;

verus! {

/// The four suits of a standard deck, in their fixed order.
#[derive(Copy, Clone, Hash, PartialEq, Eq, Ord, Debug, Structural)]
pub enum Suit {
    Spades,
    Hearts,
    Diamonds,
    Clubs,
}

impl PartialOrd for Suit {
    /// Compares two suits by their position in the fixed order.
    fn partial_cmp(&self, other: &Suit) -> (r: Option<Ordering>) {
        Some(self.cmp(other))
    }
}

impl vstd::std_specs::cmp::PartialOrdSpecImpl for Suit {
    open spec fn obeys_partial_cmp_spec() -> bool {
        true
    }

    open spec fn partial_cmp_spec(&self, other: &Suit) -> Option<Ordering> {
        Some(ordering_of(self.spec_ordinal(), other.spec_ordinal()))
    }
}

impl Suit {
    /// The suits in their fixed order.
    pub open spec fn all() -> Seq<Suit> {
        seq![Suit::Spades, Suit::Hearts, Suit::Diamonds, Suit::Clubs]
    }

    /// The position of the suit in the fixed order.
    pub open spec fn spec_ordinal(self) -> int {
        match self {
            Suit::Spades => 0,
            Suit::Hearts => 1,
            Suit::Diamonds => 2,
            Suit::Clubs => 3,
        }
    }

    /// The suit at position `i` of the fixed order.
    pub open spec fn from_ordinal(i: int) -> Suit {
        if i == 0 {
            Suit::Spades
        } else if i == 1 {
            Suit::Hearts
        } else if i == 2 {
            Suit::Diamonds
        } else {
            Suit::Clubs
        }
    }

    /// The letter that stands for the suit.
    pub open spec fn spec_char(self) -> char {
        match self {
            Suit::Spades => 'S',
            Suit::Hearts => 'H',
            Suit::Diamonds => 'D',
            Suit::Clubs => 'C',
        }
    }

    /// The suit that a letter stands for, if any.
    pub open spec fn spec_from_char(ch: char) -> Option<Suit> {
        if ch == 'S' {
            Some(Suit::Spades)
        } else if ch == 'H' {
            Some(Suit::Hearts)
        } else if ch == 'D' {
            Some(Suit::Diamonds)
        } else if ch == 'C' {
            Some(Suit::Clubs)
        } else {
            None
        }
    }

    /// The pictorial symbol of the suit.
    pub open spec fn spec_unicode(self) -> char {
        match self {
            Suit::Spades => '\u{2660}',
            Suit::Hearts => '\u{2665}',
            Suit::Diamonds => '\u{2666}',
            Suit::Clubs => '\u{2663}',
        }
    }

    /// The suit that a pictorial symbol stands for, if any.
    pub open spec fn spec_from_unicode(ch: char) -> Option<Suit> {
        if ch == '\u{2660}' {
            Some(Suit::Spades)
        } else if ch == '\u{2665}' {
            Some(Suit::Hearts)
        } else if ch == '\u{2666}' {
            Some(Suit::Diamonds)
        } else if ch == '\u{2663}' {
            Some(Suit::Clubs)
        } else {
            None
        }
    }

    /// The English name of the suit.
    pub open spec fn spec_name(self) -> Seq<char> {
        match self {
            Suit::Spades => "Spades"@,
            Suit::Hearts => "Hearts"@,
            Suit::Diamonds => "Diamonds"@,
            Suit::Clubs => "Clubs"@,
        }
    }

    /// Returns an iterator through the suits in their fixed order.
    pub fn iterator() -> (it: Iter<'static, Suit>)
        ensures
            it.obeys_prophetic_iter_laws(),
            it.remaining() == Suit::all().as_ref(),
            into_iter_elts(it) == Suit::all(),
            it.decrease() is Some,
            it.initial_value_relation(&it),
    {
        Suit::suits().iter()
    }

    /// Returns the position of the suit in the fixed order.
    pub fn ordinal(&self) -> (r: usize)
        ensures
            r == self.spec_ordinal(),
            r < 4,
    {
        match *self {
            Suit::Spades => 0,
            Suit::Hearts => 1,
            Suit::Diamonds => 2,
            Suit::Clubs => 3,
        }
    }

    /// Compares two suits by their position in the fixed order.
    pub fn cmp(&self, other: &Suit) -> (r: Ordering)
        ensures
            r == ordering_of(self.spec_ordinal(), other.spec_ordinal()),
    {
        let o1 = self.ordinal();
        let o2 = other.ordinal();
        if o1 < o2 {
            return Ordering::Less;
        } else if o1 > o2 {
            return Ordering::Greater;
        }
        Ordering::Equal
    }

    /// Returns the suit for a letter, e.g. Hearts for 'H'.
    pub fn from_char(ch: char) -> (r: Result<Suit, CardError>)
        ensures
            r == match Suit::spec_from_char(ch) {
                Some(suit) => Ok::<Suit, CardError>(suit),
                None => Err::<Suit, CardError>(CardError::InvalidEncoding),
            },
    {
        match ch {
            'S' => Ok(Suit::Spades),
            'H' => Ok(Suit::Hearts),
            'D' => Ok(Suit::Diamonds),
            'C' => Ok(Suit::Clubs),
            _ => Err(CardError::InvalidEncoding),
        }
    }

    /// Returns the letter that stands for the suit, e.g. 'H' for Hearts.
    pub fn to_char(&self) -> (c: char)
        ensures
            c == self.spec_char(),
    {
        match self {
            Suit::Spades => 'S',
            Suit::Hearts => 'H',
            Suit::Diamonds => 'D',
            Suit::Clubs => 'C',
        }
    }

    /// Returns the suit for a pictorial symbol.
    pub fn from_unicode(ch: char) -> (r: Result<Suit, CardError>)
        ensures
            r == match Suit::spec_from_unicode(ch) {
                Some(suit) => Ok::<Suit, CardError>(suit),
                None => Err::<Suit, CardError>(CardError::InvalidEncoding),
            },
    {
        match ch {
            '\u{2660}' => Ok(Suit::Spades),
            '\u{2665}' => Ok(Suit::Hearts),
            '\u{2666}' => Ok(Suit::Diamonds),
            '\u{2663}' => Ok(Suit::Clubs),
            _ => Err(CardError::InvalidEncoding),
        }
    }

    /// Returns the pictorial symbol of the suit.
    pub fn to_unicode(&self) -> (c: char)
        ensures
            c == self.spec_unicode(),
    {
        match self {
            Suit::Spades => '\u{2660}',
            Suit::Hearts => '\u{2665}',
            Suit::Diamonds => '\u{2666}',
            Suit::Clubs => '\u{2663}',
        }
    }

    /// Returns the English name of the suit.
    pub fn to_str(&self) -> (s: &'static str)
        ensures
            s@ == self.spec_name(),
    {
        match *self {
            Suit::Spades => "Spades",
            Suit::Hearts => "Hearts",
            Suit::Diamonds => "Diamonds",
            Suit::Clubs => "Clubs",
        }
    }

    /// Returns the suits in their fixed order.
    pub fn suits() -> (r: &'static [Suit])
        ensures
            r@ == Suit::all(),
    {
        let r: &'static [Suit] = &[Suit::Spades, Suit::Hearts, Suit::Diamonds, Suit::Clubs];
        r
    }

    /// The position of a suit and the suit at a position are inverse to each
    /// other: the four suits stand one to one for the positions 0 to 3.
    pub proof fn lemma_ordinal_bijective(suit: Suit, i: int)
        ensures
            0 <= suit.spec_ordinal() < 4,
            Suit::from_ordinal(suit.spec_ordinal()) == suit,
            Suit::all()[suit.spec_ordinal()] == suit,
            0 <= i < 4 ==> Suit::from_ordinal(i).spec_ordinal() == i,
    {
    }

    /// Reading a letter is the exact inverse of writing one: the letter of a
    /// suit reads back as that suit, and a letter that reads as a suit is
    /// that suit's letter.
    pub proof fn lemma_char_round_trip(suit: Suit, ch: char)
        ensures
            Suit::spec_from_char(suit.spec_char()) == Some(suit),
            Suit::spec_from_char(ch) == Some(suit) ==> suit.spec_char() == ch,
            Suit::spec_from_unicode(suit.spec_unicode()) == Some(suit),
            Suit::spec_from_unicode(ch) == Some(suit) ==> suit.spec_unicode() == ch,
    {
    }
}

} // verus!
