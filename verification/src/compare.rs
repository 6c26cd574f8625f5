use std::cmp::Ordering;
use vstd::prelude::*;

verus! {

/// How the integer `a` stands to the integer `b`.
pub open spec fn ordering_of(a: int, b: int) -> Ordering {
    if a < b {
        Ordering::Less
    } else if a > b {
        Ordering::Greater
    } else {
        Ordering::Equal
    }
}

/// The order by a primary key and, where that is equal, by a secondary key.
pub open spec fn lexicographic(primary: Ordering, secondary: Ordering) -> Ordering {
    match primary {
        Ordering::Equal => secondary,
        _ => primary,
    }
}

/// The opposite direction of an ordering: from high to low where it went
/// from low to high.
pub open spec fn reversed(o: Ordering) -> Ordering {
    match o {
        Ordering::Less => Ordering::Greater,
        Ordering::Equal => Ordering::Equal,
        Ordering::Greater => Ordering::Less,
    }
}

/// Turns an ordering round.
pub fn reverse_of(o: Ordering) -> (r: Ordering)
    ensures
        r == reversed(o),
{
    match o {
        Ordering::Less => Ordering::Greater,
        Ordering::Equal => Ordering::Equal,
        Ordering::Greater => Ordering::Less,
    }
}

} // verus!
