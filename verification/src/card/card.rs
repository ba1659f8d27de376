//! Cards: a suit paired with a rank, ordered only within one suit.

use core::cmp::Ordering;
use vstd::prelude::*;

use super::rank::Rank;
use super::suit::Suit;

verus! {

/// Card: a suit together with a rank.
#[derive(Debug, Clone, Copy, PartialEq, Eq, Structural)]
pub struct Card {
    pub suit: Suit,
    pub rank: Rank,
}

impl Card {
    /// Creates the card of the given suit and rank.
    pub fn new(suit: Suit, rank: Rank) -> (card: Card)
        ensures
            card == (Card { suit, rank }),
    {
        Card { suit, rank }
    }
}

impl PartialOrd for Card {
    /// Cards of the same suit compare by rank; cards of different suits are incomparable.
    fn partial_cmp(&self, other: &Self) -> (ordering: Option<Ordering>) {
        if self.suit == other.suit {
            let a = self.rank.value();
            let b = other.rank.value();
            if a < b {
                Some(Ordering::Less)
            } else if a == b {
                Some(Ordering::Equal)
            } else {
                Some(Ordering::Greater)
            }
        } else {
            None
        }
    }
}

impl vstd::std_specs::cmp::PartialOrdSpecImpl for Card {
    open spec fn obeys_partial_cmp_spec() -> bool {
        true
    }

    open spec fn partial_cmp_spec(&self, other: &Self) -> Option<Ordering> {
        if self.suit == other.suit {
            if self.rank.spec_value() < other.rank.spec_value() {
                Some(Ordering::Less)
            } else if self.rank.spec_value() == other.rank.spec_value() {
                Some(Ordering::Equal)
            } else {
                Some(Ordering::Greater)
            }
        } else {
            None
        }
    }
}

} // verus!
