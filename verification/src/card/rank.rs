//! Ranks, their total order, and the partial successor/predecessor chain.

use vstd::prelude::*;

verus! {

/// Card rank, totally ordered from `Ace` (lowest) up to `King` (highest).
#[derive(Debug, Clone, Copy, PartialEq, Eq, PartialOrd, Ord, Structural)]
pub enum Rank {
    Ace,
    Two,
    Three,
    Four,
    Five,
    Six,
    Seven,
    Eight,
    Nine,
    Ten,
    Jack,
    Queen,
    King,
}

/// The rank whose numeric value is `n`, for `n` between 1 (`Ace`) and 13 (`King`).
pub open spec fn rank_of(n: int) -> Rank {
    if n <= 1 {
        Rank::Ace
    } else if n == 2 {
        Rank::Two
    } else if n == 3 {
        Rank::Three
    } else if n == 4 {
        Rank::Four
    } else if n == 5 {
        Rank::Five
    } else if n == 6 {
        Rank::Six
    } else if n == 7 {
        Rank::Seven
    } else if n == 8 {
        Rank::Eight
    } else if n == 9 {
        Rank::Nine
    } else if n == 10 {
        Rank::Ten
    } else if n == 11 {
        Rank::Jack
    } else if n == 12 {
        Rank::Queen
    } else {
        Rank::King
    }
}

impl Rank {
    /// The numeric value of the rank: 1 for `Ace` up to 13 for `King`.
    pub open spec fn spec_value(&self) -> int {
        match *self {
            Rank::Ace => 1,
            Rank::Two => 2,
            Rank::Three => 3,
            Rank::Four => 4,
            Rank::Five => 5,
            Rank::Six => 6,
            Rank::Seven => 7,
            Rank::Eight => 8,
            Rank::Nine => 9,
            Rank::Ten => 10,
            Rank::Jack => 11,
            Rank::Queen => 12,
            Rank::King => 13,
        }
    }

    /// Returns the numeric value of the rank, 1 (`Ace`) through 13 (`King`).
    pub fn value(&self) -> (n: u8)
        ensures
            n as int == self.spec_value(),
    {
        match *self {
            Rank::Ace => 1,
            Rank::Two => 2,
            Rank::Three => 3,
            Rank::Four => 4,
            Rank::Five => 5,
            Rank::Six => 6,
            Rank::Seven => 7,
            Rank::Eight => 8,
            Rank::Nine => 9,
            Rank::Ten => 10,
            Rank::Jack => 11,
            Rank::Queen => 12,
            Rank::King => 13,
        }
    }

    /// Whether the rank is a face card: `Jack`, `Queen`, or `King`.
    pub open spec fn spec_is_face(&self) -> bool {
        self.spec_value() >= 11
    }

    /// Returns true if `self` is a face card, i.e. `Jack`, `Queen`, `King`.
    #[verifier::when_used_as_spec(spec_is_face)]
    pub fn is_face(&self) -> (face: bool)
        ensures
            face == self.spec_is_face(),
    {
        match *self {
            Rank::Jack | Rank::Queen | Rank::King => true,
            _ => false,
        }
    }

    /// The next rank up, or `None` for `King`.
    pub open spec fn spec_succ(&self) -> Option<Rank> {
        if self.spec_value() == 13 {
            None
        } else {
            Some(rank_of(self.spec_value() + 1))
        }
    }

    /// Returns the successive rank.
    pub fn succ(self) -> (succ: Option<Self>)
        ensures
            succ == self.spec_succ(),
    {
        match self {
            Rank::Ace => Some(Rank::Two),
            Rank::Two => Some(Rank::Three),
            Rank::Three => Some(Rank::Four),
            Rank::Four => Some(Rank::Five),
            Rank::Five => Some(Rank::Six),
            Rank::Six => Some(Rank::Seven),
            Rank::Seven => Some(Rank::Eight),
            Rank::Eight => Some(Rank::Nine),
            Rank::Nine => Some(Rank::Ten),
            Rank::Ten => Some(Rank::Jack),
            Rank::Jack => Some(Rank::Queen),
            Rank::Queen => Some(Rank::King),
            Rank::King => None,
        }
    }

    /// The next rank down, or `None` for `Ace`.
    pub open spec fn spec_pred(&self) -> Option<Rank> {
        if self.spec_value() == 1 {
            None
        } else {
            Some(rank_of(self.spec_value() - 1))
        }
    }

    /// Returns the predecessive rank.
    pub fn pred(self) -> (pred: Option<Self>)
        ensures
            pred == self.spec_pred(),
    {
        match self {
            Rank::King => Some(Rank::Queen),
            Rank::Queen => Some(Rank::Jack),
            Rank::Jack => Some(Rank::Ten),
            Rank::Ten => Some(Rank::Nine),
            Rank::Nine => Some(Rank::Eight),
            Rank::Eight => Some(Rank::Seven),
            Rank::Seven => Some(Rank::Six),
            Rank::Six => Some(Rank::Five),
            Rank::Five => Some(Rank::Four),
            Rank::Four => Some(Rank::Three),
            Rank::Three => Some(Rank::Two),
            Rank::Two => Some(Rank::Ace),
            Rank::Ace => None,
        }
    }
}

/// Every rank is recovered from its own numeric value.
pub proof fn lemma_rank_of_value(r: Rank)
    ensures
        rank_of(r.spec_value()) == r,
        1 <= r.spec_value() <= 13,
{
}

/// `rank_of` gives back the numeric value it was built from, on the meaningful range.
pub proof fn lemma_value_rank_of(n: int)
    requires
        1 <= n <= 13,
    ensures
        rank_of(n).spec_value() == n,
{
}

} // verus!
