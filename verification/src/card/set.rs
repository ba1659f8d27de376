//! The standard 52-card set, produced lazily in a fixed enumeration order.

use vstd::prelude::*;

use super::card::Card;
use super::rank::Rank;
use super::rank::lemma_rank_of_value;
use super::rank::lemma_value_rank_of;
use super::rank::rank_of;
use super::suit::Suit;

verus! {

/// The card at position `i` of the fixed enumeration order: hearts rising
/// from `Ace` to `King`, then clubs rising, then diamonds falling from `King`
/// to `Ace`, then spades falling.
pub open spec fn card_at(i: int) -> Card {
    if i < 13 {
        Card { suit: Suit::Heart, rank: rank_of(i + 1) }
    } else if i < 26 {
        Card { suit: Suit::Club, rank: rank_of(i - 12) }
    } else if i < 39 {
        Card { suit: Suit::Diamond, rank: rank_of(39 - i) }
    } else {
        Card { suit: Suit::Spade, rank: rank_of(52 - i) }
    }
}

/// The position of a card in the fixed enumeration order.
pub open spec fn deck_index(c: Card) -> int {
    match c.suit {
        Suit::Heart => c.rank.spec_value() - 1,
        Suit::Club => 12 + c.rank.spec_value(),
        Suit::Diamond => 39 - c.rank.spec_value(),
        Suit::Spade => 52 - c.rank.spec_value(),
    }
}

/// The full 52-card deck in enumeration order.
pub open spec fn deck() -> Seq<Card> {
    Seq::new(52, |i: int| card_at(i))
}

/// Every card sits at its own enumeration position.
pub proof fn lemma_card_at_index(c: Card)
    ensures
        0 <= deck_index(c) < 52,
        card_at(deck_index(c)) == c,
{
    lemma_rank_of_value(c.rank);
}

/// Enumeration positions are recovered from their cards.
pub proof fn lemma_index_card_at(i: int)
    requires
        0 <= i < 52,
    ensures
        deck_index(card_at(i)) == i,
{
    if i < 13 {
        lemma_value_rank_of(i + 1);
    } else if i < 26 {
        lemma_value_rank_of(i - 12);
    } else if i < 39 {
        lemma_value_rank_of(39 - i);
    } else {
        lemma_value_rank_of(52 - i);
    }
}

/// The deck enumerates the 52-card universe exactly: it holds every card,
/// and each exactly once.
pub proof fn lemma_deck_complete()
    ensures
        deck().no_duplicates(),
        forall|c: Card| deck().to_multiset().count(c) == 1,
{
    assert forall|i: int, j: int| 0 <= i < deck().len() && 0 <= j < deck().len() && i != j
        implies deck()[i] != deck()[j] by {
        lemma_index_card_at(i);
        lemma_index_card_at(j);
    }
    deck().lemma_multiset_has_no_duplicates();
    assert forall|c: Card| deck().to_multiset().count(c) == 1 by {
        lemma_card_at_index(c);
        assert(deck()[deck_index(c)] == c);
        vstd::seq_lib::to_multiset_contains(deck(), c);
        assert(deck().contains(c));
    }
}

/// Lazy, restartable generator of the standard 52-card set, in enumeration
/// order: after producing all 52 cards it reports exhaustion once, then
/// starts the same cycle over.
#[derive(Debug, Clone, Copy)]
pub struct Deck {
    produced: u8,
}

impl View for Deck {
    type V = int;

    closed spec fn view(&self) -> int {
        self.produced as int
    }
}

impl Deck {
    /// Creates a set positioned before the first card.
    pub fn new() -> (deck: Self)
        ensures
            deck@ == 0,
    {
        Deck { produced: 0 }
    }

    /// Produces the next card of the enumeration, or `None` once all 52 have
    /// been produced. Reporting exhaustion returns the generator to its fresh
    /// state, so the following call starts the enumeration over at the Ace of
    /// hearts.
    pub fn next(&mut self) -> (card: Option<Card>)
        ensures
            old(self)@ < 52 ==> final(self)@ == old(self)@ + 1 && card == Some(
                card_at(old(self)@),
            ),
            old(self)@ >= 52 ==> final(self)@ == 0 && card == None::<Card>,
    {
        if self.produced >= 52 {
            self.produced = 0;
            return None;
        }
        let i = self.produced;
        self.produced = i + 1;
        let suit = if i < 13 {
            Suit::Heart
        } else if i < 26 {
            Suit::Club
        } else if i < 39 {
            Suit::Diamond
        } else {
            Suit::Spade
        };
        let value: u8 = if i < 13 {
            i + 1
        } else if i < 26 {
            i - 12
        } else if i < 39 {
            39 - i
        } else {
            52 - i
        };
        let rank = rank_from_value(value);
        Some(Card { suit, rank })
    }
}

/// Returns the rank of the given numeric value, 1 (`Ace`) through 13 (`King`).
fn rank_from_value(value: u8) -> (rank: Rank)
    requires
        1 <= value <= 13,
    ensures
        rank == rank_of(value as int),
{
    if value == 1 {
        Rank::Ace
    } else if value == 2 {
        Rank::Two
    } else if value == 3 {
        Rank::Three
    } else if value == 4 {
        Rank::Four
    } else if value == 5 {
        Rank::Five
    } else if value == 6 {
        Rank::Six
    } else if value == 7 {
        Rank::Seven
    } else if value == 8 {
        Rank::Eight
    } else if value == 9 {
        Rank::Nine
    } else if value == 10 {
        Rank::Ten
    } else if value == 11 {
        Rank::Jack
    } else if value == 12 {
        Rank::Queen
    } else {
        Rank::King
    }
}

} // verus!
