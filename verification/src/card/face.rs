//! Oriented cards: face-down or face-up.

use core::cmp::Ordering;
use vstd::prelude::*;

use super::card::Card;

verus! {

/// Face-down or face-up card.
#[derive(Debug, Clone, Copy, PartialEq, Eq, Structural)]
pub enum Face {
    Down(Card),
    Up(Card),
}

impl Face {
    /// Whether the card lies face-down.
    pub open spec fn spec_is_down(&self) -> bool {
        matches!(*self, Face::Down(_))
    }

    /// Returns true if the card is face-down.
    #[verifier::when_used_as_spec(spec_is_down)]
    pub fn is_down(&self) -> (down: bool)
        ensures
            down == self.spec_is_down(),
    {
        match *self {
            Face::Down(_) => true,
            _ => false,
        }
    }

    /// Whether the card lies face-up.
    pub open spec fn spec_is_up(&self) -> bool {
        matches!(*self, Face::Up(_))
    }

    /// Returns true if the card is face-up.
    #[verifier::when_used_as_spec(spec_is_up)]
    pub fn is_up(&self) -> (up: bool)
        ensures
            up == self.spec_is_up(),
    {
        match *self {
            Face::Up(_) => true,
            _ => false,
        }
    }

    /// The wrapped card, whichever way it faces.
    pub open spec fn spec_card(&self) -> Card {
        match *self {
            Face::Down(card) => card,
            Face::Up(card) => card,
        }
    }

    /// Returns the card.
    #[verifier::when_used_as_spec(spec_card)]
    pub fn card(&self) -> (card: Card)
        ensures
            card == self.spec_card(),
    {
        match *self {
            Face::Down(card) => card,
            Face::Up(card) => card,
        }
    }

    /// The same card with the opposite orientation.
    pub open spec fn spec_flipped(self) -> Face {
        match self {
            Face::Down(card) => Face::Up(card),
            Face::Up(card) => Face::Down(card),
        }
    }

    /// Returns the card, flipped.
    #[verifier::when_used_as_spec(spec_flipped)]
    pub fn flipped(self) -> (flipped: Self)
        ensures
            flipped == self.spec_flipped(),
    {
        match self {
            Face::Down(card) => Face::Up(card),
            Face::Up(card) => Face::Down(card),
        }
    }

    /// Flips the card in place.
    pub fn flip(&mut self)
        ensures
            *final(self) == old(self).spec_flipped(),
    {
        *self = self.flipped();
    }
}

impl PartialOrd for Face {
    /// Faces order as their wrapped cards do, ignoring orientation.
    fn partial_cmp(&self, other: &Self) -> (ordering: Option<Ordering>) {
        self.card().partial_cmp(&other.card())
    }
}

impl vstd::std_specs::cmp::PartialOrdSpecImpl for Face {
    open spec fn obeys_partial_cmp_spec() -> bool {
        true
    }

    open spec fn partial_cmp_spec(&self, other: &Self) -> Option<Ordering> {
        vstd::std_specs::cmp::PartialOrdSpec::partial_cmp_spec(
            &self.spec_card(),
            &other.spec_card(),
        )
    }
}

} // verus!
