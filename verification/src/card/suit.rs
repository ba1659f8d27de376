//! Suits and their colors.

use vstd::prelude::*;

verus! {

/// Card color.
#[derive(Debug, Clone, Copy, PartialEq, Eq, Structural)]
pub enum Color {
    Black,
    Red,
}

/// Card suit.
#[derive(Debug, Clone, Copy, PartialEq, Eq, Structural)]
pub enum Suit {
    Heart,
    Club,
    Diamond,
    Spade,
}

impl Suit {
    /// The color of the suit: clubs and spades are black, diamonds and hearts are red.
    pub open spec fn spec_color(&self) -> Color {
        match *self {
            Suit::Club | Suit::Spade => Color::Black,
            Suit::Diamond | Suit::Heart => Color::Red,
        }
    }

    /// Returns the color of the suit.
    #[verifier::when_used_as_spec(spec_color)]
    pub fn color(&self) -> (color: Color)
        ensures
            color == self.spec_color(),
    {
        match *self {
            Suit::Club | Suit::Spade => Color::Black,
            Suit::Diamond | Suit::Heart => Color::Red,
        }
    }
}

} // verus!
