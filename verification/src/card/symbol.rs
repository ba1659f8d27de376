//! Rendering symbols: Unicode card glyphs and two-character card names.

use vstd::prelude::*;

use super::card::Card;
use super::face::Face;
use super::rank::Rank;
use super::suit::Suit;

verus! {

/// The Unicode playing-card glyph for the card back, `U+1F0A0`.
pub open spec fn back_code() -> int {
    0x1F0A0
}

/// The code point of the Unicode playing-card glyph for a card. The glyphs of
/// one suit are laid out consecutively by rank, with an unused "Knight" glyph
/// between `Jack` and `Queen`, and the suits sit 16 code points apart.
pub open spec fn glyph_code(c: Card) -> int {
    let base: int = if c.rank.spec_value() <= 11 {
        back_code() + c.rank.spec_value()
    } else if c.rank == Rank::Queen {
        back_code() + 13
    } else {
        back_code() + 14
    };
    let offset: int = match c.suit {
        Suit::Spade => 0,
        Suit::Heart => 16,
        Suit::Diamond => 32,
        Suit::Club => 48,
    };
    base + offset
}

/// Relies on `char::from_u32`: it returns the `char` with the given code
/// point, or `None` when the value is no Unicode scalar (a surrogate, or
/// above `U+10FFFF`).
pub assume_specification[ char::from_u32 ](value: u32) -> (c: Option<char>)
    ensures
        c == if vstd::utf8::is_scalar(value) {
            Some(value as char)
        } else {
            None::<char>
        },
;

impl Suit {
    /// The Unicode symbol of the suit.
    pub open spec fn spec_symbol(&self) -> char {
        match *self {
            Suit::Club => '\u{2663}',
            Suit::Diamond => '\u{2666}',
            Suit::Heart => '\u{2665}',
            Suit::Spade => '\u{2660}',
        }
    }

    /// Returns the Unicode suit character.
    #[verifier::when_used_as_spec(spec_symbol)]
    pub fn symbol(&self) -> (symbol: char)
        ensures
            symbol == self.spec_symbol(),
    {
        match *self {
            Suit::Club => '\u{2663}',
            Suit::Diamond => '\u{2666}',
            Suit::Heart => '\u{2665}',
            Suit::Spade => '\u{2660}',
        }
    }
}

impl Rank {
    /// The ASCII symbol of the rank: `A`, `2`-`9`, `T`, `J`, `Q`, `K`.
    pub open spec fn spec_symbol(&self) -> char {
        match *self {
            Rank::Ace => 'A',
            Rank::Two => '2',
            Rank::Three => '3',
            Rank::Four => '4',
            Rank::Five => '5',
            Rank::Six => '6',
            Rank::Seven => '7',
            Rank::Eight => '8',
            Rank::Nine => '9',
            Rank::Ten => 'T',
            Rank::Jack => 'J',
            Rank::Queen => 'Q',
            Rank::King => 'K',
        }
    }

    /// Returns the ASCII rank character: A, 2-9, T, J, Q, K.
    #[verifier::when_used_as_spec(spec_symbol)]
    pub fn symbol(&self) -> (symbol: char)
        ensures
            symbol == self.spec_symbol(),
    {
        match *self {
            Rank::Ace => 'A',
            Rank::Two => '2',
            Rank::Three => '3',
            Rank::Four => '4',
            Rank::Five => '5',
            Rank::Six => '6',
            Rank::Seven => '7',
            Rank::Eight => '8',
            Rank::Nine => '9',
            Rank::Ten => 'T',
            Rank::Jack => 'J',
            Rank::Queen => 'Q',
            Rank::King => 'K',
        }
    }
}

impl Card {
    /// Returns the Unicode card character.
    pub fn glyph(self) -> (glyph: char)
        ensures
            glyph as int == glyph_code(self),
    {
        let base: u32 = match self.rank {
            Rank::Queen => 0x1F0AD,
            Rank::King => 0x1F0AE,
            rank => 0x1F0A0 + rank.value() as u32,
        };
        let offset: u32 = match self.suit {
            Suit::Spade => 0,
            Suit::Heart => 16,
            Suit::Diamond => 32,
            Suit::Club => 48,
        };
        let code = base + offset;
        assert(vstd::utf8::is_scalar(code));
        char::from_u32(code).unwrap()
    }

    /// Returns the Unicode suit character and the ASCII rank character.
    pub fn symbols(self) -> (symbols: [char; 2])
        ensures
            symbols@ == seq![self.suit.spec_symbol(), self.rank.spec_symbol()],
    {
        let symbols = [self.suit.symbol(), self.rank.symbol()];
        proof {
            assert(symbols@ =~= seq![self.suit.spec_symbol(), self.rank.spec_symbol()]);
        }
        symbols
    }
}

impl Face {
    /// Returns the Unicode card character, or the card back character for a
    /// face-down card.
    pub fn glyph(self) -> (glyph: char)
        ensures
            glyph as int == match self {
                Face::Down(_) => back_code(),
                Face::Up(card) => glyph_code(card),
            },
    {
        match self {
            Face::Down(_) => '\u{1F0A0}',
            Face::Up(card) => card.glyph(),
        }
    }

    /// Returns the Unicode suit character and the ASCII rank character, or
    /// two card back characters for a face-down card.
    pub fn symbols(self) -> (symbols: [char; 2])
        ensures
            symbols@ == match self {
                Face::Down(_) => seq!['\u{1F0A0}', '\u{1F0A0}'],
                Face::Up(card) => seq![card.suit.spec_symbol(), card.rank.spec_symbol()],
            },
    {
        match self {
            Face::Down(_) => {
                let symbols = ['\u{1F0A0}', '\u{1F0A0}'];
                proof {
                    assert(symbols@ =~= seq!['\u{1F0A0}', '\u{1F0A0}']);
                }
                symbols
            },
            Face::Up(card) => card.symbols(),
        }
    }
}

} // verus!
