//! Playing cards: suits, ranks, oriented cards, piles, and the standard deck.

pub use self::card::Card;
pub use self::face::Face;
pub use self::pile::Pile;
pub use self::rank::Rank;
pub use self::set::Deck;
pub use self::suit::Color;
pub use self::suit::Suit;

pub mod card;
pub mod face;
pub mod pile;
pub mod rank;
pub mod set;
pub mod suit;
pub mod symbol;
