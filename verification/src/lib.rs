//! A verified Klondike solitaire engine.
//!
//! The crate models a standard 52-card deck and the Klondike rules as a
//! deterministic, reversible state machine: callers construct a [`game::klondike::Klondike`],
//! deal it once, and then drive it through validated [`game::klondike::Play`] moves,
//! each of which can be undone exactly.

pub mod card;
pub mod game;
pub mod ui;
