//! Games: the move protocol shared by patience variants.

use vstd::prelude::*;

pub mod klondike;

verus! {

/// Patience card game.
///
/// A game is created from its rules, dealt once, and then driven through
/// plays: callers check a play with [`Game::is_valid`], apply it with
/// [`Game::play`], and may reverse it with [`Game::undo`]. The spec functions
/// name what each implementation promises of these operations.
pub trait Game: Sized {
    /// Game variation rules.
    type Rules;

    /// Game play.
    type Play;

    /// Structural well-formedness, preserved by every engine operation.
    spec fn wf(&self) -> bool;

    /// What a fresh game looks like, given its rules.
    spec fn post_new(rules: Self::Rules, game: Self) -> bool;

    /// When a game may be dealt.
    spec fn pre_deal(&self) -> bool;

    /// How the game after dealing relates to the game before.
    spec fn post_deal(pre: Self, post: Self) -> bool;

    /// Whether the game is won.
    spec fn spec_won(&self) -> bool;

    /// Whether a play is currently legal.
    spec fn spec_valid(&self, play: Self::Play) -> bool;

    /// How the game after a legal play relates to the game before it.
    spec fn post_play(pre: Self, play: Self::Play, post: Self) -> bool;

    /// How the game after undoing a play relates to the game before the undo.
    spec fn post_undo(pre: Self, play: Self::Play, post: Self) -> bool;

    /// Creates a game.
    fn new(rules: Self::Rules) -> (game: Self)
        ensures
            game.wf(),
            Self::post_new(rules, game),
    ;

    /// Deals the game.
    fn deal(&mut self)
        requires
            old(self).wf(),
            old(self).pre_deal(),
        ensures
            final(self).wf(),
            Self::post_deal(*old(self), *final(self)),
    ;

    /// Returns true if the game is won.
    fn is_won(&self) -> (won: bool)
        requires
            self.wf(),
        ensures
            won == self.spec_won(),
    ;

    /// Determines if the play is currently valid.
    fn is_valid(&self, play: &Self::Play) -> (valid: bool)
        requires
            self.wf(),
        ensures
            valid == self.spec_valid(*play),
    ;

    /// Performs a play. Callers must have confirmed the play is valid.
    fn play(&mut self, play: &Self::Play)
        requires
            old(self).wf(),
            old(self).spec_valid(*play),
        ensures
            final(self).wf(),
            Self::post_play(*old(self), *play, *final(self)),
    ;

    /// Undoes a play that was just performed.
    fn undo(&mut self, play: &Self::Play)
        requires
            old(self).wf(),
        ensures
            final(self).wf(),
            Self::post_undo(*old(self), *play, *final(self)),
    ;
}

} // verus!
