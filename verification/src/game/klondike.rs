//! Klondike solitaire.

use vstd::prelude::*;

use crate::card::face::Face;
use crate::card::card::Card;
use crate::card::pile::Pile;
use crate::card::pile::dealt;
use crate::card::rank::Rank;
use crate::card::rank::lemma_rank_of_value;
use crate::card::rank::lemma_value_rank_of;
use crate::card::set::Deck;
use crate::game::Game;

use self::board::Board;
use self::board::arity;
use self::board::dealt_board;
use self::board::dealt_tab;
use self::board::deck_faces;
use self::board::fits_foundation;
use self::board::fits_tableau;
use self::board::fnd_idx;
use self::board::fresh_board;
use self::board::play_spec;
use self::board::rem_after;
use self::board::tab_idx;
use self::board::undealt;
use self::board::undo_spec;
use self::board::valid_spec;
use self::board::well_formed;
use self::board::won_spec;

pub mod board;
pub mod laws;

verus! {

/// One-card or three-card draw.
#[derive(Debug, Clone, Copy, PartialEq, Eq, Structural)]
pub enum Draw {
    One,
    Three,
}

/// Foundations.
#[derive(Debug, Clone, Copy, PartialEq, Eq, PartialOrd, Ord, Structural)]
pub enum Foundation {
    One,
    Two,
    Three,
    Four,
}

/// Tableaux.
#[derive(Debug, Clone, Copy, PartialEq, Eq, PartialOrd, Ord, Structural)]
pub enum Tableau {
    One,
    Two,
    Three,
    Four,
    Five,
    Six,
    Seven,
}

/// Klondike play.
#[derive(Debug, Clone, Copy, PartialEq, Eq, Structural)]
pub enum Play {
    /// Draw from stock into waste.
    Draw,
    /// Move waste back to stock.
    Redeal,
    /// Reveal the top card of a tableau pile.
    Reveal(Tableau),
    /// Move top card of waste to tableau.
    WasteTableau(Tableau),
    /// Move top card of waste to foundation.
    WasteFoundation(Foundation),
    /// Move top card of tableau to foundation.
    TableauFoundation(Tableau, Foundation),
    /// Move top card of foundation to tableau.
    FoundationTableau(Foundation, Tableau),
    /// Move cards from tableau to tableau.
    TableauTableau(Tableau, u8, Tableau),
}

impl Foundation {
    /// Returns the position of the foundation, 0 through 3.
    pub fn index(&self) -> (i: usize)
        ensures
            i == fnd_idx(*self),
    {
        match *self {
            Foundation::One => 0,
            Foundation::Two => 1,
            Foundation::Three => 2,
            Foundation::Four => 3,
        }
    }
}

impl Tableau {
    /// Returns the position of the tableau, 0 through 6.
    pub fn index(&self) -> (i: usize)
        ensures
            i == tab_idx(*self),
    {
        match *self {
            Tableau::One => 0,
            Tableau::Two => 1,
            Tableau::Three => 2,
            Tableau::Four => 3,
            Tableau::Five => 4,
            Tableau::Six => 5,
            Tableau::Seven => 6,
        }
    }
}

/// Klondike solitaire game.
#[derive(Debug)]
pub struct Klondike {
    /// The configured draw arity.
    pub draw: Draw,
    /// The face-down reserve pile.
    pub stock: Pile,
    /// The face-up pile receiving draws.
    pub waste: Pile,
    /// The four foundation piles; always exactly four.
    pub foundations: Vec<Pile>,
    /// The seven tableau piles; always exactly seven.
    pub tableau: Vec<Pile>,
}

impl View for Klondike {
    type V = Board;

    open spec fn view(&self) -> Board {
        Board {
            draw: self.draw,
            stock: self.stock@,
            waste: self.waste@,
            foundations: Seq::new(self.foundations@.len(), |i: int| self.foundations@[i]@),
            tableau: Seq::new(self.tableau@.len(), |i: int| self.tableau@[i]@),
        }
    }
}

impl Game for Klondike {
    type Rules = Draw;

    type Play = Play;

    open spec fn wf(&self) -> bool {
        well_formed(self@)
    }

    open spec fn post_new(rules: Draw, game: Self) -> bool {
        game@ == fresh_board(rules)
    }

    open spec fn pre_deal(&self) -> bool {
        undealt(self@)
    }

    open spec fn post_deal(pre: Self, post: Self) -> bool {
        exists|s: Seq<Face>|
            s.to_multiset() == pre@.stock.to_multiset() && post@ == dealt_board(pre@, s)
    }

    open spec fn spec_won(&self) -> bool {
        won_spec(self@)
    }

    open spec fn spec_valid(&self, play: Play) -> bool {
        valid_spec(self@, play)
    }

    open spec fn post_play(pre: Self, play: Play, post: Self) -> bool {
        post@ == play_spec(pre@, play)
    }

    open spec fn post_undo(pre: Self, play: Play, post: Self) -> bool {
        post@ == undo_spec(pre@, play)
    }

    fn new(draw: Draw) -> (game: Self) {
        let mut deck = Deck::new();
        let mut stock = Pile::new();
        let mut produced: usize = 0;
        while produced < 52
            invariant
                deck@ == produced,
                produced <= 52,
                stock@ == deck_faces().take(produced as int),
            decreases 52 - produced,
        {
            let card = deck.next().unwrap();
            stock.push(Face::Down(card));
            produced += 1;
            proof {
                assert(stock@ =~= deck_faces().take(produced as int));
            }
        }
        let mut foundations: Vec<Pile> = Vec::new();
        foundations.push(Pile::new());
        foundations.push(Pile::new());
        foundations.push(Pile::new());
        foundations.push(Pile::new());
        let mut tableau: Vec<Pile> = Vec::new();
        tableau.push(Pile::new());
        tableau.push(Pile::new());
        tableau.push(Pile::new());
        tableau.push(Pile::new());
        tableau.push(Pile::new());
        tableau.push(Pile::new());
        tableau.push(Pile::new());
        let game = Klondike { draw, stock, waste: Pile::new(), foundations, tableau };
        proof {
            assert(game@.stock =~= deck_faces());
            assert(game@ =~~= fresh_board(draw));
        }
        game
    }

    fn deal(&mut self) {
        self.stock.shuffle();
        let ghost b0 = old(self)@;
        let ghost s = self.stock@;
        proof {
            assert(s.take(rem_after(0)) =~= s);
            assert forall|j: int| 0 <= j < 7 implies self.tableau@[j]@.len() == 0 by {
                assert(old(self)@.tableau[j].len() == 0);
            }
        }
        let mut i: usize = 0;
        while i < 7
            invariant
                i <= 7,
                self.draw == old(self).draw,
                self.waste@ == old(self).waste@,
                self.foundations@ == old(self).foundations@,
                self.tableau@.len() == 7,
                old(self).tableau@.len() == 7,
                s.len() == 52,
                self.stock@ == s.take(rem_after(i as int)),
                forall|j: int| 0 <= j < i ==> #[trigger] self.tableau@[j]@ == dealt_tab(s, j),
                forall|j: int| i <= j < 7 ==> #[trigger] self.tableau@[j]@.len() == 0,
            decreases 7 - i,
        {
            let ghost stock_before = self.stock@;
            let ghost empty_tab = self.tableau@[i as int]@;
            self.stock.deal_to(&mut self.tableau[i], i + 1, false);
            self.tableau[i].flip_top();
            proof {
                assert(empty_tab + dealt(stock_before, i + 1, false) =~= dealt(
                    stock_before,
                    i + 1,
                    false,
                ));
                assert(self.tableau@[i as int]@ == dealt_tab(s, i as int));
            }
            i += 1;
            proof {
                assert(self.stock@ =~= s.take(rem_after(i as int)));
            }
        }
        proof {
            assert(self@ =~~= dealt_board(b0, s));
            assert(s.to_multiset() == b0.stock.to_multiset());
        }
    }

    fn is_won(&self) -> (won: bool) {
        if !self.stock.is_empty() {
            return false;
        }
        if !self.waste.is_empty() {
            return false;
        }
        let mut i: usize = 0;
        while i < 7
            invariant
                i <= 7,
                self.wf(),
                self@.stock.len() == 0,
                self@.waste.len() == 0,
                forall|j: int| 0 <= j < i ==> self@.tableau[j].len() == 0,
            decreases 7 - i,
        {
            if !self.tableau[i].is_empty() {
                proof {
                    assert(self@.tableau[i as int].len() != 0);
                }
                return false;
            }
            i += 1;
        }
        true
    }

    fn is_valid(&self, play: &Play) -> (valid: bool) {
        match *play {
            Play::Draw => !self.stock.is_empty(),
            Play::Redeal => self.stock.is_empty() && !self.waste.is_empty(),
            Play::Reveal(tableau) => {
                match self.tableau[tableau.index()].top() {
                    Some(face) => face.is_down(),
                    None => false,
                }
            },
            Play::WasteTableau(tableau) => {
                match self.waste.top() {
                    Some(face) => self.is_valid_tableau(tableau, face.card()),
                    None => false,
                }
            },
            Play::WasteFoundation(foundation) => {
                match self.waste.top() {
                    Some(face) => self.is_valid_foundation(foundation, face.card()),
                    None => false,
                }
            },
            Play::TableauFoundation(tableau, foundation) => {
                match self.tableau[tableau.index()].top() {
                    Some(face) => self.is_valid_foundation(foundation, face.card()),
                    None => false,
                }
            },
            Play::FoundationTableau(foundation, tableau) => {
                match self.foundations[foundation.index()].top() {
                    Some(face) => self.is_valid_tableau(tableau, face.card()),
                    None => false,
                }
            },
            Play::TableauTableau(src, count, dest) => {
                match self.tableau[src.index()].get_back(count as usize) {
                    Some(face) => face.is_up() && self.is_valid_tableau(dest, face.card()),
                    None => false,
                }
            },
        }
    }

    fn play(&mut self, play: &Play) {
        match *play {
            Play::Draw => {
                let n: usize = match self.draw {
                    Draw::One => 1,
                    Draw::Three => 3,
                };
                self.stock.deal_to(&mut self.waste, n, true);
                proof {
                    assert(self@ =~~= play_spec(old(self)@, Play::Draw));
                }
            },
            Play::Redeal => {
                core::mem::swap(&mut self.waste, &mut self.stock);
                self.stock.flip();
                proof {
                    assert(self@ =~~= play_spec(old(self)@, Play::Redeal));
                }
            },
            Play::Reveal(tableau) => {
                let ti = tableau.index();
                self.tableau[ti].flip_top();
                proof {
                    assert(self@ =~~= play_spec(old(self)@, Play::Reveal(tableau)));
                }
            },
            Play::WasteTableau(tableau) => {
                let ti = tableau.index();
                self.waste.move_to(&mut self.tableau[ti], 1);
                proof {
                    assert(self@ =~~= play_spec(old(self)@, Play::WasteTableau(tableau)));
                }
            },
            Play::WasteFoundation(foundation) => {
                let fi = foundation.index();
                self.waste.move_to(&mut self.foundations[fi], 1);
                proof {
                    assert(self@ =~~= play_spec(old(self)@, Play::WasteFoundation(foundation)));
                }
            },
            Play::TableauFoundation(tableau, foundation) => {
                let ti = tableau.index();
                let fi = foundation.index();
                self.tableau[ti].move_to(&mut self.foundations[fi], 1);
                proof {
                    assert(self@ =~~= play_spec(
                        old(self)@,
                        Play::TableauFoundation(tableau, foundation),
                    ));
                }
            },
            Play::FoundationTableau(foundation, tableau) => {
                let fi = foundation.index();
                let ti = tableau.index();
                self.foundations[fi].move_to(&mut self.tableau[ti], 1);
                proof {
                    assert(self@ =~~= play_spec(
                        old(self)@,
                        Play::FoundationTableau(foundation, tableau),
                    ));
                }
            },
            Play::TableauTableau(src, count, dest) => {
                let si = src.index();
                let di = dest.index();
                if si != di {
                    let mut packet = Pile::new();
                    core::mem::swap(&mut packet, &mut self.tableau[si]);
                    packet.move_to(&mut self.tableau[di], count as usize);
                    core::mem::swap(&mut packet, &mut self.tableau[si]);
                } else {
                    // Moving a packet from a tableau onto itself leaves it unchanged.
                    proof {
                        crate::card::pile::lemma_take_off_lifted(
                            old(self)@.tableau[si as int],
                            count as int,
                        );
                    }
                }
                proof {
                    assert(self@ =~~= play_spec(
                        old(self)@,
                        Play::TableauTableau(src, count, dest),
                    ));
                }
            },
        }
    }

    #[verifier::rlimit(60)]
    fn undo(&mut self, play: &Play) {
        match *play {
            Play::Draw => {
                let n: usize = match self.draw {
                    Draw::One => 1,
                    Draw::Three => 3,
                };
                self.waste.deal_to(&mut self.stock, n, true);
                proof {
                    assert(self@ =~~= undo_spec(old(self)@, Play::Draw));
                }
            },
            Play::Redeal => {
                core::mem::swap(&mut self.stock, &mut self.waste);
                self.waste.flip();
                proof {
                    assert(self@ =~~= undo_spec(old(self)@, Play::Redeal));
                }
            },
            Play::Reveal(tableau) => {
                let ti = tableau.index();
                self.tableau[ti].flip_top();
                proof {
                    assert(self@ =~~= undo_spec(old(self)@, Play::Reveal(tableau)));
                }
            },
            Play::WasteTableau(tableau) => {
                let ti = tableau.index();
                self.tableau[ti].move_to(&mut self.waste, 1);
                proof {
                    assert(self@ =~~= undo_spec(old(self)@, Play::WasteTableau(tableau)));
                }
            },
            Play::WasteFoundation(foundation) => {
                let fi = foundation.index();
                self.foundations[fi].move_to(&mut self.waste, 1);
                proof {
                    assert(self@ =~~= undo_spec(old(self)@, Play::WasteFoundation(foundation)));
                }
            },
            Play::TableauFoundation(tableau, foundation) => {
                let fi = foundation.index();
                let ti = tableau.index();
                self.foundations[fi].move_to(&mut self.tableau[ti], 1);
                proof {
                    assert(self@ =~~= undo_spec(
                        old(self)@,
                        Play::TableauFoundation(tableau, foundation),
                    ));
                }
            },
            Play::FoundationTableau(foundation, tableau) => {
                let ti = tableau.index();
                let fi = foundation.index();
                self.tableau[ti].move_to(&mut self.foundations[fi], 1);
                proof {
                    assert(self@ =~~= undo_spec(
                        old(self)@,
                        Play::FoundationTableau(foundation, tableau),
                    ));
                }
            },
            Play::TableauTableau(src, count, dest) => {
                let si = src.index();
                let di = dest.index();
                if si != di {
                    let mut packet = Pile::new();
                    core::mem::swap(&mut packet, &mut self.tableau[di]);
                    packet.move_to(&mut self.tableau[si], count as usize);
                    core::mem::swap(&mut packet, &mut self.tableau[di]);
                } else {
                    proof {
                        crate::card::pile::lemma_take_off_lifted(
                            old(self)@.tableau[si as int],
                            count as int,
                        );
                    }
                }
                proof {
                    assert(self@ =~~= undo_spec(
                        old(self)@,
                        Play::TableauTableau(src, count, dest),
                    ));
                }
            },
        }
    }
}

impl Klondike {
    /// Returns true when the card may be moved onto the foundation: an `Ace`
    /// onto an empty foundation, otherwise the foundation's own suit one rank
    /// above its top card.
    fn is_valid_foundation(&self, foundation: Foundation, card: Card) -> (valid: bool)
        requires
            self.wf(),
        ensures
            valid == fits_foundation(self@, fnd_idx(foundation), card),
    {
        match self.foundations[foundation.index()].top() {
            None => card.rank == Rank::Ace,
            Some(face) => {
                let top = face.card();
                proof {
                    lemma_rank_of_value(top.rank);
                    lemma_rank_of_value(card.rank);
                    if card.rank.spec_value() > 1 {
                        lemma_value_rank_of(card.rank.spec_value() - 1);
                    }
                }
                card.suit == top.suit && match card.rank.pred() {
                    Some(rank) => rank == top.rank,
                    None => false,
                }
            },
        }
    }

    /// Returns true when the card may be moved onto the tableau: a `King`
    /// onto an empty tableau, otherwise the opposite color one rank below the
    /// tableau's top card.
    fn is_valid_tableau(&self, tableau: Tableau, card: Card) -> (valid: bool)
        requires
            self.wf(),
        ensures
            valid == fits_tableau(self@, tab_idx(tableau), card),
    {
        match self.tableau[tableau.index()].top() {
            None => card.rank == Rank::King,
            Some(face) => {
                let top = face.card();
                proof {
                    lemma_rank_of_value(top.rank);
                    lemma_rank_of_value(card.rank);
                    if card.rank.spec_value() < 13 {
                        lemma_value_rank_of(card.rank.spec_value() + 1);
                    }
                }
                card.suit.color() != top.suit.color() && match card.rank.succ() {
                    Some(rank) => rank == top.rank,
                    None => false,
                }
            },
        }
    }
}

impl PartialEq for Klondike {
    /// Games are equal when they have the same draw arity and every one of
    /// their eleven piles holds the same cards in the same order with the
    /// same orientations.
    fn eq(&self, other: &Self) -> (equal: bool) {
        if self.draw != other.draw {
            return false;
        }
        if !(self.stock == other.stock) {
            return false;
        }
        if !(self.waste == other.waste) {
            return false;
        }
        if self.foundations.len() != other.foundations.len() {
            proof {
                assert(self@.foundations.len() != other@.foundations.len());
            }
            return false;
        }
        if self.tableau.len() != other.tableau.len() {
            proof {
                assert(self@.tableau.len() != other@.tableau.len());
            }
            return false;
        }
        let mut i: usize = 0;
        while i < self.foundations.len()
            invariant
                i <= self.foundations@.len(),
                self.foundations@.len() == other.foundations@.len(),
                forall|j: int| 0 <= j < i ==> #[trigger] self.foundations@[j]@
                    == other.foundations@[j]@,
            decreases self.foundations@.len() - i,
        {
            if !(self.foundations[i] == other.foundations[i]) {
                proof {
                    assert(self@.foundations[i as int] != other@.foundations[i as int]);
                }
                return false;
            }
            i += 1;
        }
        let mut i: usize = 0;
        while i < self.tableau.len()
            invariant
                i <= self.tableau@.len(),
                self.tableau@.len() == other.tableau@.len(),
                self.foundations@.len() == other.foundations@.len(),
                forall|j: int|
                    0 <= j < self.foundations@.len() ==> #[trigger] self.foundations@[j]@
                        == other.foundations@[j]@,
                forall|j: int| 0 <= j < i ==> #[trigger] self.tableau@[j]@ == other.tableau@[j]@,
            decreases self.tableau@.len() - i,
        {
            if !(self.tableau[i] == other.tableau[i]) {
                proof {
                    assert(self@.tableau[i as int] != other@.tableau[i as int]);
                }
                return false;
            }
            i += 1;
        }
        proof {
            assert(self@ =~~= other@);
        }
        true
    }
}

impl Eq for Klondike {

}

impl vstd::std_specs::cmp::PartialEqSpecImpl for Klondike {
    open spec fn obeys_eq_spec() -> bool {
        true
    }

    open spec fn eq_spec(&self, other: &Self) -> bool {
        self@ == other@
    }
}

impl Clone for Klondike {
    /// Returns a deep copy of the game: every pile copied card for card.
    fn clone(&self) -> (game: Self)
        ensures
            game@ == self@,
    {
        let mut foundations: Vec<Pile> = Vec::new();
        let mut i: usize = 0;
        while i < self.foundations.len()
            invariant
                i <= self.foundations@.len(),
                foundations@.len() == i,
                forall|j: int| 0 <= j < i ==> #[trigger] foundations@[j]@ == self.foundations@[j]@,
            decreases self.foundations@.len() - i,
        {
            foundations.push(self.foundations[i].clone());
            i += 1;
        }
        let mut tableau: Vec<Pile> = Vec::new();
        let mut i: usize = 0;
        while i < self.tableau.len()
            invariant
                i <= self.tableau@.len(),
                tableau@.len() == i,
                forall|j: int| 0 <= j < i ==> #[trigger] tableau@[j]@ == self.tableau@[j]@,
            decreases self.tableau@.len() - i,
        {
            tableau.push(self.tableau[i].clone());
            i += 1;
        }
        let game = Klondike {
            draw: self.draw,
            stock: self.stock.clone(),
            waste: self.waste.clone(),
            foundations,
            tableau,
        };
        proof {
            assert(game@ =~~= self@);
        }
        game
    }
}

} // verus!
