//! The spec-level board: a mathematical model of a Klondike game state, the
//! legality predicate, and the forward and inverse transition functions.

use vstd::prelude::*;

use crate::card::card::Card;
use crate::card::face::Face;
use crate::card::pile::dealt;
use crate::card::pile::flip_top_seq;
use crate::card::pile::flipped_pile;
use crate::card::pile::lifted;
use crate::card::pile::take_off;
use crate::card::rank::Rank;
use crate::card::set::card_at;

use super::Draw;
use super::Foundation;
use super::Play;
use super::Tableau;

verus! {

/// A Klondike game state, with every pile abstracted to its card sequence.
/// The top of each pile is the last element of its sequence.
#[verifier::ext_equal]
pub ghost struct Board {
    /// The configured draw arity.
    pub draw: Draw,
    /// The face-down reserve pile.
    pub stock: Seq<Face>,
    /// The face-up pile receiving draws.
    pub waste: Seq<Face>,
    /// The four foundation piles, built up by suit from `Ace`.
    pub foundations: Seq<Seq<Face>>,
    /// The seven tableau piles, built down in alternating color.
    pub tableau: Seq<Seq<Face>>,
}

/// How many cards one `Draw` play tries to move.
pub open spec fn arity(draw: Draw) -> int {
    match draw {
        Draw::One => 1,
        Draw::Three => 3,
    }
}

/// The position of a tableau in the board's tableau sequence.
pub open spec fn tab_idx(tableau: Tableau) -> int {
    match tableau {
        Tableau::One => 0,
        Tableau::Two => 1,
        Tableau::Three => 2,
        Tableau::Four => 3,
        Tableau::Five => 4,
        Tableau::Six => 5,
        Tableau::Seven => 6,
    }
}

/// The position of a foundation in the board's foundation sequence.
pub open spec fn fnd_idx(foundation: Foundation) -> int {
    match foundation {
        Foundation::One => 0,
        Foundation::Two => 1,
        Foundation::Three => 2,
        Foundation::Four => 3,
    }
}

/// Structural well-formedness: four foundations and seven tableaux.
pub open spec fn well_formed(b: Board) -> bool {
    b.foundations.len() == 4 && b.tableau.len() == 7
}

/// An undealt board: the full deck in the stock, every other pile empty.
pub open spec fn undealt(b: Board) -> bool {
    &&& b.stock.len() == 52
    &&& b.waste.len() == 0
    &&& forall|i: int| 0 <= i < b.foundations.len() ==> b.foundations[i].len() == 0
    &&& forall|i: int| 0 <= i < b.tableau.len() ==> b.tableau[i].len() == 0
}

/// A won board: stock, waste, and all tableaux empty, whatever the
/// foundations hold.
pub open spec fn won_spec(b: Board) -> bool {
    &&& b.stock.len() == 0
    &&& b.waste.len() == 0
    &&& forall|i: int| 0 <= i < b.tableau.len() ==> b.tableau[i].len() == 0
}

/// Whether a card may land on foundation `f`: an `Ace` on an empty
/// foundation, otherwise the same suit as the foundation's top card and
/// exactly one rank above it.
pub open spec fn fits_foundation(b: Board, f: int, c: Card) -> bool {
    let pile = b.foundations[f];
    if pile.len() == 0 {
        c.rank == Rank::Ace
    } else {
        let top = pile.last().spec_card();
        c.suit == top.suit && c.rank.spec_value() == top.rank.spec_value() + 1
    }
}

/// Whether a card may land on tableau `t`: a `King` on an empty tableau,
/// otherwise the opposite color of the tableau's top card and exactly one
/// rank below it.
pub open spec fn fits_tableau(b: Board, t: int, c: Card) -> bool {
    let pile = b.tableau[t];
    if pile.len() == 0 {
        c.rank == Rank::King
    } else {
        let top = pile.last().spec_card();
        c.suit.color() != top.suit.color() && c.rank.spec_value() + 1 == top.rank.spec_value()
    }
}

/// Whether a play is legal on the given board.
pub open spec fn valid_spec(b: Board, p: Play) -> bool {
    match p {
        Play::Draw => b.stock.len() > 0,
        Play::Redeal => b.stock.len() == 0 && b.waste.len() > 0,
        Play::Reveal(t) => {
            let pile = b.tableau[tab_idx(t)];
            pile.len() > 0 && pile.last().spec_is_down()
        },
        Play::WasteTableau(t) => b.waste.len() > 0 && fits_tableau(
            b,
            tab_idx(t),
            b.waste.last().spec_card(),
        ),
        Play::WasteFoundation(f) => b.waste.len() > 0 && fits_foundation(
            b,
            fnd_idx(f),
            b.waste.last().spec_card(),
        ),
        Play::TableauFoundation(t, f) => {
            let pile = b.tableau[tab_idx(t)];
            pile.len() > 0 && fits_foundation(b, fnd_idx(f), pile.last().spec_card())
        },
        Play::FoundationTableau(f, t) => {
            let pile = b.foundations[fnd_idx(f)];
            pile.len() > 0 && fits_tableau(b, tab_idx(t), pile.last().spec_card())
        },
        Play::TableauTableau(src, count, dest) => {
            let pile = b.tableau[tab_idx(src)];
            let landing = pile[pile.len() - count as int];
            &&& 1 <= count as int <= pile.len()
            &&& landing.spec_is_up()
            &&& fits_tableau(b, tab_idx(dest), landing.spec_card())
        },
    }
}

/// The board after performing a play. Total: transfers saturate at pile
/// boundaries exactly as the pile operations do, so this describes the
/// engine's behavior wherever the engine accepts the play.
pub open spec fn play_spec(b: Board, p: Play) -> Board {
    match p {
        Play::Draw => Board {
            stock: take_off(b.stock, arity(b.draw)),
            waste: b.waste + dealt(b.stock, arity(b.draw), true),
            ..b
        },
        Play::Redeal => Board { stock: flipped_pile(b.waste), waste: b.stock, ..b },
        Play::Reveal(t) => {
            let ti = tab_idx(t);
            Board { tableau: b.tableau.update(ti, flip_top_seq(b.tableau[ti])), ..b }
        },
        Play::WasteTableau(t) => {
            let ti = tab_idx(t);
            Board {
                waste: take_off(b.waste, 1),
                tableau: b.tableau.update(ti, b.tableau[ti] + lifted(b.waste, 1)),
                ..b
            }
        },
        Play::WasteFoundation(f) => {
            let fi = fnd_idx(f);
            Board {
                waste: take_off(b.waste, 1),
                foundations: b.foundations.update(fi, b.foundations[fi] + lifted(b.waste, 1)),
                ..b
            }
        },
        Play::TableauFoundation(t, f) => {
            let ti = tab_idx(t);
            let fi = fnd_idx(f);
            Board {
                tableau: b.tableau.update(ti, take_off(b.tableau[ti], 1)),
                foundations: b.foundations.update(
                    fi,
                    b.foundations[fi] + lifted(b.tableau[ti], 1),
                ),
                ..b
            }
        },
        Play::FoundationTableau(f, t) => {
            let fi = fnd_idx(f);
            let ti = tab_idx(t);
            Board {
                foundations: b.foundations.update(fi, take_off(b.foundations[fi], 1)),
                tableau: b.tableau.update(ti, b.tableau[ti] + lifted(b.foundations[fi], 1)),
                ..b
            }
        },
        Play::TableauTableau(src, count, dest) => {
            let si = tab_idx(src);
            let di = tab_idx(dest);
            let moved = lifted(b.tableau[si], count as int);
            let once = b.tableau.update(si, take_off(b.tableau[si], count as int));
            Board { tableau: once.update(di, once[di] + moved), ..b }
        },
    }
}

/// The board after undoing a play: the exact inverse transition. Total, like
/// `play_spec`; the single-card and packet moves are the forward transition
/// with source and destination exchanged.
pub open spec fn undo_spec(b: Board, p: Play) -> Board {
    match p {
        Play::Draw => Board {
            waste: take_off(b.waste, arity(b.draw)),
            stock: b.stock + dealt(b.waste, arity(b.draw), true),
            ..b
        },
        Play::Redeal => Board { stock: b.waste, waste: flipped_pile(b.stock), ..b },
        Play::Reveal(t) => play_spec(b, Play::Reveal(t)),
        Play::WasteTableau(t) => {
            let ti = tab_idx(t);
            Board {
                tableau: b.tableau.update(ti, take_off(b.tableau[ti], 1)),
                waste: b.waste + lifted(b.tableau[ti], 1),
                ..b
            }
        },
        Play::WasteFoundation(f) => {
            let fi = fnd_idx(f);
            Board {
                foundations: b.foundations.update(fi, take_off(b.foundations[fi], 1)),
                waste: b.waste + lifted(b.foundations[fi], 1),
                ..b
            }
        },
        Play::TableauFoundation(t, f) => play_spec(b, Play::FoundationTableau(f, t)),
        Play::FoundationTableau(f, t) => play_spec(b, Play::TableauFoundation(t, f)),
        Play::TableauTableau(src, count, dest) => play_spec(
            b,
            Play::TableauTableau(dest, count, src),
        ),
    }
}

/// The full deck, face-down, in enumeration order.
pub open spec fn deck_faces() -> Seq<Face> {
    Seq::new(52, |i: int| Face::Down(card_at(i)))
}

/// A fresh, undealt board: the whole deck face-down in the stock, every
/// other pile empty.
pub open spec fn fresh_board(draw: Draw) -> Board {
    Board {
        draw,
        stock: deck_faces(),
        waste: Seq::empty(),
        foundations: Seq::new(4, |i: int| Seq::empty()),
        tableau: Seq::new(7, |i: int| Seq::empty()),
    }
}

/// How many cards remain in the stock after dealing the first `i` tableaux
/// of a fresh 52-card board, where tableau `j` receives `j + 1` cards.
pub open spec fn rem_after(i: int) -> int {
    if i <= 0 {
        52
    } else if i == 1 {
        51
    } else if i == 2 {
        49
    } else if i == 3 {
        46
    } else if i == 4 {
        42
    } else if i == 5 {
        37
    } else if i == 6 {
        31
    } else {
        24
    }
}

/// Tableau `i` as dealt from the shuffled stock `s`: `i + 1` cards dealt off
/// the stock remaining before its turn, with the last (top) card turned up.
pub open spec fn dealt_tab(s: Seq<Face>, i: int) -> Seq<Face> {
    flip_top_seq(dealt(s.take(rem_after(i)), i + 1, false))
}

/// The board dealt from the shuffled stock `s` of an undealt board `b`.
pub open spec fn dealt_board(b: Board, s: Seq<Face>) -> Board {
    Board {
        stock: s.take(rem_after(7)),
        tableau: Seq::new(7, |i: int| dealt_tab(s, i)),
        ..b
    }
}

} // verus!
