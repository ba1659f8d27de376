//! The engine's laws: the 52-card partition invariant, the play/undo inverse
//! law, the placement rules, draw saturation, and win detection, each stated
//! over the spec-level board and proved once and for all.

use vstd::prelude::*;
use vstd::multiset::Multiset;
use vstd::seq_lib::group_to_multiset_ensures;
use vstd::seq_lib::lemma_multiset_commutative;

use crate::card::card::Card;
use crate::card::face::Face;
use crate::card::pile::dealt;
use crate::card::pile::flip_top_seq;
use crate::card::pile::flipped_pile;
use crate::card::pile::lemma_take_off_lifted;
use crate::card::pile::lifted;
use crate::card::pile::moved_count;
use crate::card::pile::take_off;
use crate::card::rank::Rank;
use crate::card::set::deck;
use crate::card::set::lemma_deck_complete;

use super::Draw;
use super::Foundation;
use super::Play;
use super::Tableau;
use super::board::Board;
use super::board::arity;
use super::board::dealt_board;
use super::board::dealt_tab;
use super::board::deck_faces;
use super::board::fnd_idx;
use super::board::fresh_board;
use super::board::play_spec;
use super::board::rem_after;
use super::board::tab_idx;
use super::board::undealt;
use super::board::undo_spec;
use super::board::valid_spec;
use super::board::well_formed;
use super::board::won_spec;

verus! {

/// The multiset of cards in one pile, orientations erased.
pub open spec fn pile_cards(s: Seq<Face>) -> Multiset<Card> {
    s.map_values(|f: Face| f.spec_card()).to_multiset()
}

/// The multiset of cards across a group of piles.
pub open spec fn piles_cards(ps: Seq<Seq<Face>>) -> Multiset<Card>
    decreases ps.len(),
{
    if ps.len() == 0 {
        Multiset::empty()
    } else {
        piles_cards(ps.drop_last()).add(pile_cards(ps.last()))
    }
}

/// The multiset of cards across all eleven piles of a board.
pub open spec fn cards_of(b: Board) -> Multiset<Card> {
    pile_cards(b.stock).add(pile_cards(b.waste)).add(piles_cards(b.foundations)).add(
        piles_cards(b.tableau),
    )
}

/// A board whose piles partition the 52-card universe: every card appears on
/// the board exactly once.
pub open spec fn full_partition(b: Board) -> bool {
    forall|c: Card| cards_of(b).count(c) == 1
}

/// Concatenating piles adds their card multisets.
proof fn lemma_pile_cards_append(s: Seq<Face>, t: Seq<Face>)
    ensures
        pile_cards(s + t) == pile_cards(s).add(pile_cards(t)),
{
    let cards = |f: Face| f.spec_card();
    assert((s + t).map_values(cards) =~= s.map_values(cards) + t.map_values(cards));
    lemma_multiset_commutative(s.map_values(cards), t.map_values(cards));
    assert(pile_cards(s + t) =~= pile_cards(s).add(pile_cards(t)));
}

/// Lifting a packet off a pile splits its card multiset.
proof fn lemma_pile_cards_split(s: Seq<Face>, count: int)
    requires
        0 <= count,
    ensures
        pile_cards(s) == pile_cards(take_off(s, count)).add(pile_cards(lifted(s, count))),
{
    lemma_take_off_lifted(s, count);
    lemma_pile_cards_append(take_off(s, count), lifted(s, count));
}

/// Dealing a packet holds the same cards as lifting it: the order reverses
/// and orientations may flip, but no card changes.
proof fn lemma_pile_cards_dealt(s: Seq<Face>, count: int, flip: bool)
    requires
        0 <= count,
    ensures
        pile_cards(dealt(s, count, flip)) == pile_cards(lifted(s, count)),
{
    let cards = |f: Face| f.spec_card();
    assert(dealt(s, count, flip).map_values(cards) =~= lifted(s, count).map_values(
        cards,
    ).reverse());
    lifted(s, count).map_values(cards).lemma_reverse_to_multiset();
    assert(pile_cards(dealt(s, count, flip)) =~= pile_cards(lifted(s, count)));
}

/// Turning a pile over keeps its cards.
proof fn lemma_pile_cards_flipped(s: Seq<Face>)
    ensures
        pile_cards(flipped_pile(s)) == pile_cards(s),
{
    let cards = |f: Face| f.spec_card();
    assert(flipped_pile(s).map_values(cards) =~= s.map_values(cards).reverse());
    s.map_values(cards).lemma_reverse_to_multiset();
    assert(pile_cards(flipped_pile(s)) =~= pile_cards(s));
}

/// Flipping the top card keeps the pile's cards.
proof fn lemma_pile_cards_flip_top(s: Seq<Face>)
    ensures
        pile_cards(flip_top_seq(s)) == pile_cards(s),
{
    let cards = |f: Face| f.spec_card();
    assert(flip_top_seq(s).map_values(cards) =~= s.map_values(cards));
}

/// Replacing one pile of a group exchanges exactly its cards.
proof fn lemma_piles_cards_update(ps: Seq<Seq<Face>>, i: int, v: Seq<Face>)
    requires
        0 <= i < ps.len(),
    ensures
        piles_cards(ps.update(i, v)).add(pile_cards(ps[i])) == piles_cards(ps).add(pile_cards(v)),
    decreases ps.len(),
{
    broadcast use vstd::multiset::group_multiset_axioms;

    if i == ps.len() - 1 {
        let upd = ps.update(i, v);
        assert(upd.last() == v);
        assert(upd.drop_last() =~= ps.drop_last());
        assert(piles_cards(upd) == piles_cards(ps.drop_last()).add(pile_cards(v)));
        assert(piles_cards(ps) == piles_cards(ps.drop_last()).add(pile_cards(ps.last())));
        assert(piles_cards(upd).add(pile_cards(ps[i])) =~= piles_cards(ps).add(pile_cards(v)));
    } else {
        let upd = ps.update(i, v);
        assert(upd.last() == ps.last());
        assert(upd.drop_last() =~= ps.drop_last().update(i, v));
        assert(piles_cards(upd) == piles_cards(ps.drop_last().update(i, v)).add(
            pile_cards(ps.last()),
        ));
        lemma_piles_cards_update(ps.drop_last(), i, v);
        assert(ps.drop_last()[i] == ps[i]);
        assert(piles_cards(ps) == piles_cards(ps.drop_last()).add(pile_cards(ps.last())));
        assert forall|c: Card|
            piles_cards(upd).add(pile_cards(ps[i])).count(c) == piles_cards(ps).add(
                pile_cards(v),
            ).count(c) by {
            assert(piles_cards(ps.drop_last().update(i, v)).add(pile_cards(ps[i])).count(c)
                == piles_cards(ps.drop_last()).add(pile_cards(v)).count(c));
        }
        assert(piles_cards(upd).add(pile_cards(ps[i])) =~= piles_cards(ps).add(pile_cards(v)));
    }
}

/// A group of empty piles holds no cards.
proof fn lemma_piles_cards_empty(ps: Seq<Seq<Face>>)
    requires
        forall|i: int| 0 <= i < ps.len() ==> ps[i].len() == 0,
    ensures
        piles_cards(ps) == Multiset::<Card>::empty(),
    decreases ps.len(),
{
    broadcast use group_to_multiset_ensures;

    if ps.len() > 0 {
        lemma_piles_cards_empty(ps.drop_last());
        assert(ps.last().map_values(|f: Face| f.spec_card()) =~= Seq::<Card>::empty());
        assert(pile_cards(ps.last()).len() == 0);
        assert(piles_cards(ps) =~= Multiset::<Card>::empty());
    }
}

/// The stock remaining, plus the tableaux dealt so far, together hold the
/// cards of the whole shuffled stock.
proof fn lemma_deal_sum(s: Seq<Face>, i: int)
    requires
        0 <= i <= 7,
        s.len() == 52,
    ensures
        pile_cards(s.take(rem_after(i))).add(
            piles_cards(Seq::new(i as nat, |j: int| dealt_tab(s, j))),
        ) == pile_cards(s.take(rem_after(0))),
    decreases i,
{
    broadcast use vstd::multiset::group_multiset_axioms;

    if i == 0 {
        assert(pile_cards(s.take(rem_after(0))).add(
            piles_cards(Seq::new(0, |j: int| dealt_tab(s, j))),
        ) =~= pile_cards(s.take(rem_after(0))));
    } else {
        lemma_deal_sum(s, i - 1);
        let ts = Seq::new(i as nat, |j: int| dealt_tab(s, j));
        assert(ts.drop_last() =~= Seq::new((i - 1) as nat, |j: int| dealt_tab(s, j)));
        assert(ts.last() == dealt_tab(s, i - 1));
        lemma_pile_cards_flip_top(dealt(s.take(rem_after(i - 1)), i, false));
        lemma_pile_cards_dealt(s.take(rem_after(i - 1)), i, false);
        lemma_pile_cards_split(s.take(rem_after(i - 1)), i);
        assert(take_off(s.take(rem_after(i - 1)), i) =~= s.take(rem_after(i)));
        assert(pile_cards(s.take(rem_after(i))).add(piles_cards(ts)) =~= pile_cards(
            s.take(rem_after(0)),
        ));
    }
}

/// Piles holding the same faces in any order hold the same cards.
proof fn lemma_pile_cards_permutation(s1: Seq<Face>, s2: Seq<Face>)
    requires
        s1.to_multiset() == s2.to_multiset(),
    ensures
        pile_cards(s1) == pile_cards(s2),
    decreases s1.len(),
{
    broadcast use group_to_multiset_ensures;
    broadcast use vstd::multiset::group_multiset_axioms;

    let cards = |f: Face| f.spec_card();
    if s1.len() == 0 {
        assert(s1.to_multiset().len() == s1.len());
        assert(s2.to_multiset().len() == s2.len());
        assert(s2.len() == 0);
        assert(s1.map_values(cards) =~= s2.map_values(cards));
    } else {
        let f = s1.last();
        assert(s1 =~= s1.drop_last().push(f));
        assert(s1.to_multiset().count(f) > 0);
        assert(s2.to_multiset().count(f) > 0);
        assert(s2.contains(f));
        let j = choose|j: int| 0 <= j < s2.len() && s2[j] == f;
        assert(s1.drop_last().push(f).to_multiset() == s1.drop_last().to_multiset().insert(f));
        assert(s2.remove(j).to_multiset() == s2.to_multiset().remove(f));
        assert(s1.drop_last().to_multiset() =~= s2.remove(j).to_multiset());
        lemma_pile_cards_permutation(s1.drop_last(), s2.remove(j));
        assert(s1.map_values(cards) =~= s1.drop_last().map_values(cards).push(f.spec_card()));
        assert(s2.remove(j).map_values(cards) =~= s2.map_values(cards).remove(j));
        assert(s2.map_values(cards).remove(j).to_multiset() == s2.map_values(
            cards,
        ).to_multiset().remove(s2.map_values(cards)[j]));
        assert(pile_cards(s1) =~= pile_cards(s2));
    }
}

/// Two boards whose stock-and-waste cards agree and whose foundation-and-
/// tableau cards agree hold the same cards overall.
proof fn lemma_cards_parts(b1: Board, b2: Board)
    requires
        pile_cards(b1.stock).add(pile_cards(b1.waste)) == pile_cards(b2.stock).add(
            pile_cards(b2.waste),
        ),
        piles_cards(b1.foundations).add(piles_cards(b1.tableau)) == piles_cards(
            b2.foundations,
        ).add(piles_cards(b2.tableau)),
    ensures
        cards_of(b1) == cards_of(b2),
{
    broadcast use vstd::multiset::group_multiset_axioms;

    let x1 = pile_cards(b1.stock).add(pile_cards(b1.waste));
    let x2 = pile_cards(b2.stock).add(pile_cards(b2.waste));
    let f1 = piles_cards(b1.foundations);
    let t1 = piles_cards(b1.tableau);
    let f2 = piles_cards(b2.foundations);
    let t2 = piles_cards(b2.tableau);
    assert forall|c: Card| x1.add(f1).add(t1).count(c) == x2.add(f2).add(t2).count(c) by {
        assert(f1.add(t1).count(c) == f2.add(t2).count(c));
        assert(x1.add(f1).add(t1).count(c) == x1.count(c) + f1.count(c) + t1.count(c));
        assert(x2.add(f2).add(t2).count(c) == x2.count(c) + f2.count(c) + t2.count(c));
    }
    assert(x1.add(f1).add(t1) =~= x2.add(f2).add(t2));
    assert(cards_of(b1) == x1.add(f1).add(t1));
    assert(cards_of(b2) == x2.add(f2).add(t2));
}

/// Card partition law, base case: a fresh board is a full partition of the
/// 52-card universe — every card appears on it exactly once. Together with
/// the preservation lemmas for dealing, playing, and undoing, every reachable
/// board is a full partition.
pub proof fn lemma_fresh_partition(draw: Draw)
    ensures
        full_partition(fresh_board(draw)),
{
    broadcast use vstd::multiset::group_multiset_axioms;

    let b = fresh_board(draw);
    let cards = |f: Face| f.spec_card();
    assert(deck_faces().map_values(cards) =~= deck());
    lemma_deck_complete();
    assert(b.waste.map_values(cards) =~= Seq::<Card>::empty());
    vstd::seq_lib::to_multiset_len::<Card>(Seq::<Card>::empty());
    lemma_piles_cards_empty(b.foundations);
    lemma_piles_cards_empty(b.tableau);
    assert forall|c: Card| cards_of(b).count(c) == 1 by {
        assert(deck().to_multiset().count(c) == 1);
        assert(pile_cards(b.waste).len() == 0);
        assert(pile_cards(b.waste).count(c) == 0);
    }
}

/// Card partition law, dealing: dealing rearranges the stock into the
/// tableaux but neither creates nor destroys a card.
pub proof fn lemma_deal_preserves_partition(b: Board, s: Seq<Face>)
    requires
        well_formed(b),
        undealt(b),
        s.to_multiset() == b.stock.to_multiset(),
    ensures
        cards_of(dealt_board(b, s)) == cards_of(b),
        full_partition(b) ==> full_partition(dealt_board(b, s)),
{
    broadcast use vstd::multiset::group_multiset_axioms;
    broadcast use group_to_multiset_ensures;

    assert(s.to_multiset().len() == s.len());
    assert(b.stock.to_multiset().len() == b.stock.len());
    assert(s.len() == 52);
    lemma_pile_cards_permutation(s, b.stock);
    lemma_deal_sum(s, 7);
    assert(s.take(rem_after(0)) =~= s);
    assert(dealt_board(b, s).tableau =~= Seq::new(7, |j: int| dealt_tab(s, j)));
    lemma_piles_cards_empty(b.tableau);
    assert(cards_of(dealt_board(b, s)) =~= cards_of(b));
}

/// Drawing preserves the cards on the board.
proof fn lemma_cards_play_draw(b: Board)
    ensures
        cards_of(play_spec(b, Play::Draw)) == cards_of(b),
{
    broadcast use vstd::multiset::group_multiset_axioms;

    let a = arity(b.draw);
    let b1 = play_spec(b, Play::Draw);
    lemma_pile_cards_split(b.stock, a);
    lemma_pile_cards_dealt(b.stock, a, true);
    lemma_pile_cards_append(b.waste, dealt(b.stock, a, true));
    assert(pile_cards(b1.stock).add(pile_cards(b1.waste)) =~= pile_cards(b.stock).add(
        pile_cards(b.waste),
    ));
    lemma_cards_parts(b1, b);
}

/// Redealing preserves the cards on the board.
proof fn lemma_cards_play_redeal(b: Board)
    ensures
        cards_of(play_spec(b, Play::Redeal)) == cards_of(b),
{
    broadcast use vstd::multiset::group_multiset_axioms;

    let b1 = play_spec(b, Play::Redeal);
    lemma_pile_cards_flipped(b.waste);
    assert(pile_cards(b1.stock).add(pile_cards(b1.waste)) =~= pile_cards(b.stock).add(
        pile_cards(b.waste),
    ));
    lemma_cards_parts(b1, b);
}

/// Replacing tableau `ti` with a pile of the same cards preserves the cards
/// on the board, wherever stock, waste, and foundations are untouched.
proof fn lemma_cards_tableau_same(b: Board, b1: Board, ti: int, v: Seq<Face>)
    requires
        0 <= ti < b.tableau.len(),
        pile_cards(v) == pile_cards(b.tableau[ti]),
        b1.stock == b.stock,
        b1.waste == b.waste,
        b1.foundations == b.foundations,
        b1.tableau == b.tableau.update(ti, v),
    ensures
        cards_of(b1) == cards_of(b),
{
    broadcast use vstd::multiset::group_multiset_axioms;

    lemma_piles_cards_update(b.tableau, ti, v);
    assert forall|c: Card| piles_cards(b1.tableau).count(c) == piles_cards(b.tableau).count(
        c,
    ) by {
        assert(piles_cards(b.tableau.update(ti, v)).add(pile_cards(b.tableau[ti])).count(c)
            == piles_cards(b.tableau).add(pile_cards(v)).count(c));
    }
    assert(piles_cards(b1.tableau) =~= piles_cards(b.tableau));
    lemma_cards_parts(b1, b);
}

/// Revealing a tableau card preserves the cards on the board.
proof fn lemma_cards_play_reveal(b: Board, t: Tableau)
    requires
        well_formed(b),
    ensures
        cards_of(play_spec(b, Play::Reveal(t))) == cards_of(b),
{
    let ti = tab_idx(t);
    lemma_pile_cards_flip_top(b.tableau[ti]);
    lemma_cards_tableau_same(b, play_spec(b, Play::Reveal(t)), ti, flip_top_seq(b.tableau[ti]));
}

/// Moving the top waste card onto a tableau preserves the cards on the board.
proof fn lemma_cards_play_waste_tableau(b: Board, t: Tableau)
    requires
        well_formed(b),
    ensures
        cards_of(play_spec(b, Play::WasteTableau(t))) == cards_of(b),
{
    broadcast use vstd::multiset::group_multiset_axioms;

    let ti = tab_idx(t);
    let b1 = play_spec(b, Play::WasteTableau(t));
    let landed = b.tableau[ti] + lifted(b.waste, 1);
    lemma_pile_cards_split(b.waste, 1);
    lemma_pile_cards_append(b.tableau[ti], lifted(b.waste, 1));
    lemma_piles_cards_update(b.tableau, ti, landed);
    assert forall|c: Card| cards_of(b1).count(c) == cards_of(b).count(c) by {
        assert(piles_cards(b.tableau.update(ti, landed)).add(pile_cards(b.tableau[ti])).count(c)
            == piles_cards(b.tableau).add(pile_cards(landed)).count(c));
    }
    assert(cards_of(b1) =~= cards_of(b));
}

/// Moving the top waste card onto a foundation preserves the cards on the
/// board.
proof fn lemma_cards_play_waste_foundation(b: Board, f: Foundation)
    requires
        well_formed(b),
    ensures
        cards_of(play_spec(b, Play::WasteFoundation(f))) == cards_of(b),
{
    broadcast use vstd::multiset::group_multiset_axioms;

    let fi = fnd_idx(f);
    let b1 = play_spec(b, Play::WasteFoundation(f));
    let landed = b.foundations[fi] + lifted(b.waste, 1);
    lemma_pile_cards_split(b.waste, 1);
    lemma_pile_cards_append(b.foundations[fi], lifted(b.waste, 1));
    lemma_piles_cards_update(b.foundations, fi, landed);
    assert forall|c: Card| cards_of(b1).count(c) == cards_of(b).count(c) by {
        assert(piles_cards(b.foundations.update(fi, landed)).add(
            pile_cards(b.foundations[fi]),
        ).count(c) == piles_cards(b.foundations).add(pile_cards(landed)).count(c));
    }
    assert(cards_of(b1) =~= cards_of(b));
}

/// Moving the top tableau card onto a foundation preserves the cards on the
/// board.
proof fn lemma_cards_play_tableau_foundation(b: Board, t: Tableau, f: Foundation)
    requires
        well_formed(b),
    ensures
        cards_of(play_spec(b, Play::TableauFoundation(t, f))) == cards_of(b),
{
    broadcast use vstd::multiset::group_multiset_axioms;

    let ti = tab_idx(t);
    let fi = fnd_idx(f);
    let b1 = play_spec(b, Play::TableauFoundation(t, f));
    let landed = b.foundations[fi] + lifted(b.tableau[ti], 1);
    lemma_pile_cards_split(b.tableau[ti], 1);
    lemma_piles_cards_update(b.tableau, ti, take_off(b.tableau[ti], 1));
    lemma_pile_cards_append(b.foundations[fi], lifted(b.tableau[ti], 1));
    lemma_piles_cards_update(b.foundations, fi, landed);
    assert forall|c: Card| cards_of(b1).count(c) == cards_of(b).count(c) by {
        assert(piles_cards(b.tableau.update(ti, take_off(b.tableau[ti], 1))).add(
            pile_cards(b.tableau[ti]),
        ).count(c) == piles_cards(b.tableau).add(pile_cards(take_off(b.tableau[ti], 1))).count(c));
        assert(piles_cards(b.foundations.update(fi, landed)).add(
            pile_cards(b.foundations[fi]),
        ).count(c) == piles_cards(b.foundations).add(pile_cards(landed)).count(c));
    }
    assert(cards_of(b1) =~= cards_of(b));
}

/// Moving the top foundation card onto a tableau preserves the cards on the
/// board.
proof fn lemma_cards_play_foundation_tableau(b: Board, f: Foundation, t: Tableau)
    requires
        well_formed(b),
    ensures
        cards_of(play_spec(b, Play::FoundationTableau(f, t))) == cards_of(b),
{
    broadcast use vstd::multiset::group_multiset_axioms;

    let fi = fnd_idx(f);
    let ti = tab_idx(t);
    let b1 = play_spec(b, Play::FoundationTableau(f, t));
    let landed = b.tableau[ti] + lifted(b.foundations[fi], 1);
    lemma_pile_cards_split(b.foundations[fi], 1);
    lemma_piles_cards_update(b.foundations, fi, take_off(b.foundations[fi], 1));
    lemma_pile_cards_append(b.tableau[ti], lifted(b.foundations[fi], 1));
    lemma_piles_cards_update(b.tableau, ti, landed);
    assert forall|c: Card| cards_of(b1).count(c) == cards_of(b).count(c) by {
        assert(piles_cards(b.foundations.update(fi, take_off(b.foundations[fi], 1))).add(
            pile_cards(b.foundations[fi]),
        ).count(c) == piles_cards(b.foundations).add(
            pile_cards(take_off(b.foundations[fi], 1)),
        ).count(c));
        assert(piles_cards(b.tableau.update(ti, landed)).add(pile_cards(b.tableau[ti])).count(c)
            == piles_cards(b.tableau).add(pile_cards(landed)).count(c));
    }
    assert(cards_of(b1) =~= cards_of(b));
}

/// Moving a packet between tableaux preserves the cards on the board.
proof fn lemma_cards_play_tableau_tableau(b: Board, src: Tableau, count: u8, dest: Tableau)
    requires
        well_formed(b),
    ensures
        cards_of(play_spec(b, Play::TableauTableau(src, count, dest))) == cards_of(b),
{
    broadcast use vstd::multiset::group_multiset_axioms;

    let si = tab_idx(src);
    let di = tab_idx(dest);
    let c = count as int;
    let b1 = play_spec(b, Play::TableauTableau(src, count, dest));
    let packet = lifted(b.tableau[si], c);
    let once = b.tableau.update(si, take_off(b.tableau[si], c));
    lemma_pile_cards_split(b.tableau[si], c);
    lemma_piles_cards_update(b.tableau, si, take_off(b.tableau[si], c));
    lemma_pile_cards_append(once[di], packet);
    lemma_piles_cards_update(once, di, once[di] + packet);
    assert forall|x: Card| cards_of(b1).count(x) == cards_of(b).count(x) by {
        assert(piles_cards(once).add(pile_cards(b.tableau[si])).count(x) == piles_cards(
            b.tableau,
        ).add(pile_cards(take_off(b.tableau[si], c))).count(x));
        assert(piles_cards(once.update(di, once[di] + packet)).add(pile_cards(once[di])).count(x)
            == piles_cards(once).add(pile_cards(once[di] + packet)).count(x));
    }
    assert(cards_of(b1) =~= cards_of(b));
}

/// Card partition law, forward step: performing any play moves cards between
/// piles but neither creates nor destroys one.
pub proof fn lemma_play_preserves_partition(b: Board, p: Play)
    requires
        well_formed(b),
    ensures
        cards_of(play_spec(b, p)) == cards_of(b),
        full_partition(b) ==> full_partition(play_spec(b, p)),
{
    match p {
        Play::Draw => lemma_cards_play_draw(b),
        Play::Redeal => lemma_cards_play_redeal(b),
        Play::Reveal(t) => lemma_cards_play_reveal(b, t),
        Play::WasteTableau(t) => lemma_cards_play_waste_tableau(b, t),
        Play::WasteFoundation(f) => lemma_cards_play_waste_foundation(b, f),
        Play::TableauFoundation(t, f) => lemma_cards_play_tableau_foundation(b, t, f),
        Play::FoundationTableau(f, t) => lemma_cards_play_foundation_tableau(b, f, t),
        Play::TableauTableau(src, count, dest) => lemma_cards_play_tableau_tableau(
            b,
            src,
            count,
            dest,
        ),
    }
}

/// Undoing a draw preserves the cards on the board.
proof fn lemma_cards_undo_draw(b: Board)
    ensures
        cards_of(undo_spec(b, Play::Draw)) == cards_of(b),
{
    broadcast use vstd::multiset::group_multiset_axioms;

    let a = arity(b.draw);
    let b1 = undo_spec(b, Play::Draw);
    lemma_pile_cards_split(b.waste, a);
    lemma_pile_cards_dealt(b.waste, a, true);
    lemma_pile_cards_append(b.stock, dealt(b.waste, a, true));
    assert(pile_cards(b1.stock).add(pile_cards(b1.waste)) =~= pile_cards(b.stock).add(
        pile_cards(b.waste),
    ));
    lemma_cards_parts(b1, b);
}

/// Undoing a redeal preserves the cards on the board.
proof fn lemma_cards_undo_redeal(b: Board)
    ensures
        cards_of(undo_spec(b, Play::Redeal)) == cards_of(b),
{
    broadcast use vstd::multiset::group_multiset_axioms;

    let b1 = undo_spec(b, Play::Redeal);
    lemma_pile_cards_flipped(b.stock);
    assert(pile_cards(b1.stock).add(pile_cards(b1.waste)) =~= pile_cards(b.stock).add(
        pile_cards(b.waste),
    ));
    lemma_cards_parts(b1, b);
}

/// Undoing a waste-to-tableau move preserves the cards on the board.
proof fn lemma_cards_undo_waste_tableau(b: Board, t: Tableau)
    requires
        well_formed(b),
    ensures
        cards_of(undo_spec(b, Play::WasteTableau(t))) == cards_of(b),
{
    broadcast use vstd::multiset::group_multiset_axioms;

    let ti = tab_idx(t);
    let b1 = undo_spec(b, Play::WasteTableau(t));
    lemma_pile_cards_split(b.tableau[ti], 1);
    lemma_piles_cards_update(b.tableau, ti, take_off(b.tableau[ti], 1));
    lemma_pile_cards_append(b.waste, lifted(b.tableau[ti], 1));
    assert forall|c: Card| cards_of(b1).count(c) == cards_of(b).count(c) by {
        assert(piles_cards(b.tableau.update(ti, take_off(b.tableau[ti], 1))).add(
            pile_cards(b.tableau[ti]),
        ).count(c) == piles_cards(b.tableau).add(pile_cards(take_off(b.tableau[ti], 1))).count(c));
    }
    assert(cards_of(b1) =~= cards_of(b));
}

/// Undoing a waste-to-foundation move preserves the cards on the board.
proof fn lemma_cards_undo_waste_foundation(b: Board, f: Foundation)
    requires
        well_formed(b),
    ensures
        cards_of(undo_spec(b, Play::WasteFoundation(f))) == cards_of(b),
{
    broadcast use vstd::multiset::group_multiset_axioms;

    let fi = fnd_idx(f);
    let b1 = undo_spec(b, Play::WasteFoundation(f));
    lemma_pile_cards_split(b.foundations[fi], 1);
    lemma_piles_cards_update(b.foundations, fi, take_off(b.foundations[fi], 1));
    lemma_pile_cards_append(b.waste, lifted(b.foundations[fi], 1));
    assert forall|c: Card| cards_of(b1).count(c) == cards_of(b).count(c) by {
        assert(piles_cards(b.foundations.update(fi, take_off(b.foundations[fi], 1))).add(
            pile_cards(b.foundations[fi]),
        ).count(c) == piles_cards(b.foundations).add(
            pile_cards(take_off(b.foundations[fi], 1)),
        ).count(c));
    }
    assert(cards_of(b1) =~= cards_of(b));
}

/// Card partition law, inverse step: undoing any play moves cards between
/// piles but neither creates nor destroys one.
pub proof fn lemma_undo_preserves_partition(b: Board, p: Play)
    requires
        well_formed(b),
    ensures
        cards_of(undo_spec(b, p)) == cards_of(b),
        full_partition(b) ==> full_partition(undo_spec(b, p)),
{
    match p {
        Play::Draw => lemma_cards_undo_draw(b),
        Play::Redeal => lemma_cards_undo_redeal(b),
        Play::Reveal(t) => lemma_cards_play_reveal(b, t),
        Play::WasteTableau(t) => lemma_cards_undo_waste_tableau(b, t),
        Play::WasteFoundation(f) => lemma_cards_undo_waste_foundation(b, f),
        Play::TableauFoundation(t, f) => lemma_cards_play_foundation_tableau(b, f, t),
        Play::FoundationTableau(f, t) => lemma_cards_play_tableau_foundation(b, t, f),
        Play::TableauTableau(src, count, dest) => lemma_cards_play_tableau_tableau(
            b,
            dest,
            count,
            src,
        ),
    }
}

/// Every card keeps its identity under a double flip.
proof fn lemma_flip_involutive()
    ensures
        forall|f: Face| #[trigger] f.spec_flipped().spec_flipped() == f,
{
}

/// Undoing a just-performed draw restores the previous board, provided the
/// drawn count is recoverable from the board after the draw.
proof fn lemma_inverse_draw(b: Board)
    requires
        well_formed(b),
        valid_spec(b, Play::Draw),
        b.stock.len() >= arity(b.draw) || b.waste.len() == 0,
    ensures
        undo_spec(play_spec(b, Play::Draw), Play::Draw) == b,
{
    lemma_flip_involutive();
    let a = arity(b.draw);
    let n = b.stock.len() as int;
    let w = b.waste.len() as int;
    let k = moved_count(n, a);
    let b1 = play_spec(b, Play::Draw);
    assert(b1.waste.len() == w + k);
    assert(moved_count(w + k, a) == k);
    assert(take_off(b1.waste, a) =~= b.waste);
    assert(b1.stock + dealt(b1.waste, a, true) =~= b.stock);
    assert(undo_spec(b1, Play::Draw) =~~= b);
}

/// Undoing a just-performed redeal restores the previous board.
proof fn lemma_inverse_redeal(b: Board)
    requires
        valid_spec(b, Play::Redeal),
    ensures
        undo_spec(play_spec(b, Play::Redeal), Play::Redeal) == b,
{
    lemma_flip_involutive();
    let b1 = play_spec(b, Play::Redeal);
    assert(flipped_pile(flipped_pile(b.waste)) =~= b.waste);
    assert(undo_spec(b1, Play::Redeal) =~~= b);
}

/// Undoing a just-performed reveal restores the previous board: the flip is
/// its own inverse.
proof fn lemma_inverse_reveal(b: Board, t: Tableau)
    requires
        well_formed(b),
        valid_spec(b, Play::Reveal(t)),
    ensures
        undo_spec(play_spec(b, Play::Reveal(t)), Play::Reveal(t)) == b,
{
    lemma_flip_involutive();
    let ti = tab_idx(t);
    let p = Play::Reveal(t);
    let b1 = play_spec(b, p);
    assert(flip_top_seq(flip_top_seq(b.tableau[ti])) =~= b.tableau[ti]);
    assert(b1.tableau.update(ti, flip_top_seq(b1.tableau[ti])) =~= b.tableau);
    assert(undo_spec(b1, p) =~~= b);
}

/// Undoing a just-performed waste-to-tableau move restores the previous
/// board.
proof fn lemma_inverse_waste_tableau(b: Board, t: Tableau)
    requires
        well_formed(b),
        valid_spec(b, Play::WasteTableau(t)),
    ensures
        undo_spec(play_spec(b, Play::WasteTableau(t)), Play::WasteTableau(t)) == b,
{
    let ti = tab_idx(t);
    let p = Play::WasteTableau(t);
    let b1 = play_spec(b, p);
    assert(take_off(b1.tableau[ti], 1) =~= b.tableau[ti]);
    assert(b1.waste + lifted(b1.tableau[ti], 1) =~= b.waste);
    assert(b1.tableau.update(ti, take_off(b1.tableau[ti], 1)) =~= b.tableau);
    assert(undo_spec(b1, p) =~~= b);
}

/// Undoing a just-performed waste-to-foundation move restores the previous
/// board.
proof fn lemma_inverse_waste_foundation(b: Board, f: Foundation)
    requires
        well_formed(b),
        valid_spec(b, Play::WasteFoundation(f)),
    ensures
        undo_spec(play_spec(b, Play::WasteFoundation(f)), Play::WasteFoundation(f)) == b,
{
    let fi = fnd_idx(f);
    let p = Play::WasteFoundation(f);
    let b1 = play_spec(b, p);
    assert(take_off(b1.foundations[fi], 1) =~= b.foundations[fi]);
    assert(b1.waste + lifted(b1.foundations[fi], 1) =~= b.waste);
    assert(b1.foundations.update(fi, take_off(b1.foundations[fi], 1)) =~= b.foundations);
    assert(undo_spec(b1, p) =~~= b);
}

/// Undoing a just-performed tableau-to-foundation move restores the previous
/// board.
proof fn lemma_inverse_tableau_foundation(b: Board, t: Tableau, f: Foundation)
    requires
        well_formed(b),
        valid_spec(b, Play::TableauFoundation(t, f)),
    ensures
        undo_spec(play_spec(b, Play::TableauFoundation(t, f)), Play::TableauFoundation(t, f))
            == b,
{
    let ti = tab_idx(t);
    let fi = fnd_idx(f);
    let p = Play::TableauFoundation(t, f);
    let b1 = play_spec(b, p);
    assert(take_off(b1.foundations[fi], 1) =~= b.foundations[fi]);
    assert(b1.tableau[ti] + lifted(b1.foundations[fi], 1) =~= b.tableau[ti]);
    assert(b1.foundations.update(fi, take_off(b1.foundations[fi], 1)) =~= b.foundations);
    assert(b1.tableau.update(ti, b1.tableau[ti] + lifted(b1.foundations[fi], 1)) =~= b.tableau);
    assert(undo_spec(b1, p) =~~= b);
}

/// Undoing a just-performed foundation-to-tableau move restores the previous
/// board.
#[verifier::rlimit(100)]
proof fn lemma_inverse_foundation_tableau(b: Board, f: Foundation, t: Tableau)
    requires
        well_formed(b),
        valid_spec(b, Play::FoundationTableau(f, t)),
    ensures
        undo_spec(play_spec(b, Play::FoundationTableau(f, t)), Play::FoundationTableau(f, t))
            == b,
{
    let fi = fnd_idx(f);
    let ti = tab_idx(t);
    let p = Play::FoundationTableau(f, t);
    let b1 = play_spec(b, p);
    assert(take_off(b1.tableau[ti], 1) =~= b.tableau[ti]);
    assert(b1.foundations[fi] + lifted(b1.tableau[ti], 1) =~= b.foundations[fi]);
    assert(b1.tableau.update(ti, take_off(b1.tableau[ti], 1)) =~= b.tableau);
    assert(b1.foundations.update(fi, b1.foundations[fi] + lifted(b1.tableau[ti], 1))
        =~= b.foundations);
    assert(undo_spec(b1, p) =~~= b);
}

/// Undoing a just-performed tableau-to-tableau move restores the previous
/// board.
#[verifier::rlimit(100)]
proof fn lemma_inverse_tableau_tableau(b: Board, src: Tableau, count: u8, dest: Tableau)
    requires
        well_formed(b),
        valid_spec(b, Play::TableauTableau(src, count, dest)),
    ensures
        undo_spec(
            play_spec(b, Play::TableauTableau(src, count, dest)),
            Play::TableauTableau(src, count, dest),
        ) == b,
{
    let si = tab_idx(src);
    let di = tab_idx(dest);
    let c = count as int;
    let p = Play::TableauTableau(src, count, dest);
    let packet = lifted(b.tableau[si], c);
    let b1 = play_spec(b, p);
    lemma_take_off_lifted(b.tableau[si], c);
    if si == di {
        assert(b1.tableau =~= b.tableau);
        lemma_take_off_lifted(b1.tableau[si], c);
        assert(undo_spec(b1, p).tableau =~= b.tableau);
        assert(undo_spec(b1, p) =~~= b);
    } else {
        assert(b1.tableau[si] == take_off(b.tableau[si], c));
        assert(b1.tableau[di] == b.tableau[di] + packet);
        assert(take_off(b1.tableau[di], c) =~= b.tableau[di]);
        assert(lifted(b1.tableau[di], c) =~= packet);
        assert(b1.tableau[si] + packet =~= b.tableau[si]);
        assert(undo_spec(b1, p).tableau =~= b.tableau);
        assert(undo_spec(b1, p) =~~= b);
    }
}

/// Play/undo inverse law: undoing a just-performed legal play restores the
/// previous board exactly, pile for pile and orientation for orientation.
///
/// For a `Draw`, the board after the play does not always determine how many
/// cards the play moved: when the stock held fewer cards than the draw arity
/// and the waste was not empty, that count is lost. The law therefore asks
/// that the stock held at least the draw arity, or that the waste was empty.
pub proof fn lemma_play_undo_inverse(b: Board, p: Play)
    requires
        well_formed(b),
        valid_spec(b, p),
        p == Play::Draw ==> b.stock.len() >= arity(b.draw) || b.waste.len() == 0,
    ensures
        undo_spec(play_spec(b, p), p) == b,
{
    match p {
        Play::Draw => lemma_inverse_draw(b),
        Play::Redeal => lemma_inverse_redeal(b),
        Play::Reveal(t) => lemma_inverse_reveal(b, t),
        Play::WasteTableau(t) => lemma_inverse_waste_tableau(b, t),
        Play::WasteFoundation(f) => lemma_inverse_waste_foundation(b, f),
        Play::TableauFoundation(t, f) => lemma_inverse_tableau_foundation(b, t, f),
        Play::FoundationTableau(f, t) => lemma_inverse_foundation_tableau(b, f, t),
        Play::TableauTableau(src, count, dest) => lemma_inverse_tableau_tableau(
            b,
            src,
            count,
            dest,
        ),
    }
}

/// The foundation index and landing card of a play that puts a card onto a
/// foundation, if it is one.
pub open spec fn foundation_move(b: Board, p: Play) -> Option<(int, Card)> {
    match p {
        Play::WasteFoundation(f) => if b.waste.len() > 0 {
            Some((fnd_idx(f), b.waste.last().spec_card()))
        } else {
            None
        },
        Play::TableauFoundation(t, f) => if b.tableau[tab_idx(t)].len() > 0 {
            Some((fnd_idx(f), b.tableau[tab_idx(t)].last().spec_card()))
        } else {
            None
        },
        _ => None,
    }
}

/// Foundation monotonicity: a card is only ever accepted onto an empty
/// foundation if it is an `Ace`, and onto a non-empty foundation if it is of
/// the foundation's own suit and exactly one rank above its top card.
pub proof fn lemma_foundation_monotonic(b: Board, p: Play, f: int, c: Card)
    requires
        well_formed(b),
        valid_spec(b, p),
        foundation_move(b, p) == Some((f, c)),
    ensures
        b.foundations[f].len() == 0 ==> c.rank == Rank::Ace,
        b.foundations[f].len() > 0 ==> {
            let top = b.foundations[f].last().spec_card();
            c.suit == top.suit && c.rank.spec_value() == top.rank.spec_value() + 1
        },
{
}

/// The tableau index and landing card of a play that puts one or more cards
/// onto a tableau, if it is one. For a packet move, the landing card is the
/// bottom card of the moved packet.
pub open spec fn tableau_move(b: Board, p: Play) -> Option<(int, Card)> {
    match p {
        Play::WasteTableau(t) => if b.waste.len() > 0 {
            Some((tab_idx(t), b.waste.last().spec_card()))
        } else {
            None
        },
        Play::FoundationTableau(f, t) => if b.foundations[fnd_idx(f)].len() > 0 {
            Some((tab_idx(t), b.foundations[fnd_idx(f)].last().spec_card()))
        } else {
            None
        },
        Play::TableauTableau(src, count, dest) => {
            let pile = b.tableau[tab_idx(src)];
            if 1 <= count as int <= pile.len() {
                Some((tab_idx(dest), pile[pile.len() - count as int].spec_card()))
            } else {
                None
            }
        },
        _ => None,
    }
}

/// Tableau alternation: a card is only ever accepted onto an empty tableau if
/// it is a `King`, and onto a non-empty tableau if it is of the opposite
/// color of the tableau's top card and exactly one rank below it.
pub proof fn lemma_tableau_alternation(b: Board, p: Play, t: int, c: Card)
    requires
        well_formed(b),
        valid_spec(b, p),
        tableau_move(b, p) == Some((t, c)),
    ensures
        b.tableau[t].len() == 0 ==> c.rank == Rank::King,
        b.tableau[t].len() > 0 ==> {
            let top = b.tableau[t].last().spec_card();
            c.suit.color() != top.suit.color() && c.rank.spec_value() + 1 == top.rank.spec_value()
        },
{
}

/// Draw saturation: drawing with fewer cards in the stock than the draw arity
/// moves exactly the cards that are there, and when the waste was empty the
/// matching undo restores exactly that count.
pub proof fn lemma_draw_saturation(b: Board)
    requires
        well_formed(b),
        valid_spec(b, Play::Draw),
        b.stock.len() < arity(b.draw),
    ensures
        play_spec(b, Play::Draw).stock.len() == 0,
        play_spec(b, Play::Draw).waste.len() == b.waste.len() + b.stock.len(),
        b.waste.len() == 0 ==> undo_spec(play_spec(b, Play::Draw), Play::Draw) == b,
{
    if b.waste.len() == 0 {
        lemma_play_undo_inverse(b, Play::Draw);
    }
}

/// Win detection ignores the foundations: whether a board is won depends on
/// the stock, the waste, and the tableaux alone.
pub proof fn lemma_won_ignores_foundations(b: Board, foundations: Seq<Seq<Face>>)
    ensures
        won_spec(Board { foundations, ..b }) == won_spec(b),
{
    let b2 = Board { foundations, ..b };
    if won_spec(b) {
        assert forall|i: int| 0 <= i < b2.tableau.len() implies b2.tableau[i].len() == 0 by {
            assert(b.tableau[i].len() == 0);
        }
    }
    if won_spec(b2) {
        assert forall|i: int| 0 <= i < b.tableau.len() implies b.tableau[i].len() == 0 by {
            assert(b2.tableau[i].len() == 0);
        }
    }
}

} // verus!
