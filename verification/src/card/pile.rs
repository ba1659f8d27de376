//! Piles: ordered stacks of oriented cards with saturating bulk transfer.

use rand::seq::SliceRandom;
use vstd::prelude::*;

use super::face::Face;

verus! {

/// Pile of face-down or face-up cards. The top of the pile is the last element.
#[derive(Debug)]
pub struct Pile {
    vec: Vec<Face>,
}

/// How many cards a transfer of up to `count` cards actually moves off a
/// pile of `len` cards: the transfer saturates at the pile boundary.
pub open spec fn moved_count(len: int, count: int) -> int {
    if count < len {
        count
    } else {
        len
    }
}

/// What remains of `s` after lifting up to `count` cards off its top.
pub open spec fn take_off(s: Seq<Face>, count: int) -> Seq<Face> {
    s.take(s.len() - moved_count(s.len() as int, count))
}

/// The up-to-`count` cards lifted off the top of `s`, in their original
/// relative order (bottom of the lifted packet first).
pub open spec fn lifted(s: Seq<Face>, count: int) -> Seq<Face> {
    s.skip(s.len() - moved_count(s.len() as int, count))
}

/// The up-to-`count` cards dealt one by one off the top of `s`, in the order
/// they land (top of `s` first), each flipped when `flip` is set.
pub open spec fn dealt(s: Seq<Face>, count: int, flip: bool) -> Seq<Face> {
    Seq::new(
        moved_count(s.len() as int, count) as nat,
        |i: int|
            if flip {
                s[s.len() - 1 - i].spec_flipped()
            } else {
                s[s.len() - 1 - i]
            },
    )
}

/// What remains after lifting a packet, with the packet put straight back,
/// is the original pile.
pub proof fn lemma_take_off_lifted(s: Seq<Face>, count: int)
    requires
        0 <= count,
    ensures
        take_off(s, count) + lifted(s, count) == s,
{
    assert(take_off(s, count) + lifted(s, count) =~= s);
}

/// The whole pile turned over: order reversed and every card flipped.
pub open spec fn flipped_pile(s: Seq<Face>) -> Seq<Face> {
    Seq::new(s.len(), |i: int| s[s.len() - 1 - i].spec_flipped())
}

/// A pile with its top card (if any) flipped in place.
pub open spec fn flip_top_seq(s: Seq<Face>) -> Seq<Face> {
    if s.len() == 0 {
        s
    } else {
        s.update(s.len() - 1, s.last().spec_flipped())
    }
}

impl View for Pile {
    type V = Seq<Face>;

    closed spec fn view(&self) -> Seq<Face> {
        self.vec@
    }
}

impl Pile {
    /// Creates an empty pile.
    pub fn new() -> (pile: Self)
        ensures
            pile@ == Seq::<Face>::empty(),
    {
        Pile { vec: Vec::new() }
    }

    /// The top card of the pile, if any.
    pub open spec fn spec_top(&self) -> Option<Face> {
        if self@.len() == 0 {
            None
        } else {
            Some(self@.last())
        }
    }

    /// The card `index` positions from the top, counting from one, if any.
    pub open spec fn spec_get_back(&self, index: int) -> Option<Face> {
        if 1 <= index <= self@.len() {
            Some(self@[self@.len() - index])
        } else {
            None
        }
    }

    /// Returns the number of cards in the pile.
    pub fn count(&self) -> (count: usize)
        ensures
            count == self@.len(),
    {
        self.vec.len()
    }

    /// Returns true if the pile is empty.
    pub fn is_empty(&self) -> (empty: bool)
        ensures
            empty == (self@.len() == 0),
    {
        self.vec.is_empty()
    }

    /// Gets the card at the index from the bottom.
    pub fn get(&self, index: usize) -> (face: Option<Face>)
        ensures
            face == if index < self@.len() {
                Some(self@[index as int])
            } else {
                None::<Face>
            },
    {
        if index < self.vec.len() {
            Some(self.vec[index])
        } else {
            None
        }
    }

    /// Gets the card at the index from the top, counting from one:
    /// `get_back(1)` is the top card.
    pub fn get_back(&self, index: usize) -> (face: Option<Face>)
        ensures
            face == self.spec_get_back(index as int),
    {
        if 1 <= index && index <= self.vec.len() {
            Some(self.vec[self.vec.len() - index])
        } else {
            None
        }
    }

    /// Returns the top card.
    pub fn top(&self) -> (face: Option<Face>)
        ensures
            face == self.spec_top(),
    {
        if self.vec.len() == 0 {
            None
        } else {
            Some(self.vec[self.vec.len() - 1])
        }
    }

    /// Adds a card to the top of the pile.
    pub fn push(&mut self, face: Face)
        ensures
            final(self)@ == old(self)@.push(face),
    {
        self.vec.push(face);
    }

    /// Removes a card from the top of the pile.
    pub fn pop(&mut self) -> (face: Option<Face>)
        ensures
            old(self)@.len() == 0 ==> face == None::<Face> && final(self)@ == old(self)@,
            old(self)@.len() > 0 ==> face == Some(old(self)@.last()) && final(self)@ == old(
                self,
            )@.drop_last(),
    {
        self.vec.pop()
    }

    /// Shuffles the pile into a random permutation.
    ///
    /// Relies on `rand`'s `SliceRandom::shuffle`, which permutes the slice in
    /// place: the resulting slice holds exactly the cards it held before,
    /// rearranged.
    #[verifier::external_body]
    pub fn shuffle(&mut self)
        ensures
            final(self)@.to_multiset() == old(self)@.to_multiset(),
            final(self)@.len() == old(self)@.len(),
    {
        self.vec.shuffle(&mut rand::rng());
    }

    /// Flips the whole pile over, reversing the order and flipping each card.
    pub fn flip(&mut self)
        ensures
            final(self)@ == flipped_pile(old(self)@),
    {
        let ghost s0 = self.vec@;
        let mut turned: Vec<Face> = Vec::new();
        while self.vec.len() > 0
            invariant
                self.vec@ == s0.take(s0.len() - turned.len()),
                turned@ == flipped_pile(s0).take(turned.len() as int),
                turned.len() <= s0.len(),
            decreases self.vec.len(),
        {
            let face = self.vec.pop().unwrap();
            turned.push(face.flipped());
            proof {
                assert(self.vec@ =~= s0.take(s0.len() - turned@.len()));
                assert(turned@ =~= flipped_pile(s0).take(turned@.len() as int));
            }
        }
        self.vec = turned;
        proof {
            assert(self.vec@ =~= flipped_pile(s0));
        }
    }

    /// Flips the top card in place; does nothing on an empty pile.
    pub fn flip_top(&mut self)
        ensures
            final(self)@ == flip_top_seq(old(self)@),
    {
        if self.vec.len() > 0 {
            let face = self.vec.pop().unwrap();
            self.vec.push(face.flipped());
            proof {
                assert(self.vec@ =~= flip_top_seq(old(self)@));
            }
        }
    }

    /// Moves at most `count` cards from the top of this pile to the top of
    /// another pile, keeping their relative order.
    pub fn move_to(&mut self, dest: &mut Pile, count: usize)
        ensures
            final(self)@ == take_off(old(self)@, count as int),
            final(dest)@ == old(dest)@ + lifted(old(self)@, count as int),
    {
        let len = self.vec.len();
        let start = if count < len {
            len - count
        } else {
            0
        };
        let mut moved = self.vec.split_off(start);
        dest.vec.append(&mut moved);
        proof {
            assert(self.vec@ =~= take_off(old(self)@, count as int));
            assert(dest.vec@ =~= old(dest)@ + lifted(old(self)@, count as int));
        }
    }

    /// Deals at most `count` cards one by one from the top of this pile onto
    /// the top of another pile, reversing their relative order and flipping
    /// each card when `flip` is set.
    pub fn deal_to(&mut self, dest: &mut Pile, count: usize, flip: bool)
        ensures
            final(self)@ == take_off(old(self)@, count as int),
            final(dest)@ == old(dest)@ + dealt(old(self)@, count as int, flip),
    {
        let ghost s0 = self.vec@;
        let ghost d0 = dest.vec@;
        let len = self.vec.len();
        let k = if count < len {
            count
        } else {
            len
        };
        let mut n: usize = 0;
        while n < k
            invariant
                n <= k,
                k == moved_count(s0.len() as int, count as int),
                self.vec@ == s0.take(s0.len() - n),
                dest.vec@ == d0 + dealt(s0, n as int, flip),
            decreases k - n,
        {
            let face = self.vec.pop().unwrap();
            dest.vec.push(if flip {
                face.flipped()
            } else {
                face
            });
            n += 1;
            proof {
                assert(self.vec@ =~= s0.take(s0.len() - n));
                assert(dest.vec@ =~= d0 + dealt(s0, n as int, flip));
            }
        }
        proof {
            assert(self.vec@ =~= take_off(s0, count as int));
        }
    }
}

impl Clone for Pile {
    /// Returns a pile holding the same cards in the same order.
    fn clone(&self) -> (pile: Self)
        ensures
            pile@ == self@,
    {
        let mut vec: Vec<Face> = Vec::new();
        let mut i: usize = 0;
        while i < self.vec.len()
            invariant
                i <= self.vec@.len(),
                vec@ == self.vec@.take(i as int),
            decreases self.vec@.len() - i,
        {
            vec.push(self.vec[i]);
            i += 1;
            proof {
                assert(vec@ =~= self.vec@.take(i as int));
            }
        }
        proof {
            assert(vec@ =~= self.vec@);
        }
        Pile { vec }
    }
}

impl PartialEq for Pile {
    /// Piles are equal when they hold the same cards in the same order with
    /// the same orientations.
    fn eq(&self, other: &Self) -> (equal: bool) {
        if self.vec.len() != other.vec.len() {
            return false;
        }
        let mut i: usize = 0;
        while i < self.vec.len()
            invariant
                i <= self.vec@.len(),
                self.vec@.len() == other.vec@.len(),
                forall|j: int| 0 <= j < i ==> self.vec@[j] == other.vec@[j],
            decreases self.vec@.len() - i,
        {
            if self.vec[i] != other.vec[i] {
                return false;
            }
            i += 1;
        }
        proof {
            assert(self.vec@ =~= other.vec@);
        }
        true
    }
}

impl Eq for Pile {

}

impl vstd::std_specs::cmp::PartialEqSpecImpl for Pile {
    open spec fn obeys_eq_spec() -> bool {
        true
    }

    open spec fn eq_spec(&self, other: &Self) -> bool {
        self@ == other@
    }
}

} // verus!
