//! The layout of the cards on the table: an ordered list of piles, each an
//! ordered list of cards, each card face up or face down.
//!
//! A layout says nothing of how the piles are shown or what part they play
//! in a game: that is kept elsewhere and goes with the layout by the order
//! of the piles. The packed form is one block of bytes without references,
//! fit to be a key.

use crate::card::{Card, CardVec};
use vstd::prelude::*;

verus! {

/// Size of a packed layout: the number of piles and the number of cards
/// together.
pub const PACK_SIZE: usize = 62;

/// The piles of cards on the table.
#[derive(Clone, Debug)]
pub struct Layout {
    /// The piles, each from its bottom card to its top card.
    pub piles: Vec<CardVec>,
}

/// A layout in one block of `PACK_SIZE` bytes.
#[derive(Clone, Copy, Debug)]
pub struct LayoutPacked {
    /// The bytes of the block.
    pub cards: [Card; PACK_SIZE],
}

impl View for Layout {
    type V = Seq<Seq<Card>>;

    /// The piles as sequences of cards.
    open spec fn view(&self) -> Seq<Seq<Card>> {
        Seq::new(self.piles@.len(), |i: int| self.piles@[i].cards@)
    }
}

impl Default for Layout {
    /// The layout without piles.
    fn default() -> (layout: Layout)
        ensures
            layout@.len() == 0,
    {
        Layout { piles: Vec::new() }
    }
}

impl Default for LayoutPacked {
    /// The block in which every byte is 0.
    fn default() -> (lp: LayoutPacked)
        ensures
            forall|i: int| 0 <= i < PACK_SIZE ==> (#[trigger] lp.cards@[i]).code == 0,
    {
        LayoutPacked { cards: [Card { code: 0 };PACK_SIZE] }
    }
}

/// The piles after the last `n` cards of pile `from` have moved to the end
/// of pile `to`, in the order that they had. Where `from` and `to` are the
/// same pile, the cards leave it and come back, and nothing has changed.
pub open spec fn moved_tail(piles: Seq<Seq<Card>>, from: int, to: int, n: int) -> Seq<Seq<Card>> {
    let m = piles[from].len() - n;
    let cut = piles.update(from, piles[from].take(m));
    cut.update(to, cut[to] + piles[from].skip(m))
}

/// The piles after the last `n` cards of pile `ipile` have been laid face
/// up or face down, as `up` says.
pub open spec fn tail_faced(piles: Seq<Seq<Card>>, ipile: int, n: int, up: bool) -> Seq<Seq<Card>> {
    let pile = piles[ipile];
    piles.update(
        ipile,
        Seq::new(
            pile.len(),
            |i: int|
                if i >= pile.len() - n {
                    pile[i].with_face_up(up)
                } else {
                    pile[i]
                },
        ),
    )
}

impl Layout {
    /// Moves the last `n` cards of pile `from_pile` to the end of pile
    /// `to_pile`, in the order that they have. Both piles must exist, and
    /// pile `from_pile` must hold `n` cards or more. Whether the rules of a
    /// game allow the move is not asked.
    pub fn move_tail(&mut self, from_pile: usize, to_pile: usize, n: usize)
        requires
            from_pile < old(self)@.len(),
            to_pile < old(self)@.len(),
            n <= old(self)@[from_pile as int].len(),
        ensures
            final(self)@ == moved_tail(old(self)@, from_pile as int, to_pile as int, n as int),
    {
        let ghost before: Seq<Seq<Card>> = self@;
        let m: usize = self.piles[from_pile].cards.len() - n;
        let mut tail: Vec<Card> = self.piles[from_pile].cards.split_off(m);
        assert(self@ =~= before.update(from_pile as int, before[from_pile as int].take(m as int)));
        assert(tail@ =~= before[from_pile as int].skip(m as int));
        let ghost cut: Seq<Seq<Card>> = self@;
        self.piles[to_pile].cards.append(&mut tail);
        assert(self@ =~= cut.update(to_pile as int, cut[to_pile as int] + before[from_pile as int].skip(
            m as int,
        )));
    }

    /// The layout as text. No layout has any text: the result is empty.
    pub fn to_text(&self) -> (out: String)
        ensures
            out@.len() == 0,
    {
        let out: String = String::new();
        out
    }

    /// The packed form of the layout. Every layout packs to the block in
    /// which every byte is 0.
    pub fn pack(&self) -> (lp: LayoutPacked)
        ensures
            forall|i: int| 0 <= i < PACK_SIZE ==> (#[trigger] lp.cards@[i]).code == 0,
    {
        LayoutPacked::default()
    }

    /// The layout that a packed form holds. Every block unpacks to the
    /// layout without piles.
    pub fn unpack(lp: LayoutPacked) -> (layout: Layout)
        ensures
            layout@.len() == 0,
    {
        Layout::default()
    }

    /// Lays the last `n` cards of pile `ipile` face up or face down, as
    /// `up` says. The pile must exist and hold `n` cards or more.
    pub fn set_tail_face_up(&mut self, ipile: usize, n: usize, up: bool)
        requires
            ipile < old(self)@.len(),
            n <= old(self)@[ipile as int].len(),
        ensures
            final(self)@ == tail_faced(old(self)@, ipile as int, n as int, up),
    {
        let ghost before: Seq<Seq<Card>> = self@;
        let len: usize = self.piles[ipile].cards.len();
        let mut i: usize = len - n;
        while i < len
            invariant
                ipile < before.len(),
                len == before[ipile as int].len(),
                len - n <= i <= len,
                self@.len() == before.len(),
                forall|p: int| 0 <= p < before.len() && p != ipile ==> #[trigger] self@[p] == before[p],
                self@[ipile as int].len() == len,
                forall|j: int|
                    0 <= j < len ==> #[trigger] self@[ipile as int][j] == (if len - n <= j < i {
                        before[ipile as int][j].with_face_up(up)
                    } else {
                        before[ipile as int][j]
                    }),
            decreases len - i,
        {
            let ghost prev: Seq<Seq<Card>> = self@;
            self.piles[ipile].cards[i].set_face_up(up);
            assert forall|p: int| 0 <= p < before.len() && p != ipile implies #[trigger] self@[p]
                == before[p] by {
                assert(self@[p] == prev[p]);
            }
            assert(self@[ipile as int] == prev[ipile as int].update(
                i as int,
                prev[ipile as int][i as int].with_face_up(up),
            ));
            i += 1;
        }
        assert(self@ =~~= tail_faced(before, ipile as int, n as int, up));
    }

    /// Called when pile `ipile` is turned over. The layout keeps no record
    /// of it: it is left as it is, whatever `ipile` is.
    pub fn flip_pile(&mut self, ipile: usize)
        ensures
            final(self)@ == old(self)@,
    {
    }
}

} // verus!
