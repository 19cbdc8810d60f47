//! A deck of 52 cards: its canonical order, the test for a complete deck,
//! and a riffle shuffle that can be replayed.
//!
//! The shuffle imitates a shuffle by hand. The deck is split into two equal
//! halves, and a sequence of selectors, each 0 or 1 like the flip of a coin,
//! says from which half the next card is taken. When a half runs out, the
//! rest comes from the other half. Callers may supply the selectors, so that
//! a shuffle can be repeated card for card.

use crate::card::{Card, CardInfo};
use crate::misc::rand_vec_u8;
use vstd::multiset::Multiset;
use vstd::prelude::*;
use vstd::relations::{sorted_by, total_ordering};
use vstd::seq_lib::{
    lemma_multiset_commutative, lemma_sorted_unique, to_multiset_build, to_multiset_len,
};

verus! {

/// An ordered deck of cards, one byte per card.
#[derive(Clone, Debug, PartialEq, Eq, Hash)]
pub struct Deck {
    /// The cards, from the first to the last.
    pub cards: Vec<u8>,
}

/// The selectors of one round of a shuffle: one value per card, 0 to take
/// the next card from the first half, 1 to take it from the second half.
#[derive(Clone, Debug, PartialEq)]
pub struct Selectors {
    /// The selectors, in the order in which the round consumes them.
    pub sels: Vec<u8>,
}

/// The number of cards in a deck.
pub open spec fn deck_size() -> int {
    52
}

/// The number of cards in each half of a deck.
pub open spec fn half_size() -> int {
    26
}

/// The canonical deck: suit by suit in the order of the suit codes, and in
/// each suit the ranks in the order of the rank codes, every card face down.
pub open spec fn canonical_cards() -> Seq<u8> {
    Seq::new(52, |i: int| (16 * (i / 13) + i % 13) as u8)
}

/// The cards are those of a deck: each card of the canonical deck exactly
/// once and nothing else, in whatever order.
pub open spec fn complete(cards: Seq<u8>) -> bool {
    cards.to_multiset() == canonical_cards().to_multiset()
}

/// The order of bytes by their value.
pub open spec fn byte_leq() -> spec_fn(u8, u8) -> bool {
    |a: u8, b: u8| a <= b
}

/// The bytes ascend: none is greater than one that comes after it.
pub open spec fn ascending(s: Seq<u8>) -> bool {
    sorted_by(s, byte_leq())
}

/// `sort` of the standard library on the bytes of a vector, which Verus
/// does not know: afterwards the vector holds the bytes that it held
/// before, each as often as before, in ascending order.
#[verifier::external_body]
fn sort_bytes(v: &mut Vec<u8>)
    ensures
        ascending(final(v)@),
        final(v)@.to_multiset() == old(v)@.to_multiset(),
{
    v.sort();
}

/// The canonical deck ascends strictly.
pub proof fn lemma_canonical_ascending()
    ensures
        forall|i: int, j: int|
            0 <= i < j < 52 ==> #[trigger] canonical_cards()[i] < #[trigger] canonical_cards()[j],
        ascending(canonical_cards()),
{
    assert forall|i: int, j: int| 0 <= i < j < 52 implies #[trigger] canonical_cards()[i]
        < #[trigger] canonical_cards()[j] by {
        assert(i / 13 <= j / 13);
        assert(i / 13 == j / 13 ==> i % 13 < j % 13);
    }
    assert forall|i: int, j: int| 0 <= i < j < canonical_cards().len() implies #[trigger] byte_leq()(
        canonical_cards()[i],
        canonical_cards()[j],
    ) by {
        assert(canonical_cards()[i] < canonical_cards()[j]);
    }
}

/// The canonical deck: it holds exactly 52 bytes, each an ordinary card
/// that lies face down, no two of them equal, and for every suit and every
/// rank the card of that suit and rank, at the place that suit-major order
/// gives it. So every card of the 4 suits and 13 ranks occurs exactly once.
pub proof fn law_canonical_deck()
    ensures
        canonical_cards().len() == 52,
        forall|i: int|
            0 <= i < 52 ==> (Card { code: #[trigger] canonical_cards()[i] }).well_formed() && !(Card {
                code: canonical_cards()[i],
            }).is_face_up(),
        forall|i: int, j: int|
            0 <= i < 52 && 0 <= j < 52 && i != j ==> #[trigger] canonical_cards()[i]
                != #[trigger] canonical_cards()[j],
        forall|s: int, r: int|
            0 <= s < 4 && 0 <= r < 13 ==> {
                let c = Card { code: #[trigger] canonical_cards()[13 * s + r] };
                c.suit_bits() == s && c.rank_bits() == r
            },
{
    lemma_canonical_ascending();
    assert forall|i: int, j: int| 0 <= i < 52 && 0 <= j < 52 && i != j implies #[trigger] canonical_cards()[i]
        != #[trigger] canonical_cards()[j] by {
        if i < j {
            assert(canonical_cards()[i] < canonical_cards()[j]);
        } else {
            assert(canonical_cards()[j] < canonical_cards()[i]);
        }
    }
    assert forall|s: int, r: int| 0 <= s < 4 && 0 <= r < 13 implies {
        let c = Card { code: #[trigger] canonical_cards()[13 * s + r] };
        c.suit_bits() == s && c.rank_bits() == r
    } by {
        let k: int = 13 * s + r;
        assert(k / 13 == s && k % 13 == r);
        assert(canonical_cards()[k] == 16 * s + r);
    }
}

impl Deck {
    /// The deck holds each card of the canonical deck exactly once and
    /// nothing else, in whatever order.
    pub open spec fn is_complete(&self) -> bool {
        complete(self.cards@)
    }

    /// A new deck in canonical order.
    pub fn new() -> (deck: Deck)
        ensures
            deck.cards@ == canonical_cards(),
            deck.is_complete(),
    {
        let ci: CardInfo = Card::info();
        let mut cards: Vec<u8> = Vec::new();
        let mut s: usize = 0;
        while s < ci.n_suits
            invariant
                ci.n_suits == 4,
                ci.n_ranks == 13,
                s <= 4,
                cards@.len() == 13 * s,
                forall|k: int| 0 <= k < cards@.len() ==> #[trigger] cards@[k] == canonical_cards()[k],
            decreases 4 - s,
        {
            let mut r: usize = 0;
            while r < ci.n_ranks
                invariant
                    ci.n_ranks == 13,
                    s < 4,
                    r <= 13,
                    cards@.len() == 13 * s + r,
                    forall|k: int|
                        0 <= k < cards@.len() ==> #[trigger] cards@[k] == canonical_cards()[k],
                decreases 13 - r,
            {
                assert(s < 4 && r < 16 ==> ((s << 4usize) | r) == 16 * s + r) by (bit_vector);
                let card: u8 = ((s << 4usize) | r) as u8;
                proof {
                    let k: int = 13 * s + r;
                    assert(k / 13 == s && k % 13 == r);
                }
                cards.push(card);
                r += 1;
            }
            s += 1;
        }
        assert(cards@ =~= canonical_cards());
        Deck { cards }
    }

    /// True where the deck is complete. The test sorts a copy of the deck
    /// and compares it with a new deck, whose canonical order ascends.
    pub fn valid(&self) -> (ok: bool)
        ensures
            ok == self.is_complete(),
    {
        let dref: Deck = Deck::new();
        let mut dtest: Vec<u8> = self.cards.clone();
        assert(dtest@ =~= self.cards@);
        sort_bytes(&mut dtest);
        let ok: bool = dtest == dref.cards;
        proof {
            assert(ok == (dtest@ == dref.cards@)) by {
                assert(ok ==> dtest@ =~= dref.cards@);
            }
            if self.is_complete() {
                lemma_canonical_ascending();
                lemma_byte_leq_total();
                lemma_sorted_unique(dtest@, canonical_cards(), byte_leq());
            }
        }
        ok
    }
}

/// The order of bytes by their value is a total order.
pub proof fn lemma_byte_leq_total()
    ensures
        total_ordering(byte_leq()),
{
}

/// The selectors fit a round: one per card of the deck, each 0 or 1.
pub open spec fn selectors_ok(sels: Seq<u8>) -> bool {
    &&& sels.len() == deck_size()
    &&& forall|k: int| 0 <= k < sels.len() ==> #[trigger] sels[k] <= 1
}

/// The next card comes from the first half: the selector asks for the first
/// half and it is not exhausted, or the selector asks for the second half
/// and that one is exhausted. `i0` and `i1` count the cards that the two
/// halves have given so far.
pub open spec fn takes_first(sel: u8, i0: int, i1: int) -> bool {
    (sel == 0 && i0 < half_size()) || (sel == 1 && i1 >= half_size())
}

/// The number of cards that the first half has given when the first `k`
/// selectors are consumed.
pub open spec fn taken_first(sels: Seq<u8>, k: int) -> int
    decreases k,
{
    if k <= 0 {
        0
    } else {
        let i0 = taken_first(sels, k - 1);
        if takes_first(sels[k - 1], i0, k - 1 - i0) {
            i0 + 1
        } else {
            i0
        }
    }
}

/// One round of the shuffle. The first 26 cards are the first half, the
/// rest the second half. The card at place `k` of the result is the next
/// card of the half that selector `k` picks, the next card of a half being
/// the one after those that the half has given before.
pub open spec fn riffled(cards: Seq<u8>, sels: Seq<u8>) -> Seq<u8> {
    Seq::new(
        cards.len(),
        |k: int|
            {
                let i0 = taken_first(sels, k);
                if takes_first(sels[k], i0, k - i0) {
                    cards[i0]
                } else {
                    cards[half_size() + (k - i0)]
                }
            },
    )
}

/// The deck after the rounds that `rounds` holds the selectors of, one
/// after the other, each on the result of the one before.
pub open spec fn shuffled(cards: Seq<u8>, rounds: Seq<Seq<u8>>) -> Seq<u8>
    decreases rounds.len(),
{
    if rounds.len() == 0 {
        cards
    } else {
        riffled(shuffled(cards, rounds.drop_last()), rounds.last())
    }
}

/// `rounds` holds the selectors of `nrounds` rounds, each fit for a round,
/// of which the first are the supplied ones, as far as those reach.
pub open spec fn rounds_follow(vsels: Seq<Selectors>, nrounds: int, rounds: Seq<Seq<u8>>) -> bool {
    &&& rounds.len() == nrounds
    &&& forall|i: int| 0 <= i < nrounds ==> selectors_ok(#[trigger] rounds[i])
    &&& forall|i: int| 0 <= i < nrounds && i < vsels.len() ==> #[trigger] rounds[i] == vsels[i].sels@
}

/// `after` is what `nrounds` rounds make of `before`, with the supplied
/// selectors first and, where they run out, some selectors fit for a round.
pub open spec fn is_shuffle_of(
    after: Seq<u8>,
    before: Seq<u8>,
    vsels: Seq<Selectors>,
    nrounds: int,
) -> bool {
    exists|rounds: Seq<Seq<u8>>| #[trigger]
        rounds_follow(vsels, nrounds, rounds) && after == shuffled(before, rounds)
}

/// The selectors of the first `nrounds` supplied rounds.
pub open spec fn supplied_rounds(vsels: Seq<Selectors>, nrounds: int) -> Seq<Seq<u8>> {
    Seq::new(nrounds as nat, |i: int| vsels[i].sels@)
}

/// Neither half gives more cards than it has: while selectors are left, at
/// least one half is not exhausted.
pub proof fn lemma_cursor_bounds(sels: Seq<u8>, k: int)
    requires
        selectors_ok(sels),
        0 <= k <= deck_size(),
    ensures
        0 <= taken_first(sels, k) <= half_size(),
        0 <= k - taken_first(sels, k) <= half_size(),
    decreases k,
{
    if k > 0 {
        lemma_cursor_bounds(sels, k - 1);
        assert(sels[k - 1] <= 1);
    }
}

/// The first `k` cards of a round's result are the cards that the two
/// halves have given by then, each as often as it was given.
proof fn lemma_riffled_prefix(cards: Seq<u8>, sels: Seq<u8>, k: int)
    requires
        cards.len() == deck_size(),
        selectors_ok(sels),
        0 <= k <= deck_size(),
    ensures
        riffled(cards, sels).take(k).to_multiset() == cards.subrange(
            0,
            taken_first(sels, k),
        ).to_multiset().add(
            cards.subrange(half_size(), half_size() + (k - taken_first(sels, k))).to_multiset(),
        ),
    decreases k,
{
    broadcast use vstd::multiset::group_multiset_axioms;

    let out = riffled(cards, sels);
    if k == 0 {
        assert(out.take(0) =~= Seq::<u8>::empty());
        assert(cards.subrange(0, 0) =~= Seq::<u8>::empty());
        assert(cards.subrange(half_size(), half_size()) =~= Seq::<u8>::empty());
        assert(Seq::<u8>::empty().to_multiset() =~= Multiset::<u8>::empty()) by {
            to_multiset_len(Seq::<u8>::empty());
        }
        assert(Multiset::<u8>::empty().add(Multiset::<u8>::empty()) =~= Multiset::<u8>::empty());
    } else {
        lemma_riffled_prefix(cards, sels, k - 1);
        lemma_cursor_bounds(sels, k - 1);
        lemma_cursor_bounds(sels, k);
        let i0 = taken_first(sels, k - 1);
        let i1 = k - 1 - i0;
        let first = cards.subrange(0, i0);
        let second = cards.subrange(half_size(), half_size() + i1);
        assert(out.take(k) =~= out.take(k - 1).push(out[k - 1]));
        to_multiset_build(out.take(k - 1), out[k - 1]);
        if takes_first(sels[k - 1], i0, i1) {
            assert(out[k - 1] == cards[i0]);
            assert(cards.subrange(0, i0 + 1) =~= first.push(cards[i0]));
            to_multiset_build(first, cards[i0]);
            assert(first.to_multiset().add(second.to_multiset()).insert(cards[i0])
                =~= first.to_multiset().insert(cards[i0]).add(second.to_multiset()));
        } else {
            assert(out[k - 1] == cards[half_size() + i1]);
            assert(cards.subrange(half_size(), half_size() + i1 + 1) =~= second.push(
                cards[half_size() + i1],
            ));
            to_multiset_build(second, cards[half_size() + i1]);
            assert(first.to_multiset().add(second.to_multiset()).insert(cards[half_size() + i1])
                =~= first.to_multiset().add(second.to_multiset().insert(cards[half_size() + i1])));
        }
    }
}

/// A round keeps the deck: its result holds the cards that it was given,
/// each exactly as often, and so as many.
pub proof fn lemma_riffled_permutes(cards: Seq<u8>, sels: Seq<u8>)
    requires
        cards.len() == deck_size(),
        selectors_ok(sels),
    ensures
        riffled(cards, sels).len() == deck_size(),
        riffled(cards, sels).to_multiset() == cards.to_multiset(),
{
    let out = riffled(cards, sels);
    lemma_riffled_prefix(cards, sels, deck_size());
    lemma_cursor_bounds(sels, deck_size());
    assert(out.take(deck_size()) =~= out);
    assert(taken_first(sels, deck_size()) == half_size());
    assert(cards.subrange(0, half_size()) + cards.subrange(half_size(), deck_size()) =~= cards);
    lemma_multiset_commutative(
        cards.subrange(0, half_size()),
        cards.subrange(half_size(), deck_size()),
    );
}

/// One more round: the deck after the rounds and one more is what the last
/// round makes of the deck after the rounds before it.
pub proof fn lemma_shuffled_push(cards: Seq<u8>, rounds: Seq<Seq<u8>>, sels: Seq<u8>)
    ensures
        shuffled(cards, rounds.push(sels)) == riffled(shuffled(cards, rounds), sels),
{
    assert(rounds.push(sels).drop_last() =~= rounds);
    assert(rounds.push(sels).last() == sels);
}

/// Rounds keep the deck: after any number of rounds, each with selectors
/// fit for a round, the deck holds the cards that it held before, each
/// exactly as often.
pub proof fn lemma_shuffled_permutes(cards: Seq<u8>, rounds: Seq<Seq<u8>>)
    requires
        cards.len() == deck_size(),
        forall|i: int| 0 <= i < rounds.len() ==> selectors_ok(#[trigger] rounds[i]),
    ensures
        shuffled(cards, rounds).len() == deck_size(),
        shuffled(cards, rounds).to_multiset() == cards.to_multiset(),
    decreases rounds.len(),
{
    if rounds.len() > 0 {
        let before = rounds.drop_last();
        assert forall|i: int| 0 <= i < before.len() implies selectors_ok(#[trigger] before[i]) by {
            assert(before[i] == rounds[i]);
        }
        lemma_shuffled_permutes(cards, before);
        assert(selectors_ok(rounds[rounds.len() - 1]));
        lemma_riffled_permutes(shuffled(cards, before), rounds.last());
    }
}

/// Validity after a shuffle: whatever the number of rounds, and whether the
/// selectors were supplied or generated, the shuffled deck holds the cards
/// of the deck before, none created, destroyed or duplicated. So a complete
/// deck stays complete, and one that is not complete does not become so.
pub proof fn law_shuffle_keeps_deck(
    after: Seq<u8>,
    before: Seq<u8>,
    vsels: Seq<Selectors>,
    nrounds: int,
)
    requires
        before.len() == deck_size(),
        is_shuffle_of(after, before, vsels, nrounds),
    ensures
        after.len() == deck_size(),
        after.to_multiset() == before.to_multiset(),
        complete(after) == complete(before),
{
    let rounds = choose|rounds: Seq<Seq<u8>>| #[trigger]
        rounds_follow(vsels, nrounds, rounds) && after == shuffled(before, rounds);
    lemma_shuffled_permutes(before, rounds);
}

/// Determinism: where the supplied selectors reach for every round, the
/// shuffled deck is a function of the deck before and of those selectors.
/// Two shuffles of the same deck with the same selectors agree card for
/// card.
pub proof fn law_shuffle_replays(
    first: Seq<u8>,
    second: Seq<u8>,
    before: Seq<u8>,
    vsels: Seq<Selectors>,
    nrounds: int,
)
    requires
        0 <= nrounds <= vsels.len(),
        is_shuffle_of(first, before, vsels, nrounds),
        is_shuffle_of(second, before, vsels, nrounds),
    ensures
        first == second,
        first == shuffled(before, supplied_rounds(vsels, nrounds)),
{
    let r1 = choose|rounds: Seq<Seq<u8>>| #[trigger]
        rounds_follow(vsels, nrounds, rounds) && first == shuffled(before, rounds);
    let r2 = choose|rounds: Seq<Seq<u8>>| #[trigger]
        rounds_follow(vsels, nrounds, rounds) && second == shuffled(before, rounds);
    assert(r1 =~= supplied_rounds(vsels, nrounds));
    assert(r2 =~= supplied_rounds(vsels, nrounds));
}

impl Selectors {
    /// True where the selectors fit a round: one per card of the deck, each
    /// 0 or 1. This is what `Deck::riffle` and `Deck::shuffle` ask of the
    /// selectors that they take.
    pub fn fit(&self) -> (ok: bool)
        ensures
            ok == selectors_ok(self.sels@),
    {
        if self.sels.len() != Card::info().n_cards {
            return false;
        }
        let mut k: usize = 0;
        while k < self.sels.len()
            invariant
                k <= self.sels@.len(),
                self.sels@.len() == deck_size(),
                forall|j: int| 0 <= j < k ==> #[trigger] self.sels@[j] <= 1,
            decreases self.sels@.len() - k,
        {
            if self.sels[k] > 1 {
                return false;
            }
            k += 1;
        }
        true
    }
}

/// Selectors for one round, each drawn at random from 0 and 1. Panics
/// where the random generator does, which is where the system's source of
/// entropy fails.
fn rand_selectors() -> (s: Selectors)
    ensures
        selectors_ok(s.sels@),
{
    let n_cards: usize = Card::info().n_cards;
    let sels: Vec<u8> = rand_vec_u8(n_cards, 2);
    Selectors { sels }
}

impl Deck {
    /// One round of the shuffle, with the selectors given. The deck must
    /// hold 52 cards, and there must be 52 selectors, each 0 or 1, which
    /// `Selectors::fit` tests.
    pub fn riffle(&mut self, sels: Selectors)
        requires
            old(self).cards@.len() == deck_size(),
            selectors_ok(sels.sels@),
        ensures
            final(self).cards@ == riffled(old(self).cards@, sels.sels@),
            final(self).cards@.len() == deck_size(),
            final(self).cards@.to_multiset() == old(self).cards@.to_multiset(),
    {
        let n_cards2: usize = Card::info().n_cards / 2;
        let sels: Vec<u8> = sels.sels;
        let mut dnew: Vec<u8> = Vec::new();
        let mut i0: usize = 0;
        let mut i1: usize = 0;
        let mut k: usize = 0;
        while k < sels.len()
            invariant
                n_cards2 == half_size(),
                self.cards@.len() == deck_size(),
                selectors_ok(sels@),
                k <= deck_size(),
                k == i0 + i1,
                i0 <= half_size(),
                i1 <= half_size(),
                i0 == taken_first(sels@, k as int),
                dnew@.len() == k,
                forall|j: int|
                    0 <= j < k ==> #[trigger] dnew@[j] == riffled(self.cards@, sels@)[j],
            decreases deck_size() - k,
        {
            let s: u8 = sels[k];
            let c: u8;
            if s == 0 && i0 < n_cards2 {
                c = self.cards[i0];
                i0 += 1;
            } else if s == 1 && i1 < n_cards2 {
                c = self.cards[n_cards2 + i1];
                i1 += 1;
            } else if s == 0 {
                c = self.cards[n_cards2 + i1];
                i1 += 1;
            } else {
                c = self.cards[i0];
                i0 += 1;
            }
            dnew.push(c);
            k += 1;
        }
        proof {
            assert(dnew@ =~= riffled(self.cards@, sels@));
            lemma_riffled_permutes(self.cards@, sels@);
        }
        self.cards = dnew;
    }

    /// Shuffles the deck in `nrounds` rounds, each on the result of the one
    /// before. A round takes its selectors from `vsels`, the first round
    /// the first, as long as there are any; after that each round draws its
    /// selectors at random. The deck must hold 52 cards, and the supplied
    /// selectors that a round takes must be 52, each 0 or 1.
    ///
    /// The deck holds the same cards afterwards. Where `vsels` reaches for
    /// every round, the result is a function of the deck and of `vsels`,
    /// and nothing is drawn. A round that draws its selectors panics where
    /// the random generator does, which is where the system's source of
    /// entropy fails. `Selectors::fit` tests what is asked of supplied
    /// selectors.
    pub fn shuffle(&mut self, vsels: Vec<Selectors>, nrounds: usize)
        requires
            old(self).cards@.len() == deck_size(),
            forall|i: int|
                0 <= i < vsels@.len() && i < nrounds ==> selectors_ok((#[trigger] vsels@[i]).sels@),
        ensures
            is_shuffle_of(final(self).cards@, old(self).cards@, vsels@, nrounds as int),
            vsels@.len() >= nrounds ==> final(self).cards@ == shuffled(
                old(self).cards@,
                supplied_rounds(vsels@, nrounds as int),
            ),
            final(self).cards@.len() == deck_size(),
            final(self).cards@.to_multiset() == old(self).cards@.to_multiset(),
            final(self).is_complete() == old(self).is_complete(),
    {
        let ghost start: Seq<u8> = self.cards@;
        let ghost supplied: Seq<Selectors> = vsels@;
        let ghost mut used: Seq<Seq<u8>> = Seq::empty();
        let mut left: Vec<Selectors> = vsels;
        let mut round: usize = 0;
        while round < nrounds
            invariant
                round <= nrounds,
                self.cards@.len() == deck_size(),
                self.cards@ == shuffled(start, used),
                self.cards@.to_multiset() == start.to_multiset(),
                rounds_follow(supplied, round as int, used),
                forall|i: int|
                    0 <= i < supplied.len() && i < nrounds ==> selectors_ok(
                        (#[trigger] supplied[i]).sels@,
                    ),
                round <= supplied.len() ==> left@ == supplied.skip(round as int),
                round > supplied.len() ==> left@.len() == 0,
            decreases nrounds - round,
        {
            if 0 == left.len() {
                left.push(rand_selectors());
            }
            let sels: Selectors = left.remove(0);
            proof {
                if round < supplied.len() {
                    assert(sels == supplied[round as int]);
                    assert(left@ =~= supplied.skip(round as int + 1));
                }
                lemma_shuffled_push(start, used, sels.sels@);
                used = used.push(sels.sels@);
            }
            self.riffle(sels);
            round += 1;
        }
        proof {
            assert(rounds_follow(supplied, nrounds as int, used));
            if supplied.len() >= nrounds {
                assert(used =~= supplied_rounds(supplied, nrounds as int));
            }
        }
    }
}

} // verus!
