use solitaire::card::Card;
use solitaire::deck::{Deck, Selectors};
use std::collections::HashMap;

fn constant_selectors(value: u8) -> Selectors {
    Selectors { sels: vec![value; 52] }
}

fn alternating_selectors(first: u8) -> Selectors {
    let mut sels: Vec<u8> = Vec::new();
    for k in 0..52u8 {
        sels.push((first + k) % 2);
    }
    Selectors { sels }
}

fn patterned_selectors(seed: u32) -> Selectors {
    let mut sels: Vec<u8> = Vec::new();
    let mut x: u32 = seed;
    for _ in 0..52 {
        x = x.wrapping_mul(1_103_515_245).wrapping_add(12_345);
        sels.push(((x >> 16) & 1) as u8);
    }
    Selectors { sels }
}

// One round as the rules of the shuffle give it, written out on its own.
fn reference_round(cards: &[u8], sels: &[u8]) -> Vec<u8> {
    let v0: &[u8] = &cards[..26];
    let v1: &[u8] = &cards[26..];
    let mut out: Vec<u8> = Vec::new();
    let mut i0: usize = 0;
    let mut i1: usize = 0;
    for s in sels {
        let from_first: bool = if *s == 0 { i0 < 26 } else { i1 >= 26 };
        if from_first {
            out.push(v0[i0]);
            i0 += 1;
        } else {
            out.push(v1[i1]);
            i1 += 1;
        }
    }
    out
}

#[test]
fn test_shuffle() {
    // shuffle many times and put decks in hashmap
    // if there is a duplicate, we fail the test
    const NSHUFFLES: usize = 10000;
    const NROUNDS: usize = 10;
    let mut deck = Deck::new();
    let mut hm: HashMap<Deck, usize> = HashMap::new();
    for i in 0..NSHUFFLES {
        deck.shuffle(vec![], NROUNDS);
        assert_eq!(None, hm.insert(deck.clone(), i));
    }
    assert!(deck.valid());
}

#[test]
fn new_deck_is_canonical() {
    let deck = Deck::new();
    assert_eq!(deck.cards.len(), 52);
    let mut k: usize = 0;
    for s in 0..4u8 {
        for r in 0..13u8 {
            assert_eq!(deck.cards[k], (s << 4) | r);
            k += 1;
        }
    }
    assert_eq!(deck.cards[0], 0x00);
    assert_eq!(deck.cards[12], 0x0c);
    assert_eq!(deck.cards[13], 0x10);
    assert_eq!(deck.cards[51], 0x3c);
    for i in 0..52 {
        let c = Card { code: deck.cards[i] };
        assert!(c.valid());
        assert!(!c.unpack().face_up);
        for j in 0..i {
            assert_ne!(deck.cards[i], deck.cards[j]);
        }
    }
    assert_eq!(Deck::new(), deck);
}

#[test]
fn valid_accepts_any_order() {
    assert!(Deck::new().valid());
    let mut reversed = Deck::new();
    reversed.cards.reverse();
    assert!(reversed.valid());
    let mut rotated = Deck::new();
    rotated.cards.rotate_left(17);
    assert!(rotated.valid());
    // the deck that was tested is left as it was
    assert_eq!(rotated.cards[0], Deck::new().cards[17]);
}

#[test]
fn valid_rejects_other_decks() {
    let mut duplicate = Deck::new();
    duplicate.cards[5] = duplicate.cards[6];
    assert!(!duplicate.valid());
    let mut foreign = Deck::new();
    foreign.cards[0] = 0x0d;
    assert!(!foreign.valid());
    let mut face_up = Deck::new();
    face_up.cards[3] |= 0x40;
    assert!(!face_up.valid());
    let mut short = Deck::new();
    short.cards.pop();
    assert!(!short.valid());
    let mut long = Deck::new();
    long.cards.push(0x00);
    assert!(!long.valid());
    assert!(!Deck { cards: vec![] }.valid());
}

#[test]
fn riffle_all_from_first_half_first() {
    // selector 0 throughout: the first half, then the second half by fallback
    let mut deck = Deck::new();
    deck.riffle(constant_selectors(0));
    assert_eq!(deck, Deck::new());
}

#[test]
fn riffle_all_from_second_half_first() {
    // selector 1 throughout: the second half, then the first half by fallback
    let mut deck = Deck::new();
    deck.riffle(constant_selectors(1));
    let canonical = Deck::new();
    let mut expected: Vec<u8> = canonical.cards[26..].to_vec();
    expected.extend_from_slice(&canonical.cards[..26]);
    assert_eq!(deck.cards, expected);
    assert!(deck.valid());
}

#[test]
fn riffle_interleaves() {
    let canonical = Deck::new();
    let mut deck = Deck::new();
    deck.riffle(alternating_selectors(0));
    for k in 0..26 {
        assert_eq!(deck.cards[2 * k], canonical.cards[k]);
        assert_eq!(deck.cards[2 * k + 1], canonical.cards[26 + k]);
    }
    let mut other = Deck::new();
    other.riffle(alternating_selectors(1));
    for k in 0..26 {
        assert_eq!(other.cards[2 * k], canonical.cards[26 + k]);
        assert_eq!(other.cards[2 * k + 1], canonical.cards[k]);
    }
}

#[test]
fn riffle_follows_the_selectors() {
    for seed in 0..200u32 {
        let sels = patterned_selectors(seed);
        let mut deck = Deck::new();
        deck.cards.rotate_left((seed % 52) as usize);
        let expected: Vec<u8> = reference_round(&deck.cards, &sels.sels);
        deck.riffle(sels);
        assert_eq!(deck.cards, expected);
        assert_eq!(deck.cards.len(), 52);
        assert!(deck.valid());
    }
}

#[test]
fn shuffle_with_supplied_selectors_is_replayed() {
    let rounds: Vec<Selectors> = vec![
        patterned_selectors(1),
        patterned_selectors(2),
        patterned_selectors(3),
        patterned_selectors(4),
    ];
    let mut a = Deck::new();
    a.shuffle(rounds.clone(), 4);
    let mut b = Deck::new();
    b.shuffle(rounds.clone(), 4);
    assert_eq!(a, b);
    assert_ne!(a, Deck::new());
    assert!(a.valid());
    // round by round the same deck
    let mut c = Deck::new();
    for sels in rounds.clone() {
        c.riffle(sels);
    }
    assert_eq!(a, c);
    // and the same as the rounds written out
    let mut expected: Vec<u8> = Deck::new().cards;
    for sels in &rounds {
        expected = reference_round(&expected, &sels.sels);
    }
    assert_eq!(a.cards, expected);
}

#[test]
fn shuffle_takes_supplied_selectors_first() {
    // more selectors than rounds: the rest is not used
    let rounds: Vec<Selectors> = vec![constant_selectors(1), constant_selectors(1), vec_of_bad()];
    let mut deck = Deck::new();
    deck.shuffle(rounds, 2);
    assert_eq!(deck, Deck::new());
    // one round of two supplied
    let mut one = Deck::new();
    one.shuffle(vec![constant_selectors(1), constant_selectors(0)], 1);
    let mut swapped = Deck::new();
    swapped.riffle(constant_selectors(1));
    assert_eq!(one, swapped);
}

fn vec_of_bad() -> Selectors {
    Selectors { sels: vec![7; 3] }
}

#[test]
fn shuffle_of_no_rounds_changes_nothing() {
    let mut deck = Deck::new();
    deck.shuffle(vec![], 0);
    assert_eq!(deck, Deck::new());
    deck.shuffle(vec![constant_selectors(1)], 0);
    assert_eq!(deck, Deck::new());
}

#[test]
fn shuffle_keeps_the_deck_valid() {
    let mut deck = Deck::new();
    for n in 0..40usize {
        let supplied: Vec<Selectors> = if n % 2 == 0 {
            vec![]
        } else {
            vec![patterned_selectors(n as u32)]
        };
        deck.shuffle(supplied, n % 7);
        assert_eq!(deck.cards.len(), 52);
        assert!(deck.valid());
    }
}

#[test]
fn shuffle_keeps_the_cards_of_any_deck() {
    // a deck of 52 cards that is not complete keeps its cards too
    let mut deck = Deck { cards: vec![9; 52] };
    deck.cards[30] = 1;
    deck.shuffle(vec![patterned_selectors(5)], 3);
    assert_eq!(deck.cards.len(), 52);
    let mut sorted: Vec<u8> = deck.cards.clone();
    sorted.sort();
    let mut expected: Vec<u8> = vec![9; 52];
    expected[0] = 1;
    assert_eq!(sorted, expected);
    assert!(!deck.valid());
}

#[test]
fn shuffle_with_generated_selectors_differs() {
    let mut a = Deck::new();
    a.shuffle(vec![], 10);
    let mut b = Deck::new();
    b.shuffle(vec![], 10);
    assert_ne!(a, b);
    assert!(a.valid());
    assert!(b.valid());
}

#[test]
fn selectors_fit_a_round() {
    assert!(constant_selectors(0).fit());
    assert!(constant_selectors(1).fit());
    assert!(alternating_selectors(1).fit());
    assert!(patterned_selectors(9).fit());
    assert!(!constant_selectors(2).fit());
    assert!(!vec_of_bad().fit());
    assert!(!Selectors { sels: vec![] }.fit());
    assert!(!Selectors { sels: vec![0; 51] }.fit());
    assert!(!Selectors { sels: vec![1; 53] }.fit());
    let mut last_bad = constant_selectors(0);
    last_bad.sels[51] = 2;
    assert!(!last_bad.fit());
    let mut first_bad = constant_selectors(1);
    first_bad.sels[0] = 255;
    assert!(!first_bad.fit());
}
