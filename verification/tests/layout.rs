use solitaire::card::{Card, CardVec};
use solitaire::layout::{Layout, LayoutPacked, PACK_SIZE};

fn layout_of(piles: Vec<Vec<u8>>) -> Layout {
    let mut lo = Layout::default();
    for p in piles {
        lo.piles.push(CardVec::from_vec_u8(p));
    }
    lo
}

fn piles_of(lo: &Layout) -> Vec<Vec<u8>> {
    let mut out: Vec<Vec<u8>> = Vec::new();
    for p in &lo.piles {
        out.push(p.clone().to_vec_u8());
    }
    out
}

fn move_case(fb: Vec<u8>, tb: Vec<u8>, n: usize, fa: Vec<u8>, ta: Vec<u8>) {
    let mut lo = layout_of(vec![fb, vec![0x33], tb]);
    lo.move_tail(0, 2, n);
    assert_eq!(piles_of(&lo), vec![fa, vec![0x33], ta]);
}

#[test]
fn move_tail_moves_the_last_cards() {
    move_case(vec![4, 5], vec![0, 1, 2, 3], 2, vec![], vec![0, 1, 2, 3, 4, 5]);
    move_case(vec![4, 5, 6], vec![0], 1, vec![4, 5], vec![0, 6]);
    move_case(vec![4, 5, 6], vec![], 2, vec![4], vec![5, 6]);
    move_case(vec![4, 5, 6], vec![9], 0, vec![4, 5, 6], vec![9]);
    move_case(vec![], vec![9], 0, vec![], vec![9]);
}

#[test]
fn move_tail_to_a_lower_pile() {
    let mut lo = layout_of(vec![vec![1], vec![2, 3, 4]]);
    lo.move_tail(1, 0, 2);
    assert_eq!(piles_of(&lo), vec![vec![1, 3, 4], vec![2]]);
}

#[test]
fn move_tail_within_one_pile() {
    let mut lo = layout_of(vec![vec![1, 2, 3], vec![7]]);
    lo.move_tail(0, 0, 2);
    assert_eq!(piles_of(&lo), vec![vec![1, 2, 3], vec![7]]);
    lo.move_tail(0, 0, 3);
    assert_eq!(piles_of(&lo), vec![vec![1, 2, 3], vec![7]]);
}

#[test]
fn set_tail_face_up_turns_the_last_cards() {
    let mut lo = layout_of(vec![vec![0x01, 0x12, 0x23, 0x34], vec![0x05, 0x46]]);
    lo.set_tail_face_up(0, 2, true);
    assert_eq!(piles_of(&lo), vec![vec![0x01, 0x12, 0x63, 0x74], vec![0x05, 0x46]]);
    lo.set_tail_face_up(0, 1, false);
    assert_eq!(piles_of(&lo), vec![vec![0x01, 0x12, 0x63, 0x34], vec![0x05, 0x46]]);
    lo.set_tail_face_up(1, 2, false);
    assert_eq!(piles_of(&lo), vec![vec![0x01, 0x12, 0x63, 0x34], vec![0x05, 0x06]]);
    lo.set_tail_face_up(1, 0, true);
    assert_eq!(piles_of(&lo), vec![vec![0x01, 0x12, 0x63, 0x34], vec![0x05, 0x06]]);
    lo.set_tail_face_up(0, 4, true);
    assert_eq!(piles_of(&lo), vec![vec![0x41, 0x52, 0x63, 0x74], vec![0x05, 0x06]]);
}

#[test]
fn layout_text_is_empty() {
    assert_eq!(Layout::default().to_text(), "");
    assert_eq!(layout_of(vec![vec![1, 2], vec![3]]).to_text(), "");
}

#[test]
fn layout_packs_to_zeros() {
    let lp: LayoutPacked = layout_of(vec![vec![1, 2], vec![3]]).pack();
    assert_eq!(lp.cards.len(), PACK_SIZE);
    assert_eq!(PACK_SIZE, 62);
    for c in lp.cards {
        assert_eq!(c.code, 0);
    }
    let d: LayoutPacked = LayoutPacked::default();
    for c in d.cards {
        assert_eq!(c.code, 0);
    }
}

#[test]
fn layout_unpacks_to_no_piles() {
    let mut lp: LayoutPacked = LayoutPacked::default();
    lp.cards[0] = Card { code: 0x81 };
    lp.cards[1] = Card { code: 0x05 };
    assert_eq!(Layout::unpack(lp).piles.len(), 0);
    assert_eq!(Layout::default().piles.len(), 0);
}

#[test]
fn flip_pile_leaves_the_layout() {
    let mut lo = layout_of(vec![vec![0x01, 0x42], vec![0x03]]);
    lo.flip_pile(0);
    assert_eq!(piles_of(&lo), vec![vec![0x01, 0x42], vec![0x03]]);
    lo.flip_pile(5);
    assert_eq!(piles_of(&lo), vec![vec![0x01, 0x42], vec![0x03]]);
}
