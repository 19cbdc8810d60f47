use solitaire::misc::{bool_to_allbits, rand_vec_u8};

fn allbits_case(b: bool, a: u8) {
    let c: u8 = bool_to_allbits(b);
    assert_eq!(c, a);
}

#[test]
fn test_bool_to_allbits() {
    allbits_case(true, 0xff);
    allbits_case(false, 0x00);
}

#[test]
fn rand_vec_length_and_range() {
    for r in 1..=255u8 {
        let v: Vec<u8> = rand_vec_u8(200, r);
        assert_eq!(v.len(), 200);
        for x in v {
            assert!(x < r);
        }
    }
    assert_eq!(rand_vec_u8(0, 0).len(), 0);
    assert_eq!(rand_vec_u8(0, 9).len(), 0);
    assert_eq!(rand_vec_u8(5, 1), vec![0u8; 5]);
}

#[test]
fn rand_vec_varies() {
    let v: Vec<u8> = rand_vec_u8(4096, 2);
    assert!(v.contains(&0));
    assert!(v.contains(&1));
    let w: Vec<u8> = rand_vec_u8(4096, 2);
    assert_ne!(v, w);
}
