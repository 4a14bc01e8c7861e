use big_mod_exp::encoding::{is_one_bytes, is_zero_bytes, left_pad};

#[test]
fn zero_byte_strings() {
    assert!(is_zero_bytes(&[]));
    assert!(is_zero_bytes(&[0, 0, 0]));
    assert!(!is_zero_bytes(&[0, 1, 0]));
}

#[test]
fn one_byte_strings() {
    assert!(is_one_bytes(&[1]));
    assert!(is_one_bytes(&[0, 0, 1]));
    assert!(!is_one_bytes(&[]));
    assert!(!is_one_bytes(&[1, 1]));
    assert!(!is_one_bytes(&[0, 2]));
}

#[test]
fn left_pad_right_aligns() {
    assert_eq!(left_pad::<4>(&[7, 8]), [0, 0, 7, 8]);
    assert_eq!(left_pad::<2>(&[7, 8]), [7, 8]);
    assert_eq!(left_pad::<3>(&[]), [0, 0, 0]);
}
