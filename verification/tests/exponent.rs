use bellperson::exponent::Exponent;

#[test]
fn zero_and_one_are_told_apart() {
    assert!(Exponent::from_u64(0).is_zero());
    assert!(!Exponent::from_u64(0).is_one());
    assert!(Exponent::from_u64(1).is_one());
    assert!(!Exponent::from_u64(1).is_zero());
    assert!(!Exponent::new([0, 1, 0, 0]).is_zero());
    assert!(!Exponent::new([1, 0, 0, 1]).is_one());
    assert!(!Exponent::new([0, 0, 0, 1]).is_zero());
    assert_eq!(Exponent::from_u64(9), Exponent::new([9, 0, 0, 0]));
}

#[test]
fn digits_are_the_bits_at_the_place() {
    let e = Exponent::from_u64(0b1011_0110);
    assert_eq!(e.digit(0, 3), 0b110);
    assert_eq!(e.digit(3, 3), 0b110);
    assert_eq!(e.digit(4, 4), 0b1011);
    assert_eq!(e.digit(6, 3), 0b010);
    assert_eq!(e.digit(8, 3), 0);
    assert_eq!(e.digit(0, 0), 0);
    assert_eq!(e.digit(0, 63), 0b1011_0110);
}

#[test]
fn digits_reach_across_limbs() {
    let e = Exponent::new([0x8000_0000_0000_0000, 0b101, 0, 0xf000_0000_0000_0000]);
    assert_eq!(e.digit(63, 3), 0b011);
    assert_eq!(e.digit(63, 4), 0b1011);
    assert_eq!(e.digit(64, 3), 0b101);
    assert_eq!(e.digit(62, 2), 0b10);
    assert_eq!(e.digit(128, 10), 0);
    assert_eq!(e.digit(252, 3), 0b111);
    assert_eq!(e.digit(254, 3), 0b011);
    assert_eq!(e.digit(255, 3), 0b001);
    assert_eq!(e.digit(256, 3), 0);
    assert_eq!(e.digit(300, 3), 0);
    assert_eq!(e.digit(u32::MAX, 5), 0);
}

#[test]
fn a_wide_digit_takes_from_two_limbs() {
    let e = Exponent::new([u64::MAX, u64::MAX, 0, 0]);
    assert_eq!(e.digit(1, 63), (1u64 << 63) - 1);
    assert_eq!(e.digit(65, 63), (1u64 << 63) - 1);
    assert_eq!(e.digit(100, 40), (1u64 << 28) - 1);
}
