use bellperson::multiexp::width::window_width;

#[test]
fn few_exponents_take_three_bits() {
    assert_eq!(window_width(0), 3);
    assert_eq!(window_width(1), 3);
    assert_eq!(window_width(31), 3);
}

#[test]
fn many_exponents_take_the_logarithm_rounded_up() {
    assert_eq!(window_width(32), 4);
    assert_eq!(window_width(54), 4);
    assert_eq!(window_width(55), 5);
    assert_eq!(window_width(148), 5);
    assert_eq!(window_width(149), 6);
    assert_eq!(window_width(1024), 7);
    assert_eq!(window_width(1 << 14), 10);
    assert_eq!(window_width(1 << 20), 14);
    assert_eq!(window_width(3_584_912_846), 22);
    assert_eq!(window_width(3_584_912_847), 23);
    assert_eq!(window_width(u32::MAX as usize), 23);
}

#[test]
fn the_table_agrees_with_the_logarithm() {
    let mut n: usize = 32;
    while n < (1 << 31) {
        for m in [n - 1, n, n + 1, n + n / 3] {
            if m >= 32 {
                assert_eq!(window_width(m), (m as f64).ln().ceil() as u32);
            }
        }
        n += n / 7 + 1;
    }
}

#[test]
fn the_table_follows_the_powers_of_e_to_the_end() {
    for k in 4..=43u32 {
        let power = (k as f64).exp();
        assert_eq!(window_width((power * 0.999_999) as usize), k);
        assert_eq!(window_width((power * 1.000_001) as usize + 1), k + 1);
    }
    assert_eq!(window_width(12_851_600_114_359_308_275), 44);
    assert_eq!(window_width(12_851_600_114_359_308_276), 45);
    assert_eq!(window_width(usize::MAX), 45);
}
