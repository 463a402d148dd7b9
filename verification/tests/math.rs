use amm::integer_sqrt;

#[test]
fn sqrt_of_zero_is_zero() {
    assert_eq!(integer_sqrt(0), 0);
}

#[test]
fn sqrt_of_perfect_square() {
    assert_eq!(integer_sqrt(4), 2);
    assert_eq!(integer_sqrt(2_000_000), 1414); // floor(sqrt(2_000_000))
}

#[test]
fn sqrt_rounds_down_for_non_perfect_squares() {
    assert_eq!(integer_sqrt(3), 1);
    assert_eq!(integer_sqrt(99), 9);
}
