use simple_amm::integer_sqrt;

#[test]
fn integer_sqrt_of_small_numbers() {
    assert_eq!(integer_sqrt(0), 0);
    assert_eq!(integer_sqrt(1), 1);
    assert_eq!(integer_sqrt(2), 1);
    assert_eq!(integer_sqrt(3), 1);
    assert_eq!(integer_sqrt(4), 2);
    assert_eq!(integer_sqrt(8), 2);
    assert_eq!(integer_sqrt(9), 3);
    assert_eq!(integer_sqrt(15), 3);
    assert_eq!(integer_sqrt(16), 4);
    assert_eq!(integer_sqrt(17), 4);
}

#[test]
fn integer_sqrt_of_squares_and_their_neighbours() {
    let mut r: u128 = 1;
    while r < 2000 {
        assert_eq!(integer_sqrt(r * r), r);
        assert_eq!(integer_sqrt(r * r - 1), r - 1);
        assert_eq!(integer_sqrt(r * r + 2 * r), r);
        r += 1;
    }
}

#[test]
fn integer_sqrt_of_a_first_deposit() {
    assert_eq!(integer_sqrt(100_000 * 400_000), 200_000);
    assert_eq!(integer_sqrt(1_000_000_000_000_000_000_000_000_000_000), 1_000_000_000_000_000);
}

#[test]
fn integer_sqrt_at_the_top_of_the_range() {
    let max64 = u64::MAX as u128;
    assert_eq!(integer_sqrt(u128::MAX), max64);
    assert_eq!(integer_sqrt(u128::MAX - 1), max64);
    assert_eq!(integer_sqrt(max64 * max64), max64);
    assert_eq!(integer_sqrt(max64 * max64 - 1), max64 - 1);
    assert_eq!(integer_sqrt(1u128 << 127), 13_043_817_825_332_782_212);
    assert_eq!(integer_sqrt(1u128 << 126), 1u128 << 63);
}
