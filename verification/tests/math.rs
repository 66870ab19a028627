use dirscan::utils::math::count_digits;

#[test]
fn zero_has_one_digit() {
    assert_eq!(count_digits(0), 1);
}

#[test]
fn digits_change_at_powers_of_ten() {
    assert_eq!(count_digits(1), 1);
    assert_eq!(count_digits(9), 1);
    assert_eq!(count_digits(10), 2);
    assert_eq!(count_digits(99), 2);
    assert_eq!(count_digits(100), 3);
    assert_eq!(count_digits(12345), 5);
    assert_eq!(count_digits(999_999_999_999), 12);
    assert_eq!(count_digits(1_000_000_000_000), 13);
}

#[test]
fn largest_number_has_twenty_digits() {
    assert_eq!(count_digits(u64::MAX), 20);
    assert_eq!(count_digits(u64::MAX), u64::MAX.to_string().len());
}
