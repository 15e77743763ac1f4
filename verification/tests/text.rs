use btstats::text::{div_rounded, push_decimal, push_digit, push_padded, push_ratio};
use btstats::wire::{byte, read_le16, read_le32, read_le64, swap16, swap32, swap64};

fn decimal(n: u128) -> String {
    let mut s = String::new();
    push_decimal(&mut s, n);
    s
}

fn padded(n: u128, width: u8) -> String {
    let mut s = String::new();
    push_padded(&mut s, n, width);
    s
}

fn ratio(num: u128, den: u128) -> String {
    let mut s = String::new();
    push_ratio(&mut s, num, den);
    s
}

#[test]
fn digits_are_appended() {
    let mut s = String::from("x");
    for d in 0..10u8 {
        push_digit(&mut s, d);
    }
    assert_eq!(s, "x0123456789");
}

#[test]
fn decimal_has_no_leading_zeros() {
    assert_eq!(decimal(0), "0");
    assert_eq!(decimal(7), "7");
    assert_eq!(decimal(10), "10");
    assert_eq!(decimal(1234567890), "1234567890");
    assert_eq!(decimal(u64::MAX as u128), "18446744073709551615");
    assert_eq!(decimal(u128::MAX), "340282366920938463463374607431768211455");
}

#[test]
fn padded_keeps_the_last_digits() {
    assert_eq!(padded(5, 0), "");
    assert_eq!(padded(5, 1), "5");
    assert_eq!(padded(5, 3), "005");
    assert_eq!(padded(0, 9), "000000000");
    assert_eq!(padded(234567890, 9), "234567890");
    assert_eq!(padded(12345, 2), "45");
}

#[test]
fn division_rounds_to_nearest_and_ties_to_even() {
    assert_eq!(div_rounded(0, 3), 0);
    assert_eq!(div_rounded(1, 3), 0);
    assert_eq!(div_rounded(2, 3), 1);
    assert_eq!(div_rounded(1, 2), 0);
    assert_eq!(div_rounded(3, 2), 2);
    assert_eq!(div_rounded(5, 2), 2);
    assert_eq!(div_rounded(7, 2), 4);
    assert_eq!(div_rounded(9, 1), 9);
    assert_eq!(div_rounded(u128::MAX - 1, 1), u128::MAX - 1);
    assert_eq!(div_rounded(u128::MAX, 1), u128::MAX);
    assert_eq!(div_rounded(u128::MAX, 2), 1u128 << 127);
    assert_eq!(div_rounded(u128::MAX, u128::MAX), 1);
    assert_eq!(div_rounded(u128::MAX - 1, u128::MAX), 1);
    assert_eq!(div_rounded(1, u128::MAX), 0);
}

#[test]
fn ratio_has_two_decimals() {
    assert_eq!(ratio(0, 5), "0.00");
    assert_eq!(ratio(1, 1), "1.00");
    assert_eq!(ratio(1, 2), "0.50");
    assert_eq!(ratio(3, 2), "1.50");
    assert_eq!(ratio(1, 3), "0.33");
    assert_eq!(ratio(2, 3), "0.67");
    assert_eq!(ratio(200, 3), "66.67");
    assert_eq!(ratio(9, 1), "9.00");
    assert_eq!(ratio(1, 100), "0.01");
    assert_eq!(ratio(1, 1000), "0.00");
    assert_eq!(ratio(999, 1000), "1.00");
    assert_eq!(ratio(u64::MAX as u128, 1), "18446744073709551615.00");
    // Half way between two hundredths: the even one is taken.
    assert_eq!(ratio(1, 8), "0.12");
    assert_eq!(ratio(3, 8), "0.38");
    assert_eq!(ratio(5, 8), "0.62");
    assert_eq!(ratio(7, 8), "0.88");
}

#[test]
fn swaps_reverse_the_bytes() {
    assert_eq!(swap16(0x1234), 0x3412);
    assert_eq!(swap32(0x1234_5678), 0x7856_3412);
    assert_eq!(swap64(0x0102_0304_0506_0708), 0x0807_0605_0403_0201);
    assert_eq!(swap16(0x1234), 0x1234u16.swap_bytes());
    assert_eq!(swap32(0xdead_beef), 0xdead_beefu32.swap_bytes());
    assert_eq!(swap64(0xdead_beef_0bad_f00d), 0xdead_beef_0bad_f00du64.swap_bytes());
    assert_eq!(swap32(swap32(0x6561_7407)), 0x6561_7407);
}

#[test]
fn little_endian_values_are_read_at_offsets() {
    let b = [0u8, 0x01, 0x02, 0x03, 0x04, 0x05, 0x06, 0x07, 0x08, 0x09];
    assert_eq!(read_le16(&b, 1), 0x0201);
    assert_eq!(read_le32(&b, 1), 0x0403_0201);
    assert_eq!(read_le64(&b, 1), 0x0807_0605_0403_0201);
    assert_eq!(read_le64(&b, 2), 0x0908_0706_0504_0302);
    assert_eq!(read_le32(&b, 6), u32::from_le_bytes([0x06, 0x07, 0x08, 0x09]));
    assert_eq!(byte(0x0807_0605_0403_0201, 0), 0x01);
    assert_eq!(byte(0x0807_0605_0403_0201, 7), 0x08);
    assert_eq!(byte(0x0807_0605_0403_0201, 3), 0x04);
}
