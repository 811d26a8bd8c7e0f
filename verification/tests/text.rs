use hidl::text::{binary_string, chars, decimal_string, is_whitespace, signed_decimal_string};

#[test]
fn decimal_digits() {
    assert_eq!(decimal_string(0), "0");
    assert_eq!(decimal_string(7), "7");
    assert_eq!(decimal_string(10), "10");
    assert_eq!(decimal_string(1234567890), "1234567890");
    assert_eq!(decimal_string(u64::MAX), "18446744073709551615");
}

#[test]
fn binary_digits() {
    assert_eq!(binary_string(0), "0");
    assert_eq!(binary_string(1), "1");
    assert_eq!(binary_string(0b1100), "1100");
    assert_eq!(binary_string(u64::MAX), "1".repeat(64));
}

#[test]
fn signed_decimal_digits() {
    assert_eq!(signed_decimal_string(0), "0");
    assert_eq!(signed_decimal_string(-1), "-1");
    assert_eq!(signed_decimal_string(100), "100");
    assert_eq!(
        signed_decimal_string(i128::MAX),
        "170141183460469231731687303715884105727"
    );
    assert_eq!(
        signed_decimal_string(i128::MIN),
        "-170141183460469231731687303715884105728"
    );
}

#[test]
fn white_space_agrees_with_std_on_every_char() {
    let mut c = 0u32;
    while c <= 0x10ffff {
        if let Some(ch) = char::from_u32(c) {
            assert_eq!(is_whitespace(ch), ch.is_whitespace());
        }
        c += 1;
    }
}

#[test]
fn chars_in_order() {
    assert_eq!(chars(""), Vec::<char>::new());
    assert_eq!(chars("a\u{e9}\u{1f600}"), vec!['a', '\u{e9}', '\u{1f600}']);
}
