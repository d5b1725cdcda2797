use odin::text::{chars_of, decimal_text, digit_text, push_decimal, push_padded, str_equal, str_less};

#[test]
fn str_less_is_the_order_of_strings() {
    let words = ["", "a", "ab", "b", "B", "Z", "aa", "\u{e9}", "z", "10", "9", "\u{10348}"];
    for a in words {
        for b in words {
            assert_eq!(str_less(a, b), a < b, "{:?} < {:?}", a, b);
            assert_eq!(str_equal(a, b), a == b, "{:?} == {:?}", a, b);
        }
    }
}

#[test]
fn decimal_text_writes_numerals() {
    assert_eq!(decimal_text(0), "0");
    assert_eq!(decimal_text(7), "7");
    assert_eq!(decimal_text(10), "10");
    assert_eq!(decimal_text(7200), "7200");
    assert_eq!(decimal_text(u128::MAX), u128::MAX.to_string());
    let mut out = String::from("n=");
    push_decimal(&mut out, 305);
    assert_eq!(out, "n=305");
}

#[test]
fn padded_numerals_have_fixed_width() {
    let mut out = String::new();
    push_padded(&mut out, 42, 6);
    assert_eq!(out, "000042");
    let mut cut = String::new();
    push_padded(&mut cut, 123456, 3);
    assert_eq!(cut, "456");
    let mut none = String::from("x");
    push_padded(&mut none, 9, 0);
    assert_eq!(none, "x");
    let mut full = String::new();
    push_padded(&mut full, u64::MAX, 20);
    assert_eq!(full, "18446744073709551615");
}

#[test]
fn digits_and_chars() {
    assert_eq!(digit_text(0), "0");
    assert_eq!(digit_text(9), "9");
    assert_eq!(chars_of("a\u{e9}b"), vec!['a', '\u{e9}', 'b']);
    assert_eq!(chars_of(""), Vec::<char>::new());
}
