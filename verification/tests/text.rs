use lucia::text::{compare_str, push_decimal, push_flag, push_hexadecimal, ByteOrder};

#[test]
fn strings_compare_by_their_bytes() {
    assert_eq!(compare_str("1", "2"), ByteOrder::Before);
    assert_eq!(compare_str("10", "2"), ByteOrder::Before);
    assert_eq!(compare_str("2", "10"), ByteOrder::After);
    assert_eq!(compare_str("abc", "abc"), ByteOrder::Same);
    assert_eq!(compare_str("", ""), ByteOrder::Same);
}

#[test]
fn a_proper_prefix_comes_first() {
    assert_eq!(compare_str("", "a"), ByteOrder::Before);
    assert_eq!(compare_str("ab", "abc"), ByteOrder::Before);
    assert_eq!(compare_str("abc", "ab"), ByteOrder::After);
}

#[test]
fn comparison_agrees_with_the_order_of_str() {
    let samples = ["", "a", "A", "ab", "b", "é", "z", "1", "10", "2", "日本", "\u{10348}"];
    for left in samples {
        for right in samples {
            let expected = if left < right {
                ByteOrder::Before
            } else if left == right {
                ByteOrder::Same
            } else {
                ByteOrder::After
            };
            assert_eq!(compare_str(left, right), expected, "{:?} and {:?}", left, right);
        }
    }
}

#[test]
fn decimal_numerals() {
    for n in [0u64, 1, 9, 10, 99, 100, 255, 65_535, 1_000_000, u64::MAX] {
        let mut text = String::from("n=");
        push_decimal(&mut text, n);
        assert_eq!(text, format!("n={}", n));
    }
}

#[test]
fn hexadecimal_numerals() {
    for n in [0u64, 1, 9, 10, 15, 16, 255, 0xfe80, 0xffff, u64::MAX] {
        let mut text = String::new();
        push_hexadecimal(&mut text, n);
        assert_eq!(text, format!("{:x}", n));
    }
}

#[test]
fn truth_values_as_text() {
    let mut text = String::new();
    push_flag(&mut text, true);
    push_flag(&mut text, false);
    assert_eq!(text, "truefalse");
}
