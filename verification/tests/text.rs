use tarmac::text::{
    chars_of, contains, decimal_string, order_of_names, push_decimal, same_text,
    signed_decimal_string, strip_text_prefix, NameOrder,
};

#[test]
fn numbers_print_in_decimal() {
    assert_eq!(decimal_string(0), "0");
    assert_eq!(decimal_string(9), "9");
    assert_eq!(decimal_string(10), "10");
    assert_eq!(decimal_string(1005), "1005");
    assert_eq!(decimal_string(u64::MAX), u64::MAX.to_string());
    assert_eq!(signed_decimal_string(-120), "-120");
    assert_eq!(signed_decimal_string(i32::MIN), i32::MIN.to_string());
    let mut text = "id=".to_owned();
    push_decimal(&mut text, 42);
    assert_eq!(text, "id=42");
}

#[test]
fn characters_are_taken_in_order() {
    assert_eq!(chars_of("añ😀"), vec!['a', 'ñ', '😀']);
    assert_eq!(chars_of(""), Vec::<char>::new());
}

#[test]
fn contains_finds_the_needle_anywhere() {
    assert!(contains("inappropriate", "inappropriate"));
    assert!(contains("xx moderated", "moderated"));
    assert!(contains("moderated xx", "moderated"));
    assert!(contains("anything", ""));
    assert!(contains("", ""));
    assert!(!contains("", "a"));
    assert!(!contains("moderate", "moderated"));
    assert!(!contains("aab", "aba"));
    assert!(contains("aaab", "aab"));
    for (hay, needle) in [("héllo wörld", "wör"), ("abcabc", "cab"), ("abc", "abcd")] {
        assert_eq!(contains(hay, needle), hay.contains(needle));
    }
}

#[test]
fn names_are_ordered_like_strings() {
    let words = ["", "a", "B", "ab", "b", "a1", "é", "z", "aé", "ab", "abc"];
    for left in words {
        for right in words {
            let expected = match left.cmp(right) {
                std::cmp::Ordering::Less => NameOrder::Before,
                std::cmp::Ordering::Equal => NameOrder::Same,
                std::cmp::Ordering::Greater => NameOrder::After,
            };
            assert_eq!(order_of_names(&chars_of(left), &chars_of(right)), expected);
            assert_eq!(same_text(left, right), left == right);
        }
    }
}

#[test]
fn prefixes_are_stripped() {
    assert_eq!(strip_text_prefix("operations/x", "operations/"), Some("x".to_owned()));
    assert_eq!(strip_text_prefix("abc", ""), Some("abc".to_owned()));
    assert_eq!(strip_text_prefix("abc", "abc"), Some(String::new()));
    assert_eq!(strip_text_prefix("ab", "abc"), None);
    assert_eq!(strip_text_prefix("xbc", "abc"), None);
}
