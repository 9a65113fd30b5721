use runway::text::{
    decimal, from_chars, has_part, joined, replace_slashes, text_before, to_chars,
    without_prefix,
};

#[test]
fn texts_are_ordered_by_code_points() {
    assert!(text_before("", "a"));
    assert!(text_before("a", "b"));
    assert!(text_before("a", "ab"));
    assert!(text_before("Z", "a"));
    assert!(text_before("a/b", "a/c"));
    assert!(text_before("z", "é"));
    assert!(!text_before("a", "a"));
    assert!(!text_before("b", "a"));
    assert!(!text_before("", ""));
}

#[test]
fn text_order_is_that_of_strings() {
    let samples =
        ["", "a", "b", "aa", "ab", "a/b", "a.png", "é", "日本", "\u{10000}", "\u{ffff}"];
    for x in samples {
        for y in samples {
            assert_eq!(text_before(x, y), x < y, "{x} {y}");
        }
    }
}

#[test]
fn characters_there_and_back() {
    let chars = to_chars("aé日");
    assert_eq!(chars, vec!['a', 'é', '日']);
    assert_eq!(from_chars(&chars, 0), "aé日");
    assert_eq!(from_chars(&chars, 1), "é日");
    assert_eq!(from_chars(&chars, 3), "");
}

#[test]
fn joining_texts() {
    assert_eq!(joined("rbxassetid://", "12"), "rbxassetid://12");
    assert_eq!(joined("", ""), "");
}

#[test]
fn cutting_off_a_prefix() {
    assert_eq!(
        without_prefix("operations/abc", "operations/"),
        Some("abc".to_string())
    );
    assert_eq!(
        without_prefix("operations/", "operations/"),
        Some(String::new())
    );
    assert_eq!(without_prefix("operation", "operations/"), None);
    assert_eq!(without_prefix("assets/abc", "operations/"), None);
    assert_eq!(without_prefix("", ""), Some(String::new()));
}

#[test]
fn looking_for_a_part() {
    assert!(has_part("aab", "ab"));
    assert!(has_part("abc", ""));
    assert!(has_part("", ""));
    assert!(has_part("abc", "abc"));
    assert!(!has_part("ab", "abc"));
    assert!(!has_part("abab", "ba "));
}

#[test]
fn backslashes_become_slashes() {
    assert_eq!(replace_slashes("a\\b/c\\"), "a/b/c/");
    assert_eq!(replace_slashes(""), "");
}

#[test]
fn numbers_in_decimal() {
    assert_eq!(decimal(0), "0");
    assert_eq!(decimal(9), "9");
    assert_eq!(decimal(10), "10");
    assert_eq!(decimal(1234567890), "1234567890");
    assert_eq!(decimal(u64::MAX), "18446744073709551615");
}
