use desktop_backends::text::{
    chars_of, copy_optional, fold_char, replace_all, text_contains, text_equal, text_less,
    texts_equal,
};

#[test]
fn chars_of_gives_characters_not_bytes() {
    assert_eq!(chars_of("aé√"), vec!['a', 'é', '√']);
    assert!(chars_of("").is_empty());
}

#[test]
fn text_equal_compares_whole_texts() {
    assert!(text_equal("", ""));
    assert!(text_equal("abc", "abc"));
    assert!(!text_equal("abc", "abd"));
    assert!(!text_equal("abc", "ab"));
    assert!(!text_equal("ab", "abc"));
    assert!(!text_equal("abc", "ABC"));
}

#[test]
fn text_less_is_lexicographic() {
    assert!(text_less("", "a"));
    assert!(!text_less("a", ""));
    assert!(!text_less("", ""));
    assert!(text_less("abc", "abd"));
    assert!(!text_less("abd", "abc"));
    assert!(text_less("ab", "abc"));
    assert!(!text_less("abc", "ab"));
    assert!(!text_less("abc", "abc"));
    assert!(text_less("Z", "a"));
    assert!(text_less("10", "9"));
    assert!(text_less("z", "é"));
}

#[test]
fn text_less_agrees_with_the_order_of_strings() {
    let samples = ["", "a", "ab", "b", "B", "2024-01-01T00:00:00+00:00", "2024-01-01T00:00:00.5+00:00", "é", "z"];
    for a in samples {
        for b in samples {
            assert_eq!(text_less(a, b), a < b, "{:?} against {:?}", a, b);
        }
    }
}

#[test]
fn fold_char_folds_only_ascii_capitals() {
    assert_eq!(fold_char('A'), 'a' as u32);
    assert_eq!(fold_char('Z'), 'z' as u32);
    assert_eq!(fold_char('a'), 'a' as u32);
    assert_eq!(fold_char('@'), '@' as u32);
    assert_eq!(fold_char('['), '[' as u32);
    assert_eq!(fold_char('É'), 'É' as u32);
    assert_eq!(fold_char('0'), '0' as u32);
}

#[test]
fn text_contains_finds_substrings() {
    assert!(text_contains("hello world", "lo wo"));
    assert!(text_contains("hello world", "hello world"));
    assert!(text_contains("hello world", "d"));
    assert!(text_contains("hello world", "h"));
    assert!(!text_contains("hello world", "worlds"));
    assert!(!text_contains("hello", "hello world"));
    assert!(!text_contains("", "a"));
    assert!(text_contains("aab", "ab"));
}

#[test]
fn text_contains_finds_the_empty_pattern_everywhere() {
    assert!(text_contains("", ""));
    assert!(text_contains("abc", ""));
}

#[test]
fn text_contains_folds_ascii_case() {
    assert!(text_contains("Hello World", "hello"));
    assert!(text_contains("hello world", "WORLD"));
    assert!(!text_contains("ÉCOLE", "école"));
    assert!(text_contains("ÉCOLE", "cole"));
}

#[test]
fn copy_of_an_optional_text_holds_the_same_text() {
    assert_eq!(copy_optional(&None), None);
    assert_eq!(copy_optional(&Some("x".to_string())), Some("x".to_string()));
    assert_eq!(copy_optional(&Some(String::new())), Some(String::new()));
}

#[test]
fn replace_all_turns_every_occurrence() {
    assert_eq!(replace_all("a-b-c", "-", "+"), "a+b+c");
    assert_eq!(replace_all("aaaa", "aa", "b"), "bb");
    assert_eq!(replace_all("aaa", "aa", "b"), "ba");
    assert_eq!(replace_all("abc", "abc", ""), "");
    assert_eq!(replace_all("abc", "abcd", "x"), "abc");
    assert_eq!(replace_all("abc", "x", "y"), "abc");
    assert_eq!(replace_all("", "x", "y"), "");
    assert_eq!(replace_all("grüße", "ü", "ue"), "grueße");
    assert_eq!(replace_all("abab", "ab", "abab"), "abababab");
}

#[test]
fn replace_all_with_an_empty_pattern_changes_nothing() {
    assert_eq!(replace_all("abc", "", "x"), "abc");
    assert_eq!(replace_all("", "", "x"), "");
}

#[test]
fn replace_all_agrees_with_replace_of_strings() {
    let texts = ["", "a", "a.pdf", "x.pdf.pdfy", "..pdf", "pdf.", "ababa", "aXbXc", "ééé"];
    let patterns = [".pdf", "a", "aba", "X", "é", "pdf."];
    for text in texts {
        for pattern in patterns {
            assert_eq!(replace_all(text, pattern, "<>"), text.replace(pattern, "<>"));
        }
    }
}

#[test]
fn texts_equal_compares_lists_in_order() {
    let list = |items: &[&str]| items.iter().map(|item| item.to_string()).collect::<Vec<String>>();
    assert!(texts_equal(&list(&[]), &list(&[])));
    assert!(texts_equal(&list(&["a", "b"]), &list(&["a", "b"])));
    assert!(!texts_equal(&list(&["a", "b"]), &list(&["b", "a"])));
    assert!(!texts_equal(&list(&["a"]), &list(&["a", "a"])));
    assert!(!texts_equal(&list(&["a", ""]), &list(&["a"])));
    assert!(!texts_equal(&list(&["a"]), &list(&["A"])));
    assert!(texts_equal(&list(&["", ""]), &list(&["", ""])));
}
