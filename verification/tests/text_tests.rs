use gproxy::error::ProxyError;
use gproxy::text::{
    chars_of, appended, copy_list, copy_option, find_from, join, list_contains, same_str, starts_with,
    trim_bounds, trim_start_matches, white_space,
};

fn trimmed(s: &str) -> String {
    let chars = chars_of(s);
    let (from, to) = trim_bounds(&chars, 0, chars.len());
    chars[from..to].iter().collect()
}

#[test]
fn white_space_is_what_std_calls_so() {
    for n in 0..=0x10ffffu32 {
        if let Some(c) = char::from_u32(n) {
            assert_eq!(white_space(c), c.is_whitespace());
        }
    }
}

#[test]
fn trimming_takes_white_space_off_both_ends() {
    for s in ["", " ", " a", "a ", "\u{a0} a b\t\n", "ab", "\u{3000}\u{e9}\u{2028}"] {
        assert_eq!(trimmed(s), s.trim());
    }
}

#[test]
fn prefixes_are_found_and_stripped() {
    assert!(starts_with("abc", "ab"));
    assert!(starts_with("abc", ""));
    assert!(!starts_with("ab", "abc"));
    assert!(!starts_with("abc", "b"));
    assert_eq!(trim_start_matches("aaab", "a"), "b");
    assert_eq!(trim_start_matches("ababa", "ab"), "a");
    assert_eq!(trim_start_matches("abc", "x"), "abc");
    assert_eq!(trim_start_matches("abc", ""), "abc");
}

#[test]
fn strings_are_joined() {
    let parts = |list: &[&str]| list.iter().map(|s| s.to_string()).collect::<Vec<String>>();
    assert_eq!(join(&parts(&[]), " "), "");
    assert_eq!(join(&parts(&["a"]), " "), "a");
    assert_eq!(join(&parts(&["a", "", "b"]), ", "), "a, , b");
    assert_eq!(appended("a", "b"), "ab");
}

#[test]
fn lists_are_searched_and_copied() {
    let list = vec!["a".to_string(), "b".to_string()];
    assert!(list_contains(&list, &"b".to_string()));
    assert!(!list_contains(&list, &"c".to_string()));
    assert_eq!(copy_list(&list), list);
    assert_eq!(copy_option(&Some("x".to_string())).as_deref(), Some("x"));
    assert_eq!(copy_option(&None), None);
    assert!(same_str("x", "x"));
    assert!(!same_str("x", "y"));
    assert_eq!(find_from(&chars_of("a;b;"), 2, ';'), 3);
    assert_eq!(find_from(&chars_of("ab"), 0, ';'), 2);
}

#[test]
fn proxy_errors_have_their_texts() {
    assert_eq!(ProxyError::ReadLockFailed.message(), "Failed to acquire settings read lock");
    assert_eq!(ProxyError::NoBackends.message(), "No backends configured for matched route");
    assert_eq!(
        ProxyError::NoRouteMatched.message(),
        "No route matched the request path and no fallback was configured"
    );
}
