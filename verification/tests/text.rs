use github_audit::text::{contains, decimal_text};

#[test]
fn writes_numbers_in_decimal() {
    for n in [0, 7, 10, 99, 100, 1_234_567_890, u64::MAX] {
        assert_eq!(decimal_text(n), n.to_string());
    }
}

#[test]
fn finds_a_text_in_another() {
    for (text, pattern) in [
        ("", ""),
        ("", "a"),
        ("a", ""),
        ("abc", "abc"),
        ("abc", "abcd"),
        ("aab", "ab"),
        ("ab", "ba"),
        ("xyz", "z"),
        ("d\u{e9}j\u{e0} vu", "\u{e0} v"),
        ("d\u{e9}j\u{e0} vu", "e"),
        ("API rate limit exceeded for user 1.", "API rate limit exceeded"),
        ("Api rate limit exceeded", "API rate limit exceeded"),
    ] {
        assert_eq!(contains(text, pattern), text.contains(pattern));
    }
}
