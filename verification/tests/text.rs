use modrepo::text::{text_eq, text_le};

#[test]
fn order_is_lexicographic_by_code_point() {
    assert!(text_le("", ""));
    assert!(text_le("", "a"));
    assert!(!text_le("a", ""));
    assert!(text_le("a", "a"));
    assert!(text_le("a", "ab"));
    assert!(!text_le("ab", "a"));
    assert!(text_le("Z", "a"));
    assert!(!text_le("a", "Z"));
    assert!(text_le("z", "é"));
    assert!(text_le("é", "日"));
    assert!(!text_le("日", "é"));
}

#[test]
fn order_agrees_with_the_standard_library() {
    let words = ["", "a", "A", "ab", "b", "é", "e\u{301}", "日本", "\u{10000}", "\u{ffff}", "~"];
    for a in words {
        for b in words {
            assert_eq!(text_le(a, b), a <= b);
            assert_eq!(text_eq(a, b), a == b);
        }
    }
}
