use grok_cli::markdown::{wrap_code, wrap_text};

#[test]
fn test_wrap_text() {
    let text = "hello world this is a test";
    let wrapped = wrap_text(text, 10);
    assert_eq!(wrapped[0], "hello");
    assert_eq!(wrapped[1], "world this");
}

#[test]
fn wrap_text_edges() {
    assert!(wrap_text("", 10).is_empty());
    assert_eq!(wrap_text("hello world this is a test", 10), vec!["hello", "world this", "is a test"]);
    assert_eq!(wrap_text("abcdefghijkl x", 5), vec!["", "abcdefghijkl", "x"]);
}

#[test]
fn wrap_code_cuts_fixed_width() {
    assert_eq!(wrap_code("abcdefg", 3), vec!["abc", "def", "g"]);
    assert_eq!(wrap_code("", 3), vec![""]);
}
