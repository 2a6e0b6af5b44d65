use platformer::headless::{client_count, count_or_default, DEFAULT_CLIENT_COUNT};

#[test]
fn answer_is_read_as_a_number() {
    assert_eq!(client_count("3\n"), 3);
    assert_eq!(client_count("  12  \n"), 12);
}

#[test]
fn anything_else_launches_one_client() {
    assert_eq!(client_count("abc\n"), 1);
    assert_eq!(client_count(""), 1);
    assert_eq!(client_count("-2"), 1);
    assert_eq!(DEFAULT_CLIENT_COUNT, 1);
}

#[test]
fn default_applies_only_without_a_number() {
    assert_eq!(count_or_default(Some(0)), 0);
    assert_eq!(count_or_default(Some(5)), 5);
    assert_eq!(count_or_default(None), 1);
}

#[test]
fn plus_sign_and_unicode_white_space() {
    assert_eq!(client_count("+5"), 5);
    assert_eq!(client_count("+"), 1);
    assert_eq!(client_count("\u{3000}4\u{2029}"), 4);
    assert_eq!(client_count("007"), 7);
    assert_eq!(client_count("99999999999999999999999999"), 1);
}
