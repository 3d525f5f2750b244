use npm_bumpall::npm_cmd::prefix_with_tilde;

#[test]
fn prefixes_strings() {
    assert_eq!(prefix_with_tilde("hello"), String::from("~hello"));
    assert_eq!(prefix_with_tilde("123456"), String::from("~123456"));
    assert_eq!(prefix_with_tilde("@something"), String::from("~@something"));
    assert_eq!(prefix_with_tilde(""), String::from("~"));
}

#[test]
fn handles_empty() {
    assert_eq!(prefix_with_tilde(""), String::from("~"));
}

#[test]
fn replaces_first_carat() {
    assert_eq!(prefix_with_tilde("^something"), String::from("~something"));
    assert_eq!(prefix_with_tilde("^@package"), String::from("~@package"));
    assert_eq!(
        prefix_with_tilde("^^fdjshafda"),
        String::from("~^fdjshafda")
    );
    assert_eq!(prefix_with_tilde("^1234"), String::from("~1234"));
}

#[test]
fn keeps_a_caret_that_is_not_first() {
    assert_eq!(prefix_with_tilde("1.^2"), String::from("~1.^2"));
    assert_eq!(prefix_with_tilde("^"), String::from("~"));
}

#[test]
fn prefixes_text_beyond_ascii() {
    assert_eq!(prefix_with_tilde("^\u{e9}t\u{e9}"), String::from("~\u{e9}t\u{e9}"));
    assert_eq!(prefix_with_tilde("\u{8d8a}1"), String::from("~\u{8d8a}1"));
}
