use cli_table::{display_width, display_width_checked};

#[test]
fn plain_ascii_width() {
    assert_eq!(3, display_width("abc"));
    assert_eq!(0, display_width(""));
}

#[test]
fn color_escape_sequences_are_invisible() {
    let plain = "hi";
    let colorized = "\u{1b}[31mhi\u{1b}[0m";
    assert_eq!(2, display_width(colorized));
    assert_eq!(display_width(plain), display_width(colorized));
}

#[test]
fn escape_parameters_are_consumed_whole() {
    assert_eq!(4, display_width("\u{1b}[38;5;196mwide\u{1b}[m"));
}

#[test]
fn truncated_escape_does_not_crash() {
    assert_eq!(0, display_width("\u{1b}["));
    assert_eq!(1, display_width("a\u{1b}[31"));
}

#[test]
fn lone_escape_has_no_width() {
    assert_eq!(2, display_width("\u{1b}ab"));
}

#[test]
fn wide_characters_take_two_columns() {
    assert_eq!(4, display_width("\u{4f60}\u{597d}"));
}

#[test]
fn checked_width_agrees() {
    assert_eq!(Some(5), display_width_checked("h\u{e9}llo"));
}
