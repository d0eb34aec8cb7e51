use rhs::log::{color_to_ansi, done, error, format_line, info, Color};

#[test]
fn colors_have_their_escape_sequences() {
    assert_eq!(color_to_ansi(&Color::Red), "\x1b[31m");
    assert_eq!(color_to_ansi(&Color::Green), "\x1b[32m");
    assert_eq!(color_to_ansi(&Color::Blue), "\x1b[34m");
}

#[test]
fn info_line_is_blue() {
    assert_eq!(info(&String::from("hello")), "\x1b[34m[INFO] hello\x1b[0m");
}

#[test]
fn error_line_is_red() {
    assert_eq!(error(&String::from("broken")), "\x1b[31m[ERR!] broken\x1b[0m");
}

#[test]
fn done_line_is_green() {
    assert_eq!(done(&String::from("ready")), "\x1b[32m[DONE] ready\x1b[0m");
}

#[test]
fn empty_message_keeps_the_frame() {
    assert_eq!(info(&String::new()), "\x1b[34m[INFO] \x1b[0m");
}

#[test]
fn line_is_colour_tag_message_reset() {
    assert_eq!(format_line(&Color::Green, "TAG", "a [b] c"), "\x1b[32m[TAG] a [b] c\x1b[0m");
    assert_eq!(format_line(&Color::Red, "", ""), "\x1b[31m[] \x1b[0m");
}
