use at_commands::error::RequestError;
use at_commands::locate::get_line_with_cursor;
use at_commands::text::prefix_chars;

#[test]
fn cursor_in_first_line() {
    let q = "ab\ncd".to_string();
    assert_eq!(get_line_with_cursor(&q, 0), Ok(("ab".to_string(), 0, 0)));
    assert_eq!(get_line_with_cursor(&q, 2), Ok(("ab".to_string(), 2, 0)));
}

#[test]
fn cursor_in_second_line() {
    let q = "ab\ncd".to_string();
    assert_eq!(get_line_with_cursor(&q, 3), Ok(("cd".to_string(), 0, 3)));
    assert_eq!(get_line_with_cursor(&q, 5), Ok(("cd".to_string(), 2, 3)));
}

#[test]
fn cursor_past_all_lines_is_out_of_range() {
    // Sum of line lengths is 4, plus one separator between the two lines:
    // any cursor greater than 5 lies in no line.
    let q = "ab\ncd".to_string();
    assert_eq!(get_line_with_cursor(&q, 6), Err(RequestError::OutOfRange));
    assert_eq!(get_line_with_cursor(&q, 100), Err(RequestError::OutOfRange));
}

#[test]
fn empty_text_has_no_line() {
    let q = "".to_string();
    assert_eq!(get_line_with_cursor(&q, 0), Err(RequestError::OutOfRange));
}

#[test]
fn text_ending_in_newline_has_no_line_past_it() {
    let q = "a\n".to_string();
    assert_eq!(get_line_with_cursor(&q, 1), Ok(("a".to_string(), 1, 0)));
    assert_eq!(get_line_with_cursor(&q, 2), Err(RequestError::OutOfRange));
}

#[test]
fn offsets_count_characters_not_bytes() {
    let q = "你好\n世界".to_string();
    assert_eq!(get_line_with_cursor(&q, 4), Ok(("世界".to_string(), 1, 3)));
}

#[test]
fn prefix_chars_keeps_the_part_left_of_the_cursor() {
    let line = "@file src".to_string();
    assert_eq!(prefix_chars(&line, 5), "@file".to_string());
    assert_eq!(prefix_chars(&line, 99), "@file src".to_string());
    assert_eq!(prefix_chars(&"你好世界".to_string(), 2), "你好".to_string());
}
