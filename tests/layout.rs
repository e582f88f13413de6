use snipp::layout::{layout, position_at, TextRange};
use snipp::static_text::StaticText;
use snipp::terminal_text::TerminalText;

fn chars(s: &str) -> Vec<char> {
    s.chars().collect()
}

#[test]
fn twenty_five_chars_on_rows_of_ten() {
    let stream = chars("abcdefghijklmnopqrstuvwxy");
    assert_eq!(25, stream.len());
    let range = layout(&stream, None, 10);
    assert_eq!((5, 2), range.end);
    assert_eq!((0, 0), range.start);
    assert_eq!(None, range.cursor_position);
}

#[test]
fn full_row_does_not_wrap_early() {
    let stream = chars("abcdefghij");
    assert_eq!((10, 0), layout(&stream, None, 10).end);
    let stream = chars("abcdefghijk");
    assert_eq!((1, 1), layout(&stream, None, 10).end);
}

#[test]
fn line_feed_at_full_row_ends_one_row() {
    let stream = chars("abcdefghij\nk");
    assert_eq!((1, 1), layout(&stream, None, 10).end);
    let stream = chars("ab\r\ncd");
    assert_eq!((2, 1), layout(&stream, None, 10).end);
    let stream = chars("\r");
    assert_eq!((1, 0), layout(&stream, None, 1).end);
}

#[test]
fn cursor_lands_after_preceding_chars() {
    let stream = chars("abcdefghijklm");
    let range = layout(&stream, Some(12), 10);
    assert_eq!(Some((2, 1)), range.cursor_position);
    let range = layout(&stream, Some(0), 10);
    assert_eq!(Some((0, 0)), range.cursor_position);
    let range = layout(&stream, Some(13), 10);
    assert_eq!(Some((3, 1)), range.cursor_position);
    let range = layout(&stream, Some(14), 10);
    assert_eq!(None, range.cursor_position);
    assert_eq!((2, 1), position_at(&stream, 12, 10));
}

#[test]
fn text_range_starts_at_origin() {
    let range = TextRange::new((3, 4), "abc".to_owned(), Some((1, 2)));
    assert_eq!((0, 0), range.start);
    assert_eq!((3, 4), range.end);
    assert_eq!(Some((1, 2)), range.cursor_position);
    assert_eq!("abc", range.text);
}

#[test]
fn terminal_text_ranges() {
    let fixed = TerminalText::static_text("hello\nworld");
    let range = fixed.range(80);
    assert_eq!((5, 1), range.end);
    assert_eq!(None, range.cursor_position);
    assert_eq!("hello\nworld", range.text);

    let field = TerminalText::editable();
    let range = field.range(80);
    assert_eq!((0, 0), range.end);
    assert_eq!(Some((0, 0)), range.cursor_position);

    let text = StaticText::new(chars("abc"));
    assert_eq!(chars("abc"), text.chars);
}
