use snipp::section::Section;
use snipp::section_manager::SectionManager;

fn section_body(str: &str) -> Section {
    Section::body(str.chars().collect())
}

fn section_tail(str: &str) -> Section {
    Section::tail(str.chars().collect())
}

#[test]
fn section_manager_return_string_as_section_tail() {
    let manager = SectionManager::new("text");
    assert_eq!(1, manager.sections().len());
    let section = manager.sections().first().unwrap();
    let expected = section_tail("text");
    assert_eq!(section, &expected);
}

#[test]
fn contains_tail_even_if_empty() {
    let manager = SectionManager::new("");
    assert_eq!(1, manager.sections().len());
    let section = manager.sections().first().unwrap();
    let expected = section_tail("");
    assert_eq!(section, &expected);
}

#[test]
fn section_manager_return_correct_section() {
    let manager = SectionManager::new("Content {}");
    assert_eq!(2, manager.sections().len());
    let body = manager.sections().first().unwrap();
    let tail = manager.sections().get(1).unwrap();

    assert_eq!(body, &section_body("Content "));
    assert_eq!(tail, &section_tail(""));
}

#[test]
fn parse_multiple_sections() {
    let manager = SectionManager::new("Hello {}, another{} tail moving forward.");
    assert_eq!(3, manager.sections().len());

    let first = manager.sections().first().unwrap();
    let second = manager.sections().get(1).unwrap();
    let tail = manager.sections().get(2).unwrap();

    assert_eq!(first, &section_body("Hello "));
    assert_eq!(second, &section_body(", another"));
    assert_eq!(tail, &section_tail(" tail moving forward."));
}

#[test]
fn return_finalized_text() {
    let mut manager = SectionManager::new("Hello {}");
    let editable = manager.active_editable().unwrap();
    "World".chars().for_each(|c| editable.insert(c));
    assert_eq!("Hello World".to_owned(), manager.text());
}

#[test]
fn replaces_windows_newline() {
    let manager = SectionManager::new("Content\r {} \r new line \r");
    assert_eq!(2, manager.sections().len());
    let body = manager.sections().first().unwrap();
    let tail = manager.sections().get(1).unwrap();

    assert_eq!(body, &section_body("Content\n "));
    assert_eq!(tail, &section_tail(" \n new line \n"));
}

#[test]
fn next_section() {
    let mut manager = SectionManager::new("text {} more {}");
    assert_eq!(manager.active_index(), 0);
    assert!(manager.next_section().is_ok());
    assert_eq!(manager.active_index(), 1);
    assert!(manager.next_section().is_err());
    assert_eq!(manager.active_index(), 1);
}

#[test]
fn previous_section() {
    let mut manager = SectionManager::new("text {} more {}");
    assert_eq!(manager.active_index(), 0);
    let _ = manager.next_section();
    assert_eq!(manager.active_index(), 1);
    manager.previous_section();
    assert_eq!(manager.active_index(), 0);
    manager.previous_section();
    assert_eq!(manager.active_index(), 0);
}

#[test]
fn section_resets_cursor_position_on_change() {
    let mut manager = SectionManager::new("text {} more {}");
    manager.active_editable().unwrap().insert('s');
    manager.active_editable().unwrap().move_left();
    assert_eq!(manager.active_editable().unwrap().insertion_position(), 0);
    let _ = manager.next_section();
    manager.previous_section();
    assert_eq!(manager.active_editable().unwrap().insertion_position(), 1);
}

#[test]
fn fills_hello_world() {
    let mut manager = SectionManager::new("Hello {}");
    assert_eq!(manager.sections(), &vec![section_body("Hello "), section_tail("")]);
    for c in "World".chars() {
        manager.active_editable().unwrap().insert(c);
    }
    assert_eq!("Hello World", manager.text());
}

#[test]
fn untouched_placeholder_vanishes() {
    let manager = SectionManager::new("{}");
    assert_eq!("", manager.text());
}

#[test]
fn fills_two_blanks_in_order() {
    let mut manager = SectionManager::new("A{}B{}C");
    assert_eq!(
        manager.sections(),
        &vec![section_body("A"), section_body("B"), section_tail("C")]
    );
    manager.active_editable().unwrap().insert('1');
    assert!(manager.next_section().is_ok());
    manager.active_editable().unwrap().insert('2');
    assert_eq!("A1B2C", manager.text());
}

#[test]
fn normalizes_carriage_return() {
    let manager = SectionManager::new("line1\rline2");
    assert_eq!(manager.sections(), &vec![section_tail("line1\nline2")]);
    assert_eq!("line1\nline2", manager.text());
}

#[test]
fn advance_stops_before_tail() {
    let mut manager = SectionManager::new("a{}b{}c{}d{}");
    for expected in 1..4 {
        assert!(manager.next_section().is_ok());
        assert_eq!(expected, manager.active_index());
    }
    assert!(manager.next_section().is_err());
    assert_eq!(3, manager.active_index());

    let mut no_blank = SectionManager::new("plain");
    assert!(no_blank.next_section().is_err());
    assert_eq!(0, no_blank.active_index());
    assert!(no_blank.active_editable().is_none());
}

#[test]
fn failed_advance_keeps_cursor() {
    let mut manager = SectionManager::new("x{}");
    manager.active_editable().unwrap().insert('a');
    manager.active_editable().unwrap().insert('b');
    manager.active_editable().unwrap().move_left();
    assert!(manager.next_section().is_err());
    assert_eq!(1, manager.active_editable().unwrap().insertion_position());
}

#[test]
fn cursor_position_counts_spans_before() {
    let mut manager = SectionManager::new("ab{}cd{}e");
    assert_eq!(Some(2), manager.cursor_absolute_position());
    manager.active_editable().unwrap().insert('X');
    manager.active_editable().unwrap().insert('Y');
    manager.active_editable().unwrap().move_left();
    assert_eq!(Some(3), manager.cursor_absolute_position());
    assert!(manager.next_section().is_ok());
    // "abXY" then "cd": the insertion point follows the second lead-in.
    assert_eq!(Some(6), manager.cursor_absolute_position());

    let plain = SectionManager::new("only text");
    assert_eq!(None, plain.cursor_absolute_position());
}

#[test]
fn layout_wraps_and_places_cursor() {
    let mut manager = SectionManager::new("0123456789abcdefghij{}");
    for c in "ABCDE".chars() {
        manager.active_editable().unwrap().insert(c);
    }
    let range = manager.layout(10);
    assert_eq!((0, 0), range.start);
    assert_eq!((5, 2), range.end);
    assert_eq!(Some((5, 2)), range.cursor_position);
    assert_eq!("0123456789abcdefghijABCDE".to_owned(), range.text);

    let lines = SectionManager::new("ab\ncd{}");
    let range = lines.layout(10);
    assert_eq!((2, 1), range.end);
    assert_eq!(Some((2, 1)), range.cursor_position);
}
