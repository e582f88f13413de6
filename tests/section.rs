use snipp::editable_text::EditableText;
use snipp::section::Section;

fn body(s: &str) -> Section {
    Section::body(s.chars().collect())
}

fn tail(s: &str) -> Section {
    Section::tail(s.chars().collect())
}

fn fill_editable_suffix(section: &mut Section, string: &str) {
    if let Section::Body(editable) = section {
        string.chars().for_each(|c| editable.insert(c));
    }
}

#[test]
fn section_return_string_as_section_tail() {
    let sections = Section::parse_content("text");
    assert_eq!(sections.first().unwrap(), &tail("text"));
}

#[test]
fn always_contains_tail() {
    let sections = Section::parse_content("");
    assert_eq!(sections.first().unwrap(), &tail(""));
}

#[test]
fn section_return_correct_section() {
    let sections = Section::parse_content("Content {}");
    assert_eq!(2, sections.len());
    assert_eq!(sections.first().unwrap(), &body("Content "));
    assert_eq!(sections.get(1).unwrap(), &tail(""));
}

#[test]
fn parse_multiple_sections_including_tail() {
    let sections = Section::parse_content("Hello content {}, another{} tail moving forward.");
    let first = sections.first().unwrap();
    let second = sections.get(1).unwrap();
    let tail_section = sections.get(2).unwrap();
    assert_eq!(first, &body("Hello content "));
    assert_eq!(second, &body(", another"));
    assert_eq!(tail_section, &tail(" tail moving forward."));
}

#[test]
fn get_full_text_tail() {
    let section = tail("Hello this");
    assert_eq!(section.text(), "Hello this".to_owned());
}

#[test]
fn get_full_text_editable() {
    let mut section = body("Hello this ");
    fill_editable_suffix(&mut section, "suffix here");
    assert_eq!(section.text(), "Hello this suffix here".to_owned());
}

#[test]
fn creates_correct_body() {
    let section = body("Hello this");
    match &section {
        Section::Body(editable) => {
            assert_eq!(editable.prefix, "Hello this".chars().collect::<Vec<char>>());
            assert_eq!(editable.field, EditableText::new());
        }
        Section::Tail(_) => panic!("expected a body"),
    }
}

#[test]
fn creates_tail() {
    let section = tail("Hello world");
    match &section {
        Section::Tail(text) => {
            assert_eq!(text.chars, "Hello world".chars().collect::<Vec<char>>());
        }
        Section::Body(_) => panic!("expected a tail"),
    }
}

#[test]
fn final_text() {
    let mut section = body("Hello");
    let mut editable = EditableText::new();
    " World".chars().for_each(|c| editable.insert(c));
    if let Section::Body(body) = &mut section {
        body.field = editable;
    }
    assert_eq!("Hello World".to_owned(), section.text());
}

#[test]
fn hello_template_has_one_body_and_empty_tail() {
    let mut sections = Section::parse_content("Hello {}");
    assert_eq!(sections, vec![body("Hello "), tail("")]);
    fill_editable_suffix(&mut sections[0], "World");
    let text: String = sections.iter().map(|s| s.text()).collect();
    assert_eq!("Hello World", text);
}

#[test]
fn lone_placeholder_vanishes() {
    let sections = Section::parse_content("{}");
    assert_eq!(sections, vec![body(""), tail("")]);
    let text: String = sections.iter().map(|s| s.text()).collect();
    assert_eq!("", text);
}

#[test]
fn three_spans_for_two_placeholders() {
    let mut sections = Section::parse_content("A{}B{}C");
    assert_eq!(sections, vec![body("A"), body("B"), tail("C")]);
    fill_editable_suffix(&mut sections[0], "1");
    fill_editable_suffix(&mut sections[1], "2");
    let text: String = sections.iter().map(|s| s.text()).collect();
    assert_eq!("A1B2C", text);
}

#[test]
fn carriage_return_becomes_line_feed() {
    let sections = Section::parse_content("line1\rline2");
    assert_eq!(sections, vec![tail("line1\nline2")]);
    assert_eq!(sections[0].chars()[5], '\n');
}

#[test]
fn adjacent_placeholders_give_empty_prefixes() {
    let sections = Section::parse_content("{}{}");
    assert_eq!(sections, vec![body(""), body(""), tail("")]);
}

#[test]
fn stray_braces_stay_text() {
    let sections = Section::parse_content("}a{ b} {{}x}");
    assert_eq!(sections, vec![body("}a{ b} {"), tail("x}")]);
    let sections = Section::parse_content("{ }");
    assert_eq!(sections, vec![tail("{ }")]);
}

#[test]
fn placeholder_count_matches_bodies() {
    let template = "a{}b{}{}c{d}e{";
    let sections = Section::parse_content(template);
    assert_eq!(4, sections.len());
    assert!(sections[..3].iter().all(|s| matches!(s, Section::Body(_))));
    assert!(matches!(sections[3], Section::Tail(_)));
}

#[test]
fn bodies_hold_text_between_pairs() {
    let template = "a\r{}{b}}{{}x{}\r";
    let normalized = template.replace('\r', "\n");
    let segments: Vec<&str> = normalized.split("{}").collect();
    let sections = Section::parse_content(template);
    assert_eq!(segments.len(), sections.len());
    for (i, segment) in segments.iter().enumerate() {
        let expected = if i + 1 < segments.len() { body(segment) } else { tail(segment) };
        assert_eq!(expected, sections[i]);
    }
}
