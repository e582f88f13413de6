use snipp::args::{Args, Mode};
use snipp::escapes::expand_newlines;
use snipp::snippet_engine::{Key, SnippetEngine};

#[test]
fn keys_fill_and_navigate() {
    let mut engine = SnippetEngine::new("Greeting", "Hi {}, bye {}.");
    assert_eq!("Greeting", engine.title());
    for c in "Bob".chars() {
        assert!(engine.handle_input(Key::Char(c)).is_ok());
    }
    assert!(engine.handle_input(Key::Left).is_ok());
    assert!(engine.handle_input(Key::Backspace).is_ok());
    assert!(engine.handle_input(Key::Right).is_ok());
    assert!(engine.handle_input(Key::Other).is_ok());
    assert_eq!("Hi Bb, bye .", engine.text());
    assert!(engine.handle_input(Key::Enter).is_ok());
    assert_eq!(1, engine.manager().active_index());
    assert!(engine.handle_input(Key::Char('x')).is_ok());
    assert!(engine.handle_input(Key::Esc).is_ok());
    assert_eq!(0, engine.manager().active_index());
    assert!(engine.handle_input(Key::Char('!')).is_ok());
    assert_eq!("Hi Bb!, bye x.", engine.text());
    assert!(engine.handle_input(Key::Enter).is_ok());
    assert!(engine.handle_input(Key::Enter).is_err());
    assert_eq!(1, engine.manager().active_index());
}

#[test]
fn session_without_blank_ends_at_once() {
    let mut engine = SnippetEngine::new("Plain", "no blanks");
    assert!(engine.handle_input(Key::Char('a')).is_err());
    assert_eq!("no blanks", engine.text());
}

#[test]
fn expands_newline_escapes() {
    assert_eq!("a\nb", expand_newlines("a\\nb"));
    assert_eq!("\n\n", expand_newlines("\\n\\n"));
    assert_eq!("a\\", expand_newlines("a\\"));
    assert_eq!("\\\n", expand_newlines("\\\\n"));
    assert_eq!("plain", expand_newlines("plain"));
    assert_eq!("", expand_newlines(""));
}

#[test]
fn mode_from_flags() {
    let args = |add, edit| Args { path: "s.json".to_owned(), add, edit };
    assert_eq!(Mode::Add, args(true, true).mode());
    assert_eq!(Mode::Add, args(true, false).mode());
    assert_eq!(Mode::Edit, args(false, true).mode());
    assert_eq!(Mode::Fill, args(false, false).mode());
}
