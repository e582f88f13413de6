//! An editing session: a titled template and the decisions taken on each key.

use crate::editable_text::FieldState;
use crate::section_manager::{ManagerState, SectionManager};
use vstd::prelude::*;

verus! {

/// A key press, as far as the session cares.
#[derive(Clone, Copy, Debug, PartialEq, Eq)]
pub enum Key {
    Char(char),
    Left,
    Right,
    Backspace,
    /// Back to the previous blank.
    Esc,
    /// On to the next blank.
    Enter,
    Other,
}

/// What `key` does to the active field.
pub open spec fn edited(f: FieldState, key: Key) -> FieldState {
    match key {
        Key::Char(c) => f.inserted(c),
        Key::Left => f.moved_left(),
        Key::Right => f.moved_right(),
        Key::Backspace => f.deleted(),
        _ => f,
    }
}

/// Whether the session goes on after `key`, and the state it leaves. It
/// ends, changing nothing, when there is no field to edit or when `Enter`
/// finds no further blank.
pub open spec fn after_key(m: ManagerState, key: Key) -> (bool, ManagerState) {
    match m.active_field() {
        None => (false, m),
        Some(f) => match key {
            Key::Esc => (true, m.retreated()),
            Key::Enter => if m.can_advance() {
                (true, m.advanced())
            } else {
                (false, m)
            },
            _ => (true, m.with_active_field(edited(f, key))),
        },
    }
}

/// What a session holds: its title and its spans.
pub struct EngineState {
    pub title: Seq<char>,
    pub manager: ManagerState,
}

pub struct SnippetEngine {
    title: String,
    manager: SectionManager,
}

impl View for SnippetEngine {
    type V = EngineState;

    closed spec fn view(&self) -> EngineState {
        EngineState { title: self.title@, manager: self.manager@ }
    }
}

impl SnippetEngine {
    pub fn new(title: &str, snippet: &str) -> (r: Self)
        ensures
            r@.title == title@,
            r@.manager == ManagerState::start(snippet@),
    {
        SnippetEngine { title: title.to_owned(), manager: SectionManager::new(snippet) }
    }

    pub fn title(&self) -> (r: &str)
        ensures
            r@ == self@.title,
    {
        self.title.as_str()
    }

    pub fn manager(&self) -> (r: &SectionManager)
        ensures
            r@ == self@.manager,
    {
        &self.manager
    }

    /// Applies `key`. `Err` means the session is over: there is no field to
    /// edit, or `Enter` was pressed on the last blank.
    pub fn handle_input(&mut self, key: Key) -> (r: Result<(), String>)
        ensures
            r is Ok == after_key(old(self)@.manager, key).0,
            final(self)@ == (EngineState {
                title: old(self)@.title,
                manager: after_key(old(self)@.manager, key).1,
            }),
    {
        let ghost m = self.manager@;
        let editor = match self.manager.active_editable() {
            Some(ed) => ed,
            None => return Err("no field left to edit".to_owned()),
        };
        proof {
            m.lemma_same_field();
        }
        match key {
            Key::Char(c) => editor.insert(c),
            Key::Left => editor.move_left(),
            Key::Right => editor.move_right(),
            Key::Backspace => editor.delete(),
            Key::Esc => self.manager.previous_section(),
            Key::Enter => self.manager.next_section()?,
            Key::Other => {},
        }
        Ok(())
    }

    /// The finished text.
    pub fn text(&self) -> (r: String)
        ensures
            r@ == self@.manager.text(),
    {
        self.manager.text()
    }
}

} // verus!
