//! A single run of terminal text: an editable field or fixed text.

use crate::chars::chars_of;
use crate::editable_text::EditableText;
use crate::layout::{layout, point, position_after, TextRange};
use crate::static_text::StaticText;
use vstd::prelude::*;

verus! {

pub enum TerminalText {
    Editable(EditableText),
    StaticText(StaticText),
}

impl TerminalText {
    /// The run's characters.
    pub open spec fn spec_chars(&self) -> Seq<char> {
        match self {
            TerminalText::Editable(ed) => ed@.chars,
            TerminalText::StaticText(text) => text@,
        }
    }

    /// The run's insertion point: a field has one, fixed text has none.
    pub open spec fn spec_cursor(&self) -> Option<nat> {
        match self {
            TerminalText::Editable(ed) => Some(ed@.cursor),
            TerminalText::StaticText(_) => None,
        }
    }

    /// An empty field.
    pub fn editable() -> (r: Self)
        ensures
            r.spec_chars().len() == 0,
            r.spec_cursor() == Some(0nat),
    {
        TerminalText::Editable(EditableText::new())
    }

    pub fn static_text(text: &str) -> (r: Self)
        ensures
            r.spec_chars() == text@,
            r.spec_cursor() is None,
    {
        TerminalText::StaticText(StaticText::new(chars_of(text)))
    }

    fn chars(&self) -> (r: Vec<char>)
        ensures
            r@ == self.spec_chars(),
    {
        match self {
            TerminalText::Editable(ed) => ed.chars(),
            TerminalText::StaticText(text) => text.chars.clone(),
        }
    }

    /// Lays the run out on rows `width` wide, from the origin.
    pub fn range(&self, width: u16) -> (r: TextRange)
        ensures
            r.start == (0usize, 0usize),
            r.end == point(position_after(self.spec_chars(), width as nat)),
            r.text@ == self.spec_chars(),
            r.cursor_position == (match self.spec_cursor() {
                Some(p) => Some(point(position_after(self.spec_chars().take(p as int), width as nat))),
                None => None,
            }),
    {
        let chars = self.chars();
        let cursor = match self {
            TerminalText::Editable(ed) => Some(ed.insertion_position()),
            TerminalText::StaticText(_) => None,
        };
        layout(chars.as_slice(), cursor, width as usize)
    }
}

} // verus!
