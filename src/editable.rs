//! A body span: fixed text followed by one editable field.

use crate::chars::{chars_of, string_of};
use crate::editable_text::{EditableText, FieldState};
use crate::layout::{point, position_after, position_at, unbounded};
use vstd::prelude::*;

verus! {

/// What a body span holds: its fixed lead-in and the state of its field.
pub struct BodyState {
    pub prefix: Seq<char>,
    pub field: FieldState,
}

impl BodyState {
    /// A body with the given lead-in and an empty field.
    pub open spec fn fresh(prefix: Seq<char>) -> BodyState {
        BodyState { prefix, field: FieldState::empty() }
    }

    /// The lead-in followed by what was entered into the field.
    pub open spec fn text(self) -> Seq<char> {
        self.prefix + self.field.chars
    }

    /// The characters before the insertion point: the lead-in and the part
    /// of the field before it.
    pub open spec fn before_cursor(self) -> Seq<char> {
        self.prefix + self.field.chars.take(self.field.cursor as int)
    }

    pub open spec fn with_field(self, field: FieldState) -> BodyState {
        BodyState { field, ..self }
    }
}

/// A fixed lead-in followed by an editable field.
#[derive(Debug, PartialEq, Eq)]
pub struct Editable {
    pub prefix: Vec<char>,
    pub field: EditableText,
}

impl View for Editable {
    type V = BodyState;

    open spec fn view(&self) -> BodyState {
        BodyState { prefix: self.prefix@, field: self.field@ }
    }
}

impl Editable {
    pub fn new(prefix: String) -> (r: Self)
        ensures
            r@ == BodyState::fresh(prefix@),
    {
        Editable::from_chars(chars_of(prefix.as_str()))
    }

    pub fn from_chars(prefix: Vec<char>) -> (r: Self)
        ensures
            r@ == BodyState::fresh(prefix@),
    {
        Editable { prefix, field: EditableText::new() }
    }

    pub fn insert(&mut self, c: char)
        ensures
            final(self)@ == old(self)@.with_field(old(self)@.field.inserted(c)),
    {
        self.field.insert(c);
    }

    pub fn delete(&mut self)
        ensures
            final(self)@ == old(self)@.with_field(old(self)@.field.deleted()),
    {
        self.field.delete();
    }

    pub fn move_left(&mut self)
        ensures
            final(self)@ == old(self)@.with_field(old(self)@.field.moved_left()),
    {
        self.field.move_left();
    }

    pub fn move_right(&mut self)
        ensures
            final(self)@ == old(self)@.with_field(old(self)@.field.moved_right()),
    {
        self.field.move_right();
    }

    /// The same as [`Editable::move_left`].
    pub fn cursor_left(&mut self)
        ensures
            final(self)@ == old(self)@.with_field(old(self)@.field.moved_left()),
    {
        self.move_left();
    }

    /// The same as [`Editable::move_right`].
    pub fn cursor_right(&mut self)
        ensures
            final(self)@ == old(self)@.with_field(old(self)@.field.moved_right()),
    {
        self.move_right();
    }

    pub fn reset_cursor(&mut self)
        ensures
            final(self)@ == old(self)@.with_field(old(self)@.field.at_end()),
    {
        self.field.reset_cursor();
    }

    /// The lead-in and the field's characters, in order.
    pub fn chars(&self) -> (r: Vec<char>)
        ensures
            r@ == self@.text(),
    {
        let mut all = self.prefix.clone();
        let mut entered = self.field.chars();
        all.append(&mut entered);
        all
    }

    /// The lead-in followed by what was entered; an empty field adds nothing.
    pub fn text(&self) -> (r: String)
        ensures
            r@ == self@.text(),
    {
        string_of(self.chars().as_slice())
    }

    /// Where the lead-in ends, on rows that never wrap.
    pub fn prefix_cursor_end(&self) -> (r: (usize, usize))
        ensures
            r == point(position_after(self@.prefix, unbounded())),
    {
        proof {
            assert(self.prefix@.take(self.prefix@.len() as int) == self.prefix@);
        }
        position_at(self.prefix.as_slice(), self.prefix.len(), usize::MAX)
    }

    /// Where the insertion point lands, on rows that never wrap.
    pub fn terminal_cursor_position(&self) -> (r: (usize, usize))
        ensures
            r == point(position_after(self@.before_cursor(), unbounded())),
    {
        let all = self.chars();
        let at = self.field.insertion_position();
        let after = self.field.len() - at;
        let n = all.len() - after;
        proof {
            assert(all@.take(n as int) == self@.before_cursor());
        }
        position_at(all.as_slice(), n, usize::MAX)
    }
}

} // verus!
