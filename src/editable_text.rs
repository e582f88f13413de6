//! An editable character buffer with an insertion point.

use crate::chars::string_of;
use crate::layout::{layout, point, position_after, unbounded, TextRange};
use vstd::prelude::*;

verus! {

/// What an editable field holds: its characters and the insertion point,
/// which lies in `0..=chars.len()` (one past the end means "append").
pub struct FieldState {
    pub chars: Seq<char>,
    pub cursor: nat,
}

impl FieldState {
    /// A field with no characters.
    pub open spec fn empty() -> FieldState {
        FieldState { chars: Seq::empty(), cursor: 0 }
    }

    pub open spec fn wf(self) -> bool {
        self.cursor <= self.chars.len()
    }

    /// `c` goes in just before the insertion point, which then moves past it.
    pub open spec fn inserted(self, c: char) -> FieldState {
        FieldState { chars: self.chars.insert(self.cursor as int, c), cursor: self.cursor + 1 }
    }

    /// The character just before the insertion point goes; nothing happens
    /// at the start of the field.
    pub open spec fn deleted(self) -> FieldState {
        if self.cursor > 0 {
            FieldState {
                chars: self.chars.remove(self.cursor - 1),
                cursor: (self.cursor - 1) as nat,
            }
        } else {
            self
        }
    }

    pub open spec fn moved_left(self) -> FieldState {
        if self.cursor > 0 {
            FieldState { cursor: (self.cursor - 1) as nat, ..self }
        } else {
            self
        }
    }

    pub open spec fn moved_right(self) -> FieldState {
        if self.cursor < self.chars.len() {
            FieldState { cursor: self.cursor + 1, ..self }
        } else {
            self
        }
    }

    /// The insertion point moved after the last character.
    pub open spec fn at_end(self) -> FieldState {
        FieldState { cursor: self.chars.len(), ..self }
    }

    /// Each character of `s` inserted in turn.
    pub open spec fn inserted_all(self, s: Seq<char>) -> FieldState
        decreases s.len(),
    {
        if s.len() == 0 {
            self
        } else {
            self.inserted_all(s.drop_last()).inserted(s.last())
        }
    }
}

/// Typing at the end of a field appends: the field holds its characters
/// followed by what was typed, and the insertion point stays at the end. Typed
/// into a new field, a sequence comes back exactly.
pub proof fn lemma_typing_at_end_appends(f: FieldState, s: Seq<char>)
    requires
        f.cursor == f.chars.len(),
    ensures
        f.inserted_all(s) == (FieldState { chars: f.chars + s, cursor: f.chars.len() + s.len() }),
        FieldState::empty().inserted_all(s).chars == s,
    decreases s.len(),
{
    if s.len() > 0 {
        lemma_typing_at_end_appends(f, s.drop_last());
        assert(f.chars + s.drop_last() + seq![s.last()] == f.chars + s);
        assert((f.chars + s.drop_last()).insert(
            (f.chars + s.drop_last()).len() as int,
            s.last(),
        ) == f.chars + s.drop_last() + seq![s.last()]);
        lemma_typing_at_end_appends(FieldState::empty(), s.drop_last());
        assert(FieldState::empty().chars + s == s);
        assert(FieldState::empty().chars + s.drop_last() == s.drop_last());
    } else {
        assert(f.chars + s == f.chars);
        assert(FieldState::empty().chars + s == s);
    }
}

/// Moving left and then right restores the insertion point, except at the
/// start of the field, where moving left does nothing; at the end, moving
/// right does nothing.
pub proof fn lemma_left_then_right(f: FieldState)
    requires
        f.wf(),
    ensures
        f.cursor > 0 ==> f.moved_left().moved_right() == f,
        f.cursor == 0 ==> f.moved_left() == f,
        f.cursor == f.chars.len() ==> f.moved_right() == f,
{
}

/// A character buffer that the user types into, with an insertion point.
#[derive(Debug, PartialEq, Eq)]
pub struct EditableText {
    cursor: usize,
    chars: Vec<char>,
}

impl View for EditableText {
    type V = FieldState;

    closed spec fn view(&self) -> FieldState {
        FieldState { chars: self.chars@, cursor: self.cursor as nat }
    }
}

impl EditableText {
    /// The insertion point never leaves the buffer.
    #[verifier::type_invariant]
    pub open spec fn inv(self) -> bool {
        self@.wf()
    }

    /// Moves the characters out, leaving an empty buffer behind, so that the
    /// invariant holds while they are changed.
    fn take_chars(&mut self) -> (r: Vec<char>)
        ensures
            r@ == old(self)@.chars,
            final(self)@ == FieldState::empty(),
    {
        self.cursor = 0;
        let mut chars = Vec::new();
        std::mem::swap(&mut chars, &mut self.chars);
        chars
    }

    pub fn new() -> (r: Self)
        ensures
            r@ == FieldState::empty(),
    {
        EditableText { cursor: 0, chars: Vec::new() }
    }

    /// Inserts `c` before the insertion point and moves past it.
    pub fn insert(&mut self, c: char)
        ensures
            final(self)@ == old(self)@.inserted(c),
    {
        proof {
            use_type_invariant(&*self);
        }
        let at = self.cursor;
        let mut chars = self.take_chars();
        chars.insert(at, c);
        assert(at < chars.len());
        *self = EditableText { cursor: at + 1, chars };
    }

    /// Removes the character before the insertion point, if there is one.
    pub fn delete(&mut self)
        ensures
            final(self)@ == old(self)@.deleted(),
    {
        proof {
            use_type_invariant(&*self);
        }
        if self.cursor > 0 {
            let at = self.cursor - 1;
            let mut chars = self.take_chars();
            chars.remove(at);
            *self = EditableText { cursor: at, chars };
        }
    }

    pub fn move_left(&mut self)
        ensures
            final(self)@ == old(self)@.moved_left(),
    {
        proof {
            use_type_invariant(&*self);
        }
        if self.cursor > 0 {
            self.cursor = self.cursor - 1;
        }
    }

    pub fn move_right(&mut self)
        ensures
            final(self)@ == old(self)@.moved_right(),
    {
        if self.cursor < self.chars.len() {
            self.cursor = self.cursor + 1;
        }
    }

    /// Moves the insertion point after the last character, so that typing
    /// resumes at the end of what was entered.
    pub fn reset_cursor(&mut self)
        ensures
            final(self)@ == old(self)@.at_end(),
    {
        self.cursor = self.chars.len();
    }

    /// The same as [`EditableText::reset_cursor`].
    pub fn cursor_to_right_edge(&mut self)
        ensures
            final(self)@ == old(self)@.at_end(),
    {
        self.reset_cursor();
    }

    /// The characters entered so far, whatever the insertion point.
    pub fn text(&self) -> (r: String)
        ensures
            r@ == self@.chars,
    {
        string_of(self.chars.as_slice())
    }

    pub fn chars(&self) -> (r: Vec<char>)
        ensures
            r@ == self@.chars,
    {
        self.chars.clone()
    }

    /// The insertion point, or `None` while the field is empty.
    pub fn cursor(&self) -> (r: Option<usize>)
        ensures
            r == (if self@.chars.len() == 0 {
                None::<usize>
            } else {
                Some(self@.cursor as usize)
            }),
    {
        if self.chars.is_empty() {
            None
        } else {
            Some(self.cursor)
        }
    }

    /// The number of characters entered.
    pub fn len(&self) -> (r: usize)
        ensures
            r == self@.chars.len(),
    {
        self.chars.len()
    }

    pub fn is_empty(&self) -> (r: bool)
        ensures
            r == (self@.chars.len() == 0),
    {
        self.chars.is_empty()
    }

    pub fn insertion_position(&self) -> (r: usize)
        ensures
            r == self@.cursor,
            r <= self@.chars.len(),
    {
        proof {
            use_type_invariant(self);
        }
        self.cursor
    }

    /// Lays the field out on rows that never wrap, with its insertion point.
    pub fn text_range(&self) -> (r: TextRange)
        ensures
            r.start == (0usize, 0usize),
            r.end == point(position_after(self@.chars, unbounded())),
            r.text@ == self@.chars,
            r.cursor_position == Some(
                point(position_after(self@.chars.take(self@.cursor as int), unbounded())),
            ),
    {
        proof {
            use_type_invariant(self);
        }
        layout(self.chars.as_slice(), Some(self.cursor), usize::MAX)
    }
}

} // verus!
