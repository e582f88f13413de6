//! The spans of one template, with the span being edited.

use crate::chars::string_of;
use crate::editable_text::{EditableText, FieldState};
use crate::layout::{layout, point, position_after, TextRange};
use crate::section::{
    flatten, lemma_parse_shape, parse, placeholder_count, span_views, Section, SpanState,
};
use vstd::prelude::*;

verus! {

/// What a manager holds: the spans and the index of the active one.
pub struct ManagerState {
    pub sections: Seq<SpanState>,
    pub active: nat,
}

impl ManagerState {
    /// The state right after `template` is parsed.
    pub open spec fn start(template: Seq<char>) -> ManagerState {
        ManagerState { sections: parse(template), active: 0 }
    }

    /// Bodies come first and one tail last; the active span is a body
    /// whenever there is one.
    pub open spec fn wf(self) -> bool {
        &&& self.sections.len() >= 1
        &&& self.sections.last() is Tail
        &&& forall|i: int| 0 <= i < self.sections.len() - 1 ==> #[trigger] self.sections[i] is Body
        &&& self.active < self.sections.len()
        &&& self.sections.len() >= 2 ==> self.active + 1 < self.sections.len()
    }

    /// The field of the active span, unless that span is the tail.
    pub open spec fn active_field(self) -> Option<FieldState> {
        if self.active < self.sections.len() && self.sections[self.active as int] is Body {
            Some(self.sections[self.active as int]->Body_0.field)
        } else {
            None
        }
    }

    pub open spec fn with_active_field(self, field: FieldState) -> ManagerState {
        if self.active < self.sections.len() {
            ManagerState {
                sections: self.sections.update(
                    self.active as int,
                    self.sections[self.active as int].with_field(field),
                ),
                ..self
            }
        } else {
            self
        }
    }

    /// Putting back the active field as it is changes nothing.
    pub proof fn lemma_same_field(self)
        requires
            self.active_field() is Some,
        ensures
            self.with_active_field(self.active_field().unwrap()) == self,
    {
        assert(self.with_active_field(self.active_field().unwrap()).sections =~= self.sections);
    }

    /// Moving on would not land on the tail or past it.
    pub open spec fn can_advance(self) -> bool {
        self.active + 2 < self.sections.len()
    }

    /// The next span becomes active; the field left behind has its insertion
    /// point moved to its end.
    pub open spec fn advanced(self) -> ManagerState {
        let left = match self.active_field() {
            Some(f) => self.with_active_field(f.at_end()),
            None => self,
        };
        ManagerState { active: self.active + 1, ..left }
    }

    /// `advanced` applied `n` times.
    pub open spec fn advanced_times(self, n: nat) -> ManagerState
        decreases n,
    {
        if n == 0 {
            self
        } else {
            self.advanced_times((n - 1) as nat).advanced()
        }
    }

    pub open spec fn retreated(self) -> ManagerState {
        if self.active > 0 {
            ManagerState { active: (self.active - 1) as nat, ..self }
        } else {
            self
        }
    }

    /// The finished text: every span's characters, in order.
    pub open spec fn text(self) -> Seq<char> {
        flatten(self.sections)
    }

    /// Where the insertion point of the active field stands in `text()`:
    /// the length of all spans before the active one, plus the active span's
    /// lead-in, plus the insertion point within the field.
    pub open spec fn cursor_offset(self) -> Option<nat> {
        match self.active_field() {
            Some(f) => Some(
                flatten(self.sections.take(self.active as int)).len()
                    + self.sections[self.active as int]->Body_0.prefix.len() + f.cursor,
            ),
            None => None,
        }
    }
}

proof fn lemma_advanced_times(s: ManagerState, n: nat)
    ensures
        s.advanced_times(n).sections.len() == s.sections.len(),
        s.advanced_times(n).active == s.active + n,
    decreases n,
{
    if n > 0 {
        lemma_advanced_times(s, (n - 1) as nat);
    }
}

/// From the start of a template with `k` blanks, moving on succeeds `k - 1`
/// times in a row, reaching the last blank, and the attempt after that fails
/// (which, by `next_section`, changes nothing). With no blank, the first
/// attempt fails.
pub proof fn lemma_advance_exhausts(t: Seq<char>)
    ensures
        forall|j: nat|
            j + 1 < placeholder_count(t) ==> #[trigger] ManagerState::start(t).advanced_times(
                j,
            ).can_advance(),
        placeholder_count(t) >= 1 ==> {
            let last = ManagerState::start(t).advanced_times((placeholder_count(t) - 1) as nat);
            last.active + 1 == placeholder_count(t) && !last.can_advance()
        },
        placeholder_count(t) == 0 ==> !ManagerState::start(t).can_advance(),
{
    lemma_parse_shape(t);
    let s = ManagerState::start(t);
    assert forall|j: nat| j + 1 < placeholder_count(t) implies #[trigger] s.advanced_times(
        j,
    ).can_advance() by {
        lemma_advanced_times(s, j);
    }
    if placeholder_count(t) >= 1 {
        lemma_advanced_times(s, (placeholder_count(t) - 1) as nat);
    }
}

/// The spans of a template being filled in, and which one is active.
pub struct SectionManager {
    sections: Vec<Section>,
    active_index: usize,
}

impl View for SectionManager {
    type V = ManagerState;

    closed spec fn view(&self) -> ManagerState {
        ManagerState { sections: span_views(self.sections@), active: self.active_index as nat }
    }
}

broadcast proof fn lemma_views_update(s: Seq<Section>, i: int, x: Section)
    requires
        0 <= i < s.len(),
    ensures
        #[trigger] span_views(s.update(i, x)) == span_views(s).update(i, x@),
{
    assert(span_views(s.update(i, x)) =~= span_views(s).update(i, x@));
}

proof fn lemma_flatten_take(s: Seq<SpanState>, i: int)
    requires
        0 <= i < s.len(),
    ensures
        flatten(s.take(i + 1)) == flatten(s.take(i)) + s[i].text(),
{
    assert(s.take(i + 1).drop_last() == s.take(i));
}

impl SectionManager {
    /// Parses `snippet`; the first span is active.
    pub fn new(snippet: &str) -> (r: Self)
        ensures
            r@ == ManagerState::start(snippet@),
            r@.wf(),
    {
        let sections = Section::parse_content(snippet);
        proof {
            lemma_parse_shape(snippet@);
        }
        SectionManager { sections, active_index: 0 }
    }

    pub fn sections(&self) -> (r: &Vec<Section>)
        ensures
            span_views(r@) == self@.sections,
    {
        &self.sections
    }

    pub fn active_index(&self) -> (r: usize)
        ensures
            r == self@.active,
    {
        self.active_index
    }

    /// The field of the active span, to edit; `None` once the active span is
    /// the tail, when there is nothing left to fill in.
    pub fn active_editable(&mut self) -> (r: Option<&mut EditableText>)
        ensures
            old(self)@.active_field() is None ==> r is None && final(self)@ == old(self)@,
            old(self)@.active_field() is Some ==> r is Some,
            r is Some ==> (*r.unwrap())@ == old(self)@.active_field().unwrap(),
            r is Some ==> final(self)@ == old(self)@.with_active_field((*final(r.unwrap()))@),
            old(self)@.wf() ==> final(self)@.wf(),
    {
        if self.active_index >= self.sections.len() {
            return None;
        }
        let i = self.active_index;
        if let Section::Tail(_) = &self.sections[i] {
            return None;
        }
        broadcast use lemma_views_update;
        match &mut self.sections[i] {
            Section::Body(e) => Some(&mut e.field),
            Section::Tail(_) => None,
        }
    }

    /// Moves to the next span, after moving the insertion point of the field
    /// being left to its end. Fails, changing nothing, when that would land
    /// on the tail or past it: every blank has been visited.
    pub fn next_section(&mut self) -> (r: Result<(), String>)
        ensures
            old(self)@.can_advance() ==> r is Ok && final(self)@ == old(self)@.advanced(),
            !old(self)@.can_advance() ==> r is Err && final(self)@ == old(self)@,
            old(self)@.wf() ==> final(self)@.wf(),
    {
        if self.sections.len() >= 2 && self.active_index < self.sections.len() - 2 {
            if let Some(e) = self.active_editable() {
                e.reset_cursor();
            }
            self.active_index = self.active_index + 1;
            Ok(())
        } else {
            Err("there are no more sections".to_owned())
        }
    }

    /// Moves to the previous span; nothing happens at the first one.
    pub fn previous_section(&mut self)
        ensures
            final(self)@ == old(self)@.retreated(),
            old(self)@.wf() ==> final(self)@.wf(),
    {
        if self.active_index > 0 {
            self.active_index = self.active_index - 1;
        }
    }

    /// The characters of all spans and where the active insertion point
    /// stands among them.
    fn stream(&self) -> (r: (Vec<char>, Option<usize>))
        ensures
            r.0@ == self@.text(),
            r.1 is Some <==> self@.cursor_offset() is Some,
            r.1 is Some ==> r.1.unwrap() == self@.cursor_offset().unwrap() && r.1.unwrap()
                <= r.0@.len(),
    {
        let ghost spans = self@.sections;
        let ghost target = self@.cursor_offset();
        let mut out: Vec<char> = Vec::new();
        let mut cursor: Option<usize> = None;
        let mut i: usize = 0;
        while i < self.sections.len()
            invariant
                spans == self@.sections,
                target == self@.cursor_offset(),
                i <= spans.len(),
                out@ == flatten(spans.take(i as int)),
                cursor is Some <==> (target is Some && self.active_index < i),
                cursor is Some ==> cursor.unwrap() == target.unwrap() && cursor.unwrap()
                    <= out@.len(),
            decreases spans.len() - i,
        {
            let section = &self.sections[i];
            proof {
                lemma_flatten_take(spans, i as int);
                assert(spans[i as int] == section@);
            }
            let mut chars = section.chars();
            out.append(&mut chars);
            if i == self.active_index {
                if let Section::Body(e) = section {
                    let at = e.field.insertion_position();
                    let after = e.field.len() - at;
                    cursor = Some(out.len() - after);
                }
            }
            i = i + 1;
        }
        assert(spans.take(spans.len() as int) == spans);
        (out, cursor)
    }

    /// The finished text: every span's characters, in order; a field left
    /// empty adds nothing.
    pub fn text(&self) -> (r: String)
        ensures
            r@ == self@.text(),
    {
        let (chars, _) = self.stream();
        string_of(chars.as_slice())
    }

    /// Where the active insertion point stands in the finished text, or
    /// `None` when the active span is the tail.
    pub fn cursor_absolute_position(&self) -> (r: Option<usize>)
        ensures
            r is Some <==> self@.cursor_offset() is Some,
            r is Some ==> r.unwrap() == self@.cursor_offset().unwrap(),
    {
        let (_, cursor) = self.stream();
        cursor
    }

    /// Lays out the finished text on rows `width` wide, with the active
    /// insertion point.
    pub fn layout(&self, width: usize) -> (r: TextRange)
        ensures
            r.start == (0usize, 0usize),
            r.end == point(position_after(self@.text(), width as nat)),
            r.text@ == self@.text(),
            r.cursor_position == (match self@.cursor_offset() {
                Some(p) => Some(point(position_after(self@.text().take(p as int), width as nat))),
                None => None,
            }),
    {
        let (chars, cursor) = self.stream();
        layout(chars.as_slice(), cursor, width)
    }
}

} // verus!
