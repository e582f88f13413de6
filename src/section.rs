//! Spans of a template and the parser that splits a template into them.
//!
//! Each `{}` in a template marks a blank. Parsing yields one body span per
//! blank, holding the text since the previous blank as its lead-in, and then
//! exactly one tail span with the text after the last blank (possibly empty).
//! A carriage return becomes a line feed; a `{` or `}` that is not part of a
//! `{}` pair stays as ordinary text.

use crate::chars::{chars_of, string_of};
use crate::editable::{BodyState, Editable};
use crate::editable_text::FieldState;
use crate::static_text::StaticText;
use vstd::prelude::*;

verus! {

/// What a span holds.
pub enum SpanState {
    Body(BodyState),
    Tail(Seq<char>),
}

impl SpanState {
    /// The span's characters: a body's lead-in and entered text, or the tail.
    pub open spec fn text(self) -> Seq<char> {
        match self {
            SpanState::Body(b) => b.text(),
            SpanState::Tail(chars) => chars,
        }
    }

    /// The span with its field replaced; a tail has none and stays as it is.
    pub open spec fn with_field(self, field: FieldState) -> SpanState {
        match self {
            SpanState::Body(b) => SpanState::Body(b.with_field(field)),
            SpanState::Tail(_) => self,
        }
    }
}

pub open spec fn normalized(c: char) -> char {
    if c == '\r' {
        '\n'
    } else {
        c
    }
}

pub open spec fn ends_with_placeholder(t: Seq<char>) -> bool {
    t.len() >= 2 && t[t.len() - 2] == '{' && t[t.len() - 1] == '}'
}

/// The spans of template `t`. A template that ends in `{}` gives the spans of
/// what precedes the `{}`, with its trailing text turned into the lead-in of
/// a body, and then an empty tail. Any other last character, normalized,
/// extends the trailing text of what precedes it.
pub open spec fn parse(t: Seq<char>) -> Seq<SpanState>
    decreases t.len(),
{
    if t.len() == 0 {
        seq![SpanState::Tail(Seq::empty())]
    } else if ends_with_placeholder(t) {
        let rest = parse(t.take(t.len() - 2));
        rest.drop_last().push(SpanState::Body(BodyState::fresh(rest.last().text()))).push(
            SpanState::Tail(Seq::empty()),
        )
    } else {
        let rest = parse(t.drop_last());
        rest.drop_last().push(SpanState::Tail(rest.last().text().push(normalized(t.last()))))
    }
}

/// The number of `{}` pairs in `t`.
pub open spec fn placeholder_count(t: Seq<char>) -> nat
    decreases t.len(),
{
    if t.len() < 2 {
        0
    } else if ends_with_placeholder(t) {
        placeholder_count(t.drop_last()) + 1
    } else {
        placeholder_count(t.drop_last())
    }
}

/// The template with every `{}` pair taken out and carriage returns turned
/// into line feeds.
pub open spec fn without_placeholders(t: Seq<char>) -> Seq<char>
    decreases t.len(),
{
    if t.len() == 0 {
        Seq::empty()
    } else if ends_with_placeholder(t) {
        without_placeholders(t.take(t.len() - 2))
    } else {
        without_placeholders(t.drop_last()).push(normalized(t.last()))
    }
}

/// The characters of all spans, in order.
pub open spec fn flatten(spans: Seq<SpanState>) -> Seq<char>
    decreases spans.len(),
{
    if spans.len() == 0 {
        Seq::empty()
    } else {
        flatten(spans.drop_last()) + spans.last().text()
    }
}

/// The views of a sequence of spans.
pub open spec fn span_views(s: Seq<Section>) -> Seq<SpanState> {
    s.map_values(|x: Section| x@)
}

/// The trailing text of parsed spans.
pub open spec fn trailing(spans: Seq<SpanState>) -> Seq<char> {
    spans.last().text()
}

/// The last span of a parse is a tail, and it ends in `{` exactly when the
/// template does.
proof fn lemma_parse_trailing(t: Seq<char>)
    ensures
        parse(t).len() >= 1,
        parse(t).last() is Tail,
        (trailing(parse(t)).len() > 0 && trailing(parse(t)).last() == '{') <==> (t.len() > 0
            && t.last() == '{'),
{
    if t.len() > 0 && !ends_with_placeholder(t) {
        assert(parse(t).last() == SpanState::Tail(
            trailing(parse(t.drop_last())).push(normalized(t.last())),
        ));
    }
}

/// How the parse grows by one character.
proof fn lemma_parse_push(t: Seq<char>, c: char)
    ensures
        parse(t.push(c)) == if c == '}' && trailing(parse(t)).len() > 0 && trailing(parse(t)).last()
            == '{' {
            parse(t).drop_last().push(
                SpanState::Body(BodyState::fresh(trailing(parse(t)).drop_last())),
            ).push(SpanState::Tail(Seq::empty()))
        } else {
            parse(t).drop_last().push(SpanState::Tail(trailing(parse(t)).push(normalized(c))))
        },
{
    let u = t.push(c);
    assert(u.drop_last() == t);
    lemma_parse_trailing(t);
    if c == '}' && t.len() > 0 && t.last() == '{' {
        assert(ends_with_placeholder(u));
        assert(u.take(u.len() - 2) == t.drop_last());
        assert(!ends_with_placeholder(t));
        let rest = parse(t.drop_last());
        assert(parse(t) == rest.drop_last().push(
            SpanState::Tail(trailing(rest).push(normalized(t.last()))),
        ));
        assert(parse(t).drop_last() == rest.drop_last());
        assert(trailing(parse(t)).drop_last() == trailing(rest));
    } else {
        assert(!ends_with_placeholder(u));
    }
}

proof fn lemma_count_after_open_brace(t: Seq<char>)
    requires
        t.len() >= 1,
        t.last() == '{',
    ensures
        placeholder_count(t) == placeholder_count(t.drop_last()),
{
}

/// Parsing yields one body per `{}` pair of the template and then exactly one
/// tail; the fixed text of the spans, read in order, is the template with the
/// pairs taken out (and carriage returns turned into line feeds).
pub proof fn lemma_parse_shape(t: Seq<char>)
    ensures
        parse(t).len() == placeholder_count(t) + 1,
        forall|i: int| 0 <= i < placeholder_count(t) ==> #[trigger] parse(t)[i] is Body,
        parse(t).last() is Tail,
        flatten(parse(t)) == without_placeholders(t),
    decreases t.len(),
{
    lemma_parse_trailing(t);
    if t.len() == 0 {
        assert(flatten(parse(t)) == flatten(parse(t).drop_last()) + Seq::<char>::empty());
        assert(parse(t).drop_last().len() == 0);
    } else if ends_with_placeholder(t) {
        let u = t.take(t.len() - 2);
        lemma_parse_shape(u);
        lemma_parse_trailing(u);
        let rest = parse(u);
        lemma_count_after_open_brace(t.drop_last());
        assert(t.drop_last().drop_last() == u);
        let with_body = rest.drop_last().push(SpanState::Body(BodyState::fresh(rest.last().text())));
        assert(parse(t) == with_body.push(SpanState::Tail(Seq::empty())));
        assert(with_body.drop_last() == rest.drop_last());
        assert(parse(t).drop_last() == with_body);
        assert(rest.last().text() + FieldState::empty().chars == rest.last().text());
        assert(flatten(parse(t)) == flatten(with_body) + Seq::<char>::empty());
        assert(flatten(rest) == flatten(rest.drop_last()) + rest.last().text());
        assert forall|i: int| 0 <= i < placeholder_count(t) implies #[trigger] parse(t)[i] is Body by {
            if i < placeholder_count(u) {
                assert(parse(t)[i] == rest[i]);
            }
        }
    } else {
        let u = t.drop_last();
        lemma_parse_shape(u);
        lemma_parse_trailing(u);
        let rest = parse(u);
        let c = normalized(t.last());
        assert(parse(t) == rest.drop_last().push(SpanState::Tail(rest.last().text().push(c))));
        assert(parse(t).drop_last() == rest.drop_last());
        assert(flatten(rest) == flatten(rest.drop_last()) + rest.last().text());
        assert(flatten(parse(t)) == flatten(rest.drop_last()) + rest.last().text().push(c));
        assert(flatten(parse(t)) == flatten(rest).push(c));
        assert forall|i: int| 0 <= i < placeholder_count(t) implies #[trigger] parse(t)[i] is Body by {
            assert(parse(t)[i] == rest[i]);
        }
    }
}

/// The template with carriage returns turned into line feeds.
pub open spec fn normalized_all(t: Seq<char>) -> Seq<char> {
    t.map_values(|c: char| normalized(c))
}

/// A template without any `{}` pair is a single tail holding all of it.
pub proof fn lemma_parse_without_placeholder(t: Seq<char>)
    requires
        placeholder_count(t) == 0,
    ensures
        parse(t) == seq![SpanState::Tail(normalized_all(t))],
    decreases t.len(),
{
    if t.len() == 0 {
        assert(normalized_all(t) =~= Seq::<char>::empty());
    } else {
        let u = t.drop_last();
        assert(!ends_with_placeholder(t));
        assert(placeholder_count(u) == 0);
        lemma_parse_without_placeholder(u);
        assert(normalized_all(u).push(normalized(t.last())) =~= normalized_all(t));
        assert(parse(u).drop_last() =~= Seq::<SpanState>::empty());
        assert(parse(t) =~= seq![SpanState::Tail(normalized_all(t))]);
    }
}

/// The first `{}` pair splits a template: the text before it becomes the
/// lead-in of the first body, and the rest parses on its own. Applied pair
/// by pair, the `i`-th body holds the text between the `(i - 1)`-th and the
/// `i`-th pair, and the tail the text after the last one.
pub proof fn lemma_parse_first_placeholder(a: Seq<char>, b: Seq<char>)
    requires
        placeholder_count(a) == 0,
    ensures
        parse(a + seq!['{', '}'] + b) == seq![
            SpanState::Body(BodyState::fresh(normalized_all(a))),
        ] + parse(b),
    decreases b.len(),
{
    let head = seq![SpanState::Body(BodyState::fresh(normalized_all(a)))];
    let t = a + seq!['{', '}'] + b;
    lemma_parse_trailing(b);
    if b.len() == 0 {
        assert(t =~= a + seq!['{', '}']);
        assert(ends_with_placeholder(t));
        assert(t.take(t.len() - 2) =~= a);
        lemma_parse_without_placeholder(a);
        assert(parse(t) =~= head + parse(b));
    } else if ends_with_placeholder(b) {
        let b2 = b.take(b.len() - 2);
        assert(ends_with_placeholder(t));
        assert(t.take(t.len() - 2) =~= a + seq!['{', '}'] + b2);
        lemma_parse_first_placeholder(a, b2);
        lemma_parse_trailing(b2);
        let rest = parse(b2);
        assert((head + rest).drop_last() =~= head + rest.drop_last());
        assert((head + rest).last() == rest.last());
        let tail_of = rest.drop_last().push(SpanState::Body(BodyState::fresh(rest.last().text())));
        assert((head + rest.drop_last()).push(
            SpanState::Body(BodyState::fresh(rest.last().text())),
        ).push(SpanState::Tail(Seq::empty())) =~= head + tail_of.push(
            SpanState::Tail(Seq::empty()),
        ));
    } else {
        let b1 = b.drop_last();
        assert(!ends_with_placeholder(t));
        assert(t.drop_last() =~= a + seq!['{', '}'] + b1);
        assert(t.last() == b.last());
        lemma_parse_first_placeholder(a, b1);
        lemma_parse_trailing(b1);
        let rest = parse(b1);
        assert((head + rest).drop_last() =~= head + rest.drop_last());
        assert((head + rest).last() == rest.last());
        assert((head + rest.drop_last()).push(
            SpanState::Tail(rest.last().text().push(normalized(b.last()))),
        ) =~= head + rest.drop_last().push(
            SpanState::Tail(rest.last().text().push(normalized(b.last()))),
        ));
    }
}

/// A span of a template: a body with an editable field, or the tail.
#[derive(Debug, PartialEq, Eq)]
pub enum Section {
    Body(Editable),
    Tail(StaticText),
}

impl View for Section {
    type V = SpanState;

    open spec fn view(&self) -> SpanState {
        match self {
            Section::Body(e) => SpanState::Body(e@),
            Section::Tail(t) => SpanState::Tail(t@),
        }
    }
}

impl Section {
    /// A body span with lead-in `prefix` and an empty field.
    pub fn body(prefix: Vec<char>) -> (r: Self)
        ensures
            r@ == SpanState::Body(BodyState::fresh(prefix@)),
    {
        Section::Body(Editable::from_chars(prefix))
    }

    pub fn tail(prefix: Vec<char>) -> (r: Self)
        ensures
            r@ == SpanState::Tail(prefix@),
    {
        Section::Tail(StaticText::new(prefix))
    }

    /// Splits `content` into its spans.
    pub fn parse_content(content: &str) -> (r: Vec<Self>)
        ensures
            span_views(r@) == parse(content@),
    {
        let chars = chars_of(content);
        let mut sections: Vec<Section> = Vec::new();
        let mut pending: Vec<char> = Vec::new();
        let mut i: usize = 0;
        while i < chars.len()
            invariant
                i <= chars@.len(),
                span_views(sections@).push(SpanState::Tail(pending@)) == parse(
                    chars@.take(i as int),
                ),
            decreases chars@.len() - i,
        {
            let c = chars[i];
            let ghost before = chars@.take(i as int);
            proof {
                assert(chars@.take(i + 1) == before.push(c));
                lemma_parse_push(before, c);
                assert(parse(before).drop_last() == span_views(sections@));
                assert(trailing(parse(before)) == pending@);
            }
            let closes = c == '}' && pending.len() > 0 && pending[pending.len() - 1] == '{';
            if closes {
                pending.pop();
                let prefix = pending;
                pending = Vec::new();
                let ghost prefix_view = prefix@;
                sections.push(Section::body(prefix));
                assert(span_views(sections@) == parse(before).drop_last().push(
                    SpanState::Body(BodyState::fresh(prefix_view)),
                ));
            } else if c == '\r' {
                pending.push('\n');
                assert(span_views(sections@) == parse(before).drop_last());
            } else {
                pending.push(c);
                assert(span_views(sections@) == parse(before).drop_last());
            }
            i = i + 1;
        }
        let ghost done = span_views(sections@);
        assert(chars@.take(chars@.len() as int) == chars@);
        let tail = Section::tail(pending);
        sections.push(tail);
        assert(span_views(sections@) == done.push(tail@));
        sections
    }

    /// The span's characters.
    pub fn chars(&self) -> (r: Vec<char>)
        ensures
            r@ == self@.text(),
    {
        match self {
            Section::Body(e) => e.chars(),
            Section::Tail(t) => t.chars.clone(),
        }
    }

    /// The span's text: a body's lead-in and what was entered, or the tail.
    pub fn text(&self) -> (r: String)
        ensures
            r@ == self@.text(),
    {
        match self {
            Section::Body(e) => e.text(),
            Section::Tail(t) => string_of(t.chars.as_slice()),
        }
    }
}

} // verus!
