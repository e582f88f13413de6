//! Where characters land on a terminal whose rows are `width` cells wide.
//!
//! A walk over a character stream keeps a `(column, row)` pair, starting at
//! `(0, 0)`. A line feed moves to the start of the next row. Any other
//! character takes the next cell of the row; when the row is already full
//! (`column >= width`), it goes to the first cell of the next row instead. A
//! row of exactly `width` characters therefore does not wrap early, and a line
//! feed at the end of a full row ends only one row. Parsed templates hold no
//! carriage returns: the parser turns them into line feeds.

use crate::chars::string_of;
use vstd::arithmetic::div_mod::{
    lemma_fundamental_div_mod, lemma_fundamental_div_mod_converse, lemma_mod_bound,
};
use vstd::prelude::*;

verus! {

pub open spec fn is_line_feed(c: char) -> bool {
    c == '\n'
}

/// The position after `c` is placed, the walk standing at `p`.
pub open spec fn step(p: (nat, nat), c: char, width: nat) -> (nat, nat) {
    if is_line_feed(c) {
        (0, p.1 + 1)
    } else if p.0 >= width {
        (1, p.1 + 1)
    } else {
        (p.0 + 1, p.1)
    }
}

/// The position after all of `s` is placed, starting at `(0, 0)`.
pub open spec fn position_after(s: Seq<char>, width: nat) -> (nat, nat)
    decreases s.len(),
{
    if s.len() == 0 {
        (0, 0)
    } else {
        step(position_after(s.drop_last(), width), s.last(), width)
    }
}

/// A width no stream reaches: rows of this width never wrap.
pub open spec fn unbounded() -> nat {
    usize::MAX as nat
}

pub open spec fn point(p: (nat, nat)) -> (usize, usize) {
    (p.0 as usize, p.1 as usize)
}

/// Neither coordinate exceeds the number of characters placed.
pub proof fn lemma_position_bounded(s: Seq<char>, width: nat)
    ensures
        position_after(s, width).0 <= s.len(),
        position_after(s, width).1 <= s.len(),
    decreases s.len(),
{
    if s.len() > 0 {
        lemma_position_bounded(s.drop_last(), width);
    }
}

/// On a stream without line feeds, rows fill up `width` characters at a
/// time: after `n > 0` characters the walk stands in row `(n - 1) / width`,
/// at column `(n - 1) % width + 1`. So 25 characters on rows 10 wide end at
/// column 5 of row 2.
pub proof fn lemma_unbroken_stream_fills_rows(s: Seq<char>, width: nat)
    requires
        width > 0,
        s.len() > 0,
        forall|i: int| 0 <= i < s.len() ==> !is_line_feed(#[trigger] s[i]),
    ensures
        position_after(s, width) == (
            ((s.len() - 1) as int % width as int + 1) as nat,
            ((s.len() - 1) as int / width as int) as nat,
        ),
    decreases s.len(),
{
    let n = s.len() as int;
    let w = width as int;
    if n > 1 {
        let prev = s.drop_last();
        assert forall|i: int| 0 <= i < prev.len() implies !is_line_feed(#[trigger] prev[i]) by {
            assert(prev[i] == s[i]);
        }
        lemma_unbroken_stream_fills_rows(prev, width);
        assert(!is_line_feed(s[n - 1]));
        let q = (n - 2) / w;
        let r = (n - 2) % w;
        lemma_fundamental_div_mod(n - 2, w);
        lemma_mod_bound(n - 2, w);
        if r + 1 >= w {
            assert(n - 1 == (q + 1) * w) by (nonlinear_arith)
                requires
                    n - 2 == w * q + r,
                    r + 1 == w,
            ;
            lemma_fundamental_div_mod_converse(n - 1, w, q + 1, 0);
        } else {
            assert(n - 1 == q * w + (r + 1)) by (nonlinear_arith)
                requires
                    n - 2 == w * q + r,
            ;
            lemma_fundamental_div_mod_converse(n - 1, w, q, r + 1);
        }
    } else {
        assert(!is_line_feed(s[0]));
        assert(position_after(s.drop_last(), width) == (0nat, 0nat));
        lemma_fundamental_div_mod_converse(0, w, 0, 0);
    }
}

/// The rendered extent of a character stream: where it starts and ends, and
/// where the insertion point lands, if it has one.
#[derive(Debug, PartialEq, Eq)]
pub struct TextRange {
    pub cursor_position: Option<(usize, usize)>,
    pub start: (usize, usize),
    pub end: (usize, usize),
    pub text: String,
}

impl TextRange {
    /// A range laid out from the origin.
    pub fn new(end: (usize, usize), text: String, position: Option<(usize, usize)>) -> (r: Self)
        ensures
            r.start == (0usize, 0usize),
            r.end == end,
            r.text == text,
            r.cursor_position == position,
    {
        TextRange { start: (0, 0), cursor_position: position, end, text }
    }
}

/// The position after the first `n` characters of `chars` are placed.
pub fn position_at(chars: &[char], n: usize, width: usize) -> (r: (usize, usize))
    requires
        n <= chars@.len(),
    ensures
        r == point(position_after(chars@.take(n as int), width as nat)),
{
    let mut column: usize = 0;
    let mut row: usize = 0;
    let mut i: usize = 0;
    while i < n
        invariant
            n <= chars@.len(),
            i <= n,
            (column as nat, row as nat) == position_after(chars@.take(i as int), width as nat),
        decreases n - i,
    {
        proof {
            assert(chars@.take(i + 1).drop_last() == chars@.take(i as int));
            lemma_position_bounded(chars@.take(i as int), width as nat);
        }
        let c = chars[i];
        if c == '\n' {
            column = 0;
            row = row + 1;
        } else if column >= width {
            column = 1;
            row = row + 1;
        } else {
            column = column + 1;
        }
        i = i + 1;
    }
    (column, row)
}

/// Lays out `chars` on rows `width` wide. The insertion point `cursor`, an
/// index into `chars`, lands where the walk stands after the characters
/// before it; an index past the end has no position.
pub fn layout(chars: &[char], cursor: Option<usize>, width: usize) -> (r: TextRange)
    ensures
        r.start == (0usize, 0usize),
        r.end == point(position_after(chars@, width as nat)),
        r.text@ == chars@,
        r.cursor_position == (match cursor {
            Some(p) => if p <= chars@.len() {
                Some(point(position_after(chars@.take(p as int), width as nat)))
            } else {
                None
            },
            None => None,
        }),
{
    let end = position_at(chars, chars.len(), width);
    assert(chars@.take(chars@.len() as int) == chars@);
    let cursor_position = match cursor {
        Some(p) => if p <= chars.len() {
            Some(position_at(chars, p, width))
        } else {
            None
        },
        None => None,
    };
    TextRange::new(end, string_of(chars), cursor_position)
}

} // verus!
