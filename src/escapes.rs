//! Templates typed on one line write a line break as the two characters `\n`.

use crate::chars::{chars_of, string_of};
use vstd::prelude::*;

verus! {

/// `s` with each `\` `n` pair, read from the left, turned into a line feed.
pub open spec fn expanded(s: Seq<char>) -> Seq<char>
    decreases s.len(),
{
    if s.len() == 0 {
        Seq::empty()
    } else if s.len() >= 2 && s[0] == '\\' && s[1] == 'n' {
        seq!['\n'] + expanded(s.skip(2))
    } else {
        seq![s[0]] + expanded(s.skip(1))
    }
}

/// Turns each `\n` escape (a backslash followed by `n`) into a line feed.
pub fn expand_newlines(text: &str) -> (r: String)
    ensures
        r@ == expanded(text@),
{
    let chars = chars_of(text);
    let mut out: Vec<char> = Vec::new();
    let mut i: usize = 0;
    assert(chars@.skip(0) == chars@);
    assert(out@ + expanded(chars@) == expanded(chars@));
    while i < chars.len()
        invariant
            i <= chars@.len(),
            out@ + expanded(chars@.skip(i as int)) == expanded(chars@),
        decreases chars@.len() - i,
    {
        let rest = Ghost(chars@.skip(i as int));
        if i + 1 < chars.len() && chars[i] == '\\' && chars[i + 1] == 'n' {
            proof {
                assert(rest@.skip(2) == chars@.skip(i + 2));
                assert(out@ + seq!['\n'] + expanded(rest@.skip(2)) == out@ + expanded(rest@));
            }
            out.push('\n');
            i = i + 2;
        } else {
            let c = chars[i];
            proof {
                assert(rest@.skip(1) == chars@.skip(i + 1));
                assert(out@ + seq![c] + expanded(rest@.skip(1)) == out@ + expanded(rest@));
            }
            out.push(c);
            i = i + 1;
        }
    }
    assert(expanded(chars@.skip(i as int)) == Seq::<char>::empty());
    assert(out@ + Seq::<char>::empty() == out@);
    string_of(out.as_slice())
}

} // verus!
