//! Fixed text that is never edited.

use vstd::prelude::*;

verus! {

#[derive(Debug, PartialEq, Eq)]
pub struct StaticText {
    pub chars: Vec<char>,
}

impl View for StaticText {
    type V = Seq<char>;

    open spec fn view(&self) -> Seq<char> {
        self.chars@
    }
}

impl StaticText {
    pub fn new(chars: Vec<char>) -> (r: Self)
        ensures
            r@ == chars@,
    {
        StaticText { chars }
    }
}

} // verus!
