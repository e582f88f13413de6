//! What the command line asks for.

use vstd::prelude::*;

verus! {

/// The three ways the program runs.
#[derive(Clone, Copy, Debug, PartialEq, Eq)]
pub enum Mode {
    /// Add a snippet to the file.
    Add,
    /// Edit a snippet of the file.
    Edit,
    /// Pick a snippet and fill in its blanks.
    Fill,
}

pub struct Args {
    /// The snippet file.
    pub path: String,
    pub add: bool,
    pub edit: bool,
}

impl Args {
    /// Adding wins over editing; with neither flag, a snippet is filled in.
    pub fn mode(&self) -> (r: Mode)
        ensures
            r == (if self.add {
                Mode::Add
            } else if self.edit {
                Mode::Edit
            } else {
                Mode::Fill
            }),
    {
        if self.add {
            Mode::Add
        } else if self.edit {
            Mode::Edit
        } else {
            Mode::Fill
        }
    }
}

} // verus!
