//! Line numbers in the input.

use vstd::prelude::*;

verus! {

/// A place in the input: the number of the line, counted from 1.
#[derive(Debug, Clone, Copy, PartialEq, Eq, Structural)]
pub struct Position {
    pub line: usize,
}

impl Position {
    /// The first line.
    pub fn new() -> (r: Position)
        ensures
            r.line == 1,
    {
        Position { line: 1 }
    }

    /// The place after the character `ch`: the next line after a line feed,
    /// the same line after any other character.
    pub fn get_next(self, ch: char) -> (r: Position)
        requires
            ch == '\n' ==> self.line < usize::MAX,
        ensures
            r.line == if ch == '\n' {
                self.line + 1
            } else {
                self.line as int
            },
    {
        if ch == '\n' {
            Position { line: self.line + 1 }
        } else {
            self
        }
    }
}

} // verus!
