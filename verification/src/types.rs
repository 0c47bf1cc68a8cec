//! Kinds of values at run time.

use vstd::prelude::*;

verus! {

/// The machine word.
pub type Word = usize;

/// The kind of a value at run time.
#[derive(Debug, Clone, Copy, PartialEq, Eq, Structural)]
pub enum TermType {
    Atom,
    Int32,
    Int64,
    Double,
}

impl TermType {
    /// The number that marks a value of this kind: 0 for an atom, 1 and 2
    /// for the two widths of integers, 3 for a double.
    pub fn mark(self) -> (r: Word)
        ensures
            r == match self {
                TermType::Atom => 0usize,
                TermType::Int32 => 1usize,
                TermType::Int64 => 2usize,
                TermType::Double => 3usize,
            },
    {
        match self {
            TermType::Atom => 0,
            TermType::Int32 => 1,
            TermType::Int64 => 2,
            TermType::Double => 3,
        }
    }
}

} // verus!
