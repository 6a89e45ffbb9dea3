//! Lines and columns of positions in a source.

use crate::model::Position;
use crate::parser::document::position_at;
use crate::parser::grammar::{col_of, lemma_line_col_bound, line_of};
use vstd::prelude::*;

verus! {

/// A position of the source together with its line and column. Moving it
/// forward costs the distance moved.
pub struct Locator {
    index: usize,
    line: usize,
    col: usize,
}

impl Locator {
    /// Whether line and column are those of the index in `s`.
    pub closed spec fn tracks(self, s: Seq<char>) -> bool {
        &&& self.index <= s.len()
        &&& self.line == line_of(s, self.index as int)
        &&& self.col == col_of(s, self.index as int)
    }

    /// The locator at the start of a source.
    pub fn new() -> (locator: Locator)
        ensures
            forall|s: Seq<char>| locator.tracks(s),
    {
        Locator { index: 0, line: 1, col: 1 }
    }

    /// Line and column of position `to`.
    pub fn seek(&mut self, chars: &Vec<char>, to: usize) -> (position: Position)
        requires
            old(self).tracks(chars@),
            to <= chars.len() < usize::MAX,
        ensures
            final(self).tracks(chars@),
            position == position_at(chars@, to as int),
    {
        if to < self.index {
            self.index = 0;
            self.line = 1;
            self.col = 1;
        }
        while self.index < to
            invariant
                self.tracks(chars@),
                self.index <= to <= chars.len() < usize::MAX,
            decreases to - self.index,
        {
            proof {
                lemma_line_col_bound(chars@, self.index + 1);
            }
            if chars[self.index] == '\n' {
                self.line += 1;
                self.col = 1;
            } else {
                self.col += 1;
            }
            self.index += 1;
        }
        proof {
            lemma_line_col_bound(chars@, to as int);
        }
        Position { line: self.line, col: self.col }
    }
}

} // verus!
