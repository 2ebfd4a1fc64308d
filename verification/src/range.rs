//! Positions and ranges in a source text, counted in lines and columns.

use vstd::prelude::*;

verus! {

/// A place in a text: a line and a column on it, both counted from zero.
#[derive(Clone, Copy, Debug, PartialEq, Eq, Structural)]
pub struct Position {
    pub line: u32,
    pub character: u32,
}

/// The stretch of text from `start` up to, but not including, `end`.
#[derive(Clone, Copy, Debug, PartialEq, Eq, Structural)]
pub struct Range {
    pub start: Position,
    pub end: Position,
}

impl Position {
    pub fn new(line: u32, character: u32) -> (position: Position)
        ensures
            position == (Position { line, character }),
    {
        Position { line, character }
    }
}

impl Range {
    pub fn new(start: Position, end: Position) -> (range: Range)
        ensures
            range == (Range { start, end }),
    {
        Range { start, end }
    }

    /// Whether `position` lies inside the range, its two ends included.
    pub open spec fn spec_contains(self, position: Position) -> bool {
        &&& (self.start.line < position.line || (self.start.line == position.line
            && self.start.character <= position.character))
        &&& (position.line < self.end.line || (position.line == self.end.line
            && position.character <= self.end.character))
    }

    /// Whether `position` lies inside the range, its two ends included.
    pub fn contains(&self, position: Position) -> (inside: bool)
        ensures
            inside == self.spec_contains(position),
    {
        let after_start = self.start.line < position.line || (self.start.line == position.line
            && self.start.character <= position.character);
        let before_end = position.line < self.end.line || (position.line == self.end.line
            && position.character <= self.end.character);
        after_start && before_end
    }
}

} // verus!
