//! Line/column coordinates on the render grid.
//!
//! A position is always valid (there are no bounds attached to it).
//! Movement toward the origin comes in two flavours: the `try_*` methods
//! fail without mutating anything when the move would cross zero, while
//! the unguarded callers must already have proved there is room.

use vstd::prelude::*;

verus! {

/// A line/column coordinate on the logically unbounded render grid.
#[derive(Clone, Copy, Debug)]
pub struct RenderPosition {
    pub line: usize,
    pub column: usize,
}

impl RenderPosition {
    pub fn new(line: usize, column: usize) -> (r: Self)
        ensures
            r.line == line,
            r.column == column,
    {
        Self { line, column }
    }

    /// The first column of the given line.
    pub fn line_start(line: usize) -> (r: Self)
        ensures
            r.line == line,
            r.column == 0,
    {
        Self::new(line, 0)
    }

    /// The origin of the grid.
    pub fn zero() -> (r: Self)
        ensures
            r.line == 0,
            r.column == 0,
    {
        Self::new(0, 0)
    }

    /// Move `count` columns toward the line start; `None` (and no move)
    /// if that would cross column zero.
    pub fn try_left(&self, count: usize) -> (r: Option<Self>)
        ensures
            self.column >= count ==> r == Some(RenderPosition {
                line: self.line,
                column: (self.column - count) as usize,
            }),
            self.column < count ==> r is None,
    {
        if self.column < count {
            None
        } else {
            Some(Self::new(self.line, self.column - count))
        }
    }

    /// Move `count` columns to the right; always succeeds.
    pub fn right(&self, count: usize) -> (r: Self)
        requires
            self.column + count <= usize::MAX,
        ensures
            r.line == self.line,
            r.column == self.column + count,
    {
        Self::new(self.line, self.column + count)
    }

    /// Move `count` lines up; `None` (and no move) if that would cross
    /// line zero.
    pub fn try_up(&self, count: usize) -> (r: Option<Self>)
        ensures
            self.line >= count ==> r == Some(RenderPosition {
                line: (self.line - count) as usize,
                column: self.column,
            }),
            self.line < count ==> r is None,
    {
        if self.line < count {
            None
        } else {
            Some(Self::new(self.line - count, self.column))
        }
    }

    /// Move `count` lines down; always succeeds.
    pub fn down(&self, count: usize) -> (r: Self)
        requires
            self.line + count <= usize::MAX,
        ensures
            r.line == self.line + count,
            r.column == self.column,
    {
        Self::new(self.line + count, self.column)
    }

    pub fn line(&self) -> (r: usize)
        ensures
            r == self.line,
    {
        self.line
    }

    pub fn column(&self) -> (r: usize)
        ensures
            r == self.column,
    {
        self.column
    }
}

} // verus!
