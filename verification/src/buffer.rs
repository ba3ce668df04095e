//! The paged render buffer: a bounded W x H grid addressed through a
//! scrolling vertical window over a logically unbounded document.
//!
//! The fit check [`can_set_model`] is horizontal-only: it does not ask
//! whether the line falls inside the current window, so layout code can
//! probe fit independently of paging. A set call whose line lies outside
//! the window is a recorded no-op: the cell is not materialized, but the
//! highest line ever targeted is still tracked, and a page is empty
//! exactly when the window starts above every line ever targeted.

use vstd::prelude::*;

use crate::position::RenderPosition;
use crate::style::TextTag;
use crate::unicode::{grapheme_width_of, AmbiguityPolicy, Grapheme};

verus! {

/// A written cell: one grapheme cluster, its tag, and the columns it
/// occupies as placed.
pub struct Cell {
    pub grapheme: Grapheme,
    pub tag: TextTag,
    pub width: usize,
}

/// The mathematical content of a written cell.
pub struct CellM {
    pub text: Seq<char>,
    pub tag: TextTag,
    pub width: nat,
}

impl View for Cell {
    type V = CellM;

    open spec fn view(&self) -> CellM {
        CellM { text: self.grapheme@, tag: self.tag, width: self.width as nat }
    }
}

impl Cell {
    pub open spec fn wf(&self, policy: AmbiguityPolicy) -> bool {
        self.grapheme.wf() && self.width == grapheme_width_of(self.grapheme@, policy)
    }
}

/// The mathematical state of a render buffer.
pub struct BufferModel {
    pub width: nat,
    pub height: nat,
    pub offset: nat,
    /// The materialized window, indexed by window-local row then column.
    pub grid: Seq<Seq<Option<CellM>>>,
    /// The highest line any set call ever targeted, in or out of window.
    pub top: Option<nat>,
    pub policy: AmbiguityPolicy,
}

impl BufferModel {
    pub open spec fn wf(&self) -> bool {
        &&& self.grid.len() == self.height
        &&& forall|r: int| 0 <= r < self.height ==> (#[trigger] self.grid[r]).len() == self.width
    }

    /// Nothing was ever aimed at this window or any later line.
    pub open spec fn is_empty_spec(&self) -> bool {
        match self.top {
            None => true,
            Some(t) => self.offset > t,
        }
    }
}

/// A fresh window with no cell written and no line targeted.
pub open spec fn empty_buffer_model(
    width: nat,
    height: nat,
    offset: nat,
    policy: AmbiguityPolicy,
) -> BufferModel {
    BufferModel {
        width,
        height,
        offset,
        grid: Seq::new(height, |r: int| Seq::new(width, |c: int| None)),
        top: None,
        policy,
    }
}

/// Whether a grapheme placed at this column lies entirely within the
/// horizontal bounds. This does not depend on the window, the offset or
/// anything already written.
pub open spec fn can_set_model(m: BufferModel, column: nat, g: Seq<char>) -> bool {
    column + grapheme_width_of(g, m.policy) <= m.width
}

/// What one set call does to the buffer: nothing if the grapheme does not
/// fit horizontally; otherwise the highest targeted line is raised, and
/// the cell is materialized only when it falls inside the window.
pub open spec fn set_cell_model(
    m: BufferModel,
    line: nat,
    column: nat,
    g: Seq<char>,
    tag: TextTag,
) -> BufferModel {
    if can_set_model(m, column, g) {
        let new_top = match m.top {
            None => line,
            Some(t) => if line > t {
                line
            } else {
                t
            },
        };
        if m.offset <= line < m.offset + m.height && column < m.width {
            let r = line - m.offset;
            let cell = CellM { text: g, tag, width: grapheme_width_of(g, m.policy) };
            BufferModel {
                grid: m.grid.update(r as int, m.grid[r as int].update(column as int, Some(cell))),
                top: Some(new_top),
                ..m
            }
        } else {
            BufferModel { top: Some(new_top), ..m }
        }
    } else {
        m
    }
}

/// A W x H window over the document, allocated once per page.
pub struct StaticRenderBuffer {
    rows: Vec<Vec<Option<Cell>>>,
    width: usize,
    offset: usize,
    top_line: Option<usize>,
    policy: AmbiguityPolicy,
}

impl View for StaticRenderBuffer {
    type V = BufferModel;

    closed spec fn view(&self) -> BufferModel {
        BufferModel {
            width: self.width as nat,
            height: self.rows@.len(),
            offset: self.offset as nat,
            grid: Seq::new(
                self.rows@.len(),
                |r: int|
                    Seq::new(
                        self.width as nat,
                        |c: int|
                            match self.rows@[r]@[c] {
                                None => None,
                                Some(cell) => Some(cell@),
                            },
                    ),
            ),
            top: match self.top_line {
                None => None,
                Some(t) => Some(t as nat),
            },
            policy: self.policy,
        }
    }
}

impl StaticRenderBuffer {
    pub closed spec fn wf(&self) -> bool {
        &&& forall|r: int| 0 <= r < self.rows@.len() ==> (#[trigger] self.rows@[r])@.len()
            == self.width
        &&& forall|r: int, c: int|
            0 <= r < self.rows@.len() && 0 <= c < self.width ==> match #[trigger] self.rows@[r]@[c] {
                None => true,
                Some(cell) => cell.wf(self.policy) && cell.width <= self.width,
            }
    }

    /// A fresh window of the given geometry.
    pub fn new(width: usize, height: usize, offset: usize, policy: AmbiguityPolicy) -> (r: Self)
        ensures
            r@ == empty_buffer_model(width as nat, height as nat, offset as nat, policy),
            r.wf(),
    {
        let mut rows: Vec<Vec<Option<Cell>>> = Vec::new();
        let mut ri: usize = 0;
        while ri < height
            invariant
                ri <= height,
                rows@.len() == ri,
                forall|r: int| 0 <= r < ri ==> (#[trigger] rows@[r])@.len() == width,
                forall|r: int, c: int| 0 <= r < ri && 0 <= c < width ==> (#[trigger] rows@[r]@[c])
                    is None,
            decreases height - ri,
        {
            let mut row: Vec<Option<Cell>> = Vec::new();
            let mut ci: usize = 0;
            while ci < width
                invariant
                    ci <= width,
                    row@.len() == ci,
                    forall|c: int| 0 <= c < ci ==> (#[trigger] row@[c]) is None,
                decreases width - ci,
            {
                row.push(None);
                ci += 1;
            }
            rows.push(row);
            ri += 1;
        }
        let r = StaticRenderBuffer { rows, width, offset, top_line: None, policy };
        proof {
            assert(r@.grid =~~= empty_buffer_model(
                width as nat,
                height as nat,
                offset as nat,
                policy,
            ).grid);
            assert(r@ =~= empty_buffer_model(width as nat, height as nat, offset as nat, policy));
        }
        r
    }

    pub fn width(&self) -> (r: usize)
        ensures
            r == self@.width,
    {
        self.width
    }

    pub fn height(&self) -> (r: usize)
        ensures
            r == self@.height,
    {
        self.rows.len()
    }

    pub fn offset(&self) -> (r: usize)
        ensures
            r == self@.offset,
    {
        self.offset
    }

    pub fn ambiguity_policy(&self) -> (r: AmbiguityPolicy)
        ensures
            r == self@.policy,
    {
        self.policy
    }

    /// Whether this grapheme, set at this position, would lie entirely
    /// within the horizontal bounds. Horizontal-only: the window plays no
    /// part in the answer.
    pub fn can_set_cell(&self, position: RenderPosition, g: &Grapheme) -> (r: bool)
        ensures
            r == can_set_model(self@, position.column as nat, g@),
    {
        let w = g.width(self.policy);
        position.column <= self.width && w <= self.width - position.column
    }

    /// Set the cell, if the grapheme fits horizontally. Every accepted
    /// call raises the highest targeted line; only in-window calls
    /// materialize the cell.
    pub fn set_cell(&mut self, position: RenderPosition, g: &Grapheme, tag: TextTag) -> (r: bool)
        requires
            old(self).wf(),
            g.wf(),
        ensures
            final(self).wf(),
            final(self)@ == set_cell_model(
                old(self)@,
                position.line as nat,
                position.column as nat,
                g@,
                tag,
            ),
            r == can_set_model(old(self)@, position.column as nat, g@),
    {
        let w = g.width(self.policy);
        if !(position.column <= self.width && w <= self.width - position.column) {
            return false;
        }
        let line = position.line;
        self.top_line = match self.top_line {
            None => Some(line),
            Some(t) => if line > t {
                Some(line)
            } else {
                Some(t)
            },
        };
        if line >= self.offset && position.column < self.width {
            let ri = line - self.offset;
            if ri < self.rows.len() {
                let cell = Cell { grapheme: g.clone(), tag, width: w };
                self.rows[ri][position.column] = Some(cell);
            }
        }
        proof {
            let expect = set_cell_model(
                old(self)@,
                position.line as nat,
                position.column as nat,
                g@,
                tag,
            );
            assert(self@.grid =~~= expect.grid);
            assert(self@ =~= expect);
        }
        true
    }

    /// Read a materialized cell of the window.
    pub fn cell_at(&self, row: usize, col: usize) -> (r: &Option<Cell>)
        requires
            self.wf(),
            row < self@.height,
            col < self@.width,
        ensures
            match r {
                Some(c) => self@.grid[row as int][col as int] == Some(c@) && c.wf(self@.policy)
                    && c.width <= self@.width,
                None => self@.grid[row as int][col as int] is None,
            },
    {
        &self.rows[row][col]
    }

    /// The highest line any set call ever targeted, if any.
    pub fn top_line(&self) -> (r: Option<usize>)
        ensures
            match r {
                None => self@.top is None,
                Some(t) => self@.top == Some(t as nat),
            },
    {
        self.top_line
    }

    /// Whether nothing was ever aimed at this window or any later line:
    /// the signal that the document was exhausted before this page.
    pub fn is_empty(&self) -> (r: bool)
        ensures
            r == self@.is_empty_spec(),
    {
        match self.top_line {
            None => true,
            Some(t) => self.offset > t,
        }
    }
}

} // verus!
