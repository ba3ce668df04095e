//! A cursor over a render buffer.
//!
//! The canvas owns one buffer for the duration of a page's render and
//! tracks a start position and a current position. Painting advances the
//! cursor by the painted grapheme's width; the fit probe is a pure query
//! and moves nothing (overflow-policy algorithms depend on repeatable,
//! idempotent probing).

use vstd::prelude::*;

use crate::buffer::{can_set_model, set_cell_model, BufferModel, StaticRenderBuffer};
use crate::position::RenderPosition;
use crate::style::TextTag;
use crate::unicode::{grapheme_width_of, Grapheme};

verus! {

/// Where a nested render started and ended.
#[derive(Clone, Copy, Debug)]
pub struct CanvasSummary {
    pub start_position: RenderPosition,
    pub end_position: RenderPosition,
}

impl CanvasSummary {
    /// How many lines the render touched, start and end lines included.
    pub fn get_line_height(&self) -> (r: usize)
        requires
            self.start_position.line <= self.end_position.line,
            self.end_position.line - self.start_position.line < usize::MAX,
        ensures
            r == 1 + self.end_position.line - self.start_position.line,
    {
        1 + (self.end_position.line - self.start_position.line)
    }
}

/// A cursor with exclusive access to one buffer for one page's render.
pub struct RenderBufferCanvas {
    pub buffer: StaticRenderBuffer,
    pub start_position: RenderPosition,
    pub position: RenderPosition,
}

impl RenderBufferCanvas {
    pub open spec fn wf(&self) -> bool {
        self.buffer.wf()
    }

    pub open spec fn buf(&self) -> BufferModel {
        self.buffer@
    }

    /// Anchor a canvas at the given position of a buffer, taking the
    /// buffer over for the canvas's lifetime.
    pub fn canvas_at(buffer: StaticRenderBuffer, position: RenderPosition) -> (r: Self)
        ensures
            r.buffer == buffer,
            r.start_position == position,
            r.position == position,
    {
        RenderBufferCanvas { buffer, start_position: position, position }
    }

    /// Give the buffer back once the page's render is over.
    pub fn into_buffer(self) -> (r: StaticRenderBuffer)
        ensures
            r == self.buffer,
    {
        self.buffer
    }

    pub fn get_start_position(&self) -> (r: RenderPosition)
        ensures
            r == self.start_position,
    {
        self.start_position
    }

    pub fn get_position(&self) -> (r: RenderPosition)
        ensures
            r == self.position,
    {
        self.position
    }

    /// Paint the grapheme at the cursor. On success the cursor advances
    /// right by the grapheme's width; on horizontal overflow nothing
    /// changes and the call reports failure.
    pub fn set_gph(&mut self, g: &Grapheme, tag: TextTag) -> (r: bool)
        requires
            old(self).wf(),
            g.wf(),
        ensures
            final(self).wf(),
            final(self).buf() == set_cell_model(
                old(self).buf(),
                old(self).position.line as nat,
                old(self).position.column as nat,
                g@,
                tag,
            ),
            r == can_set_model(old(self).buf(), old(self).position.column as nat, g@),
            final(self).start_position == old(self).start_position,
            final(self).position.line == old(self).position.line,
            r ==> final(self).position.column == old(self).position.column + grapheme_width_of(
                g@,
                old(self).buf().policy,
            ),
            !r ==> final(self).position.column == old(self).position.column,
    {
        let policy = self.buffer.ambiguity_policy();
        // A successful set ends within the buffer width, so the advanced
        // column stays within machine bounds.
        let width_limit = self.buffer.width();
        let result = self.buffer.set_cell(self.position, g, tag);
        if result {
            let w = g.width(policy);
            self.position = RenderPosition::new(self.position.line, self.position.column + w);
        }
        result
    }

    /// Paint a single character at the cursor.
    pub fn set_char(&mut self, ch: char, tag: TextTag) -> (r: bool)
        requires
            old(self).wf(),
        ensures
            final(self).wf(),
            final(self).buf() == set_cell_model(
                old(self).buf(),
                old(self).position.line as nat,
                old(self).position.column as nat,
                seq![ch],
                tag,
            ),
            r == can_set_model(old(self).buf(), old(self).position.column as nat, seq![ch]),
            final(self).start_position == old(self).start_position,
            final(self).position.line == old(self).position.line,
            r ==> final(self).position.column == old(self).position.column + grapheme_width_of(
                seq![ch],
                old(self).buf().policy,
            ),
            !r ==> final(self).position.column == old(self).position.column,
    {
        let g = Grapheme::from_char(ch);
        self.set_gph(&g, tag)
    }

    /// Whether the grapheme would fit at the cursor. A pure query: the
    /// cursor does not move.
    pub fn can_set_gph(&self, g: &Grapheme) -> (r: bool)
        ensures
            r == can_set_model(self.buf(), self.position.column as nat, g@),
    {
        self.buffer.can_set_cell(self.position, g)
    }

    pub fn set_position(&mut self, position: RenderPosition)
        ensures
            *final(self) == (RenderBufferCanvas { position, ..*old(self) }),
    {
        self.position = position;
    }

    pub fn set_column(&mut self, column: usize)
        ensures
            *final(self) == (RenderBufferCanvas {
                position: RenderPosition { line: old(self).position.line, column },
                ..*old(self)
            }),
    {
        self.position = RenderPosition::new(self.position.line, column);
    }

    pub fn set_line(&mut self, line: usize)
        ensures
            *final(self) == (RenderBufferCanvas {
                position: RenderPosition { line, column: old(self).position.column },
                ..*old(self)
            }),
    {
        self.position = RenderPosition::new(line, self.position.column);
    }

    pub fn cursor_down(&mut self)
        requires
            old(self).position.line < usize::MAX,
        ensures
            *final(self) == (RenderBufferCanvas {
                position: RenderPosition {
                    line: (old(self).position.line + 1) as usize,
                    column: old(self).position.column,
                },
                ..*old(self)
            }),
    {
        self.position = self.position.down(1);
    }

    pub fn cursor_down_by(&mut self, count: usize)
        requires
            old(self).position.line + count <= usize::MAX,
        ensures
            *final(self) == (RenderBufferCanvas {
                position: RenderPosition {
                    line: (old(self).position.line + count) as usize,
                    column: old(self).position.column,
                },
                ..*old(self)
            }),
    {
        self.position = self.position.down(count);
    }

    pub fn cursor_right(&mut self)
        requires
            old(self).position.column < usize::MAX,
        ensures
            *final(self) == (RenderBufferCanvas {
                position: RenderPosition {
                    line: old(self).position.line,
                    column: (old(self).position.column + 1) as usize,
                },
                ..*old(self)
            }),
    {
        self.position = self.position.right(1);
    }

    pub fn cursor_right_by(&mut self, count: usize)
        requires
            old(self).position.column + count <= usize::MAX,
        ensures
            *final(self) == (RenderBufferCanvas {
                position: RenderPosition {
                    line: old(self).position.line,
                    column: (old(self).position.column + count) as usize,
                },
                ..*old(self)
            }),
    {
        self.position = self.position.right(count);
    }

    /// Move up one line if there is room; report whether anything moved.
    pub fn try_cursor_up(&mut self) -> (r: bool)
        ensures
            r == (old(self).position.line >= 1),
            r ==> *final(self) == (RenderBufferCanvas {
                position: RenderPosition {
                    line: (old(self).position.line - 1) as usize,
                    column: old(self).position.column,
                },
                ..*old(self)
            }),
            !r ==> *final(self) == *old(self),
    {
        self.try_cursor_up_by(1)
    }

    /// Move up `count` lines if there is room; report whether anything
    /// moved.
    pub fn try_cursor_up_by(&mut self, count: usize) -> (r: bool)
        ensures
            r == (old(self).position.line >= count),
            r ==> *final(self) == (RenderBufferCanvas {
                position: RenderPosition {
                    line: (old(self).position.line - count) as usize,
                    column: old(self).position.column,
                },
                ..*old(self)
            }),
            !r ==> *final(self) == *old(self),
    {
        match self.position.try_up(count) {
            Some(p) => {
                self.position = p;
                true
            },
            None => false,
        }
    }

    /// Move up `count` lines; the caller must already have proved there
    /// is room (crossing line zero is a programming error, not a
    /// recoverable one).
    pub fn cursor_up_by(&mut self, count: usize)
        requires
            old(self).position.line >= count,
        ensures
            *final(self) == (RenderBufferCanvas {
                position: RenderPosition {
                    line: (old(self).position.line - count) as usize,
                    column: old(self).position.column,
                },
                ..*old(self)
            }),
    {
        let moved = self.try_cursor_up_by(count);
    }

    /// Move up one line; the caller must already have proved there is
    /// room.
    pub fn cursor_up(&mut self)
        requires
            old(self).position.line >= 1,
        ensures
            *final(self) == (RenderBufferCanvas {
                position: RenderPosition {
                    line: (old(self).position.line - 1) as usize,
                    column: old(self).position.column,
                },
                ..*old(self)
            }),
    {
        self.cursor_up_by(1);
    }

    /// Move left one column if there is room; report whether anything
    /// moved.
    pub fn try_cursor_left(&mut self) -> (r: bool)
        ensures
            r == (old(self).position.column >= 1),
            r ==> *final(self) == (RenderBufferCanvas {
                position: RenderPosition {
                    line: old(self).position.line,
                    column: (old(self).position.column - 1) as usize,
                },
                ..*old(self)
            }),
            !r ==> *final(self) == *old(self),
    {
        self.try_cursor_left_by(1)
    }

    /// Move left `count` columns if there is room; report whether
    /// anything moved.
    pub fn try_cursor_left_by(&mut self, count: usize) -> (r: bool)
        ensures
            r == (old(self).position.column >= count),
            r ==> *final(self) == (RenderBufferCanvas {
                position: RenderPosition {
                    line: old(self).position.line,
                    column: (old(self).position.column - count) as usize,
                },
                ..*old(self)
            }),
            !r ==> *final(self) == *old(self),
    {
        match self.position.try_left(count) {
            Some(p) => {
                self.position = p;
                true
            },
            None => false,
        }
    }

    /// Move left `count` columns; the caller must already have proved
    /// there is room.
    pub fn cursor_left_by(&mut self, count: usize)
        requires
            old(self).position.column >= count,
        ensures
            *final(self) == (RenderBufferCanvas {
                position: RenderPosition {
                    line: old(self).position.line,
                    column: (old(self).position.column - count) as usize,
                },
                ..*old(self)
            }),
    {
        let moved = self.try_cursor_left_by(count);
    }

    /// Move left one column; the caller must already have proved there
    /// is room.
    pub fn cursor_left(&mut self)
        requires
            old(self).position.column >= 1,
        ensures
            *final(self) == (RenderBufferCanvas {
                position: RenderPosition {
                    line: old(self).position.line,
                    column: (old(self).position.column - 1) as usize,
                },
                ..*old(self)
            }),
    {
        self.cursor_left_by(1);
    }
}

} // verus!
