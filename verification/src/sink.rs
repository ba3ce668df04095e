//! The multi-pass render driver and the cell sinks.
//!
//! The driver pages a render buffer over the document: each page re-runs
//! the renderable from scratch, and the committed window rows are
//! linearized into a flat sequence of cell events. Because a render's
//! paint operations depend only on the text, the width and the policy —
//! never on the page window — the linearized sequence is the same for
//! every page height, which is stated by [`linearize`]'s contract.

use vstd::prelude::*;

use crate::buffer::{empty_buffer_model, CellM, StaticRenderBuffer};
use crate::delta::{cell_delta_spec, write_cell_delta};
use crate::style::{Ansi, TextTag};
use crate::support::AnsiSupport;
use crate::writer::CharacterWriter;
use crate::canvas::RenderBufferCanvas;
use crate::position::RenderPosition;
use crate::text::{
    apply_ops, lemma_apply_ops_push, ops_below, text_ops, text_weight, PaintOp, RenderableError,
    Text,
};
use crate::unicode::{grapheme_width_of, AmbiguityPolicy, Grapheme};

verus! {

/// Whether a paint fits horizontally, so the buffer accepted it.
pub open spec fn op_ok(op: PaintOp, w: nat, policy: AmbiguityPolicy) -> bool {
    op.column + grapheme_width_of(op.text, policy) <= w
}

/// The highest line targeted by any accepted paint, if any.
pub open spec fn ops_top(ops: Seq<PaintOp>, w: nat, policy: AmbiguityPolicy) -> Option<nat>
    decreases ops.len(),
{
    if ops.len() == 0 {
        None
    } else {
        let prev = ops_top(ops.drop_last(), w, policy);
        let op = ops.last();
        if op_ok(op, w, policy) {
            match prev {
                None => Some(op.line),
                Some(t) => if op.line > t {
                    Some(op.line)
                } else {
                    Some(t)
                },
            }
        } else {
            prev
        }
    }
}

/// The cell a sequence of paints leaves at a grid position: the last
/// accepted paint anchored there, if any.
pub open spec fn doc_cell(
    ops: Seq<PaintOp>,
    line: nat,
    col: nat,
    w: nat,
    policy: AmbiguityPolicy,
) -> Option<CellM>
    decreases ops.len(),
{
    if ops.len() == 0 {
        None
    } else {
        let op = ops.last();
        if op_ok(op, w, policy) && op.line == line && op.column == col {
            Some(CellM { text: op.text, tag: op.tag, width: grapheme_width_of(op.text, policy) })
        } else {
            doc_cell(ops.drop_last(), line, col, w, policy)
        }
    }
}

/// Replaying paints against a fresh window leaves exactly the document
/// cells that fall inside the window, and the document's top line —
/// whatever the window's offset and height.
pub proof fn lemma_apply_empty(
    ops: Seq<PaintOp>,
    w: nat,
    h: nat,
    offset: nat,
    policy: AmbiguityPolicy,
)
    ensures
        ({
            let m = apply_ops(empty_buffer_model(w, h, offset, policy), ops);
            &&& m.top == ops_top(ops, w, policy)
            &&& m.width == w
            &&& m.height == h
            &&& m.offset == offset
            &&& m.policy == policy
            &&& m.grid.len() == h
            &&& forall|r: int| 0 <= r < h ==> (#[trigger] m.grid[r]).len() == w
            &&& forall|r: int, c: int|
                0 <= r < h && 0 <= c < w ==> (#[trigger] m.grid[r][c]) == doc_cell(
                    ops,
                    (offset + r) as nat,
                    c as nat,
                    w,
                    policy,
                )
        }),
    decreases ops.len(),
{
    let e = empty_buffer_model(w, h, offset, policy);
    if ops.len() == 0 {
    } else {
        let prefix = ops.drop_last();
        let op = ops.last();
        lemma_apply_empty(prefix, w, h, offset, policy);
        assert(prefix.push(op) =~= ops);
        lemma_apply_ops_push(e, prefix, op);
    }
}

/// A written document cell always ends within the line: the paint that
/// produced it was accepted by the horizontal fit check.
pub proof fn lemma_doc_cell_ok(
    ops: Seq<PaintOp>,
    line: nat,
    col: nat,
    w: nat,
    policy: AmbiguityPolicy,
)
    ensures
        match doc_cell(ops, line, col, w, policy) {
            None => true,
            Some(cell) => col + cell.width <= w,
        },
    decreases ops.len(),
{
    if ops.len() > 0 {
        lemma_doc_cell_ok(ops.drop_last(), line, col, w, policy);
    }
}

/// The top line of a paint sequence never exceeds a bound that all its
/// paints respect.
pub proof fn lemma_ops_top_below(ops: Seq<PaintOp>, l: nat, w: nat, policy: AmbiguityPolicy)
    requires
        ops_below(ops, l),
    ensures
        match ops_top(ops, w, policy) {
            None => true,
            Some(t) => t <= l,
        },
    decreases ops.len(),
{
    if ops.len() > 0 {
        assert(forall|k: int| 0 <= k < ops.drop_last().len() ==> (#[trigger] ops.drop_last()[k])
            == ops[k]);
        lemma_ops_top_below(ops.drop_last(), l, w, policy);
        assert(ops.last() == ops[ops.len() - 1]);
    }
}


/// One entry of the linearized document: a written cell, a gap that was
/// never written, or the end of a row.
pub enum LinearCell {
    Grapheme(Grapheme, TextTag),
    Gap,
    LineEnd,
}

/// The mathematical content of a linearized entry.
pub enum CellEvent {
    Grapheme(Seq<char>, TextTag),
    Gap,
    LineEnd,
}

impl View for LinearCell {
    type V = CellEvent;

    open spec fn view(&self) -> CellEvent {
        match self {
            LinearCell::Grapheme(g, t) => CellEvent::Grapheme(g@, *t),
            LinearCell::Gap => CellEvent::Gap,
            LinearCell::LineEnd => CellEvent::LineEnd,
        }
    }
}

pub open spec fn events_of(cells: Seq<LinearCell>) -> Seq<CellEvent> {
    cells.map_values(|c: LinearCell| c@)
}

/// One row of the document, linearized left to right: a written cell is
/// emitted once and the columns it covers are skipped; an unwritten cell
/// is a gap; the row ends with a line-end event.
pub open spec fn emit_row_rec(
    ops: Seq<PaintOp>,
    line: nat,
    col: nat,
    w: nat,
    policy: AmbiguityPolicy,
) -> Seq<CellEvent>
    decreases (if col < w { w - col } else { 0int }),
{
    if col >= w {
        seq![CellEvent::LineEnd]
    } else {
        match doc_cell(ops, line, col, w, policy) {
            Some(cell) => {
                let step = if cell.width == 0 {
                    1nat
                } else {
                    cell.width
                };
                seq![CellEvent::Grapheme(cell.text, cell.tag)] + emit_row_rec(
                    ops,
                    line,
                    (col + step) as nat,
                    w,
                    policy,
                )
            },
            None => seq![CellEvent::Gap] + emit_row_rec(ops, line, (col + 1) as nat, w, policy),
        }
    }
}

/// The document's rows from `line` up to `height`, linearized in order.
pub open spec fn emit_lines_rec(
    ops: Seq<PaintOp>,
    line: nat,
    height: nat,
    w: nat,
    policy: AmbiguityPolicy,
) -> Seq<CellEvent>
    decreases height - line,
{
    if line >= height {
        Seq::empty()
    } else {
        emit_row_rec(ops, line, 0, w, policy) + emit_lines_rec(
            ops,
            (line + 1) as nat,
            height,
            w,
            policy,
        )
    }
}

/// How many rows the document occupies: one past the highest line any
/// accepted paint targeted.
pub open spec fn doc_height(ops: Seq<PaintOp>, w: nat, policy: AmbiguityPolicy) -> nat {
    match ops_top(ops, w, policy) {
        None => 0,
        Some(t) => (t + 1) as nat,
    }
}

/// The linearized render of a text into a width-`w` document: every cell
/// event the paged driver hands to a sink, in order. No page height
/// appears here: the driver produces this same sequence for every page
/// height.
pub open spec fn linearize_spec(t: Text, w: nat, policy: AmbiguityPolicy) -> Seq<CellEvent> {
    let out = text_ops(t, 0, 0, w, policy);
    emit_lines_rec(out.ops, 0, doc_height(out.ops, w, policy), w, policy)
}

/// Render a text through pages of the given height and linearize the
/// committed cells. The result is `linearize_spec`, which does not
/// mention the page height: any page height (and one unbounded page)
/// yields the identical cell sequence.
#[verifier::loop_isolation(false)]
#[verifier::rlimit(60)]
pub fn linearize(
    text: &Text,
    width: usize,
    page_height: usize,
    policy: AmbiguityPolicy,
) -> (r: Result<Vec<LinearCell>, RenderableError>)
    requires
        page_height >= 1,
        text_weight(*text) + page_height + 1 <= usize::MAX,
    ensures
        (r is Ok <==> !text_ops(*text, 0, 0, width as nat, policy).err),
        r matches Ok(cells) ==> events_of(cells@) == linearize_spec(*text, width as nat, policy),
{
    let ghost w = width as nat;
    let ghost dops = text_ops(*text, 0, 0, w, policy).ops;
    let ghost target = linearize_spec(*text, w, policy);
    let ghost dh = doc_height(dops, w, policy);
    let mut out: Vec<LinearCell> = Vec::new();
    let mut offset: usize = 0;
    let mut finished = false;
    proof {
        assert(events_of(out@) =~= Seq::<CellEvent>::empty());
        assert(Seq::<CellEvent>::empty() + emit_lines_rec(dops, 0, dh, w, policy) =~= target);
    }
    while !finished
        invariant
            offset <= text_weight(*text) + 1,
            !finished ==> offset as nat <= dh,
            !finished ==> target == events_of(out@) + emit_lines_rec(dops, offset as nat, dh, w, policy),
            finished ==> target == events_of(out@),
            finished ==> !text_ops(*text, 0, 0, w, policy).err,
        decreases dh - offset, (if finished { 0int } else { 1int }),
    {
        let buffer = StaticRenderBuffer::new(width, page_height, offset, policy);
        let mut canvas = RenderBufferCanvas::canvas_at(buffer, RenderPosition::zero());
        let res = text.render_into(&mut canvas);
        let buffer = canvas.into_buffer();
        if let Err(e) = res {
            return Err(e);
        }
        proof {
            lemma_apply_empty(dops, w, page_height as nat, offset as nat, policy);
            crate::text::lemma_text_ops_bound(*text, 0, 0, w, policy);
            lemma_ops_top_below(dops, text_ops(*text, 0, 0, w, policy).line, w, policy);
        }
        if buffer.is_empty() {
            proof {
                assert(dh == offset as nat);
            }
            finished = true;
        } else {
            let t = match buffer.top_line() {
                Some(t) => t,
                None => {
                    proof {
                        assert(false);
                    }
                    0
                },
            };
            let rows = if t - offset >= page_height - 1 {
                page_height
            } else {
                t - offset + 1
            };
            let mut r: usize = 0;
            while r < rows
                invariant
                    r <= rows,
                    offset + rows <= dh,
                    target == events_of(out@) + emit_lines_rec(
                        dops,
                        (offset + r) as nat,
                        dh,
                        w,
                        policy,
                    ),
                decreases rows - r,
            {
                let line = offset + r;
                let mut col: usize = 0;
                proof {
                    assert(emit_lines_rec(dops, line as nat, dh, w, policy) == emit_row_rec(
                        dops,
                        line as nat,
                        0,
                        w,
                        policy,
                    ) + emit_lines_rec(dops, line as nat + 1, dh, w, policy));
                }
                while col < width
                    invariant
                        col <= width,
                        target == events_of(out@) + emit_row_rec(dops, line as nat, col as nat, w, policy)
                            + emit_lines_rec(dops, line as nat + 1, dh, w, policy),
                    decreases width - col,
                {
                    let cell = buffer.cell_at(r, col);
                    proof {
                        lemma_doc_cell_ok(dops, line as nat, col as nat, w, policy);
                    }
                    match cell {
                        Some(c) => {
                            let step = if c.width == 0 {
                                1
                            } else {
                                c.width
                            };
                            let ghost prev = out@;
                            out.push(LinearCell::Grapheme(c.grapheme.clone(), c.tag));
                            proof {
                                assert(events_of(out@) =~= events_of(prev).push(
                                    CellEvent::Grapheme(c.grapheme@, c.tag),
                                ));
                                assert(events_of(prev).push(
                                    CellEvent::Grapheme(c.grapheme@, c.tag),
                                ) + emit_row_rec(dops, line as nat, (col + step) as nat, w, policy)
                                    =~= events_of(prev) + (seq![
                                    CellEvent::Grapheme(c.grapheme@, c.tag),
                                ] + emit_row_rec(dops, line as nat, (col + step) as nat, w, policy)));
                            }
                            col = col + step;
                        },
                        None => {
                            let ghost prev = out@;
                            out.push(LinearCell::Gap);
                            proof {
                                assert(events_of(out@) =~= events_of(prev).push(CellEvent::Gap));
                                assert(events_of(prev).push(CellEvent::Gap) + emit_row_rec(
                                    dops,
                                    line as nat,
                                    (col + 1) as nat,
                                    w,
                                    policy,
                                ) =~= events_of(prev) + (seq![CellEvent::Gap] + emit_row_rec(
                                    dops,
                                    line as nat,
                                    (col + 1) as nat,
                                    w,
                                    policy,
                                )));
                            }
                            col = col + 1;
                        },
                    }
                }
                let ghost prev = out@;
                out.push(LinearCell::LineEnd);
                proof {
                    assert(events_of(out@) =~= events_of(prev).push(CellEvent::LineEnd));
                    assert(emit_row_rec(dops, line as nat, col as nat, w, policy) =~= seq![
                        CellEvent::LineEnd,
                    ]);
                    assert(events_of(prev).push(CellEvent::LineEnd) + emit_lines_rec(
                        dops,
                        line as nat + 1,
                        dh,
                        w,
                        policy,
                    ) =~= events_of(prev) + (seq![CellEvent::LineEnd] + emit_lines_rec(
                        dops,
                        line as nat + 1,
                        dh,
                        w,
                        policy,
                    )));
                }
                r += 1;
            }
            if rows < page_height {
                proof {
                    assert(offset + rows == dh);
                }
                finished = true;
            } else {
                offset = offset + page_height;
            }
        }
    }
    proof {
        assert(events_of(out@) + Seq::<CellEvent>::empty() =~= events_of(out@));
    }
    Ok(out)
}


/// What the plain-text sink writes for a run of cell events: the raw
/// grapheme text, one space per gap, one newline per row.
pub open spec fn plaintext_of(events: Seq<CellEvent>) -> Seq<char>
    decreases events.len(),
{
    if events.len() == 0 {
        Seq::empty()
    } else {
        (match events[0] {
            CellEvent::Grapheme(text, _) => text,
            CellEvent::Gap => " "@,
            CellEvent::LineEnd => "\n"@,
        }) + plaintext_of(events.drop_first())
    }
}

/// What the style-delta sink writes for a run of cell events, carrying
/// the last emitted style across the whole run: each written cell first
/// emits the delta from the previous cell's resolved style, a gap or a
/// row end writes plain filler without touching the style state.
pub open spec fn ansi_events_rec(
    events: Seq<CellEvent>,
    support: AnsiSupport,
    last: Option<Ansi>,
) -> Seq<char>
    decreases events.len(),
{
    if events.len() == 0 {
        Seq::empty()
    } else {
        match events[0] {
            CellEvent::Grapheme(text, tag) => cell_delta_spec(
                support,
                last,
                Some(tag.resolved_spec()),
            ) + text + ansi_events_rec(events.drop_first(), support, Some(tag.resolved_spec())),
            CellEvent::Gap => " "@ + ansi_events_rec(events.drop_first(), support, last),
            CellEvent::LineEnd => "\n"@ + ansi_events_rec(events.drop_first(), support, last),
        }
    }
}

/// The full control-code stream for a run of cell events: the deltas and
/// text, then one final full style reset.
pub open spec fn ansi_of(events: Seq<CellEvent>, support: AnsiSupport) -> Seq<char> {
    ansi_events_rec(events, support, None) + "\x1b[0m"@
}

/// Why a render did not produce output: the renderable failed, or the
/// destination writer failed.
#[derive(Debug)]
pub enum PlaintextError<E> {
    Renderable(RenderableError),
    Writer(E),
}

/// The plain-text sink: tags are ignored; graphemes, spaces for gaps and
/// newlines per row go straight through to the writer.
pub struct Plaintext<W: CharacterWriter> {
    pub writer: W,
    pub error: Option<W::Error>,
}

impl<W: CharacterWriter> Plaintext<W> {
    pub open spec fn ok(&self) -> bool {
        self.error is None
    }

    pub fn from_writer(writer: W) -> (r: Self)
        ensures
            r.writer == writer,
            r.ok(),
    {
        Plaintext { writer, error: None }
    }

    /// Emit one written cell; reports whether emission may continue.
    pub fn append(&mut self, grapheme: &Grapheme, tag: TextTag) -> (more: bool)
        requires
            old(self).ok(),
        ensures
            more == final(self).ok(),
            more ==> final(self).writer.written() == old(self).writer.written() + grapheme@,
    {
        match self.writer.write_str(grapheme.as_str()) {
            Ok(()) => true,
            Err(e) => {
                self.error = Some(e);
                false
            },
        }
    }

    /// Emit one never-written cell as a single space.
    pub fn gap(&mut self) -> (more: bool)
        requires
            old(self).ok(),
        ensures
            more == final(self).ok(),
            more ==> final(self).writer.written() == old(self).writer.written() + " "@,
    {
        match self.writer.write_str(" ") {
            Ok(()) => true,
            Err(e) => {
                self.error = Some(e);
                false
            },
        }
    }

    /// End the current row.
    pub fn finalize_line(&mut self) -> (more: bool)
        requires
            old(self).ok(),
        ensures
            more == final(self).ok(),
            more ==> final(self).writer.written() == old(self).writer.written() + "\n"@,
    {
        match self.writer.write_str("\n") {
            Ok(()) => true,
            Err(e) => {
                self.error = Some(e);
                false
            },
        }
    }

    /// Hand the writer back, or the first writer error encountered.
    pub fn finalize(self) -> (r: Result<W, PlaintextError<W::Error>>)
        ensures
            self.ok() ==> (r matches Ok(w) && w == self.writer),
            !self.ok() ==> r is Err,
            r matches Err(e) ==> e is Writer,
    {
        match self.error {
            None => Ok(self.writer),
            Some(e) => Err(PlaintextError::Writer(e)),
        }
    }
}

/// Render a text through pages and write it as plain text. On success the
/// writer has received exactly the plain-text form of the linearized
/// document; a failed renderable or a failed write is reported instead.
#[verifier::loop_isolation(false)]
pub fn render_plaintext<W: CharacterWriter>(
    text: &Text,
    width: usize,
    page_height: usize,
    policy: AmbiguityPolicy,
    writer: W,
) -> (r: Result<W, PlaintextError<W::Error>>)
    requires
        page_height >= 1,
        text_weight(*text) + page_height + 1 <= usize::MAX,
    ensures
        text_ops(*text, 0, 0, width as nat, policy).err ==> (r matches Err(e) && e
            is Renderable),
        (r matches Err(e) && e is Renderable) ==> text_ops(*text, 0, 0, width as nat, policy).err,
        r matches Ok(w2) ==> !text_ops(*text, 0, 0, width as nat, policy).err && w2.written()
            == writer.written() + plaintext_of(linearize_spec(*text, width as nat, policy)),
{
    let ghost target = plaintext_of(linearize_spec(*text, width as nat, policy));
    let cells = match linearize(text, width, page_height, policy) {
        Ok(cells) => cells,
        Err(e) => {
            return Err(PlaintextError::Renderable(e));
        },
    };
    let ghost evs = events_of(cells@);
    let mut sink = Plaintext::from_writer(writer);
    let n = cells.len();
    let mut i: usize = 0;
    proof {
        assert(evs.skip(0) =~= evs);
    }
    while i < n
        invariant
            i <= n,
            sink.ok(),
            writer.written() + plaintext_of(evs) == sink.writer.written() + plaintext_of(
                evs.skip(i as int),
            ),
        decreases n - i,
    {
        proof {
            assert(evs.skip(i as int)[0] == evs[i as int]);
            assert(evs.skip(i as int).drop_first() =~= evs.skip(i as int + 1));
        }
        let more = match &cells[i] {
            LinearCell::Grapheme(g, tag) => sink.append(g, *tag),
            LinearCell::Gap => sink.gap(),
            LinearCell::LineEnd => sink.finalize_line(),
        };
        if !more {
            return sink.finalize();
        }
        proof {
            assert(sink.writer.written() + plaintext_of(evs.skip(i as int + 1)) =~= writer.written()
                + plaintext_of(evs));
        }
        i += 1;
    }
    proof {
        assert(evs.skip(n as int) =~= Seq::<CellEvent>::empty());
        assert(sink.writer.written() + Seq::<char>::empty() =~= sink.writer.written());
    }
    sink.finalize()
}

/// Render a text as plain text into a fresh string. The string writer
/// cannot fail, so the only error left is the renderable's own.
#[verifier::loop_isolation(false)]
pub fn render_plaintext_string(
    text: &Text,
    width: usize,
    page_height: usize,
    policy: AmbiguityPolicy,
) -> (r: Result<String, RenderableError>)
    requires
        page_height >= 1,
        text_weight(*text) + page_height + 1 <= usize::MAX,
    ensures
        r is Ok <==> !text_ops(*text, 0, 0, width as nat, policy).err,
        r matches Ok(s) ==> s@ == plaintext_of(linearize_spec(*text, width as nat, policy)),
{
    let ghost target = plaintext_of(linearize_spec(*text, width as nat, policy));
    let cells = match linearize(text, width, page_height, policy) {
        Ok(cells) => cells,
        Err(e) => {
            return Err(e);
        },
    };
    let ghost evs = events_of(cells@);
    let mut out = String::new();
    let n = cells.len();
    let mut i: usize = 0;
    proof {
        assert(evs.skip(0) =~= evs);
        assert(Seq::<char>::empty() + plaintext_of(evs) =~= plaintext_of(evs));
    }
    while i < n
        invariant
            i <= n,
            plaintext_of(evs) == out@ + plaintext_of(evs.skip(i as int)),
        decreases n - i,
    {
        proof {
            assert(evs.skip(i as int)[0] == evs[i as int]);
            assert(evs.skip(i as int).drop_first() =~= evs.skip(i as int + 1));
        }
        match &cells[i] {
            LinearCell::Grapheme(g, _) => {
                let moved = out.write_str(g.as_str());
            },
            LinearCell::Gap => {
                let moved = out.write_str(" ");
            },
            LinearCell::LineEnd => {
                let moved = out.write_str("\n");
            },
        }
        proof {
            assert(out@ + plaintext_of(evs.skip(i as int + 1)) =~= plaintext_of(evs));
        }
        i += 1;
    }
    proof {
        assert(evs.skip(n as int) =~= Seq::<CellEvent>::empty());
        assert(out@ + Seq::<char>::empty() =~= out@);
    }
    Ok(out)
}


/// The style-delta sink: owns the destination writer, the last emitted
/// style (carried across the whole multi-page render) and the first
/// writer error encountered.
pub struct AnsiSink<W: CharacterWriter> {
    pub writer: W,
    pub support: AnsiSupport,
    pub last_tag: Option<Ansi>,
    pub error: Option<W::Error>,
}

impl<W: CharacterWriter> AnsiSink<W> {
    pub open spec fn ok(&self) -> bool {
        self.error is None
    }

    pub fn from_writer(writer: W, support: AnsiSupport) -> (r: Self)
        ensures
            r.writer == writer,
            r.support == support,
            r.last_tag is None,
            r.ok(),
    {
        AnsiSink { writer, support, last_tag: None, error: None }
    }

    /// Emit one written cell: the style delta from the previous cell's
    /// resolved style, then the grapheme itself.
    pub fn append(&mut self, grapheme: &Grapheme, tag: TextTag) -> (more: bool)
        requires
            old(self).ok(),
        ensures
            more == final(self).ok(),
            final(self).support == old(self).support,
            more ==> final(self).writer.written() == old(self).writer.written()
                + cell_delta_spec(
                old(self).support,
                old(self).last_tag,
                Some(tag.resolved_spec()),
            ) + grapheme@ && final(self).last_tag == Some(tag.resolved_spec()),
    {
        let resolved = tag.resolved();
        let next = Some(resolved);
        match write_cell_delta(&mut self.writer, self.support, &self.last_tag, &next) {
            Ok(()) => {},
            Err(e) => {
                self.error = Some(e);
                return false;
            },
        }
        match self.writer.write_str(grapheme.as_str()) {
            Ok(()) => {},
            Err(e) => {
                self.error = Some(e);
                return false;
            },
        }
        self.last_tag = next;
        true
    }

    /// Emit one never-written cell as a single space; the style state is
    /// untouched.
    pub fn gap(&mut self) -> (more: bool)
        requires
            old(self).ok(),
        ensures
            more == final(self).ok(),
            final(self).support == old(self).support,
            more ==> final(self).writer.written() == old(self).writer.written() + " "@
                && final(self).last_tag == old(self).last_tag,
    {
        match self.writer.write_str(" ") {
            Ok(()) => true,
            Err(e) => {
                self.error = Some(e);
                false
            },
        }
    }

    /// End the current row; the style state is untouched.
    pub fn finalize_line(&mut self) -> (more: bool)
        requires
            old(self).ok(),
        ensures
            more == final(self).ok(),
            final(self).support == old(self).support,
            more ==> final(self).writer.written() == old(self).writer.written() + "\n"@
                && final(self).last_tag == old(self).last_tag,
    {
        match self.writer.write_str("\n") {
            Ok(()) => true,
            Err(e) => {
                self.error = Some(e);
                false
            },
        }
    }

    /// Close the render with a full style reset and hand the writer back;
    /// the closing codes are attempted even after an earlier failure, but
    /// the first error wins.
    pub fn finalize(self) -> (r: Result<W, PlaintextError<W::Error>>)
        ensures
            !self.ok() ==> r is Err,
            r matches Err(e) ==> e is Writer,
            (r matches Ok(w) ==> self.ok() && w.written() == self.writer.written()
                + "\x1b[0m"@),
    {
        let mut sink = self;
        let reset = sink.writer.write_str("\x1b[0m");
        match sink.error {
            Some(e) => Err(PlaintextError::Writer(e)),
            None => match reset {
                Ok(()) => Ok(sink.writer),
                Err(e) => Err(PlaintextError::Writer(e)),
            },
        }
    }
}

/// Render a text through pages and write it as a minimal control-code
/// stream for the declared capability. On success the writer has received
/// exactly the delta-encoded form of the linearized document, ending in a
/// full style reset.
#[verifier::loop_isolation(false)]
pub fn render_ansi<W: CharacterWriter>(
    text: &Text,
    width: usize,
    page_height: usize,
    policy: AmbiguityPolicy,
    support: AnsiSupport,
    writer: W,
) -> (r: Result<W, PlaintextError<W::Error>>)
    requires
        page_height >= 1,
        text_weight(*text) + page_height + 1 <= usize::MAX,
    ensures
        text_ops(*text, 0, 0, width as nat, policy).err ==> (r matches Err(e) && e
            is Renderable),
        (r matches Err(e) && e is Renderable) ==> text_ops(*text, 0, 0, width as nat, policy).err,
        r matches Ok(w2) ==> !text_ops(*text, 0, 0, width as nat, policy).err && w2.written()
            == writer.written() + ansi_of(linearize_spec(*text, width as nat, policy), support),
{
    let cells = match linearize(text, width, page_height, policy) {
        Ok(cells) => cells,
        Err(e) => {
            return Err(PlaintextError::Renderable(e));
        },
    };
    let ghost evs = events_of(cells@);
    let mut sink = AnsiSink::from_writer(writer, support);
    let n = cells.len();
    let mut i: usize = 0;
    proof {
        assert(evs.skip(0) =~= evs);
    }
    while i < n
        invariant
            i <= n,
            sink.ok(),
            sink.support == support,
            writer.written() + ansi_events_rec(evs, support, None) == sink.writer.written()
                + ansi_events_rec(evs.skip(i as int), support, sink.last_tag),
        decreases n - i,
    {
        proof {
            assert(evs.skip(i as int)[0] == evs[i as int]);
            assert(evs.skip(i as int).drop_first() =~= evs.skip(i as int + 1));
        }
        let more = match &cells[i] {
            LinearCell::Grapheme(g, tag) => sink.append(g, *tag),
            LinearCell::Gap => sink.gap(),
            LinearCell::LineEnd => sink.finalize_line(),
        };
        if !more {
            return sink.finalize();
        }
        proof {
            assert(sink.writer.written() + ansi_events_rec(
                evs.skip(i as int + 1),
                support,
                sink.last_tag,
            ) =~= writer.written() + ansi_events_rec(evs, support, None));
        }
        i += 1;
    }
    proof {
        assert(evs.skip(n as int) =~= Seq::<CellEvent>::empty());
        assert(sink.writer.written() + Seq::<char>::empty() =~= sink.writer.written());
    }
    let r = sink.finalize();
    proof {
        if r is Ok {
            assert(r->Ok_0.written() =~= writer.written() + ansi_of(
                linearize_spec(*text, width as nat, policy),
                support,
            ));
        }
    }
    r
}

} // verus!
