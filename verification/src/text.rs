//! Styled text and the overflow-policy layout algorithms.
//!
//! Every layout algorithm is specified by a recursive function that
//! produces the exact sequence of paint operations the algorithm commits,
//! together with the cursor position it leaves behind. The operations
//! depend only on the text, the start position, the buffer width and the
//! ambiguity policy — never on the buffer's window — which is what lets
//! the paged driver replay a render identically on every page.

use vstd::prelude::*;

use crate::buffer::{set_cell_model, BufferModel};
use crate::canvas::RenderBufferCanvas;
use crate::position::RenderPosition;
use crate::canvas::CanvasSummary;
use crate::style::{Ansi, EllipsisPosition, TextTag};
use crate::unicode::{
    grapheme_width_of, graphemes_of, lemma_concat_all_nonempty_len, lemma_concat_len_sum,
    sum_lens, views_of, word_bounds_of, word_chunks, AmbiguityPolicy, Grapheme,
};

verus! {

/// One committed paint: a grapheme cluster placed at a cell, which the
/// buffer accepted (it fit horizontally where it was placed).
pub struct PaintOp {
    pub line: nat,
    pub column: nat,
    pub text: Seq<char>,
    pub tag: TextTag,
}

/// What a layout pass leaves behind: the paints it committed, the cursor
/// position after the pass, and whether it hit horizontal overflow.
pub struct LayoutOut {
    pub ops: Seq<PaintOp>,
    pub line: nat,
    pub col: nat,
    pub overflow: bool,
}

pub open spec fn with_prefix(ops: Seq<PaintOp>, out: LayoutOut) -> LayoutOut {
    LayoutOut { ops: ops + out.ops, ..out }
}

/// The line feed grapheme, which starts a fresh sub-line.
pub open spec fn newline_g() -> Seq<char> {
    seq!['\n']
}

/// Replay a sequence of paints against a buffer.
pub open spec fn apply_ops(m: BufferModel, ops: Seq<PaintOp>) -> BufferModel
    decreases ops.len(),
{
    if ops.len() == 0 {
        m
    } else {
        apply_ops(
            set_cell_model(m, ops[0].line, ops[0].column, ops[0].text, ops[0].tag),
            ops.drop_first(),
        )
    }
}

pub proof fn lemma_apply_ops_push(m: BufferModel, ops: Seq<PaintOp>, op: PaintOp)
    ensures
        apply_ops(m, ops.push(op)) == set_cell_model(
            apply_ops(m, ops),
            op.line,
            op.column,
            op.text,
            op.tag,
        ),
    decreases ops.len(),
{
    reveal_with_fuel(apply_ops, 3);
    if ops.len() == 0 {
        assert(ops.push(op)[0] == op);
        assert(ops.push(op).drop_first() =~= Seq::<PaintOp>::empty());
    } else {
        assert(ops.push(op)[0] == ops[0]);
        assert(ops.push(op).drop_first() =~= ops.drop_first().push(op));
        lemma_apply_ops_push(
            set_cell_model(m, ops[0].line, ops[0].column, ops[0].text, ops[0].tag),
            ops.drop_first(),
            op,
        );
    }
}

pub proof fn lemma_apply_ops_concat(m: BufferModel, a: Seq<PaintOp>, b: Seq<PaintOp>)
    ensures
        apply_ops(m, a + b) == apply_ops(apply_ops(m, a), b),
    decreases a.len(),
{
    if a.len() == 0 {
        assert(a + b =~= b);
    } else {
        assert((a + b)[0] == a[0]);
        assert((a + b).drop_first() =~= a.drop_first() + b);
        lemma_apply_ops_concat(
            set_cell_model(m, a[0].line, a[0].column, a[0].text, a[0].tag),
            a.drop_first(),
            b,
        );
    }
}

/// Replaying paints never changes the buffer's geometry or policy.
pub proof fn lemma_apply_ops_geometry(m: BufferModel, ops: Seq<PaintOp>)
    ensures
        apply_ops(m, ops).width == m.width,
        apply_ops(m, ops).height == m.height,
        apply_ops(m, ops).offset == m.offset,
        apply_ops(m, ops).policy == m.policy,
    decreases ops.len(),
{
    if ops.len() > 0 {
        lemma_apply_ops_geometry(
            set_cell_model(m, ops[0].line, ops[0].column, ops[0].text, ops[0].tag),
            ops.drop_first(),
        );
    }
}

/// Clip layout: paint greedily and stop silently at the first horizontal
/// overflow; a line feed moves to the next line at the start column.
pub open spec fn clip_rec(
    gs: Seq<Seq<char>>,
    line: nat,
    col: nat,
    start_col: nat,
    w: nat,
    policy: AmbiguityPolicy,
    tag: Ansi,
) -> LayoutOut
    decreases gs.len(),
{
    if gs.len() == 0 {
        LayoutOut { ops: Seq::empty(), line, col, overflow: false }
    } else {
        let g = gs[0];
        if g == newline_g() {
            clip_rec(gs.drop_first(), (line + 1) as nat, start_col, start_col, w, policy, tag)
        } else if col + grapheme_width_of(g, policy) <= w {
            let rest = clip_rec(
                gs.drop_first(),
                line,
                (col + grapheme_width_of(g, policy)) as nat,
                start_col,
                w,
                policy,
                tag,
            );
            with_prefix(
                seq![PaintOp { line, column: col, text: g, tag: TextTag::Segment(tag) }],
                rest,
            )
        } else {
            LayoutOut { ops: Seq::empty(), line, col, overflow: true }
        }
    }
}

/// Paint the text at the cursor, dropping everything from the first
/// grapheme that does not fit; reports whether anything was dropped.
#[verifier::loop_isolation(false)]
pub fn render_segment_clip(
    text: &str,
    tag: &Ansi,
    canvas: &mut RenderBufferCanvas,
    start: RenderPosition,
) -> (r: bool)
    requires
        old(canvas).wf(),
        old(canvas).position.line + text@.len() + 1 <= usize::MAX,
    ensures
        final(canvas).wf(),
        ({
            let out = clip_rec(
                graphemes_of(text@),
                old(canvas).position.line as nat,
                old(canvas).position.column as nat,
                start.column as nat,
                old(canvas).buf().width,
                old(canvas).buf().policy,
                *tag,
            );
            &&& final(canvas).buf() == apply_ops(old(canvas).buf(), out.ops)
            &&& final(canvas).position.line == out.line
            &&& final(canvas).position.column == out.col
            &&& r == out.overflow
        }),
        final(canvas).start_position == old(canvas).start_position,
        final(canvas).position.line <= old(canvas).position.line + text@.len(),
{
    let ghost old_buf = canvas.buf();
    let ghost w = old_buf.width;
    let ghost policy = old_buf.policy;
    let ghost line0 = old(canvas).position.line as nat;
    let ghost col0 = old(canvas).position.column as nat;
    let ghost sc = start.column as nat;
    let gs = Grapheme::from_str(text);
    let ghost gvs = views_of(gs@);
    proof {
        lemma_concat_all_nonempty_len(gvs);
    }
    let ghost full = clip_rec(gvs, line0, col0, sc, w, policy, *tag);
    let n = gs.len();
    let mut i: usize = 0;
    let mut overflowed = false;
    let ghost mut done: Seq<PaintOp> = Seq::empty();
    proof {
        assert(gvs.skip(0) =~= gvs);
        assert(Seq::<PaintOp>::empty() + full.ops =~= full.ops);
    }
    while i < n && !overflowed
        invariant
            n == gs.len(),
            i <= n,
            n <= text@.len(),
            line0 + text@.len() + 1 <= usize::MAX,
            gvs == views_of(gs@),
            gvs.len() == n,
            forall|j: int| 0 <= j < n ==> (#[trigger] gs@[j]).wf(),
            forall|j: int| 0 <= j < n ==> gvs[j] == (#[trigger] gs@[j])@,
            canvas.wf(),
            canvas.start_position == old(canvas).start_position,
            canvas.buf() == apply_ops(old_buf, done),
            canvas.buf().width == w,
            canvas.buf().policy == policy,
            canvas.position.line <= line0 + i,
            !overflowed ==> full == with_prefix(
                done,
                clip_rec(
                    gvs.skip(i as int),
                    canvas.position.line as nat,
                    canvas.position.column as nat,
                    sc,
                    w,
                    policy,
                    *tag,
                ),
            ),
            overflowed ==> full == (LayoutOut {
                ops: done,
                line: canvas.position.line as nat,
                col: canvas.position.column as nat,
                overflow: true,
            }),
        decreases n - i,
    {
        let ghost prev_line = canvas.position.line as nat;
        let ghost prev_col = canvas.position.column as nat;
        let ghost tail = clip_rec(gvs.skip(i as int), prev_line, prev_col, sc, w, policy, *tag);
        proof {
            assert(gvs.skip(i as int)[0] == gvs[i as int]);
            assert(gvs.skip(i as int).drop_first() =~= gvs.skip(i as int + 1));
        }
        let g = &gs[i];
        if g.is_newline() {
            canvas.cursor_down();
            canvas.set_column(start.column);
            proof {
                assert(tail == clip_rec(
                    gvs.skip(i as int + 1),
                    canvas.position.line as nat,
                    canvas.position.column as nat,
                    sc,
                    w,
                    policy,
                    *tag,
                ));
            }
        } else {
            let ghost op = PaintOp {
                line: prev_line,
                column: prev_col,
                text: gvs[i as int],
                tag: TextTag::Segment(*tag),
            };
            let ok = canvas.set_gph(g, TextTag::Segment(*tag));
            if ok {
                proof {
                    let rest = clip_rec(
                        gvs.skip(i as int + 1),
                        canvas.position.line as nat,
                        canvas.position.column as nat,
                        sc,
                        w,
                        policy,
                        *tag,
                    );
                    assert(tail == with_prefix(seq![op], rest));
                    lemma_apply_ops_push(old_buf, done, op);
                    assert(done + (seq![op] + rest.ops) =~= done.push(op) + rest.ops);
                    done = done.push(op);
                }
            } else {
                proof {
                    assert(tail == (LayoutOut {
                        ops: Seq::<PaintOp>::empty(),
                        line: prev_line,
                        col: prev_col,
                        overflow: true,
                    }));
                    assert(done + Seq::<PaintOp>::empty() =~= done);
                }
                overflowed = true;
            }
        }
        i += 1;
    }
    proof {
        if !overflowed {
            assert(gvs.skip(n as int) =~= Seq::<Seq<char>>::empty());
            assert(done + Seq::<PaintOp>::empty() =~= done);
        }
    }
    overflowed
}

/// Grapheme wrap layout: paint greedily; a grapheme that overflows moves
/// to the next line at the start column and is retried there; if it does
/// not fit even on a fresh line, the remainder of the segment is dropped.
pub open spec fn grapheme_wrap_rec(
    gs: Seq<Seq<char>>,
    line: nat,
    col: nat,
    start_col: nat,
    w: nat,
    policy: AmbiguityPolicy,
    tag: Ansi,
) -> LayoutOut
    decreases gs.len(),
{
    if gs.len() == 0 {
        LayoutOut { ops: Seq::empty(), line, col, overflow: false }
    } else {
        let g = gs[0];
        let gw = grapheme_width_of(g, policy);
        if g == newline_g() {
            grapheme_wrap_rec(
                gs.drop_first(),
                (line + 1) as nat,
                start_col,
                start_col,
                w,
                policy,
                tag,
            )
        } else if col + gw <= w {
            let rest = grapheme_wrap_rec(
                gs.drop_first(),
                line,
                (col + gw) as nat,
                start_col,
                w,
                policy,
                tag,
            );
            with_prefix(
                seq![PaintOp { line, column: col, text: g, tag: TextTag::Segment(tag) }],
                rest,
            )
        } else if start_col + gw <= w {
            let rest = grapheme_wrap_rec(
                gs.drop_first(),
                (line + 1) as nat,
                (start_col + gw) as nat,
                start_col,
                w,
                policy,
                tag,
            );
            with_prefix(
                seq![
                    PaintOp {
                        line: (line + 1) as nat,
                        column: start_col,
                        text: g,
                        tag: TextTag::Segment(tag),
                    },
                ],
                rest,
            )
        } else {
            LayoutOut { ops: Seq::empty(), line: (line + 1) as nat, col: start_col, overflow: true }
        }
    }
}

/// Paint the text at the cursor, wrapping to a fresh line at the start
/// column whenever a grapheme would overflow; a grapheme that does not
/// fit even on a fresh line abandons the remainder of the segment.
#[verifier::loop_isolation(false)]
pub fn render_segment_grapheme_wrap(
    text: &str,
    tag: &Ansi,
    canvas: &mut RenderBufferCanvas,
    start: RenderPosition,
)
    requires
        old(canvas).wf(),
        old(canvas).position.line + text@.len() + 1 <= usize::MAX,
    ensures
        final(canvas).wf(),
        ({
            let out = grapheme_wrap_rec(
                graphemes_of(text@),
                old(canvas).position.line as nat,
                old(canvas).position.column as nat,
                start.column as nat,
                old(canvas).buf().width,
                old(canvas).buf().policy,
                *tag,
            );
            &&& final(canvas).buf() == apply_ops(old(canvas).buf(), out.ops)
            &&& final(canvas).position.line == out.line
            &&& final(canvas).position.column == out.col
        }),
        final(canvas).start_position == old(canvas).start_position,
        final(canvas).position.line <= old(canvas).position.line + text@.len() + 1,
{
    let ghost old_buf = canvas.buf();
    let ghost w = old_buf.width;
    let ghost policy = old_buf.policy;
    let ghost line0 = old(canvas).position.line as nat;
    let ghost col0 = old(canvas).position.column as nat;
    let ghost sc = start.column as nat;
    let gs = Grapheme::from_str(text);
    let ghost gvs = views_of(gs@);
    proof {
        lemma_concat_all_nonempty_len(gvs);
        assert(gvs.skip(0) =~= gvs);
    }
    let ghost full = grapheme_wrap_rec(gvs, line0, col0, sc, w, policy, *tag);
    let n = gs.len();
    let mut i: usize = 0;
    let mut abandoned = false;
    let ghost mut done: Seq<PaintOp> = Seq::empty();
    proof {
        assert(Seq::<PaintOp>::empty() + full.ops =~= full.ops);
    }
    while i < n && !abandoned
        invariant
            i <= n,
            n <= text@.len(),
            canvas.wf(),
            canvas.start_position == old(canvas).start_position,
            canvas.buf() == apply_ops(old_buf, done),
            canvas.buf().width == w,
            canvas.buf().policy == policy,
            canvas.position.line <= line0 + i + 1,
            !abandoned ==> full == with_prefix(
                done,
                grapheme_wrap_rec(
                    gvs.skip(i as int),
                    canvas.position.line as nat,
                    canvas.position.column as nat,
                    sc,
                    w,
                    policy,
                    *tag,
                ),
            ),
            abandoned ==> full == (LayoutOut {
                ops: done,
                line: canvas.position.line as nat,
                col: canvas.position.column as nat,
                overflow: true,
            }),
        decreases n - i,
    {
        let ghost prev_line = canvas.position.line as nat;
        let ghost prev_col = canvas.position.column as nat;
        let ghost tail = grapheme_wrap_rec(
            gvs.skip(i as int),
            prev_line,
            prev_col,
            sc,
            w,
            policy,
            *tag,
        );
        proof {
            assert(gvs.skip(i as int)[0] == gvs[i as int]);
            assert(gvs.skip(i as int).drop_first() =~= gvs.skip(i as int + 1));
        }
        let g = &gs[i];
        if g.is_newline() {
            canvas.cursor_down();
            canvas.set_column(start.column);
        } else {
            let ghost op = PaintOp {
                line: prev_line,
                column: prev_col,
                text: gvs[i as int],
                tag: TextTag::Segment(*tag),
            };
            let ok = canvas.set_gph(g, TextTag::Segment(*tag));
            if ok {
                proof {
                    lemma_apply_ops_push(old_buf, done, op);
                    let rest = grapheme_wrap_rec(
                        gvs.skip(i as int + 1),
                        canvas.position.line as nat,
                        canvas.position.column as nat,
                        sc,
                        w,
                        policy,
                        *tag,
                    );
                    assert(done + (seq![op] + rest.ops) =~= done.push(op) + rest.ops);
                    done = done.push(op);
                }
            } else {
                canvas.cursor_down();
                canvas.set_column(start.column);
                let ghost op2 = PaintOp {
                    line: (prev_line + 1) as nat,
                    column: sc,
                    text: gvs[i as int],
                    tag: TextTag::Segment(*tag),
                };
                let ok2 = canvas.set_gph(g, TextTag::Segment(*tag));
                if ok2 {
                    proof {
                        lemma_apply_ops_push(old_buf, done, op2);
                        let rest = grapheme_wrap_rec(
                            gvs.skip(i as int + 1),
                            canvas.position.line as nat,
                            canvas.position.column as nat,
                            sc,
                            w,
                            policy,
                            *tag,
                        );
                        assert(done + (seq![op2] + rest.ops) =~= done.push(op2) + rest.ops);
                        done = done.push(op2);
                    }
                } else {
                    proof {
                        assert(done + Seq::<PaintOp>::empty() =~= done);
                    }
                    abandoned = true;
                }
            }
        }
        i += 1;
    }
    proof {
        if !abandoned {
            assert(gvs.skip(n as int) =~= Seq::<Seq<char>>::empty());
            assert(done + Seq::<PaintOp>::empty() =~= done);
        }
    }
}


/// The carriage-return/line-feed word chunk, which also starts a fresh
/// sub-line under word wrap.
pub open spec fn crlf_g() -> Seq<char> {
    seq!['\r', '\n']
}

/// Whether a chunk's graphemes, probed one after the other from the given
/// column, all fit; a line feed inside the chunk counts as a fit.
pub open spec fn chunk_fits(gs: Seq<Seq<char>>, col: nat, w: nat, policy: AmbiguityPolicy) -> bool
    decreases gs.len(),
{
    if gs.len() == 0 {
        true
    } else if gs[0] == newline_g() {
        true
    } else if col + grapheme_width_of(gs[0], policy) > w {
        false
    } else {
        chunk_fits(
            gs.drop_first(),
            (col + grapheme_width_of(gs[0], policy)) as nat,
            w,
            policy,
        )
    }
}

/// What painting a row of graphemes leaves behind.
pub struct PaintedChunk {
    pub ops: Seq<PaintOp>,
    pub col: nat,
}

/// Paint graphemes one after the other on a single line; one that does
/// not fit is skipped and the cursor stays put.
pub open spec fn paint_seq_rec(
    gs: Seq<Seq<char>>,
    line: nat,
    col: nat,
    w: nat,
    policy: AmbiguityPolicy,
    tag: Ansi,
) -> PaintedChunk
    decreases gs.len(),
{
    if gs.len() == 0 {
        PaintedChunk { ops: Seq::empty(), col }
    } else {
        let gw = grapheme_width_of(gs[0], policy);
        if col + gw <= w {
            let rest = paint_seq_rec(gs.drop_first(), line, (col + gw) as nat, w, policy, tag);
            PaintedChunk {
                ops: seq![PaintOp { line, column: col, text: gs[0], tag: TextTag::Segment(tag) }]
                    + rest.ops,
                col: rest.col,
            }
        } else {
            paint_seq_rec(gs.drop_first(), line, col, w, policy, tag)
        }
    }
}

/// Per-grapheme fallback for a chunk wider than the line: wrap each
/// overflowing grapheme to a fresh line, and skip one that does not fit
/// even there, continuing with the rest.
pub open spec fn wwrap_fallback_rec(
    gs: Seq<Seq<char>>,
    line: nat,
    col: nat,
    start_col: nat,
    w: nat,
    policy: AmbiguityPolicy,
    tag: Ansi,
) -> LayoutOut
    decreases gs.len(),
{
    if gs.len() == 0 {
        LayoutOut { ops: Seq::empty(), line, col, overflow: false }
    } else {
        let g = gs[0];
        let gw = grapheme_width_of(g, policy);
        if col + gw <= w {
            let rest = wwrap_fallback_rec(
                gs.drop_first(),
                line,
                (col + gw) as nat,
                start_col,
                w,
                policy,
                tag,
            );
            with_prefix(
                seq![PaintOp { line, column: col, text: g, tag: TextTag::Segment(tag) }],
                rest,
            )
        } else if start_col + gw <= w {
            let rest = wwrap_fallback_rec(
                gs.drop_first(),
                (line + 1) as nat,
                (start_col + gw) as nat,
                start_col,
                w,
                policy,
                tag,
            );
            with_prefix(
                seq![
                    PaintOp {
                        line: (line + 1) as nat,
                        column: start_col,
                        text: g,
                        tag: TextTag::Segment(tag),
                    },
                ],
                rest,
            )
        } else {
            wwrap_fallback_rec(gs.drop_first(), (line + 1) as nat, start_col, start_col, w, policy, tag)
        }
    }
}

/// Word wrap layout over word-boundary chunks: a chunk that fits on the
/// current line is painted there; one that fits on a fresh line moves
/// there first; one wider than a whole line falls back to per-grapheme
/// wrapping from the position the chunk started at.
pub open spec fn word_wrap_rec(
    cs: Seq<Seq<char>>,
    line: nat,
    col: nat,
    start_col: nat,
    w: nat,
    policy: AmbiguityPolicy,
    tag: Ansi,
) -> LayoutOut
    decreases cs.len(),
{
    if cs.len() == 0 {
        LayoutOut { ops: Seq::empty(), line, col, overflow: false }
    } else {
        let c = cs[0];
        let gsc = graphemes_of(c);
        if c == newline_g() || c == crlf_g() {
            word_wrap_rec(cs.drop_first(), (line + 1) as nat, start_col, start_col, w, policy, tag)
        } else if chunk_fits(gsc, col, w, policy) {
            let p = paint_seq_rec(gsc, line, col, w, policy, tag);
            with_prefix(p.ops, word_wrap_rec(cs.drop_first(), line, p.col, start_col, w, policy, tag))
        } else if chunk_fits(gsc, start_col, w, policy) {
            let p = paint_seq_rec(gsc, (line + 1) as nat, start_col, w, policy, tag);
            with_prefix(
                p.ops,
                word_wrap_rec(cs.drop_first(), (line + 1) as nat, p.col, start_col, w, policy, tag),
            )
        } else {
            let f = wwrap_fallback_rec(gsc, line, col, start_col, w, policy, tag);
            with_prefix(f.ops, word_wrap_rec(cs.drop_first(), f.line, f.col, start_col, w, policy, tag))
        }
    }
}

/// Whether this chunk is a bare line break (a line feed, or a carriage
/// return followed by a line feed).
fn is_newline_chunk(s: &String) -> (r: bool)
    ensures
        r == (s@ == newline_g() || s@ == crlf_g()),
{
    let st = s.as_str();
    let n = st.unicode_len();
    if n == 1 {
        let c = st.get_char(0);
        proof {
            if c == '\n' {
                assert(s@ =~= newline_g());
            }
        }
        c == '\n'
    } else if n == 2 {
        let c0 = st.get_char(0);
        let c1 = st.get_char(1);
        proof {
            if c0 == '\r' && c1 == '\n' {
                assert(s@ =~= crlf_g());
            }
        }
        c0 == '\r' && c1 == '\n'
    } else {
        false
    }
}

/// Probe whether a chunk's graphemes all fit from the given column.
#[verifier::loop_isolation(false)]
fn chunk_fits_on_current_line(
    gs: &Vec<Grapheme>,
    col0: usize,
    width: usize,
    policy: AmbiguityPolicy,
) -> (r: bool)
    ensures
        r == chunk_fits(views_of(gs@), col0 as nat, width as nat, policy),
{
    let ghost gvs = views_of(gs@);
    let n = gs.len();
    let mut col = col0;
    let mut j: usize = 0;
    proof {
        assert(gvs.skip(0) =~= gvs);
    }
    while j < n
        invariant
            j <= n,
            chunk_fits(gvs, col0 as nat, width as nat, policy) == chunk_fits(
                gvs.skip(j as int),
                col as nat,
                width as nat,
                policy,
            ),
        decreases n - j,
    {
        proof {
            assert(gvs.skip(j as int)[0] == gvs[j as int]);
            assert(gvs.skip(j as int).drop_first() =~= gvs.skip(j as int + 1));
        }
        let g = &gs[j];
        if g.is_newline() {
            return true;
        }
        let gw = g.width(policy);
        if col > width || gw > width - col {
            return false;
        }
        col = col + gw;
        j += 1;
    }
    proof {
        assert(gvs.skip(n as int) =~= Seq::<Seq<char>>::empty());
    }
    true
}

/// Paint a chunk's graphemes on the current line, skipping any that do
/// not fit; the cursor ends after the last painted grapheme.
#[verifier::loop_isolation(false)]
pub(crate) fn paint_chunk(canvas: &mut RenderBufferCanvas, gs: &Vec<Grapheme>, tag: &Ansi)
    requires
        old(canvas).wf(),
        forall|j: int| 0 <= j < gs@.len() ==> (#[trigger] gs@[j]).wf(),
    ensures
        final(canvas).wf(),
        final(canvas).start_position == old(canvas).start_position,
        final(canvas).position.line == old(canvas).position.line,
        ({
            let p = paint_seq_rec(
                views_of(gs@),
                old(canvas).position.line as nat,
                old(canvas).position.column as nat,
                old(canvas).buf().width,
                old(canvas).buf().policy,
                *tag,
            );
            &&& final(canvas).buf() == apply_ops(old(canvas).buf(), p.ops)
            &&& final(canvas).position.column == p.col
        }),
{
    let ghost old_buf = canvas.buf();
    let ghost w = old_buf.width;
    let ghost policy = old_buf.policy;
    let ghost line0 = old(canvas).position.line as nat;
    let ghost gvs = views_of(gs@);
    let ghost full = paint_seq_rec(gvs, line0, old(canvas).position.column as nat, w, policy, *tag);
    let n = gs.len();
    let mut j: usize = 0;
    let ghost mut done: Seq<PaintOp> = Seq::empty();
    proof {
        assert(gvs.skip(0) =~= gvs);
        assert(Seq::<PaintOp>::empty() + full.ops =~= full.ops);
    }
    while j < n
        invariant
            j <= n,
            canvas.wf(),
            canvas.start_position == old(canvas).start_position,
            canvas.position.line == line0,
            canvas.buf() == apply_ops(old_buf, done),
            canvas.buf().width == w,
            canvas.buf().policy == policy,
            full.ops == done + paint_seq_rec(
                gvs.skip(j as int),
                line0,
                canvas.position.column as nat,
                w,
                policy,
                *tag,
            ).ops,
            full.col == paint_seq_rec(
                gvs.skip(j as int),
                line0,
                canvas.position.column as nat,
                w,
                policy,
                *tag,
            ).col,
        decreases n - j,
    {
        let ghost prev_col = canvas.position.column as nat;
        proof {
            assert(gvs.skip(j as int)[0] == gvs[j as int]);
            assert(gvs.skip(j as int).drop_first() =~= gvs.skip(j as int + 1));
        }
        let g = &gs[j];
        let ghost op = PaintOp {
            line: line0,
            column: prev_col,
            text: gvs[j as int],
            tag: TextTag::Segment(*tag),
        };
        let ok = canvas.set_gph(g, TextTag::Segment(*tag));
        proof {
            if ok {
                lemma_apply_ops_push(old_buf, done, op);
                let rest = paint_seq_rec(
                    gvs.skip(j as int + 1),
                    line0,
                    canvas.position.column as nat,
                    w,
                    policy,
                    *tag,
                );
                assert(done + (seq![op] + rest.ops) =~= done.push(op) + rest.ops);
                done = done.push(op);
            }
        }
        j += 1;
    }
    proof {
        assert(gvs.skip(n as int) =~= Seq::<Seq<char>>::empty());
        assert(done + Seq::<PaintOp>::empty() =~= done);
    }
}


/// Paint the text at the cursor, wrapping at Unicode word boundaries:
/// each chunk goes on the current line if it fits, else on a fresh line
/// at the start column, and a chunk wider than a whole line falls back to
/// per-grapheme wrapping.
#[verifier::loop_isolation(false)]
pub fn render_segment_word_wrap(
    text: &str,
    tag: &Ansi,
    canvas: &mut RenderBufferCanvas,
    start: RenderPosition,
)
    requires
        old(canvas).wf(),
        old(canvas).position.line + 2 * text@.len() + 2 <= usize::MAX,
    ensures
        final(canvas).wf(),
        ({
            let out = word_wrap_rec(
                word_bounds_of(text@),
                old(canvas).position.line as nat,
                old(canvas).position.column as nat,
                start.column as nat,
                old(canvas).buf().width,
                old(canvas).buf().policy,
                *tag,
            );
            &&& final(canvas).buf() == apply_ops(old(canvas).buf(), out.ops)
            &&& final(canvas).position.line == out.line
            &&& final(canvas).position.column == out.col
        }),
        final(canvas).start_position == old(canvas).start_position,
        final(canvas).position.line <= old(canvas).position.line + 2 * text@.len() + 1,
{
    let ghost old_buf = canvas.buf();
    let ghost w = old_buf.width;
    let ghost policy = old_buf.policy;
    let ghost line0 = old(canvas).position.line as nat;
    let ghost col0 = old(canvas).position.column as nat;
    let ghost sc = start.column as nat;
    let chunks = word_chunks(text);
    let ghost cvs = chunks.deep_view();
    proof {
        lemma_concat_all_nonempty_len(cvs);
        lemma_concat_len_sum(cvs);
        assert(cvs.skip(0) =~= cvs);
    }
    let ghost full = word_wrap_rec(cvs, line0, col0, sc, w, policy, *tag);
    let n = chunks.len();
    let mut i: usize = 0;
    let ghost mut done: Seq<PaintOp> = Seq::empty();
    proof {
        assert(Seq::<PaintOp>::empty() + full.ops =~= full.ops);
    }
    while i < n
        invariant
            i <= n,
            canvas.wf(),
            canvas.start_position == old(canvas).start_position,
            canvas.buf() == apply_ops(old_buf, done),
            canvas.buf().width == w,
            canvas.buf().policy == policy,
            canvas.position.line + (n - i) + sum_lens(cvs.skip(i as int)) <= line0 + n + sum_lens(
                cvs,
            ),
            full == with_prefix(
                done,
                word_wrap_rec(
                    cvs.skip(i as int),
                    canvas.position.line as nat,
                    canvas.position.column as nat,
                    sc,
                    w,
                    policy,
                    *tag,
                ),
            ),
        decreases n - i,
    {
        let ghost prev_line = canvas.position.line as nat;
        let ghost prev_col = canvas.position.column as nat;
        let ghost tail = word_wrap_rec(cvs.skip(i as int), prev_line, prev_col, sc, w, policy, *tag);
        proof {
            assert(cvs.skip(i as int)[0] == cvs[i as int]);
            assert(cvs.skip(i as int).drop_first() =~= cvs.skip(i as int + 1));
            assert(cvs[i as int] == chunks@[i as int]@);
        }
        let chunk = &chunks[i];
        if is_newline_chunk(chunk) {
            canvas.cursor_down();
            canvas.set_column(start.column);
        } else {
            let gsc = Grapheme::from_str(chunk.as_str());
            let ghost gvsc = views_of(gsc@);
            proof {
                lemma_concat_all_nonempty_len(gvsc);
                assert(gvsc == graphemes_of(cvs[i as int]));
            }
            let bw = canvas.buffer.width();
            let pol = canvas.buffer.ambiguity_policy();
            let here = canvas.get_position();
            let fits_here = chunk_fits_on_current_line(&gsc, here.column, bw, pol);
            if fits_here {
                let ghost p = paint_seq_rec(gvsc, prev_line, prev_col, w, policy, *tag);
                paint_chunk(canvas, &gsc, tag);
                proof {
                    lemma_apply_ops_concat(old_buf, done, p.ops);
                    assert(done + (p.ops + word_wrap_rec(
                        cvs.skip(i as int + 1),
                        canvas.position.line as nat,
                        canvas.position.column as nat,
                        sc,
                        w,
                        policy,
                        *tag,
                    ).ops) =~= (done + p.ops) + word_wrap_rec(
                        cvs.skip(i as int + 1),
                        canvas.position.line as nat,
                        canvas.position.column as nat,
                        sc,
                        w,
                        policy,
                        *tag,
                    ).ops);
                    done = done + p.ops;
                    lemma_apply_ops_geometry(old_buf, done);
                }
            } else {
                let pre = canvas.get_position();
                canvas.cursor_down();
                canvas.set_column(start.column);
                let fresh = canvas.get_position();
                let fits_fresh = chunk_fits_on_current_line(&gsc, fresh.column, bw, pol);
                if fits_fresh {
                    let ghost p = paint_seq_rec(gvsc, (prev_line + 1) as nat, sc, w, policy, *tag);
                    paint_chunk(canvas, &gsc, tag);
                    proof {
                        lemma_apply_ops_concat(old_buf, done, p.ops);
                        assert(done + (p.ops + word_wrap_rec(
                            cvs.skip(i as int + 1),
                            canvas.position.line as nat,
                            canvas.position.column as nat,
                            sc,
                            w,
                            policy,
                            *tag,
                        ).ops) =~= (done + p.ops) + word_wrap_rec(
                            cvs.skip(i as int + 1),
                            canvas.position.line as nat,
                            canvas.position.column as nat,
                            sc,
                            w,
                            policy,
                            *tag,
                        ).ops);
                        done = done + p.ops;
                        lemma_apply_ops_geometry(old_buf, done);
                    }
                } else {
                    canvas.set_position(pre);
                    let ghost f_full = wwrap_fallback_rec(gvsc, prev_line, prev_col, sc, w, policy, *tag);
                    let ghost budget_rest = (n - i - 1) + sum_lens(cvs.skip(i as int + 1)) + 1;
                    let m = gsc.len();
                    let mut j: usize = 0;
                    let ghost mut done_fb: Seq<PaintOp> = Seq::empty();
                    proof {
                        assert(gvsc.skip(0) =~= gvsc);
                        assert(Seq::<PaintOp>::empty() + f_full.ops =~= f_full.ops);
                    }
                    while j < m
                        invariant
                            j <= m,
                            m == gsc.len(),
                            canvas.wf(),
                            canvas.start_position == old(canvas).start_position,
                            canvas.buf() == apply_ops(old_buf, done + done_fb),
                            canvas.buf().width == w,
                            canvas.buf().policy == policy,
                            canvas.position.line + (m - j) + budget_rest <= line0 + n + sum_lens(
                                cvs,
                            ),
                            f_full == with_prefix(
                                done_fb,
                                wwrap_fallback_rec(
                                    gvsc.skip(j as int),
                                    canvas.position.line as nat,
                                    canvas.position.column as nat,
                                    sc,
                                    w,
                                    policy,
                                    *tag,
                                ),
                            ),
                        decreases m - j,
                    {
                        let ghost fb_line = canvas.position.line as nat;
                        let ghost fb_col = canvas.position.column as nat;
                        proof {
                            assert(gvsc.skip(j as int)[0] == gvsc[j as int]);
                            assert(gvsc.skip(j as int).drop_first() =~= gvsc.skip(j as int + 1));
                        }
                        let g = &gsc[j];
                        let ghost op = PaintOp {
                            line: fb_line,
                            column: fb_col,
                            text: gvsc[j as int],
                            tag: TextTag::Segment(*tag),
                        };
                        let ok = canvas.set_gph(g, TextTag::Segment(*tag));
                        if ok {
                            proof {
                                lemma_apply_ops_push(old_buf, done + done_fb, op);
                                let rest = wwrap_fallback_rec(
                                    gvsc.skip(j as int + 1),
                                    canvas.position.line as nat,
                                    canvas.position.column as nat,
                                    sc,
                                    w,
                                    policy,
                                    *tag,
                                );
                                assert((done + done_fb).push(op) =~= done + done_fb.push(op));
                                assert(done_fb + (seq![op] + rest.ops) =~= done_fb.push(op) + rest.ops);
                                done_fb = done_fb.push(op);
                            }
                        } else {
                            canvas.cursor_down();
                            canvas.set_column(start.column);
                            let ghost op2 = PaintOp {
                                line: (fb_line + 1) as nat,
                                column: sc,
                                text: gvsc[j as int],
                                tag: TextTag::Segment(*tag),
                            };
                            let ok2 = canvas.set_gph(g, TextTag::Segment(*tag));
                            if ok2 {
                                proof {
                                    lemma_apply_ops_push(old_buf, done + done_fb, op2);
                                    let rest = wwrap_fallback_rec(
                                        gvsc.skip(j as int + 1),
                                        canvas.position.line as nat,
                                        canvas.position.column as nat,
                                        sc,
                                        w,
                                        policy,
                                        *tag,
                                    );
                                    assert((done + done_fb).push(op2) =~= done + done_fb.push(op2));
                                    assert(done_fb + (seq![op2] + rest.ops) =~= done_fb.push(op2)
                                        + rest.ops);
                                    done_fb = done_fb.push(op2);
                                }
                            }
                        }
                        j += 1;
                    }
                    proof {
                        assert(gvsc.skip(m as int) =~= Seq::<Seq<char>>::empty());
                        assert(done_fb + Seq::<PaintOp>::empty() =~= done_fb);
                        assert(done + (f_full.ops + word_wrap_rec(
                            cvs.skip(i as int + 1),
                            canvas.position.line as nat,
                            canvas.position.column as nat,
                            sc,
                            w,
                            policy,
                            *tag,
                        ).ops) =~= (done + f_full.ops) + word_wrap_rec(
                            cvs.skip(i as int + 1),
                            canvas.position.line as nat,
                            canvas.position.column as nat,
                            sc,
                            w,
                            policy,
                            *tag,
                        ).ops);
                        done = done + f_full.ops;
                        lemma_apply_ops_geometry(old_buf, done);
                    }
                }
            }
        }
        i += 1;
    }
    proof {
        assert(cvs.skip(n as int) =~= Seq::<Seq<char>>::empty());
        assert(done + Seq::<PaintOp>::empty() =~= done);
    }
}


/// How a literal segment behaves when it would cross the right edge.
#[derive(Clone, Copy, Debug, PartialEq, Eq)]
pub enum Overflow {
    /// Drop the remainder silently at the first overflow.
    Clip,
    /// Truncate with an ellipsis glyph at the chosen position.
    Ellipsis(EllipsisPosition),
    /// Wrap at grapheme cluster boundaries; nothing is lost to the right.
    GraphemeWrap,
    /// Wrap at word boundaries, falling back to grapheme wrapping for
    /// chunks wider than a whole line.
    WordWrap,
    /// Treat any horizontal overflow as a hard render error.
    Error,
}

/// Why a render was aborted.
#[derive(Clone, Copy, Debug, PartialEq, Eq, Structural)]
pub enum RenderableError {
    /// A segment overflowed the line under the `Error` overflow policy.
    Overflow,
}

/// One element of a text: a styled literal, or nested content rendered
/// at the point it occupies.
pub enum TextSegment {
    Segment(String, Ansi),
    Renderable(Box<Text>),
}

/// An ordered sequence of styled segments with one overflow policy.
pub struct Text {
    pub segments: Vec<TextSegment>,
    pub overflow_behavior: Overflow,
}

/// What rendering a text leaves behind: the paints, the cursor, and
/// whether a hard overflow error aborted the render.
pub struct TextOut {
    pub ops: Seq<PaintOp>,
    pub line: nat,
    pub col: nat,
    pub err: bool,
}

pub open spec fn with_prefix_t(ops: Seq<PaintOp>, out: TextOut) -> TextOut {
    TextOut { ops: ops + out.ops, ..out }
}

/// An upper bound on how many lines down a text can move the cursor,
/// used only to keep the line counter within machine bounds.
pub open spec fn text_weight(t: Text) -> nat
    decreases t,
{
    segs_weight(t.segments@)
}

pub open spec fn segs_weight(ss: Seq<TextSegment>) -> nat
    decreases ss,
{
    if ss.len() == 0 {
        0
    } else {
        seg_weight(ss[0]) + segs_weight(ss.drop_first())
    }
}

pub open spec fn seg_weight(seg: TextSegment) -> nat
    decreases seg,
{
    match seg {
        TextSegment::Segment(s, _) => 2 * s@.len() + 2,
        TextSegment::Renderable(b) => text_weight(*b) + 1,
    }
}

/// The layout of one literal segment under an overflow policy.
pub open spec fn segment_out(
    ovf: Overflow,
    s: Seq<char>,
    tag: Ansi,
    line: nat,
    col: nat,
    start_col: nat,
    w: nat,
    policy: AmbiguityPolicy,
) -> LayoutOut {
    match ovf {
        Overflow::Clip => clip_rec(graphemes_of(s), line, col, start_col, w, policy, tag),
        Overflow::Error => clip_rec(graphemes_of(s), line, col, start_col, w, policy, tag),
        Overflow::GraphemeWrap => grapheme_wrap_rec(
            graphemes_of(s),
            line,
            col,
            start_col,
            w,
            policy,
            tag,
        ),
        Overflow::WordWrap => word_wrap_rec(
            word_bounds_of(s),
            line,
            col,
            start_col,
            w,
            policy,
            tag,
        ),
        Overflow::Ellipsis(p) => crate::ellipsis::ellipsis_rec(
            graphemes_of(s),
            0,
            line,
            col,
            start_col,
            w,
            policy,
            tag,
            p,
        ),
    }
}

/// The render of a whole text: its segments laid out in order, each
/// against the text's own start column; a nested text renders at the
/// cursor with its own policy; under the `Error` policy the first
/// overflowing segment aborts the render after its clip pass.
pub open spec fn text_ops(t: Text, line: nat, col: nat, w: nat, policy: AmbiguityPolicy) -> TextOut
    decreases t,
{
    segs_ops(t.segments@, t.overflow_behavior, col, line, col, w, policy)
}

pub open spec fn segs_ops(
    ss: Seq<TextSegment>,
    ovf: Overflow,
    start_col: nat,
    line: nat,
    col: nat,
    w: nat,
    policy: AmbiguityPolicy,
) -> TextOut
    decreases ss,
{
    if ss.len() == 0 {
        TextOut { ops: Seq::empty(), line, col, err: false }
    } else {
        match ss[0] {
            TextSegment::Segment(s, tag) => {
                let lo = segment_out(ovf, s@, tag, line, col, start_col, w, policy);
                if ovf == Overflow::Error && lo.overflow {
                    TextOut { ops: lo.ops, line: lo.line, col: lo.col, err: true }
                } else {
                    with_prefix_t(
                        lo.ops,
                        segs_ops(ss.drop_first(), ovf, start_col, lo.line, lo.col, w, policy),
                    )
                }
            },
            TextSegment::Renderable(b) => {
                let nested = text_ops(*b, line, col, w, policy);
                if nested.err {
                    nested
                } else {
                    with_prefix_t(
                        nested.ops,
                        segs_ops(
                            ss.drop_first(),
                            ovf,
                            start_col,
                            nested.line,
                            nested.col,
                            w,
                            policy,
                        ),
                    )
                }
            },
        }
    }
}

impl Text {
    /// A text with no segments; nothing is painted.
    pub fn empty() -> (r: Text)
        ensures
            r.segments@.len() == 0,
            r.overflow_behavior == Overflow::GraphemeWrap,
    {
        Text { segments: Vec::new(), overflow_behavior: Overflow::GraphemeWrap }
    }

    /// One styled literal segment.
    pub fn of_tagged(text: &str, tag: Ansi) -> (r: Text)
        ensures
            r.segments@.len() == 1,
            r.segments@[0] matches TextSegment::Segment(s, t) && s@ == text@ && t == tag,
            r.overflow_behavior == Overflow::GraphemeWrap,
    {
        Text {
            segments: vec![TextSegment::Segment(text.to_owned(), tag)],
            overflow_behavior: Overflow::GraphemeWrap,
        }
    }

    /// One unstyled literal segment.
    pub fn of(text: &str) -> (r: Text)
        ensures
            r.segments@.len() == 1,
            r.segments@[0] matches TextSegment::Segment(s, t) && s@ == text@ && t
                == Ansi::plain_spec(),
            r.overflow_behavior == Overflow::GraphemeWrap,
    {
        Text::of_tagged(text, Ansi::plain())
    }

    /// Append a styled literal segment.
    pub fn with_tagged(self, text: &str, tag: Ansi) -> (r: Text)
        ensures
            r.overflow_behavior == self.overflow_behavior,
            r.segments@.len() == self.segments@.len() + 1,
            forall|j: int| 0 <= j < self.segments@.len() ==> r.segments@[j] == #[trigger] self
                .segments@[j],
            r.segments@[r.segments@.len() - 1] matches TextSegment::Segment(s, t) && s@ == text@
                && t == tag,
    {
        let mut segments = self.segments;
        let owned = text.to_owned();
        segments.push(TextSegment::Segment(owned, tag));
        Text { segments, overflow_behavior: self.overflow_behavior }
    }

    /// Append an unstyled literal segment.
    pub fn with(self, text: &str) -> (r: Text)
        ensures
            r.overflow_behavior == self.overflow_behavior,
            r.segments@.len() == self.segments@.len() + 1,
            forall|j: int| 0 <= j < self.segments@.len() ==> r.segments@[j] == #[trigger] self
                .segments@[j],
            r.segments@[r.segments@.len() - 1] matches TextSegment::Segment(s, t) && s@ == text@
                && t == Ansi::plain_spec(),
    {
        self.with_tagged(text, Ansi::plain())
    }

    /// Append nested content rendered at the point it occupies.
    pub fn with_component(self, value: Text) -> (r: Text)
        ensures
            r.overflow_behavior == self.overflow_behavior,
            r.segments@.len() == self.segments@.len() + 1,
            forall|j: int| 0 <= j < self.segments@.len() ==> r.segments@[j] == #[trigger] self
                .segments@[j],
            r.segments@[r.segments@.len() - 1] matches TextSegment::Renderable(b) && *b == value,
    {
        let mut segments = self.segments;
        segments.push(TextSegment::Renderable(Box::new(value)));
        Text { segments, overflow_behavior: self.overflow_behavior }
    }

    /// Set the overflow behavior explicitly.
    pub fn with_overflow(self, overflow: Overflow) -> (r: Text)
        ensures
            r.segments@ == self.segments@,
            r.overflow_behavior == overflow,
    {
        Text { segments: self.segments, overflow_behavior: overflow }
    }

    /// Disable wrapping and silently clip overflowing text.
    pub fn clip(self) -> (r: Text)
        ensures
            r.segments@ == self.segments@,
            r.overflow_behavior == Overflow::Clip,
    {
        self.with_overflow(Overflow::Clip)
    }

    /// Wrap strictly on grapheme boundaries.
    pub fn grapheme_wrap(self) -> (r: Text)
        ensures
            r.segments@ == self.segments@,
            r.overflow_behavior == Overflow::GraphemeWrap,
    {
        self.with_overflow(Overflow::GraphemeWrap)
    }

    /// Wrap on word boundaries when possible.
    pub fn word_wrap(self) -> (r: Text)
        ensures
            r.segments@ == self.segments@,
            r.overflow_behavior == Overflow::WordWrap,
    {
        self.with_overflow(Overflow::WordWrap)
    }

    /// Render an ellipsis at the right edge on overflow.
    pub fn ellipsis(self) -> (r: Text)
        ensures
            r.segments@ == self.segments@,
            r.overflow_behavior == Overflow::Ellipsis(EllipsisPosition::Right),
    {
        self.ellipsis_at(EllipsisPosition::Right)
    }

    /// Choose where the ellipsis goes on overflow.
    pub fn ellipsis_at(self, position: EllipsisPosition) -> (r: Text)
        ensures
            r.segments@ == self.segments@,
            r.overflow_behavior == Overflow::Ellipsis(position),
    {
        self.with_overflow(Overflow::Ellipsis(position))
    }

    /// Render this text into a canvas at its cursor. Every paint this
    /// commits, the cursor it leaves, and whether it fails are exactly
    /// [`text_ops`] of the text and the starting cursor.
    #[verifier::loop_isolation(false)]
    pub fn render_into(&self, canvas: &mut RenderBufferCanvas) -> (r: Result<
        (),
        RenderableError,
    >)
        requires
            old(canvas).wf(),
            old(canvas).position.line + text_weight(*self) <= usize::MAX,
        ensures
            final(canvas).wf(),
            ({
                let out = text_ops(
                    *self,
                    old(canvas).position.line as nat,
                    old(canvas).position.column as nat,
                    old(canvas).buf().width,
                    old(canvas).buf().policy,
                );
                &&& final(canvas).buf() == apply_ops(old(canvas).buf(), out.ops)
                &&& final(canvas).position.line == out.line
                &&& final(canvas).position.column == out.col
                &&& (r is Ok <==> !out.err)
            }),
            final(canvas).start_position == old(canvas).start_position,
            final(canvas).position.line <= old(canvas).position.line + text_weight(*self),
        decreases *self,
    {
        let ghost old_buf = canvas.buf();
        let ghost w = old_buf.width;
        let ghost policy = old_buf.policy;
        let ghost line0 = old(canvas).position.line as nat;
        let ghost col0 = old(canvas).position.column as nat;
        let start = canvas.get_position();
        let ghost sc = start.column as nat;
        let ghost full = text_ops(*self, line0, col0, w, policy);
        let ghost segs = self.segments@;
        let n = self.segments.len();
        let mut i: usize = 0;
        let ghost mut done: Seq<PaintOp> = Seq::empty();
        proof {
            assert(segs.skip(0) =~= segs);
            assert(Seq::<PaintOp>::empty() + full.ops =~= full.ops);
        }
        while i < n
            invariant
                i <= n,
                canvas.wf(),
                canvas.start_position == old(canvas).start_position,
                canvas.buf() == apply_ops(old_buf, done),
                canvas.buf().width == w,
                canvas.buf().policy == policy,
                canvas.position.line + segs_weight(segs.skip(i as int)) <= line0 + text_weight(
                    *self,
                ),
                full == with_prefix_t(
                    done,
                    segs_ops(
                        segs.skip(i as int),
                        self.overflow_behavior,
                        sc,
                        canvas.position.line as nat,
                        canvas.position.column as nat,
                        w,
                        policy,
                    ),
                ),
            decreases n - i,
        {
            let ghost prev_line = canvas.position.line as nat;
            let ghost prev_col = canvas.position.column as nat;
            let ghost tail = segs_ops(
                segs.skip(i as int),
                self.overflow_behavior,
                sc,
                prev_line,
                prev_col,
                w,
                policy,
            );
            proof {
                assert(segs.skip(i as int)[0] == segs[i as int]);
                assert(segs.skip(i as int).drop_first() =~= segs.skip(i as int + 1));
                assert(segs_weight(segs.skip(i as int)) == seg_weight(segs[i as int])
                    + segs_weight(segs.skip(i as int + 1)));
            }
            let seg = &self.segments[i];
            match seg {
                TextSegment::Segment(s, tag) => {
                    let ghost lo = segment_out(
                        self.overflow_behavior,
                        s@,
                        *tag,
                        prev_line,
                        prev_col,
                        sc,
                        w,
                        policy,
                    );
                    let mut overflowed = false;
                    match self.overflow_behavior {
                        Overflow::Clip => {
                            render_segment_clip(s.as_str(), tag, canvas, start);
                        },
                        Overflow::GraphemeWrap => {
                            render_segment_grapheme_wrap(s.as_str(), tag, canvas, start);
                        },
                        Overflow::WordWrap => {
                            render_segment_word_wrap(s.as_str(), tag, canvas, start);
                        },
                        Overflow::Ellipsis(position) => {
                            crate::ellipsis::render_segment_ellipsis(
                                s.as_str(),
                                tag,
                                canvas,
                                start,
                                position,
                            );
                        },
                        Overflow::Error => {
                            overflowed = render_segment_clip(s.as_str(), tag, canvas, start);
                        },
                    }
                    proof {
                        let done_old = done;
                        lemma_apply_ops_concat(old_buf, done_old, lo.ops);
                        lemma_apply_ops_geometry(old_buf, done_old + lo.ops);
                        done = done_old + lo.ops;
                        let rest = segs_ops(
                            segs.skip(i as int + 1),
                            self.overflow_behavior,
                            sc,
                            canvas.position.line as nat,
                            canvas.position.column as nat,
                            w,
                            policy,
                        );
                        assert(done_old + (lo.ops + rest.ops) =~= done + rest.ops);
                        if self.overflow_behavior == Overflow::Error && lo.overflow {
                            assert(full.ops =~= done);
                        }
                    }
                    if overflowed {
                        return Err(RenderableError::Overflow);
                    }
                },
                TextSegment::Renderable(b) => {
                    proof {
                        assert(decreases_to!(segs => segs[i as int]));
                    }
                    let ghost nested = text_ops(**b, prev_line, prev_col, w, policy);
                    let res = b.render_into(canvas);
                    proof {
                        let done_old = done;
                        lemma_apply_ops_concat(old_buf, done_old, nested.ops);
                        lemma_apply_ops_geometry(old_buf, done_old + nested.ops);
                        done = done_old + nested.ops;
                        let rest = segs_ops(
                            segs.skip(i as int + 1),
                            self.overflow_behavior,
                            sc,
                            canvas.position.line as nat,
                            canvas.position.column as nat,
                            w,
                            policy,
                        );
                        assert(done_old + (nested.ops + rest.ops) =~= done + rest.ops);
                        if nested.err {
                            assert(full.ops =~= done);
                        }
                    }
                    match res {
                        Err(e) => {
                            return Err(e);
                        },
                        Ok(()) => {},
                    }
                },
            }
            i += 1;
        }
        proof {
            assert(segs.skip(n as int) =~= Seq::<TextSegment>::empty());
            assert(done + Seq::<PaintOp>::empty() =~= done);
        }
        Ok(())
    }
}

impl RenderBufferCanvas {
    /// Render nested content at the cursor; on success the cursor is
    /// re-anchored at the nested render's end, and the summary reports
    /// where that render started and ended. A nested failure propagates
    /// immediately, and the cursor keeps its pre-call position (the cells
    /// the nested render committed before failing stay committed).
    pub fn write(&mut self, renderable: &Text) -> (r: Result<CanvasSummary, RenderableError>)
        requires
            old(self).wf(),
            old(self).position.line + text_weight(*renderable) <= usize::MAX,
        ensures
            final(self).wf(),
            ({
                let out = text_ops(
                    *renderable,
                    old(self).position.line as nat,
                    old(self).position.column as nat,
                    old(self).buf().width,
                    old(self).buf().policy,
                );
                &&& final(self).buf() == apply_ops(old(self).buf(), out.ops)
                &&& (r is Ok <==> !out.err)
                &&& (r matches Ok(s) ==> s.start_position == old(self).position
                    && s.end_position == final(self).position && final(self).position.line
                    == out.line && final(self).position.column == out.col)
                &&& (r is Err ==> final(self).position == old(self).position)
            }),
            final(self).start_position == old(self).start_position,
    {
        let start_position = self.get_position();
        match renderable.render_into(self) {
            Ok(()) => Ok(
                CanvasSummary { start_position, end_position: self.get_position() },
            ),
            Err(e) => {
                self.set_position(start_position);
                Err(e)
            },
        }
    }
}


/// Every paint in the sequence lands on a line at or above the bound.
pub open spec fn ops_below(ops: Seq<PaintOp>, l: nat) -> bool {
    forall|k: int| 0 <= k < ops.len() ==> (#[trigger] ops[k]).line <= l
}

pub proof fn lemma_clip_bound(
    gs: Seq<Seq<char>>,
    line: nat,
    col: nat,
    start_col: nat,
    w: nat,
    policy: AmbiguityPolicy,
    tag: Ansi,
)
    ensures
        clip_rec(gs, line, col, start_col, w, policy, tag).line >= line,
        ops_below(
            clip_rec(gs, line, col, start_col, w, policy, tag).ops,
            clip_rec(gs, line, col, start_col, w, policy, tag).line,
        ),
    decreases gs.len(),
{
    if gs.len() > 0 {
        let g = gs[0];
        if g == newline_g() {
            lemma_clip_bound(gs.drop_first(), (line + 1) as nat, start_col, start_col, w, policy, tag);
        } else if col + grapheme_width_of(g, policy) <= w {
            lemma_clip_bound(
                gs.drop_first(),
                line,
                (col + grapheme_width_of(g, policy)) as nat,
                start_col,
                w,
                policy,
                tag,
            );
        }
    }
}

pub proof fn lemma_gwrap_bound(
    gs: Seq<Seq<char>>,
    line: nat,
    col: nat,
    start_col: nat,
    w: nat,
    policy: AmbiguityPolicy,
    tag: Ansi,
)
    ensures
        grapheme_wrap_rec(gs, line, col, start_col, w, policy, tag).line >= line,
        ops_below(
            grapheme_wrap_rec(gs, line, col, start_col, w, policy, tag).ops,
            grapheme_wrap_rec(gs, line, col, start_col, w, policy, tag).line,
        ),
    decreases gs.len(),
{
    if gs.len() > 0 {
        let g = gs[0];
        let gw = grapheme_width_of(g, policy);
        if g == newline_g() {
            lemma_gwrap_bound(gs.drop_first(), (line + 1) as nat, start_col, start_col, w, policy, tag);
        } else if col + gw <= w {
            lemma_gwrap_bound(gs.drop_first(), line, (col + gw) as nat, start_col, w, policy, tag);
        } else if start_col + gw <= w {
            lemma_gwrap_bound(
                gs.drop_first(),
                (line + 1) as nat,
                (start_col + gw) as nat,
                start_col,
                w,
                policy,
                tag,
            );
        }
    }
}

pub proof fn lemma_paint_seq_bound(
    gs: Seq<Seq<char>>,
    line: nat,
    col: nat,
    w: nat,
    policy: AmbiguityPolicy,
    tag: Ansi,
)
    ensures
        ops_below(paint_seq_rec(gs, line, col, w, policy, tag).ops, line),
    decreases gs.len(),
{
    if gs.len() > 0 {
        let gw = grapheme_width_of(gs[0], policy);
        if col + gw <= w {
            lemma_paint_seq_bound(gs.drop_first(), line, (col + gw) as nat, w, policy, tag);
        } else {
            lemma_paint_seq_bound(gs.drop_first(), line, col, w, policy, tag);
        }
    }
}

pub proof fn lemma_fallback_bound(
    gs: Seq<Seq<char>>,
    line: nat,
    col: nat,
    start_col: nat,
    w: nat,
    policy: AmbiguityPolicy,
    tag: Ansi,
)
    ensures
        wwrap_fallback_rec(gs, line, col, start_col, w, policy, tag).line >= line,
        ops_below(
            wwrap_fallback_rec(gs, line, col, start_col, w, policy, tag).ops,
            wwrap_fallback_rec(gs, line, col, start_col, w, policy, tag).line,
        ),
    decreases gs.len(),
{
    if gs.len() > 0 {
        let g = gs[0];
        let gw = grapheme_width_of(g, policy);
        if col + gw <= w {
            lemma_fallback_bound(gs.drop_first(), line, (col + gw) as nat, start_col, w, policy, tag);
        } else if start_col + gw <= w {
            lemma_fallback_bound(
                gs.drop_first(),
                (line + 1) as nat,
                (start_col + gw) as nat,
                start_col,
                w,
                policy,
                tag,
            );
        } else {
            lemma_fallback_bound(gs.drop_first(), (line + 1) as nat, start_col, start_col, w, policy, tag);
        }
    }
}

pub proof fn lemma_wwrap_bound(
    cs: Seq<Seq<char>>,
    line: nat,
    col: nat,
    start_col: nat,
    w: nat,
    policy: AmbiguityPolicy,
    tag: Ansi,
)
    ensures
        word_wrap_rec(cs, line, col, start_col, w, policy, tag).line >= line,
        ops_below(
            word_wrap_rec(cs, line, col, start_col, w, policy, tag).ops,
            word_wrap_rec(cs, line, col, start_col, w, policy, tag).line,
        ),
    decreases cs.len(),
{
    if cs.len() > 0 {
        let c = cs[0];
        let gsc = graphemes_of(c);
        if c == newline_g() || c == crlf_g() {
            lemma_wwrap_bound(cs.drop_first(), (line + 1) as nat, start_col, start_col, w, policy, tag);
        } else if chunk_fits(gsc, col, w, policy) {
            let p = paint_seq_rec(gsc, line, col, w, policy, tag);
            lemma_paint_seq_bound(gsc, line, col, w, policy, tag);
            lemma_wwrap_bound(cs.drop_first(), line, p.col, start_col, w, policy, tag);
        } else if chunk_fits(gsc, start_col, w, policy) {
            let p = paint_seq_rec(gsc, (line + 1) as nat, start_col, w, policy, tag);
            lemma_paint_seq_bound(gsc, (line + 1) as nat, start_col, w, policy, tag);
            lemma_wwrap_bound(cs.drop_first(), (line + 1) as nat, p.col, start_col, w, policy, tag);
        } else {
            let f = wwrap_fallback_rec(gsc, line, col, start_col, w, policy, tag);
            lemma_fallback_bound(gsc, line, col, start_col, w, policy, tag);
            lemma_wwrap_bound(cs.drop_first(), f.line, f.col, start_col, w, policy, tag);
        }
    }
}


pub proof fn lemma_segment_out_bound(
    ovf: Overflow,
    s: Seq<char>,
    tag: Ansi,
    line: nat,
    col: nat,
    start_col: nat,
    w: nat,
    policy: AmbiguityPolicy,
)
    ensures
        segment_out(ovf, s, tag, line, col, start_col, w, policy).line >= line,
        ops_below(
            segment_out(ovf, s, tag, line, col, start_col, w, policy).ops,
            segment_out(ovf, s, tag, line, col, start_col, w, policy).line,
        ),
{
    match ovf {
        Overflow::Clip => lemma_clip_bound(graphemes_of(s), line, col, start_col, w, policy, tag),
        Overflow::Error => lemma_clip_bound(graphemes_of(s), line, col, start_col, w, policy, tag),
        Overflow::GraphemeWrap => lemma_gwrap_bound(
            graphemes_of(s),
            line,
            col,
            start_col,
            w,
            policy,
            tag,
        ),
        Overflow::WordWrap => lemma_wwrap_bound(
            word_bounds_of(s),
            line,
            col,
            start_col,
            w,
            policy,
            tag,
        ),
        Overflow::Ellipsis(p) => crate::ellipsis::lemma_ellipsis_bound(
            graphemes_of(s),
            0,
            line,
            col,
            start_col,
            w,
            policy,
            tag,
            p,
        ),
    }
}

pub proof fn lemma_text_ops_bound(t: Text, line: nat, col: nat, w: nat, policy: AmbiguityPolicy)
    ensures
        text_ops(t, line, col, w, policy).line >= line,
        ops_below(text_ops(t, line, col, w, policy).ops, text_ops(t, line, col, w, policy).line),
    decreases t,
{
    lemma_segs_ops_bound(t.segments@, t.overflow_behavior, col, line, col, w, policy);
}

pub proof fn lemma_segs_ops_bound(
    ss: Seq<TextSegment>,
    ovf: Overflow,
    start_col: nat,
    line: nat,
    col: nat,
    w: nat,
    policy: AmbiguityPolicy,
)
    ensures
        segs_ops(ss, ovf, start_col, line, col, w, policy).line >= line,
        ops_below(
            segs_ops(ss, ovf, start_col, line, col, w, policy).ops,
            segs_ops(ss, ovf, start_col, line, col, w, policy).line,
        ),
    decreases ss,
{
    if ss.len() > 0 {
        match ss[0] {
            TextSegment::Segment(s, tag) => {
                let lo = segment_out(ovf, s@, tag, line, col, start_col, w, policy);
                lemma_segment_out_bound(ovf, s@, tag, line, col, start_col, w, policy);
                if !(ovf == Overflow::Error && lo.overflow) {
                    lemma_segs_ops_bound(ss.drop_first(), ovf, start_col, lo.line, lo.col, w, policy);
                }
            },
            TextSegment::Renderable(b) => {
                let nested = text_ops(*b, line, col, w, policy);
                lemma_text_ops_bound(*b, line, col, w, policy);
                if !nested.err {
                    lemma_segs_ops_bound(
                        ss.drop_first(),
                        ovf,
                        start_col,
                        nested.line,
                        nested.col,
                        w,
                        policy,
                    );
                }
            },
        }
    }
}


/// Every paint in the sequence carries one whole element of the given
/// grapheme sequence.
pub open spec fn ops_from(ops: Seq<PaintOp>, gs: Seq<Seq<char>>) -> bool {
    forall|k: int| #![trigger ops[k]] 0 <= k < ops.len() ==> gs.contains(ops[k].text)
}

proof fn lemma_contains_shift(gs: Seq<Seq<char>>, x: Seq<char>)
    requires
        gs.len() > 0,
        gs.drop_first().contains(x),
    ensures
        gs.contains(x),
{
    let i0 = choose|i: int| 0 <= i < gs.drop_first().len() && gs.drop_first()[i] == x;
    assert(gs[i0 + 1] == x);
}

proof fn lemma_ops_from_shift(ops: Seq<PaintOp>, gs: Seq<Seq<char>>)
    requires
        gs.len() > 0,
        ops_from(ops, gs.drop_first()),
    ensures
        ops_from(ops, gs),
{
    assert forall|k: int| #![trigger ops[k]] 0 <= k < ops.len() implies gs.contains(
        ops[k].text,
    ) by {
        lemma_contains_shift(gs, ops[k].text);
    }
}

proof fn lemma_ops_from_prefix(op: PaintOp, rest: Seq<PaintOp>, gs: Seq<Seq<char>>)
    requires
        gs.len() > 0,
        op.text == gs[0],
        ops_from(rest, gs.drop_first()),
    ensures
        ops_from(seq![op] + rest, gs),
{
    lemma_ops_from_shift(rest, gs);
    let all = seq![op] + rest;
    assert forall|k: int| #![trigger all[k]] 0 <= k < all.len() implies gs.contains(
        all[k].text,
    ) by {
        if k == 0 {
            assert(all[0] == op);
            assert(gs[0] == op.text);
        } else {
            assert(all[k] == rest[k - 1]);
        }
    }
}

proof fn lemma_paint_seq_from(
    gs: Seq<Seq<char>>,
    line: nat,
    col: nat,
    w: nat,
    policy: AmbiguityPolicy,
    tag: Ansi,
)
    ensures
        ops_from(paint_seq_rec(gs, line, col, w, policy, tag).ops, gs),
    decreases gs.len(),
{
    if gs.len() > 0 {
        let gw = grapheme_width_of(gs[0], policy);
        if col + gw <= w {
            let rest = paint_seq_rec(gs.drop_first(), line, (col + gw) as nat, w, policy, tag);
            lemma_paint_seq_from(gs.drop_first(), line, (col + gw) as nat, w, policy, tag);
            lemma_ops_from_prefix(
                PaintOp { line, column: col, text: gs[0], tag: TextTag::Segment(tag) },
                rest.ops,
                gs,
            );
        } else {
            lemma_paint_seq_from(gs.drop_first(), line, col, w, policy, tag);
            lemma_ops_from_shift(paint_seq_rec(gs.drop_first(), line, col, w, policy, tag).ops, gs);
        }
    }
}

proof fn lemma_fallback_from(
    gs: Seq<Seq<char>>,
    line: nat,
    col: nat,
    start_col: nat,
    w: nat,
    policy: AmbiguityPolicy,
    tag: Ansi,
)
    ensures
        ops_from(wwrap_fallback_rec(gs, line, col, start_col, w, policy, tag).ops, gs),
    decreases gs.len(),
{
    if gs.len() > 0 {
        let g = gs[0];
        let gw = grapheme_width_of(g, policy);
        if col + gw <= w {
            let rest = wwrap_fallback_rec(
                gs.drop_first(),
                line,
                (col + gw) as nat,
                start_col,
                w,
                policy,
                tag,
            );
            lemma_fallback_from(gs.drop_first(), line, (col + gw) as nat, start_col, w, policy, tag);
            lemma_ops_from_prefix(
                PaintOp { line, column: col, text: g, tag: TextTag::Segment(tag) },
                rest.ops,
                gs,
            );
        } else if start_col + gw <= w {
            let rest = wwrap_fallback_rec(
                gs.drop_first(),
                (line + 1) as nat,
                (start_col + gw) as nat,
                start_col,
                w,
                policy,
                tag,
            );
            lemma_fallback_from(
                gs.drop_first(),
                (line + 1) as nat,
                (start_col + gw) as nat,
                start_col,
                w,
                policy,
                tag,
            );
            lemma_ops_from_prefix(
                PaintOp {
                    line: (line + 1) as nat,
                    column: start_col,
                    text: g,
                    tag: TextTag::Segment(tag),
                },
                rest.ops,
                gs,
            );
        } else {
            lemma_fallback_from(gs.drop_first(), (line + 1) as nat, start_col, start_col, w, policy, tag);
            lemma_ops_from_shift(
                wwrap_fallback_rec(
                    gs.drop_first(),
                    (line + 1) as nat,
                    start_col,
                    start_col,
                    w,
                    policy,
                    tag,
                ).ops,
                gs,
            );
        }
    }
}

/// Whether a cluster is one of the clusters of one of the chunks.
pub open spec fn in_some_chunk(x: Seq<char>, cs: Seq<Seq<char>>) -> bool
    decreases cs.len(),
{
    if cs.len() == 0 {
        false
    } else {
        graphemes_of(cs[0]).contains(x) || in_some_chunk(x, cs.drop_first())
    }
}

/// Every paint carries a whole grapheme cluster of one of the chunks.
pub open spec fn ops_from_chunks(ops: Seq<PaintOp>, cs: Seq<Seq<char>>) -> bool {
    forall|k: int| #![trigger ops[k]] 0 <= k < ops.len() ==> in_some_chunk(ops[k].text, cs)
}

proof fn lemma_chunks_shift(ops: Seq<PaintOp>, cs: Seq<Seq<char>>)
    requires
        cs.len() > 0,
        ops_from_chunks(ops, cs.drop_first()),
    ensures
        ops_from_chunks(ops, cs),
{
    assert forall|k: int| #![trigger ops[k]] 0 <= k < ops.len() implies in_some_chunk(
        ops[k].text,
        cs,
    ) by {
        assert(in_some_chunk(ops[k].text, cs.drop_first()));
    }
}

proof fn lemma_chunks_combine(cs: Seq<Seq<char>>, first: Seq<PaintOp>, rest: Seq<PaintOp>)
    requires
        cs.len() > 0,
        ops_from(first, graphemes_of(cs[0])),
        ops_from_chunks(rest, cs),
    ensures
        ops_from_chunks(first + rest, cs),
{
    let all = first + rest;
    assert forall|k: int| #![trigger all[k]] 0 <= k < all.len() implies in_some_chunk(
        all[k].text,
        cs,
    ) by {
        if k < first.len() {
            assert(all[k] == first[k]);
            assert(graphemes_of(cs[0]).contains(first[k].text));
        } else {
            assert(all[k] == rest[k - first.len()]);
        }
    }
}

/// Word wrap never splits inside a grapheme cluster: every paint it
/// commits is one whole cluster of one of the segment's word chunks.
pub proof fn lemma_word_wrap_whole_clusters(
    cs: Seq<Seq<char>>,
    line: nat,
    col: nat,
    start_col: nat,
    w: nat,
    policy: AmbiguityPolicy,
    tag: Ansi,
)
    ensures
        ops_from_chunks(word_wrap_rec(cs, line, col, start_col, w, policy, tag).ops, cs),
    decreases cs.len(),
{
    if cs.len() > 0 {
        let c = cs[0];
        let gsc = graphemes_of(c);
        if c == newline_g() || c == crlf_g() {
            lemma_word_wrap_whole_clusters(cs.drop_first(), (line + 1) as nat, start_col, start_col, w, policy, tag);
            lemma_chunks_shift(
                word_wrap_rec(cs.drop_first(), (line + 1) as nat, start_col, start_col, w, policy, tag).ops,
                cs,
            );
        } else if chunk_fits(gsc, col, w, policy) {
            let p = paint_seq_rec(gsc, line, col, w, policy, tag);
            let rest = word_wrap_rec(cs.drop_first(), line, p.col, start_col, w, policy, tag).ops;
            lemma_paint_seq_from(gsc, line, col, w, policy, tag);
            lemma_word_wrap_whole_clusters(cs.drop_first(), line, p.col, start_col, w, policy, tag);
            lemma_chunks_shift(rest, cs);
            lemma_chunks_combine(cs, p.ops, rest);
        } else if chunk_fits(gsc, start_col, w, policy) {
            let p = paint_seq_rec(gsc, (line + 1) as nat, start_col, w, policy, tag);
            let rest = word_wrap_rec(cs.drop_first(), (line + 1) as nat, p.col, start_col, w, policy, tag).ops;
            lemma_paint_seq_from(gsc, (line + 1) as nat, start_col, w, policy, tag);
            lemma_word_wrap_whole_clusters(cs.drop_first(), (line + 1) as nat, p.col, start_col, w, policy, tag);
            lemma_chunks_shift(rest, cs);
            lemma_chunks_combine(cs, p.ops, rest);
        } else {
            let f = wwrap_fallback_rec(gsc, line, col, start_col, w, policy, tag);
            let rest = word_wrap_rec(cs.drop_first(), f.line, f.col, start_col, w, policy, tag).ops;
            lemma_fallback_from(gsc, line, col, start_col, w, policy, tag);
            lemma_word_wrap_whole_clusters(cs.drop_first(), f.line, f.col, start_col, w, policy, tag);
            lemma_chunks_shift(rest, cs);
            lemma_chunks_combine(cs, f.ops, rest);
        }
    }
}

/// How many graphemes of a sequence are painted rather than consumed as
/// line feeds.
pub open spec fn count_paintable(gs: Seq<Seq<char>>) -> nat
    decreases gs.len(),
{
    if gs.len() == 0 {
        0
    } else {
        (if gs[0] == newline_g() {
            0nat
        } else {
            1nat
        }) + count_paintable(gs.drop_first())
    }
}

/// Grapheme wrap never drops a line-fitting grapheme: when every grapheme
/// of the segment fits within the line width at the start column, every
/// grapheme that is not a line feed is painted.
pub proof fn lemma_grapheme_wrap_drops_nothing(
    gs: Seq<Seq<char>>,
    line: nat,
    col: nat,
    start_col: nat,
    w: nat,
    policy: AmbiguityPolicy,
    tag: Ansi,
)
    requires
        forall|i: int|
            0 <= i < gs.len() ==> start_col + grapheme_width_of(#[trigger] gs[i], policy) <= w,
    ensures
        grapheme_wrap_rec(gs, line, col, start_col, w, policy, tag).ops.len() == count_paintable(
            gs,
        ),
        !grapheme_wrap_rec(gs, line, col, start_col, w, policy, tag).overflow,
    decreases gs.len(),
{
    if gs.len() > 0 {
        let g = gs[0];
        let gw = grapheme_width_of(g, policy);
        assert(forall|i: int|
            0 <= i < gs.drop_first().len() ==> start_col + grapheme_width_of(
                #[trigger] gs.drop_first()[i],
                policy,
            ) <= w);
        if g == newline_g() {
            lemma_grapheme_wrap_drops_nothing(gs.drop_first(), (line + 1) as nat, start_col, start_col, w, policy, tag);
        } else if col + gw <= w {
            lemma_grapheme_wrap_drops_nothing(gs.drop_first(), line, (col + gw) as nat, start_col, w, policy, tag);
        } else {
            assert(start_col + gw <= w);
            lemma_grapheme_wrap_drops_nothing(
                gs.drop_first(),
                (line + 1) as nat,
                (start_col + gw) as nat,
                start_col,
                w,
                policy,
                tag,
            );
        }
    }
}


/// No committed paint crosses the right edge: each one ends within the
/// line width.
pub open spec fn ops_within(ops: Seq<PaintOp>, w: nat, policy: AmbiguityPolicy) -> bool {
    forall|k: int| #![trigger ops[k]]
        0 <= k < ops.len() ==> ops[k].column + grapheme_width_of(ops[k].text, policy) <= w
}

pub proof fn lemma_ops_within_concat(a: Seq<PaintOp>, b: Seq<PaintOp>, w: nat, policy: AmbiguityPolicy)
    requires
        ops_within(a, w, policy),
        ops_within(b, w, policy),
    ensures
        ops_within(a + b, w, policy),
{
    let all = a + b;
    assert forall|k: int| #![trigger all[k]] 0 <= k < all.len() implies all[k].column
        + grapheme_width_of(all[k].text, policy) <= w by {
        if k < a.len() {
            assert(all[k] == a[k]);
        } else {
            assert(all[k] == b[k - a.len()]);
        }
    }
}

pub proof fn lemma_clip_within(
    gs: Seq<Seq<char>>,
    line: nat,
    col: nat,
    start_col: nat,
    w: nat,
    policy: AmbiguityPolicy,
    tag: Ansi,
)
    ensures
        ops_within(clip_rec(gs, line, col, start_col, w, policy, tag).ops, w, policy),
    decreases gs.len(),
{
    if gs.len() > 0 {
        let g = gs[0];
        let gw = grapheme_width_of(g, policy);
        if g == newline_g() {
            lemma_clip_within(gs.drop_first(), (line + 1) as nat, start_col, start_col, w, policy, tag);
        } else if col + gw <= w {
            let rest = clip_rec(gs.drop_first(), line, (col + gw) as nat, start_col, w, policy, tag);
            lemma_clip_within(gs.drop_first(), line, (col + gw) as nat, start_col, w, policy, tag);
            lemma_ops_within_concat(
                seq![PaintOp { line, column: col, text: g, tag: TextTag::Segment(tag) }],
                rest.ops,
                w,
                policy,
            );
        }
    }
}

pub proof fn lemma_gwrap_within(
    gs: Seq<Seq<char>>,
    line: nat,
    col: nat,
    start_col: nat,
    w: nat,
    policy: AmbiguityPolicy,
    tag: Ansi,
)
    ensures
        ops_within(grapheme_wrap_rec(gs, line, col, start_col, w, policy, tag).ops, w, policy),
    decreases gs.len(),
{
    if gs.len() > 0 {
        let g = gs[0];
        let gw = grapheme_width_of(g, policy);
        if g == newline_g() {
            lemma_gwrap_within(gs.drop_first(), (line + 1) as nat, start_col, start_col, w, policy, tag);
        } else if col + gw <= w {
            let rest = grapheme_wrap_rec(gs.drop_first(), line, (col + gw) as nat, start_col, w, policy, tag);
            lemma_gwrap_within(gs.drop_first(), line, (col + gw) as nat, start_col, w, policy, tag);
            lemma_ops_within_concat(
                seq![PaintOp { line, column: col, text: g, tag: TextTag::Segment(tag) }],
                rest.ops,
                w,
                policy,
            );
        } else if start_col + gw <= w {
            let rest = grapheme_wrap_rec(
                gs.drop_first(),
                (line + 1) as nat,
                (start_col + gw) as nat,
                start_col,
                w,
                policy,
                tag,
            );
            lemma_gwrap_within(
                gs.drop_first(),
                (line + 1) as nat,
                (start_col + gw) as nat,
                start_col,
                w,
                policy,
                tag,
            );
            lemma_ops_within_concat(
                seq![
                    PaintOp {
                        line: (line + 1) as nat,
                        column: start_col,
                        text: g,
                        tag: TextTag::Segment(tag),
                    },
                ],
                rest.ops,
                w,
                policy,
            );
        }
    }
}

pub proof fn lemma_paint_seq_within(
    gs: Seq<Seq<char>>,
    line: nat,
    col: nat,
    w: nat,
    policy: AmbiguityPolicy,
    tag: Ansi,
)
    ensures
        ops_within(paint_seq_rec(gs, line, col, w, policy, tag).ops, w, policy),
    decreases gs.len(),
{
    if gs.len() > 0 {
        let gw = grapheme_width_of(gs[0], policy);
        if col + gw <= w {
            let rest = paint_seq_rec(gs.drop_first(), line, (col + gw) as nat, w, policy, tag);
            lemma_paint_seq_within(gs.drop_first(), line, (col + gw) as nat, w, policy, tag);
            lemma_ops_within_concat(
                seq![PaintOp { line, column: col, text: gs[0], tag: TextTag::Segment(tag) }],
                rest.ops,
                w,
                policy,
            );
        } else {
            lemma_paint_seq_within(gs.drop_first(), line, col, w, policy, tag);
        }
    }
}

pub proof fn lemma_fallback_within(
    gs: Seq<Seq<char>>,
    line: nat,
    col: nat,
    start_col: nat,
    w: nat,
    policy: AmbiguityPolicy,
    tag: Ansi,
)
    ensures
        ops_within(wwrap_fallback_rec(gs, line, col, start_col, w, policy, tag).ops, w, policy),
    decreases gs.len(),
{
    if gs.len() > 0 {
        let g = gs[0];
        let gw = grapheme_width_of(g, policy);
        if col + gw <= w {
            let rest = wwrap_fallback_rec(gs.drop_first(), line, (col + gw) as nat, start_col, w, policy, tag);
            lemma_fallback_within(gs.drop_first(), line, (col + gw) as nat, start_col, w, policy, tag);
            lemma_ops_within_concat(
                seq![PaintOp { line, column: col, text: g, tag: TextTag::Segment(tag) }],
                rest.ops,
                w,
                policy,
            );
        } else if start_col + gw <= w {
            let rest = wwrap_fallback_rec(
                gs.drop_first(),
                (line + 1) as nat,
                (start_col + gw) as nat,
                start_col,
                w,
                policy,
                tag,
            );
            lemma_fallback_within(
                gs.drop_first(),
                (line + 1) as nat,
                (start_col + gw) as nat,
                start_col,
                w,
                policy,
                tag,
            );
            lemma_ops_within_concat(
                seq![
                    PaintOp {
                        line: (line + 1) as nat,
                        column: start_col,
                        text: g,
                        tag: TextTag::Segment(tag),
                    },
                ],
                rest.ops,
                w,
                policy,
            );
        } else {
            lemma_fallback_within(gs.drop_first(), (line + 1) as nat, start_col, start_col, w, policy, tag);
        }
    }
}

pub proof fn lemma_wwrap_within(
    cs: Seq<Seq<char>>,
    line: nat,
    col: nat,
    start_col: nat,
    w: nat,
    policy: AmbiguityPolicy,
    tag: Ansi,
)
    ensures
        ops_within(word_wrap_rec(cs, line, col, start_col, w, policy, tag).ops, w, policy),
    decreases cs.len(),
{
    if cs.len() > 0 {
        let c = cs[0];
        let gsc = graphemes_of(c);
        if c == newline_g() || c == crlf_g() {
            lemma_wwrap_within(cs.drop_first(), (line + 1) as nat, start_col, start_col, w, policy, tag);
        } else if chunk_fits(gsc, col, w, policy) {
            let p = paint_seq_rec(gsc, line, col, w, policy, tag);
            lemma_paint_seq_within(gsc, line, col, w, policy, tag);
            lemma_wwrap_within(cs.drop_first(), line, p.col, start_col, w, policy, tag);
            lemma_ops_within_concat(
                p.ops,
                word_wrap_rec(cs.drop_first(), line, p.col, start_col, w, policy, tag).ops,
                w,
                policy,
            );
        } else if chunk_fits(gsc, start_col, w, policy) {
            let p = paint_seq_rec(gsc, (line + 1) as nat, start_col, w, policy, tag);
            lemma_paint_seq_within(gsc, (line + 1) as nat, start_col, w, policy, tag);
            lemma_wwrap_within(cs.drop_first(), (line + 1) as nat, p.col, start_col, w, policy, tag);
            lemma_ops_within_concat(
                p.ops,
                word_wrap_rec(cs.drop_first(), (line + 1) as nat, p.col, start_col, w, policy, tag).ops,
                w,
                policy,
            );
        } else {
            let f = wwrap_fallback_rec(gsc, line, col, start_col, w, policy, tag);
            lemma_fallback_within(gsc, line, col, start_col, w, policy, tag);
            lemma_wwrap_within(cs.drop_first(), f.line, f.col, start_col, w, policy, tag);
            lemma_ops_within_concat(
                f.ops,
                word_wrap_rec(cs.drop_first(), f.line, f.col, start_col, w, policy, tag).ops,
                w,
                policy,
            );
        }
    }
}


pub proof fn lemma_segment_out_within(
    ovf: Overflow,
    s: Seq<char>,
    tag: Ansi,
    line: nat,
    col: nat,
    start_col: nat,
    w: nat,
    policy: AmbiguityPolicy,
)
    ensures
        ops_within(segment_out(ovf, s, tag, line, col, start_col, w, policy).ops, w, policy),
{
    match ovf {
        Overflow::Clip => lemma_clip_within(graphemes_of(s), line, col, start_col, w, policy, tag),
        Overflow::Error => lemma_clip_within(graphemes_of(s), line, col, start_col, w, policy, tag),
        Overflow::GraphemeWrap => lemma_gwrap_within(
            graphemes_of(s),
            line,
            col,
            start_col,
            w,
            policy,
            tag,
        ),
        Overflow::WordWrap => lemma_wwrap_within(
            word_bounds_of(s),
            line,
            col,
            start_col,
            w,
            policy,
            tag,
        ),
        Overflow::Ellipsis(p) => crate::ellipsis::lemma_ellipsis_within(
            graphemes_of(s),
            0,
            line,
            col,
            start_col,
            w,
            policy,
            tag,
            p,
        ),
    }
}

pub proof fn lemma_segs_ops_within(
    ss: Seq<TextSegment>,
    ovf: Overflow,
    start_col: nat,
    line: nat,
    col: nat,
    w: nat,
    policy: AmbiguityPolicy,
)
    ensures
        ops_within(segs_ops(ss, ovf, start_col, line, col, w, policy).ops, w, policy),
    decreases ss,
{
    if ss.len() > 0 {
        match ss[0] {
            TextSegment::Segment(s, tag) => {
                let lo = segment_out(ovf, s@, tag, line, col, start_col, w, policy);
                lemma_segment_out_within(ovf, s@, tag, line, col, start_col, w, policy);
                if !(ovf == Overflow::Error && lo.overflow) {
                    lemma_segs_ops_within(ss.drop_first(), ovf, start_col, lo.line, lo.col, w, policy);
                    lemma_ops_within_concat(
                        lo.ops,
                        segs_ops(ss.drop_first(), ovf, start_col, lo.line, lo.col, w, policy).ops,
                        w,
                        policy,
                    );
                }
            },
            TextSegment::Renderable(b) => {
                let nested = text_ops(*b, line, col, w, policy);
                lemma_render_paints_within(*b, line, col, w, policy);
                if !nested.err {
                    lemma_segs_ops_within(
                        ss.drop_first(),
                        ovf,
                        start_col,
                        nested.line,
                        nested.col,
                        w,
                        policy,
                    );
                    lemma_ops_within_concat(
                        nested.ops,
                        segs_ops(
                            ss.drop_first(),
                            ovf,
                            start_col,
                            nested.line,
                            nested.col,
                            w,
                            policy,
                        ).ops,
                        w,
                        policy,
                    );
                }
            },
        }
    }
}

/// No render ever paints past the right edge: every cell a text commits —
/// under any overflow policy, ellipsis sub-lines included — ends within
/// the line width, so a line's visible content never exceeds the line.
pub proof fn lemma_render_paints_within(t: Text, line: nat, col: nat, w: nat, policy: AmbiguityPolicy)
    ensures
        ops_within(text_ops(t, line, col, w, policy).ops, w, policy),
    decreases t,
{
    lemma_segs_ops_within(t.segments@, t.overflow_behavior, col, line, col, w, policy);
}

} // verus!
