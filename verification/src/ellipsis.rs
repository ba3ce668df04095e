//! Ellipsis truncation layout.
//!
//! Each sub-line of the segment (split at line breaks: a line feed or a
//! carriage-return/line-feed cluster) is probed against
//! the line width without painting anything. A line that fits whole is
//! painted whole. Otherwise a binary search finds the longest prefix (or
//! suffix) that fits together with the ellipsis glyph, and one dedicated
//! commit pass paints the chosen pieces; the glyph carries its own
//! overflow-marker tag. The centered form seeds with the right-hand
//! search and then greedily trades prefix graphemes for suffix graphemes
//! while the candidate still fits.

use vstd::prelude::*;

use crate::canvas::RenderBufferCanvas;
use crate::position::RenderPosition;
use crate::style::{Ansi, EllipsisPosition, TextTag};
use crate::text::{
    apply_ops, crlf_g, lemma_apply_ops_concat, lemma_apply_ops_geometry, lemma_apply_ops_push,
    newline_g, paint_seq_rec, with_prefix, LayoutOut, PaintOp,
};
use crate::unicode::{
    grapheme_width_of, graphemes_of, lemma_concat_all_nonempty_len, views_of, AmbiguityPolicy,
    Grapheme,
};

verus! {

/// The horizontal ellipsis grapheme.
pub open spec fn ell_g() -> Seq<char> {
    seq!['\u{2026}']
}

/// The columns the first `k` graphemes occupy side by side.
pub open spec fn prefix_width(gs: Seq<Seq<char>>, k: int, policy: AmbiguityPolicy) -> nat
    decreases k,
{
    if k <= 0 {
        0
    } else {
        (prefix_width(gs, k - 1, policy) + grapheme_width_of(gs[k - 1], policy)) as nat
    }
}

pub proof fn lemma_prefix_width_mono(
    gs: Seq<Seq<char>>,
    k1: int,
    k2: int,
    policy: AmbiguityPolicy,
)
    requires
        k1 <= k2,
    ensures
        prefix_width(gs, k1, policy) <= prefix_width(gs, k2, policy),
    decreases k2,
{
    if k1 < k2 && k2 > 0 {
        lemma_prefix_width_mono(gs, k1, k2 - 1, policy);
    }
}

/// Where the suffix of the last `s` graphemes starts.
pub open spec fn suffix_start(n: int, s: int) -> int {
    if s > n {
        0
    } else {
        n - s
    }
}

/// Whether probing the whole line, grapheme by grapheme, succeeds: an
/// empty line always fits, and a nonempty one fits when its total width
/// ends within the line.
pub open spec fn line_fits(gs: Seq<Seq<char>>, col0: nat, w: nat, policy: AmbiguityPolicy) -> bool {
    gs.len() == 0 || col0 + prefix_width(gs, gs.len() as int, policy) <= w
}

/// Whether the first `k` graphemes and then the ellipsis glyph all fit
/// from the given column.
pub open spec fn fits_prefix(
    gs: Seq<Seq<char>>,
    k: int,
    col0: nat,
    w: nat,
    policy: AmbiguityPolicy,
) -> bool {
    col0 + prefix_width(gs, k, policy) + grapheme_width_of(ell_g(), policy) <= w
}

/// Whether the ellipsis glyph and then the last `s` graphemes all fit
/// from the given column.
pub open spec fn fits_suffix(
    gs: Seq<Seq<char>>,
    s: int,
    col0: nat,
    w: nat,
    policy: AmbiguityPolicy,
) -> bool {
    col0 + grapheme_width_of(ell_g(), policy) + prefix_width(gs, gs.len() as int, policy)
        - prefix_width(gs, suffix_start(gs.len() as int, s), policy) <= w
}

/// Whether the first `p` graphemes, the ellipsis glyph and the last `s`
/// graphemes all fit from the given column.
pub open spec fn fits_center(
    gs: Seq<Seq<char>>,
    p: int,
    s: int,
    col0: nat,
    w: nat,
    policy: AmbiguityPolicy,
) -> bool {
    col0 + prefix_width(gs, p, policy) + grapheme_width_of(ell_g(), policy) + prefix_width(
        gs,
        gs.len() as int,
        policy,
    ) - prefix_width(gs, suffix_start(gs.len() as int, s), policy) <= w
}

/// The greatest `j` in `[0, k]` satisfying `p`, or `0` when none does.
pub open spec fn greatest_below(p: spec_fn(int) -> bool, k: int) -> int
    decreases k,
{
    if k <= 0 {
        0
    } else if p(k) {
        k
    } else {
        greatest_below(p, k - 1)
    }
}

pub proof fn lemma_greatest_below_is(p: spec_fn(int) -> bool, k: int, r: int)
    requires
        0 <= r <= k,
        r > 0 ==> p(r),
        forall|j: int| r < j <= k ==> !(#[trigger] p(j)),
    ensures
        greatest_below(p, k) == r,
    decreases k,
{
    if k > 0 && !p(k) {
        lemma_greatest_below_is(p, k - 1, r);
    }
}

/// Probe whether the whole line fits from the given column, grapheme by
/// grapheme; nothing is painted.
#[verifier::loop_isolation(false)]
pub fn line_fits_without_ellipsis(
    gs: &Vec<Grapheme>,
    col0: usize,
    width: usize,
    policy: AmbiguityPolicy,
) -> (r: bool)
    ensures
        r == line_fits(views_of(gs@), col0 as nat, width as nat, policy),
{
    let ghost gvs = views_of(gs@);
    let n = gs.len();
    let mut col = col0;
    let mut j: usize = 0;
    while j < n
        invariant
            j <= n,
            col == col0 + prefix_width(gvs, j as int, policy),
            col <= width || j == 0,
        decreases n - j,
    {
        let g = &gs[j];
        let gw = g.width(policy);
        if col > width || gw > width - col {
            proof {
                lemma_prefix_width_mono(gvs, j as int + 1, n as int, policy);
            }
            return false;
        }
        col = col + gw;
        j += 1;
    }
    true
}

/// Probe whether the first `prefix_len` graphemes and the ellipsis glyph
/// fit from the given column; nothing is painted.
#[verifier::loop_isolation(false)]
pub fn prefix_plus_ellipsis_fits(
    gs: &Vec<Grapheme>,
    prefix_len: usize,
    col0: usize,
    width: usize,
    policy: AmbiguityPolicy,
) -> (r: bool)
    requires
        prefix_len <= gs@.len(),
    ensures
        r == fits_prefix(views_of(gs@), prefix_len as int, col0 as nat, width as nat, policy),
{
    let ghost gvs = views_of(gs@);
    let mut col = col0;
    let mut j: usize = 0;
    while j < prefix_len
        invariant
            j <= prefix_len,
            col == col0 + prefix_width(gvs, j as int, policy),
            col <= width || j == 0,
        decreases prefix_len - j,
    {
        let g = &gs[j];
        let gw = g.width(policy);
        if col > width || gw > width - col {
            proof {
                lemma_prefix_width_mono(gvs, j as int + 1, prefix_len as int, policy);
            }
            return false;
        }
        col = col + gw;
        j += 1;
    }
    let ell = Grapheme::from_char('\u{2026}');
    let ew = ell.width(policy);
    proof {
        assert(ell@ == ell_g());
    }
    !(col > width || ew > width - col)
}


/// Probe whether the ellipsis glyph and then the last `suffix_len`
/// graphemes fit from the given column; nothing is painted.
#[verifier::loop_isolation(false)]
pub fn ellipsis_plus_suffix_fits(
    gs: &Vec<Grapheme>,
    suffix_len: usize,
    col0: usize,
    width: usize,
    policy: AmbiguityPolicy,
) -> (r: bool)
    requires
        suffix_len <= gs@.len(),
    ensures
        r == fits_suffix(views_of(gs@), suffix_len as int, col0 as nat, width as nat, policy),
{
    let ghost gvs = views_of(gs@);
    let n = gs.len();
    let st = n - suffix_len;
    let ell = Grapheme::from_char('\u{2026}');
    let ew = ell.width(policy);
    proof {
        assert(ell@ == ell_g());
    }
    if col0 > width || ew > width - col0 {
        proof {
            lemma_prefix_width_mono(gvs, st as int, n as int, policy);
        }
        return false;
    }
    let mut col = col0 + ew;
    let mut j: usize = st;
    while j < n
        invariant
            st <= j <= n,
            col == col0 + grapheme_width_of(ell_g(), policy) + prefix_width(gvs, j as int, policy)
                - prefix_width(gvs, st as int, policy),
            col <= width || j == st,
        decreases n - j,
    {
        let g = &gs[j];
        let gw = g.width(policy);
        if col > width || gw > width - col {
            proof {
                lemma_prefix_width_mono(gvs, j as int + 1, n as int, policy);
                lemma_prefix_width_mono(gvs, st as int, j as int, policy);
            }
            return false;
        }
        col = col + gw;
        j += 1;
    }
    true
}

/// Probe whether the first `p` graphemes, the ellipsis glyph and the last
/// `s` graphemes fit from the given column; nothing is painted.
#[verifier::loop_isolation(false)]
pub fn center_candidate_fits(
    gs: &Vec<Grapheme>,
    p: usize,
    s: usize,
    col0: usize,
    width: usize,
    policy: AmbiguityPolicy,
) -> (r: bool)
    requires
        p <= gs@.len(),
        s <= gs@.len(),
    ensures
        r == fits_center(views_of(gs@), p as int, s as int, col0 as nat, width as nat, policy),
{
    let ghost gvs = views_of(gs@);
    let n = gs.len();
    let st = n - s;
    let mut col = col0;
    let mut j: usize = 0;
    while j < p
        invariant
            j <= p,
            col == col0 + prefix_width(gvs, j as int, policy),
            col <= width || j == 0,
        decreases p - j,
    {
        let g = &gs[j];
        let gw = g.width(policy);
        if col > width || gw > width - col {
            proof {
                lemma_prefix_width_mono(gvs, j as int + 1, p as int, policy);
                lemma_prefix_width_mono(gvs, st as int, n as int, policy);
            }
            return false;
        }
        col = col + gw;
        j += 1;
    }
    let ell = Grapheme::from_char('\u{2026}');
    let ew = ell.width(policy);
    proof {
        assert(ell@ == ell_g());
    }
    if col > width || ew > width - col {
        proof {
            lemma_prefix_width_mono(gvs, st as int, n as int, policy);
        }
        return false;
    }
    col = col + ew;
    let mut k: usize = st;
    while k < n
        invariant
            st <= k <= n,
            col == col0 + prefix_width(gvs, p as int, policy) + grapheme_width_of(ell_g(), policy)
                + prefix_width(gvs, k as int, policy) - prefix_width(gvs, st as int, policy),
            col <= width,
        decreases n - k,
    {
        let g = &gs[k];
        let gw = g.width(policy);
        if col > width || gw > width - col {
            proof {
                lemma_prefix_width_mono(gvs, k as int + 1, n as int, policy);
                lemma_prefix_width_mono(gvs, st as int, k as int, policy);
            }
            return false;
        }
        col = col + gw;
        k += 1;
    }
    true
}

/// Binary search for the longest prefix that fits together with the
/// ellipsis glyph.
#[verifier::loop_isolation(false)]
fn search_best_prefix(
    gs: &Vec<Grapheme>,
    col0: usize,
    width: usize,
    policy: AmbiguityPolicy,
) -> (r: usize)
    ensures
        r <= gs@.len(),
        r as int == greatest_below(
            |k: int| fits_prefix(views_of(gs@), k, col0 as nat, width as nat, policy),
            gs@.len() as int,
        ),
{
    let ghost pfn = |k: int| fits_prefix(views_of(gs@), k, col0 as nat, width as nat, policy);
    let total = gs.len();
    let mut lo: usize = 0;
    let mut hi: usize = total;
    while lo < hi
        invariant
            lo <= hi <= total,
            lo == 0 || pfn(lo as int),
            forall|j: int| hi < j <= total ==> !(#[trigger] pfn(j)),
        decreases hi - lo,
    {
        let mid = hi - (hi - lo) / 2;
        if prefix_plus_ellipsis_fits(gs, mid, col0, width, policy) {
            lo = mid;
        } else {
            proof {
                assert forall|j: int| mid - 1 < j <= total implies !(#[trigger] pfn(j)) by {
                    if mid < j <= total && pfn(j) {
                        lemma_prefix_width_mono(views_of(gs@), mid as int, j, policy);
                        assert(pfn(mid as int));
                    }
                }
            }
            hi = mid - 1;
        }
    }
    proof {
        lemma_greatest_below_is(pfn, total as int, lo as int);
    }
    lo
}

/// Binary search for the longest suffix that fits after a leading
/// ellipsis glyph.
#[verifier::loop_isolation(false)]
fn search_best_suffix(
    gs: &Vec<Grapheme>,
    col0: usize,
    width: usize,
    policy: AmbiguityPolicy,
) -> (r: usize)
    ensures
        r <= gs@.len(),
        r as int == greatest_below(
            |k: int| fits_suffix(views_of(gs@), k, col0 as nat, width as nat, policy),
            gs@.len() as int,
        ),
{
    let ghost pfn = |k: int| fits_suffix(views_of(gs@), k, col0 as nat, width as nat, policy);
    let total = gs.len();
    let mut lo: usize = 0;
    let mut hi: usize = total;
    while lo < hi
        invariant
            lo <= hi <= total,
            lo == 0 || pfn(lo as int),
            forall|j: int| hi < j <= total ==> !(#[trigger] pfn(j)),
        decreases hi - lo,
    {
        let mid = hi - (hi - lo) / 2;
        if ellipsis_plus_suffix_fits(gs, mid, col0, width, policy) {
            lo = mid;
        } else {
            proof {
                assert forall|j: int| mid - 1 < j <= total implies !(#[trigger] pfn(j)) by {
                    if mid < j <= total && pfn(j) {
                        lemma_prefix_width_mono(
                            views_of(gs@),
                            suffix_start(total as int, j),
                            suffix_start(total as int, mid as int),
                            policy,
                        );
                        assert(pfn(mid as int));
                    }
                }
            }
            hi = mid - 1;
        }
    }
    proof {
        lemma_greatest_below_is(pfn, total as int, lo as int);
    }
    lo
}

/// Copy a range of graphemes out of a line.
#[verifier::loop_isolation(false)]
fn clone_range(gs: &Vec<Grapheme>, from: usize, to: usize) -> (r: Vec<Grapheme>)
    requires
        from <= to <= gs@.len(),
        forall|j: int| 0 <= j < gs@.len() ==> (#[trigger] gs@[j]).wf(),
    ensures
        views_of(r@) == views_of(gs@).subrange(from as int, to as int),
        forall|j: int| 0 <= j < r@.len() ==> (#[trigger] r@[j]).wf(),
        r@.len() == to - from,
{
    let mut out: Vec<Grapheme> = Vec::new();
    let mut j = from;
    while j < to
        invariant
            from <= j <= to,
            out@.len() == j - from,
            forall|x: int| 0 <= x < out@.len() ==> (#[trigger] out@[x])@ == gs@[from + x]@,
            forall|x: int| 0 <= x < out@.len() ==> (#[trigger] out@[x]).wf(),
        decreases to - j,
    {
        let g = gs[j].clone();
        proof {
            assert(g.wf());
        }
        out.push(g);
        j += 1;
    }
    proof {
        assert(views_of(out@) =~= views_of(gs@).subrange(from as int, to as int));
    }
    out
}


/// The greedy rebalance of the centered ellipsis: repeatedly move one
/// grapheme from the prefix to the suffix while the candidate still fits,
/// stopping at the first failure or once the prefix is no longer longer.
pub open spec fn rebalance(
    gs: Seq<Seq<char>>,
    p: nat,
    s: nat,
    col0: nat,
    w: nat,
    policy: AmbiguityPolicy,
) -> (nat, nat)
    decreases p,
{
    if p > s && p + s < gs.len() && fits_center(gs, p - 1, s + 1 as int, col0, w, policy) {
        rebalance(gs, (p - 1) as nat, (s + 1) as nat, col0, w, policy)
    } else {
        (p, s)
    }
}

/// The commit pass for the right-hand ellipsis: the chosen prefix, then
/// the glyph with its overflow-marker tag.
pub open spec fn commit_right(
    gs: Seq<Seq<char>>,
    k: int,
    line: nat,
    col0: nat,
    w: nat,
    policy: AmbiguityPolicy,
    tag: Ansi,
) -> LayoutOut {
    let p = paint_seq_rec(gs.take(k), line, col0, w, policy, tag);
    let ellw = grapheme_width_of(ell_g(), policy);
    if p.col + ellw <= w {
        LayoutOut {
            ops: p.ops + seq![
                PaintOp {
                    line,
                    column: p.col,
                    text: ell_g(),
                    tag: TextTag::Ellipsis(EllipsisPosition::Right),
                },
            ],
            line,
            col: (p.col + ellw) as nat,
            overflow: false,
        }
    } else {
        LayoutOut { ops: p.ops, line, col: p.col, overflow: false }
    }
}

/// The commit pass for the left-hand ellipsis: the glyph first, then the
/// chosen suffix.
pub open spec fn commit_left(
    gs: Seq<Seq<char>>,
    s: int,
    line: nat,
    col0: nat,
    w: nat,
    policy: AmbiguityPolicy,
    tag: Ansi,
) -> LayoutOut {
    let ellw = grapheme_width_of(ell_g(), policy);
    let st = suffix_start(gs.len() as int, s);
    if col0 + ellw <= w {
        let p = paint_seq_rec(gs.skip(st), line, (col0 + ellw) as nat, w, policy, tag);
        LayoutOut {
            ops: seq![
                PaintOp {
                    line,
                    column: col0,
                    text: ell_g(),
                    tag: TextTag::Ellipsis(EllipsisPosition::Left),
                },
            ] + p.ops,
            line,
            col: p.col,
            overflow: false,
        }
    } else {
        let p = paint_seq_rec(gs.skip(st), line, col0, w, policy, tag);
        LayoutOut { ops: p.ops, line, col: p.col, overflow: false }
    }
}

/// The commit pass for the centered ellipsis: prefix, glyph, suffix; if
/// the glyph itself cannot be placed, the suffix is not attempted.
pub open spec fn commit_center(
    gs: Seq<Seq<char>>,
    p: int,
    s: int,
    line: nat,
    col0: nat,
    w: nat,
    policy: AmbiguityPolicy,
    tag: Ansi,
) -> LayoutOut {
    let pre = paint_seq_rec(gs.take(p), line, col0, w, policy, tag);
    let ellw = grapheme_width_of(ell_g(), policy);
    let st = suffix_start(gs.len() as int, s);
    if pre.col + ellw <= w {
        let suf = paint_seq_rec(gs.skip(st), line, (pre.col + ellw) as nat, w, policy, tag);
        LayoutOut {
            ops: pre.ops + seq![
                PaintOp {
                    line,
                    column: pre.col,
                    text: ell_g(),
                    tag: TextTag::Ellipsis(EllipsisPosition::Center),
                },
            ] + suf.ops,
            line,
            col: suf.col,
            overflow: false,
        }
    } else {
        LayoutOut { ops: pre.ops, line, col: pre.col, overflow: false }
    }
}

/// One sub-line under the right-hand ellipsis: draw it whole if it fits;
/// otherwise commit the longest fitting prefix plus the glyph, or skip
/// the line entirely if not even the glyph alone can be placed.
pub open spec fn right_line_out(
    gs: Seq<Seq<char>>,
    line: nat,
    col: nat,
    w: nat,
    policy: AmbiguityPolicy,
    tag: Ansi,
) -> LayoutOut {
    if line_fits(gs, col, w, policy) {
        let p = paint_seq_rec(gs, line, col, w, policy, tag);
        LayoutOut { ops: p.ops, line, col: p.col, overflow: false }
    } else {
        let k = greatest_below(
            |k: int| fits_prefix(gs, k, col, w, policy),
            gs.len() as int,
        );
        if k == 0 && !fits_prefix(gs, 0, col, w, policy) {
            LayoutOut { ops: Seq::empty(), line, col, overflow: false }
        } else {
            commit_right(gs, k, line, col, w, policy, tag)
        }
    }
}

/// One sub-line under the left-hand ellipsis.
pub open spec fn left_line_out(
    gs: Seq<Seq<char>>,
    line: nat,
    col: nat,
    w: nat,
    policy: AmbiguityPolicy,
    tag: Ansi,
) -> LayoutOut {
    if line_fits(gs, col, w, policy) {
        let p = paint_seq_rec(gs, line, col, w, policy, tag);
        LayoutOut { ops: p.ops, line, col: p.col, overflow: false }
    } else {
        let k = greatest_below(
            |k: int| fits_suffix(gs, k, col, w, policy),
            gs.len() as int,
        );
        if k == 0 && !fits_suffix(gs, 0, col, w, policy) {
            LayoutOut { ops: Seq::empty(), line, col, overflow: false }
        } else {
            commit_left(gs, k, line, col, w, policy, tag)
        }
    }
}

/// One sub-line under the centered ellipsis: seed with the right-hand
/// search, then rebalance prefix graphemes into the suffix.
pub open spec fn center_line_out(
    gs: Seq<Seq<char>>,
    line: nat,
    col: nat,
    w: nat,
    policy: AmbiguityPolicy,
    tag: Ansi,
) -> LayoutOut {
    if line_fits(gs, col, w, policy) {
        let p = paint_seq_rec(gs, line, col, w, policy, tag);
        LayoutOut { ops: p.ops, line, col: p.col, overflow: false }
    } else {
        let k0 = greatest_below(
            |k: int| fits_prefix(gs, k, col, w, policy),
            gs.len() as int,
        );
        if k0 == 0 && !fits_prefix(gs, 0, col, w, policy) {
            LayoutOut { ops: Seq::empty(), line, col, overflow: false }
        } else {
            let ps = rebalance(gs, k0 as nat, 0, col, w, policy);
            commit_center(gs, ps.0 as int, ps.1 as int, line, col, w, policy, tag)
        }
    }
}

pub open spec fn line_out(
    epos: EllipsisPosition,
    gs: Seq<Seq<char>>,
    line: nat,
    col: nat,
    w: nat,
    policy: AmbiguityPolicy,
    tag: Ansi,
) -> LayoutOut {
    match epos {
        EllipsisPosition::Right => right_line_out(gs, line, col, w, policy, tag),
        EllipsisPosition::Left => left_line_out(gs, line, col, w, policy, tag),
        EllipsisPosition::Center => center_line_out(gs, line, col, w, policy, tag),
    }
}

/// Whether this cluster starts a fresh sub-line: a bare line feed or the
/// carriage-return/line-feed pair (one cluster under UAX #29).
pub open spec fn is_line_break_g(g: Seq<char>) -> bool {
    g == newline_g() || g == crlf_g()
}

/// The index of the next line break at or after `i`, or the length when
/// there is none.
pub open spec fn next_line_break(gs: Seq<Seq<char>>, i: int) -> int
    decreases gs.len() - i,
{
    if i >= gs.len() {
        gs.len() as int
    } else if is_line_break_g(gs[i]) {
        i
    } else {
        next_line_break(gs, i + 1)
    }
}

pub proof fn lemma_next_line_break_bounds(gs: Seq<Seq<char>>, i: int)
    requires
        i <= gs.len(),
    ensures
        i <= next_line_break(gs, i) <= gs.len(),
    decreases gs.len() - i,
{
    if i < gs.len() && !is_line_break_g(gs[i]) {
        lemma_next_line_break_bounds(gs, i + 1);
    }
}

pub proof fn lemma_next_line_break_is(gs: Seq<Seq<char>>, i: int, j: int)
    requires
        0 <= i <= j <= gs.len(),
        forall|x: int| i <= x < j ==> !is_line_break_g(#[trigger] gs[x]),
        j < gs.len() ==> is_line_break_g(gs[j]),
    ensures
        next_line_break(gs, i) == j,
    decreases j - i,
{
    if i < j {
        lemma_next_line_break_is(gs, i + 1, j);
    }
}

/// Ellipsis layout over a whole segment: each sub-line between line
/// breaks is handled on its own, against the unmodified start column.
pub open spec fn ellipsis_rec(
    gs: Seq<Seq<char>>,
    i: int,
    line: nat,
    col: nat,
    start_col: nat,
    w: nat,
    policy: AmbiguityPolicy,
    tag: Ansi,
    epos: EllipsisPosition,
) -> LayoutOut
    decreases gs.len() - i,
    via ellipsis_rec_decreases
{
    let j = next_line_break(gs, i);
    let sub = gs.subrange(i, j);
    let lo = line_out(epos, sub, line, col, w, policy, tag);
    if j >= gs.len() {
        lo
    } else {
        with_prefix(
            lo.ops,
            ellipsis_rec(
                gs,
                j + 1,
                (line + 1) as nat,
                start_col,
                start_col,
                w,
                policy,
                tag,
                epos,
            ),
        )
    }
}

#[via_fn]
proof fn ellipsis_rec_decreases(
    gs: Seq<Seq<char>>,
    i: int,
    line: nat,
    col: nat,
    start_col: nat,
    w: nat,
    policy: AmbiguityPolicy,
    tag: Ansi,
    epos: EllipsisPosition,
) {
    if i <= gs.len() {
        lemma_next_line_break_bounds(gs, i);
    }
}


/// Paint a whole sub-line at the cursor; used when the line fits.
pub fn draw_line_full(gs: &Vec<Grapheme>, tag: &Ansi, canvas: &mut RenderBufferCanvas)
    requires
        old(canvas).wf(),
        forall|j: int| 0 <= j < gs@.len() ==> (#[trigger] gs@[j]).wf(),
    ensures
        final(canvas).wf(),
        final(canvas).start_position == old(canvas).start_position,
        final(canvas).position.line == old(canvas).position.line,
        ({
            let p = paint_seq_rec(
                views_of(gs@),
                old(canvas).position.line as nat,
                old(canvas).position.column as nat,
                old(canvas).buf().width,
                old(canvas).buf().policy,
                *tag,
            );
            &&& final(canvas).buf() == apply_ops(old(canvas).buf(), p.ops)
            &&& final(canvas).position.column == p.col
        }),
{
    crate::text::paint_chunk(canvas, gs, tag);
}

/// Commit pass for the right-hand ellipsis: the chosen prefix, then the
/// glyph under its overflow-marker tag.
pub fn draw_prefix_plus_ellipsis(
    gs: &Vec<Grapheme>,
    prefix_len: usize,
    tag: &Ansi,
    canvas: &mut RenderBufferCanvas,
)
    requires
        old(canvas).wf(),
        prefix_len <= gs@.len(),
        forall|j: int| 0 <= j < gs@.len() ==> (#[trigger] gs@[j]).wf(),
    ensures
        final(canvas).wf(),
        final(canvas).start_position == old(canvas).start_position,
        final(canvas).position.line == old(canvas).position.line,
        ({
            let out = commit_right(
                views_of(gs@),
                prefix_len as int,
                old(canvas).position.line as nat,
                old(canvas).position.column as nat,
                old(canvas).buf().width,
                old(canvas).buf().policy,
                *tag,
            );
            &&& final(canvas).buf() == apply_ops(old(canvas).buf(), out.ops)
            &&& final(canvas).position.column == out.col
        }),
{
    let ghost old_buf = canvas.buf();
    let ghost line0 = old(canvas).position.line as nat;
    let ghost p = paint_seq_rec(
        views_of(gs@).take(prefix_len as int),
        line0,
        old(canvas).position.column as nat,
        old_buf.width,
        old_buf.policy,
        *tag,
    );
    let pre = clone_range(gs, 0, prefix_len);
    proof {
        assert(views_of(gs@).subrange(0, prefix_len as int) =~= views_of(gs@).take(
            prefix_len as int,
        ));
    }
    crate::text::paint_chunk(canvas, &pre, tag);
    proof {
        lemma_apply_ops_geometry(old_buf, p.ops);
    }
    let ell = Grapheme::from_char('\u{2026}');
    proof {
        assert(ell@ == ell_g());
    }
    let ghost ellop = PaintOp {
        line: line0,
        column: canvas.position.column as nat,
        text: ell_g(),
        tag: TextTag::Ellipsis(EllipsisPosition::Right),
    };
    let ok = canvas.set_gph(&ell, TextTag::Ellipsis(EllipsisPosition::Right));
    proof {
        if ok {
            lemma_apply_ops_push(old_buf, p.ops, ellop);
            assert(p.ops + seq![ellop] =~= p.ops.push(ellop));
        }
    }
}

/// Commit pass for the left-hand ellipsis: the glyph first, then the
/// chosen suffix.
pub fn draw_ellipsis_plus_suffix(
    gs: &Vec<Grapheme>,
    suffix_len: usize,
    tag: &Ansi,
    canvas: &mut RenderBufferCanvas,
)
    requires
        old(canvas).wf(),
        suffix_len <= gs@.len(),
        forall|j: int| 0 <= j < gs@.len() ==> (#[trigger] gs@[j]).wf(),
    ensures
        final(canvas).wf(),
        final(canvas).start_position == old(canvas).start_position,
        final(canvas).position.line == old(canvas).position.line,
        ({
            let out = commit_left(
                views_of(gs@),
                suffix_len as int,
                old(canvas).position.line as nat,
                old(canvas).position.column as nat,
                old(canvas).buf().width,
                old(canvas).buf().policy,
                *tag,
            );
            &&& final(canvas).buf() == apply_ops(old(canvas).buf(), out.ops)
            &&& final(canvas).position.column == out.col
        }),
{
    let ghost old_buf = canvas.buf();
    let ghost line0 = old(canvas).position.line as nat;
    let ghost col0 = old(canvas).position.column as nat;
    let ell = Grapheme::from_char('\u{2026}');
    proof {
        assert(ell@ == ell_g());
    }
    let ghost ellop = PaintOp {
        line: line0,
        column: col0,
        text: ell_g(),
        tag: TextTag::Ellipsis(EllipsisPosition::Left),
    };
    let ok = canvas.set_gph(&ell, TextTag::Ellipsis(EllipsisPosition::Left));
    let ghost first: Seq<PaintOp> = if ok {
        seq![ellop]
    } else {
        Seq::empty()
    };
    proof {
        if ok {
            lemma_apply_ops_push(old_buf, Seq::empty(), ellop);
            assert(Seq::<PaintOp>::empty().push(ellop) =~= seq![ellop]);
        }
        assert(canvas.buf() == apply_ops(old_buf, first));
        lemma_apply_ops_geometry(old_buf, first);
    }
    let st = gs.len() - suffix_len;
    let suf = clone_range(gs, st, gs.len());
    proof {
        assert(views_of(gs@).subrange(st as int, gs@.len() as int) =~= views_of(gs@).skip(
            st as int,
        ));
    }
    let ghost p = paint_seq_rec(
        views_of(gs@).skip(st as int),
        line0,
        canvas.position.column as nat,
        old_buf.width,
        old_buf.policy,
        *tag,
    );
    crate::text::paint_chunk(canvas, &suf, tag);
    proof {
        lemma_apply_ops_concat(old_buf, first, p.ops);
        if ok {
            assert(seq![ellop] + p.ops =~= first + p.ops);
        } else {
            assert(p.ops =~= first + p.ops);
        }
    }
}

/// Commit pass for the centered ellipsis: prefix, glyph, suffix; if the
/// glyph cannot be placed the suffix is not attempted.
pub fn draw_center(
    gs: &Vec<Grapheme>,
    prefix_len: usize,
    suffix_len: usize,
    tag: &Ansi,
    canvas: &mut RenderBufferCanvas,
)
    requires
        old(canvas).wf(),
        prefix_len <= gs@.len(),
        suffix_len <= gs@.len(),
        forall|j: int| 0 <= j < gs@.len() ==> (#[trigger] gs@[j]).wf(),
    ensures
        final(canvas).wf(),
        final(canvas).start_position == old(canvas).start_position,
        final(canvas).position.line == old(canvas).position.line,
        ({
            let out = commit_center(
                views_of(gs@),
                prefix_len as int,
                suffix_len as int,
                old(canvas).position.line as nat,
                old(canvas).position.column as nat,
                old(canvas).buf().width,
                old(canvas).buf().policy,
                *tag,
            );
            &&& final(canvas).buf() == apply_ops(old(canvas).buf(), out.ops)
            &&& final(canvas).position.column == out.col
        }),
{
    let ghost old_buf = canvas.buf();
    let ghost line0 = old(canvas).position.line as nat;
    let ghost pre_ops = paint_seq_rec(
        views_of(gs@).take(prefix_len as int),
        line0,
        old(canvas).position.column as nat,
        old_buf.width,
        old_buf.policy,
        *tag,
    );
    let pre = clone_range(gs, 0, prefix_len);
    proof {
        assert(views_of(gs@).subrange(0, prefix_len as int) =~= views_of(gs@).take(
            prefix_len as int,
        ));
    }
    crate::text::paint_chunk(canvas, &pre, tag);
    proof {
        lemma_apply_ops_geometry(old_buf, pre_ops.ops);
    }
    let ell = Grapheme::from_char('\u{2026}');
    proof {
        assert(ell@ == ell_g());
    }
    let ghost ellop = PaintOp {
        line: line0,
        column: canvas.position.column as nat,
        text: ell_g(),
        tag: TextTag::Ellipsis(EllipsisPosition::Center),
    };
    let ok = canvas.set_gph(&ell, TextTag::Ellipsis(EllipsisPosition::Center));
    if ok {
        proof {
            lemma_apply_ops_push(old_buf, pre_ops.ops, ellop);
            lemma_apply_ops_geometry(old_buf, pre_ops.ops.push(ellop));
        }
        let st = gs.len() - suffix_len;
        let suf = clone_range(gs, st, gs.len());
        proof {
            assert(views_of(gs@).subrange(st as int, gs@.len() as int) =~= views_of(gs@).skip(
                st as int,
            ));
        }
        let ghost sp = paint_seq_rec(
            views_of(gs@).skip(st as int),
            line0,
            canvas.position.column as nat,
            old_buf.width,
            old_buf.policy,
            *tag,
        );
        crate::text::paint_chunk(canvas, &suf, tag);
        proof {
            lemma_apply_ops_concat(old_buf, pre_ops.ops.push(ellop), sp.ops);
            assert((pre_ops.ops + seq![ellop]) + sp.ops =~= pre_ops.ops.push(ellop) + sp.ops);
        }
    }
}

/// Lay out one sub-line under the chosen ellipsis placement, leaving the
/// cursor after the committed content.
#[verifier::loop_isolation(false)]
fn render_ellipsis_line(
    sub: &Vec<Grapheme>,
    tag: &Ansi,
    canvas: &mut RenderBufferCanvas,
    epos: EllipsisPosition,
)
    requires
        old(canvas).wf(),
        forall|j: int| 0 <= j < sub@.len() ==> (#[trigger] sub@[j]).wf(),
    ensures
        final(canvas).wf(),
        final(canvas).start_position == old(canvas).start_position,
        final(canvas).position.line == old(canvas).position.line,
        ({
            let out = line_out(
                epos,
                views_of(sub@),
                old(canvas).position.line as nat,
                old(canvas).position.column as nat,
                old(canvas).buf().width,
                old(canvas).buf().policy,
                *tag,
            );
            &&& final(canvas).buf() == apply_ops(old(canvas).buf(), out.ops)
            &&& final(canvas).position.column == out.col
        }),
{
    let ghost gvs = views_of(sub@);
    let here = canvas.get_position();
    let bw = canvas.buffer.width();
    let pol = canvas.buffer.ambiguity_policy();
    if line_fits_without_ellipsis(sub, here.column, bw, pol) {
        crate::text::paint_chunk(canvas, sub, tag);
    } else {
        match epos {
            EllipsisPosition::Right => {
                let k = search_best_prefix(sub, here.column, bw, pol);
                if k == 0 && !prefix_plus_ellipsis_fits(sub, 0, here.column, bw, pol) {
                } else {
                    draw_prefix_plus_ellipsis(sub, k, tag, canvas);
                }
            },
            EllipsisPosition::Left => {
                let k = search_best_suffix(sub, here.column, bw, pol);
                if k == 0 && !ellipsis_plus_suffix_fits(sub, 0, here.column, bw, pol) {
                } else {
                    draw_ellipsis_plus_suffix(sub, k, tag, canvas);
                }
            },
            EllipsisPosition::Center => {
                let k0 = search_best_prefix(sub, here.column, bw, pol);
                if k0 == 0 && !prefix_plus_ellipsis_fits(sub, 0, here.column, bw, pol) {
                } else {
                    let ghost fin = rebalance(gvs, k0 as nat, 0, here.column as nat, bw as nat, pol);
                    let total = sub.len();
                    let mut p = k0;
                    let mut s: usize = 0;
                    let mut go = false;
                    if p > s && p + s < total {
                        go = center_candidate_fits(sub, p - 1, s + 1, here.column, bw, pol);
                    }
                    while go
                        invariant
                            p <= total,
                            s <= total,
                            p + s <= total,
                            go == (p > s && p + s < total && fits_center(
                                gvs,
                                p as int - 1,
                                s as int + 1,
                                here.column as nat,
                                bw as nat,
                                pol,
                            )),
                            rebalance(gvs, p as nat, s as nat, here.column as nat, bw as nat, pol)
                                == fin,
                        decreases p,
                    {
                        p -= 1;
                        s += 1;
                        go = false;
                        if p > s && p + s < total {
                            go = center_candidate_fits(sub, p - 1, s + 1, here.column, bw, pol);
                        }
                    }
                    draw_center(sub, p, s, tag, canvas);
                }
            },
        }
    }
}


/// Paint the text at the cursor under the chosen ellipsis placement; each
/// sub-line between line feeds is truncated independently against the
/// unmodified start column.
#[verifier::loop_isolation(false)]
pub fn render_segment_ellipsis(
    text: &str,
    tag: &Ansi,
    canvas: &mut RenderBufferCanvas,
    start: RenderPosition,
    position: EllipsisPosition,
)
    requires
        old(canvas).wf(),
        old(canvas).position.line + text@.len() + 2 <= usize::MAX,
    ensures
        final(canvas).wf(),
        ({
            let out = ellipsis_rec(
                graphemes_of(text@),
                0,
                old(canvas).position.line as nat,
                old(canvas).position.column as nat,
                start.column as nat,
                old(canvas).buf().width,
                old(canvas).buf().policy,
                *tag,
                position,
            );
            &&& final(canvas).buf() == apply_ops(old(canvas).buf(), out.ops)
            &&& final(canvas).position.line == out.line
            &&& final(canvas).position.column == out.col
        }),
        final(canvas).start_position == old(canvas).start_position,
        final(canvas).position.line <= old(canvas).position.line + text@.len(),
{
    let ghost old_buf = canvas.buf();
    let ghost w = old_buf.width;
    let ghost policy = old_buf.policy;
    let ghost line0 = old(canvas).position.line as nat;
    let ghost col0 = old(canvas).position.column as nat;
    let ghost sc = start.column as nat;
    let gs = Grapheme::from_str(text);
    let ghost gvs = views_of(gs@);
    proof {
        lemma_concat_all_nonempty_len(gvs);
    }
    let ghost full = ellipsis_rec(gvs, 0, line0, col0, sc, w, policy, *tag, position);
    let n = gs.len();
    let mut i: usize = 0;
    let mut finished = false;
    let ghost mut done: Seq<PaintOp> = Seq::empty();
    proof {
        assert(Seq::<PaintOp>::empty() + full.ops =~= full.ops);
    }
    while !finished
        invariant
            i <= n,
            canvas.wf(),
            canvas.start_position == old(canvas).start_position,
            canvas.buf() == apply_ops(old_buf, done),
            canvas.buf().width == w,
            canvas.buf().policy == policy,
            canvas.position.line <= line0 + i,
            !finished ==> full == with_prefix(
                done,
                ellipsis_rec(
                    gvs,
                    i as int,
                    canvas.position.line as nat,
                    canvas.position.column as nat,
                    sc,
                    w,
                    policy,
                    *tag,
                    position,
                ),
            ),
            finished ==> full.ops == done && full.line == canvas.position.line as nat && full.col
                == canvas.position.column as nat,
        decreases n - i, (if finished { 0int } else { 1int }),
    {
        let ghost prev_line = canvas.position.line as nat;
        let ghost prev_col = canvas.position.column as nat;
        let ghost tail = ellipsis_rec(
            gvs,
            i as int,
            prev_line,
            prev_col,
            sc,
            w,
            policy,
            *tag,
            position,
        );
        let mut j = i;
        let mut found_nl = false;
        while j < n && !found_nl
            invariant
                i <= j <= n,
                forall|x: int| i <= x < j ==> !is_line_break_g(#[trigger] gvs[x]),
                found_nl ==> j < n && is_line_break_g(gvs[j as int]),
            decreases n - j, (if found_nl { 0int } else { 1int }),
        {
            if gs[j].is_line_break() {
                found_nl = true;
            } else {
                j += 1;
            }
        }
        proof {
            lemma_next_line_break_is(gvs, i as int, j as int);
        }
        let sub = clone_range(&gs, i, j);
        let ghost lo = line_out(
            position,
            gvs.subrange(i as int, j as int),
            prev_line,
            prev_col,
            w,
            policy,
            *tag,
        );
        render_ellipsis_line(&sub, tag, canvas, position);
        proof {
            lemma_apply_ops_concat(old_buf, done, lo.ops);
            lemma_apply_ops_geometry(old_buf, done + lo.ops);
        }
        if found_nl {
            canvas.cursor_down();
            canvas.set_column(start.column);
            proof {
                assert(done + (lo.ops + ellipsis_rec(
                    gvs,
                    j as int + 1,
                    canvas.position.line as nat,
                    canvas.position.column as nat,
                    sc,
                    w,
                    policy,
                    *tag,
                    position,
                ).ops) =~= (done + lo.ops) + ellipsis_rec(
                    gvs,
                    j as int + 1,
                    canvas.position.line as nat,
                    canvas.position.column as nat,
                    sc,
                    w,
                    policy,
                    *tag,
                    position,
                ).ops);
                done = done + lo.ops;
            }
            i = j + 1;
        } else {
            proof {
                done = done + lo.ops;
            }
            finished = true;
        }
    }
}

/// Paint the text with the ellipsis at the right edge of each
/// overflowing sub-line.
pub fn render_segment_ellipsis_right(
    text: &str,
    tag: &Ansi,
    canvas: &mut RenderBufferCanvas,
    start: RenderPosition,
)
    requires
        old(canvas).wf(),
        old(canvas).position.line + text@.len() + 2 <= usize::MAX,
    ensures
        final(canvas).wf(),
        ({
            let out = ellipsis_rec(
                graphemes_of(text@),
                0,
                old(canvas).position.line as nat,
                old(canvas).position.column as nat,
                start.column as nat,
                old(canvas).buf().width,
                old(canvas).buf().policy,
                *tag,
                EllipsisPosition::Right,
            );
            &&& final(canvas).buf() == apply_ops(old(canvas).buf(), out.ops)
            &&& final(canvas).position.line == out.line
            &&& final(canvas).position.column == out.col
        }),
        final(canvas).start_position == old(canvas).start_position,
        final(canvas).position.line <= old(canvas).position.line + text@.len(),
{
    render_segment_ellipsis(text, tag, canvas, start, EllipsisPosition::Right);
}

/// Paint the text with the ellipsis at the left edge of each overflowing
/// sub-line.
pub fn render_segment_ellipsis_left(
    text: &str,
    tag: &Ansi,
    canvas: &mut RenderBufferCanvas,
    start: RenderPosition,
)
    requires
        old(canvas).wf(),
        old(canvas).position.line + text@.len() + 2 <= usize::MAX,
    ensures
        final(canvas).wf(),
        ({
            let out = ellipsis_rec(
                graphemes_of(text@),
                0,
                old(canvas).position.line as nat,
                old(canvas).position.column as nat,
                start.column as nat,
                old(canvas).buf().width,
                old(canvas).buf().policy,
                *tag,
                EllipsisPosition::Left,
            );
            &&& final(canvas).buf() == apply_ops(old(canvas).buf(), out.ops)
            &&& final(canvas).position.line == out.line
            &&& final(canvas).position.column == out.col
        }),
        final(canvas).start_position == old(canvas).start_position,
        final(canvas).position.line <= old(canvas).position.line + text@.len(),
{
    render_segment_ellipsis(text, tag, canvas, start, EllipsisPosition::Left);
}

/// Paint the text with the ellipsis pulled toward the middle of each
/// overflowing sub-line.
pub fn render_segment_ellipsis_center(
    text: &str,
    tag: &Ansi,
    canvas: &mut RenderBufferCanvas,
    start: RenderPosition,
)
    requires
        old(canvas).wf(),
        old(canvas).position.line + text@.len() + 2 <= usize::MAX,
    ensures
        final(canvas).wf(),
        ({
            let out = ellipsis_rec(
                graphemes_of(text@),
                0,
                old(canvas).position.line as nat,
                old(canvas).position.column as nat,
                start.column as nat,
                old(canvas).buf().width,
                old(canvas).buf().policy,
                *tag,
                EllipsisPosition::Center,
            );
            &&& final(canvas).buf() == apply_ops(old(canvas).buf(), out.ops)
            &&& final(canvas).position.line == out.line
            &&& final(canvas).position.column == out.col
        }),
        final(canvas).start_position == old(canvas).start_position,
        final(canvas).position.line <= old(canvas).position.line + text@.len(),
{
    render_segment_ellipsis(text, tag, canvas, start, EllipsisPosition::Center);
}


pub proof fn lemma_line_out_bound(
    epos: EllipsisPosition,
    gs: Seq<Seq<char>>,
    line: nat,
    col: nat,
    w: nat,
    policy: AmbiguityPolicy,
    tag: Ansi,
)
    ensures
        line_out(epos, gs, line, col, w, policy, tag).line == line,
        crate::text::ops_below(line_out(epos, gs, line, col, w, policy, tag).ops, line),
{
    crate::text::lemma_paint_seq_bound(gs, line, col, w, policy, tag);
    let ellw = grapheme_width_of(ell_g(), policy);
    match epos {
        EllipsisPosition::Right => {
            let k = greatest_below(|k: int| fits_prefix(gs, k, col, w, policy), gs.len() as int);
            crate::text::lemma_paint_seq_bound(gs.take(k), line, col, w, policy, tag);
        },
        EllipsisPosition::Left => {
            let k = greatest_below(|k: int| fits_suffix(gs, k, col, w, policy), gs.len() as int);
            let st = suffix_start(gs.len() as int, k);
            crate::text::lemma_paint_seq_bound(gs.skip(st), line, (col + ellw) as nat, w, policy, tag);
            crate::text::lemma_paint_seq_bound(gs.skip(st), line, col, w, policy, tag);
        },
        EllipsisPosition::Center => {
            let k0 = greatest_below(|k: int| fits_prefix(gs, k, col, w, policy), gs.len() as int);
            let ps = rebalance(gs, k0 as nat, 0, col, w, policy);
            let pre = paint_seq_rec(gs.take(ps.0 as int), line, col, w, policy, tag);
            let st = suffix_start(gs.len() as int, ps.1 as int);
            crate::text::lemma_paint_seq_bound(gs.take(ps.0 as int), line, col, w, policy, tag);
            crate::text::lemma_paint_seq_bound(
                gs.skip(st),
                line,
                (pre.col + ellw) as nat,
                w,
                policy,
                tag,
            );
        },
    }
}

pub proof fn lemma_ellipsis_bound(
    gs: Seq<Seq<char>>,
    i: int,
    line: nat,
    col: nat,
    start_col: nat,
    w: nat,
    policy: AmbiguityPolicy,
    tag: Ansi,
    epos: EllipsisPosition,
)
    ensures
        ellipsis_rec(gs, i, line, col, start_col, w, policy, tag, epos).line >= line,
        crate::text::ops_below(
            ellipsis_rec(gs, i, line, col, start_col, w, policy, tag, epos).ops,
            ellipsis_rec(gs, i, line, col, start_col, w, policy, tag, epos).line,
        ),
    decreases gs.len() - i,
{
    let j = next_line_break(gs, i);
    let sub = gs.subrange(i, j);
    lemma_line_out_bound(epos, sub, line, col, w, policy, tag);
    if j < gs.len() {
        if i <= gs.len() {
            lemma_next_line_break_bounds(gs, i);
        }
        lemma_ellipsis_bound(gs, j + 1, (line + 1) as nat, start_col, start_col, w, policy, tag, epos);
    }
}


proof fn lemma_prefix_width_uniform(gs: Seq<Seq<char>>, k: int, d: nat, policy: AmbiguityPolicy)
    requires
        0 <= k <= gs.len(),
        forall|i: int| 0 <= i < gs.len() ==> grapheme_width_of(#[trigger] gs[i], policy) == d,
    ensures
        prefix_width(gs, k, policy) == k * d,
    decreases k,
{
    if k > 0 {
        lemma_prefix_width_uniform(gs, k - 1, d, policy);
        assert(prefix_width(gs, k, policy) == prefix_width(gs, k - 1, policy)
            + grapheme_width_of(gs[k - 1], policy));
        assert(grapheme_width_of(gs[k - 1], policy) == d);
        assert((k - 1) * d + d == k * d) by (nonlinear_arith);
    } else {
        assert(k == 0);
        assert(k * d == 0) by (nonlinear_arith)
            requires k == 0;
    }
}

proof fn lemma_rebalance_sum(
    gs: Seq<Seq<char>>,
    p: nat,
    s: nat,
    col0: nat,
    w: nat,
    policy: AmbiguityPolicy,
)
    ensures
        rebalance(gs, p, s, col0, w, policy).0 + rebalance(gs, p, s, col0, w, policy).1 == p + s,
        rebalance(gs, p, s, col0, w, policy).0 <= p,
        rebalance(gs, p, s, col0, w, policy).1 >= s,
    decreases p,
{
    if p > s && p + s < gs.len() && fits_center(gs, p - 1, s + 1 as int, col0, w, policy) {
        lemma_rebalance_sum(gs, (p - 1) as nat, (s + 1) as nat, col0, w, policy);
    }
}

/// When every grapheme of the line is equally wide, the centered
/// rebalance never loses visible width: the prefix, glyph and suffix it
/// settles on cover at least the columns the right-hand seed covered.
/// (With mixed widths a swap can trade a wide prefix grapheme for a
/// narrow suffix grapheme and end narrower.)
pub proof fn lemma_center_keeps_seed_width(
    gs: Seq<Seq<char>>,
    k0: nat,
    col0: nat,
    w: nat,
    d: nat,
    policy: AmbiguityPolicy,
)
    requires
        k0 <= gs.len(),
        forall|i: int| 0 <= i < gs.len() ==> grapheme_width_of(#[trigger] gs[i], policy) == d,
    ensures
        ({
            let ps = rebalance(gs, k0, 0, col0, w, policy);
            prefix_width(gs, ps.0 as int, policy) + (prefix_width(gs, gs.len() as int, policy)
                - prefix_width(gs, suffix_start(gs.len() as int, ps.1 as int), policy))
                >= prefix_width(gs, k0 as int, policy)
        }),
{
    let ps = rebalance(gs, k0, 0, col0, w, policy);
    let n = gs.len() as int;
    lemma_rebalance_sum(gs, k0, 0, col0, w, policy);
    lemma_prefix_width_uniform(gs, k0 as int, d, policy);
    lemma_prefix_width_uniform(gs, ps.0 as int, d, policy);
    lemma_prefix_width_uniform(gs, n, d, policy);
    lemma_prefix_width_uniform(gs, suffix_start(n, ps.1 as int), d, policy);
    assert(ps.1 <= k0);
    assert(suffix_start(n, ps.1 as int) == n - ps.1);
    assert(prefix_width(gs, n, policy) - prefix_width(gs, n - ps.1, policy) == ps.1 * d) by {
        assert(n * d - (n - ps.1) * d == ps.1 * d) by (nonlinear_arith);
    }
    assert(ps.0 * d + ps.1 * d == (ps.0 + ps.1) * d) by (nonlinear_arith);
    assert((ps.0 + ps.1) * d == k0 * d);
}


/// Each sub-line the ellipsis layout commits stays within the line: every
/// painted cell — prefix grapheme, glyph or suffix grapheme — ends within
/// the line width, so the visible content never exceeds it.
pub proof fn lemma_line_out_within(
    epos: EllipsisPosition,
    gs: Seq<Seq<char>>,
    line: nat,
    col: nat,
    w: nat,
    policy: AmbiguityPolicy,
    tag: Ansi,
)
    ensures
        crate::text::ops_within(line_out(epos, gs, line, col, w, policy, tag).ops, w, policy),
{
    crate::text::lemma_paint_seq_within(gs, line, col, w, policy, tag);
    let ellw = grapheme_width_of(ell_g(), policy);
    match epos {
        EllipsisPosition::Right => {
            let k = greatest_below(|k: int| fits_prefix(gs, k, col, w, policy), gs.len() as int);
            let p = paint_seq_rec(gs.take(k), line, col, w, policy, tag);
            crate::text::lemma_paint_seq_within(gs.take(k), line, col, w, policy, tag);
            if p.col + ellw <= w {
                crate::text::lemma_ops_within_concat(
                    p.ops,
                    seq![
                        PaintOp {
                            line,
                            column: p.col,
                            text: ell_g(),
                            tag: TextTag::Ellipsis(EllipsisPosition::Right),
                        },
                    ],
                    w,
                    policy,
                );
            }
        },
        EllipsisPosition::Left => {
            let k = greatest_below(|k: int| fits_suffix(gs, k, col, w, policy), gs.len() as int);
            let st = suffix_start(gs.len() as int, k);
            crate::text::lemma_paint_seq_within(gs.skip(st), line, (col + ellw) as nat, w, policy, tag);
            crate::text::lemma_paint_seq_within(gs.skip(st), line, col, w, policy, tag);
            if col + ellw <= w {
                let p = paint_seq_rec(gs.skip(st), line, (col + ellw) as nat, w, policy, tag);
                crate::text::lemma_ops_within_concat(
                    seq![
                        PaintOp {
                            line,
                            column: col,
                            text: ell_g(),
                            tag: TextTag::Ellipsis(EllipsisPosition::Left),
                        },
                    ],
                    p.ops,
                    w,
                    policy,
                );
            }
        },
        EllipsisPosition::Center => {
            let k0 = greatest_below(|k: int| fits_prefix(gs, k, col, w, policy), gs.len() as int);
            let ps = rebalance(gs, k0 as nat, 0, col, w, policy);
            let pre = paint_seq_rec(gs.take(ps.0 as int), line, col, w, policy, tag);
            let st = suffix_start(gs.len() as int, ps.1 as int);
            crate::text::lemma_paint_seq_within(gs.take(ps.0 as int), line, col, w, policy, tag);
            if pre.col + ellw <= w {
                let suf = paint_seq_rec(gs.skip(st), line, (pre.col + ellw) as nat, w, policy, tag);
                crate::text::lemma_paint_seq_within(
                    gs.skip(st),
                    line,
                    (pre.col + ellw) as nat,
                    w,
                    policy,
                    tag,
                );
                crate::text::lemma_ops_within_concat(
                    pre.ops,
                    seq![
                        PaintOp {
                            line,
                            column: pre.col,
                            text: ell_g(),
                            tag: TextTag::Ellipsis(EllipsisPosition::Center),
                        },
                    ],
                    w,
                    policy,
                );
                crate::text::lemma_ops_within_concat(
                    pre.ops + seq![
                        PaintOp {
                            line,
                            column: pre.col,
                            text: ell_g(),
                            tag: TextTag::Ellipsis(EllipsisPosition::Center),
                        },
                    ],
                    suf.ops,
                    w,
                    policy,
                );
            }
        },
    }
}

pub proof fn lemma_ellipsis_within(
    gs: Seq<Seq<char>>,
    i: int,
    line: nat,
    col: nat,
    start_col: nat,
    w: nat,
    policy: AmbiguityPolicy,
    tag: Ansi,
    epos: EllipsisPosition,
)
    ensures
        crate::text::ops_within(
            ellipsis_rec(gs, i, line, col, start_col, w, policy, tag, epos).ops,
            w,
            policy,
        ),
    decreases gs.len() - i,
{
    let j = next_line_break(gs, i);
    let sub = gs.subrange(i, j);
    let lo = line_out(epos, sub, line, col, w, policy, tag);
    lemma_line_out_within(epos, sub, line, col, w, policy, tag);
    if j < gs.len() {
        if i <= gs.len() {
            lemma_next_line_break_bounds(gs, i);
        }
        lemma_ellipsis_within(gs, j + 1, (line + 1) as nat, start_col, start_col, w, policy, tag, epos);
        crate::text::lemma_ops_within_concat(
            lo.ops,
            ellipsis_rec(gs, j + 1, (line + 1) as nat, start_col, start_col, w, policy, tag, epos).ops,
            w,
            policy,
        );
    }
}

} // verus!
