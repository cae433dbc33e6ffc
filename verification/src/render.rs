//! Viewport arithmetic for one draw of the pager.
//!
//! Given a drawing surface of `width x height` cells, the renderer picks a
//! candidate window of lines around the current one, splits the surface into a
//! decoration column and a content column, accounts for how many rows each
//! line occupies when hard-wrapped at the content width, and chooses the row
//! at which the current line starts so that it sits centered in the middle of
//! the surface where possible, without leaving blank trailing rows when enough
//! content exists.

use vstd::prelude::*;

use crate::byte_len;
use crate::highlighting::HighlightInfo;
use crate::style::StyleMod;
use crate::PagerLine;

verus! {

/// The minimum number of adjacent lines a highlighter may need to disambiguate
/// context (for example, multi-line comment state).
pub const MIN_HIGHLIGHT_CONTEXT: usize = 40;

/// The number of display rows a line of byte length `k` occupies when
/// hard-wrapped at a content column of width `w`: the ceiling of `k / w`, and
/// at least one row even for an empty line.
pub open spec fn spec_wrap_rows(k: nat, w: nat) -> int
    recommends
        w >= 1,
{
    if k == 0 {
        1
    } else {
        (k - 1) / (w as int) + 1
    }
}

/// Compute the rows a line of byte length `k` occupies in a column of width
/// `w`.
pub fn wrap_rows(k: usize, w: usize) -> (r: usize)
    requires
        w >= 1,
    ensures
        r == spec_wrap_rows(k as nat, w as nat),
{
    if k == 0 {
        1
    } else {
        (k - 1) / w + 1
    }
}

/// The wrap count is exactly the ceiling of `k / w`: `r` rows of width `w`
/// cover the line, `r - 1` rows would not, and an empty line still takes one
/// row.
pub proof fn lemma_wrap_rows_is_ceil(k: nat, w: nat)
    requires
        w >= 1,
    ensures
        k == 0 ==> spec_wrap_rows(k, w) == 1,
        k > 0 ==> spec_wrap_rows(k, w) * w >= k,
        k > 0 ==> (spec_wrap_rows(k, w) - 1) * w < k,
        spec_wrap_rows(k, w) >= 1,
{
    if k > 0 {
        let r = spec_wrap_rows(k, w);
        let q = (k - 1) as int / w as int;
        vstd::arithmetic::div_mod::lemma_fundamental_div_mod((k - 1) as int, w as int);
        assert(r * w == q * w + w) by (nonlinear_arith)
            requires
                r == q + 1,
        ;
        assert((r - 1) * w == q * w) by (nonlinear_arith)
            requires
                r == q + 1,
        ;
        vstd::arithmetic::div_mod::lemma_mod_bound((k - 1) as int, w as int);
    }
}

/// The total display rows of the lines `[from, to)` of `lines`, hard-wrapped
/// at width `w`.
pub open spec fn spec_rows<L: PagerLine>(lines: Seq<L>, w: nat, from: int, to: int) -> int
    decreases to - from,
{
    if from >= to {
        0
    } else {
        spec_rows(lines, w, from, to - 1) + spec_wrap_rows(byte_len(lines[to - 1].content()), w)
    }
}

/// Row totals add up over adjacent ranges.
pub proof fn lemma_rows_split<L: PagerLine>(lines: Seq<L>, w: nat, a: int, b: int, c: int)
    requires
        a <= b <= c,
    ensures
        spec_rows(lines, w, a, c) == spec_rows(lines, w, a, b) + spec_rows(lines, w, b, c),
    decreases c - b,
{
    if b < c {
        lemma_rows_split(lines, w, a, b, c - 1);
    }
}

/// Every line takes at least one row, so a range's total is at least its
/// length.
pub proof fn lemma_rows_at_least_len<L: PagerLine>(lines: Seq<L>, w: nat, from: int, to: int)
    requires
        from <= to,
        w >= 1,
    ensures
        spec_rows(lines, w, from, to) >= to - from,
    decreases to - from,
{
    if from < to {
        lemma_rows_at_least_len(lines, w, from, to - 1);
        lemma_wrap_rows_is_ceil(byte_len(lines[to - 1].content()), w);
    }
}

/// The symmetric context radius of the candidate window: at least the surface
/// height, and at least half the highlight context.
pub open spec fn spec_radius(height: int) -> int {
    if height > MIN_HIGHLIGHT_CONTEXT / 2 {
        height
    } else {
        MIN_HIGHLIGHT_CONTEXT as int / 2
    }
}

/// First line of the candidate window around `current`.
pub open spec fn spec_min_line(current: int, height: int) -> int {
    if current > spec_radius(height) {
        current - spec_radius(height)
    } else {
        0
    }
}

/// One past the last line of the candidate window around `current`.
pub open spec fn spec_max_line(current: int, height: int, len: int) -> int {
    if current + spec_radius(height) < len {
        current + spec_radius(height)
    } else {
        len
    }
}

/// The width of the decoration column: the demand, clipped so that the content
/// column keeps at least one cell.
pub open spec fn spec_deco_width(demand: int, width: int) -> int
    recommends
        width >= 1,
{
    if demand > width - 1 {
        width - 1
    } else {
        demand
    }
}

/// The row at which the current line starts, before accounting for lines above
/// it: ideally centered at `height / 2`, but pushed down towards the bottom
/// when the rows from the current line onward (`rows_from`) would leave blank
/// trailing rows.
pub open spec fn spec_chosen_row(height: int, rows_from: int) -> int {
    if height / 2 > height - rows_from {
        height / 2
    } else {
        height - rows_from
    }
}

/// How many rows of the candidate window lie above the surface top: the rows
/// before the current line (`rows_before`) that do not fit above the chosen
/// row.  Rendering never starts below row 0 when content precedes the current
/// line.
pub open spec fn spec_hidden_rows(rows_before: int, chosen: int) -> int {
    if rows_before > chosen {
        rows_before - chosen
    } else {
        0
    }
}

/// `x` clipped to the surface rows `[0, height]`.
pub open spec fn spec_clip_row(x: int, height: int) -> int {
    if x < 0 {
        0
    } else if x > height {
        height
    } else {
        x
    }
}

/// The row at which the current line comes to sit: the smaller of its chosen
/// row and the total rows before it (it can never sit lower than all of its
/// predecessors allow).
pub open spec fn spec_current_row(rows_before: int, chosen: int) -> int {
    if rows_before < chosen {
        rows_before
    } else {
        chosen
    }
}

/// One line of a computed render plan.
#[derive(Clone, Copy, Debug)]
pub struct LinePlan {
    /// The index of the line in the store.
    pub index: usize,
    /// How many display rows the line occupies at the plan's content width.
    pub rows: usize,
    /// The line's first row, counted from the top of the candidate window.
    pub offset_rows: usize,
    /// First surface row of the line's span, clipped to `[0, height]`.
    pub row_start: usize,
    /// One past the last surface row of the line's span, clipped likewise.
    /// An empty span means the line is entirely off the surface; its
    /// decoration is skipped.
    pub row_end: usize,
    /// Whether this is the current line.
    pub is_current: bool,
}

/// Everything one draw needs to know about geometry: the column split, how
/// much of the candidate window is scrolled off the top, and each candidate
/// line's row span.  The decoration width is computed once, from the whole
/// candidate window, and holds for every line of the draw.
pub struct RenderPlan {
    /// Width of the decoration column.
    pub deco_width: usize,
    /// Width of the content column; at least 1 whenever the surface has any
    /// width.
    pub content_width: usize,
    /// Rows of the candidate window that lie above the surface top.
    pub hidden_rows: usize,
    /// The planned lines, in display order: the candidate window.
    pub lines: Vec<LinePlan>,
}

impl RenderPlan {
    /// A plan that draws nothing.
    pub fn empty() -> (r: RenderPlan)
        ensures
            r.deco_width == 0,
            r.content_width == 0,
            r.hidden_rows == 0,
            r.lines@.len() == 0,
    {
        RenderPlan { deco_width: 0, content_width: 0, hidden_rows: 0, lines: Vec::new() }
    }
}

/// What must hold of the `k`-th planned line of a window starting at line
/// `min_line`, with `hidden` window rows scrolled off the top.
pub open spec fn plan_line_ok<L: PagerLine>(
    lines: Seq<L>,
    w: nat,
    min_line: int,
    hidden: int,
    height: int,
    current: int,
    k: int,
    lp: LinePlan,
) -> bool {
    &&& lp.index == min_line + k
    &&& lp.rows == spec_wrap_rows(byte_len(lines[min_line + k].content()), w)
    &&& lp.offset_rows == spec_rows(lines, w, min_line, min_line + k)
    &&& lp.row_start == spec_clip_row(lp.offset_rows - hidden, height)
    &&& lp.row_end == spec_clip_row(lp.offset_rows + lp.rows - hidden, height)
    &&& lp.is_current == (min_line + k == current)
}

/// What a render plan for non-empty content on a surface of positive width
/// and height must hold: the column split honours the decoration demand over
/// the whole candidate window uniformly, and every candidate line's row span
/// follows from the wrap accounting, the centering of the current line and the
/// clipping to the surface.
pub open spec fn spec_plan_ok<L: PagerLine>(
    lines: Seq<L>,
    demand: nat,
    current: int,
    width: int,
    height: int,
    p: RenderPlan,
) -> bool {
    let min_line = spec_min_line(current, height);
    let max_line = spec_max_line(current, height, lines.len() as int);
    let dw = spec_deco_width(demand as int, width);
    let w = width - dw;
    let rows_before = spec_rows(lines, w as nat, min_line, current);
    let rows_from = spec_rows(lines, w as nat, current, max_line);
    let chosen = spec_chosen_row(height, rows_from);
    let hidden = spec_hidden_rows(rows_before, chosen);
    &&& p.deco_width == dw
    &&& p.content_width == w
    &&& p.hidden_rows == hidden
    &&& p.lines@.len() == max_line - min_line
    &&& forall|k: int|
        0 <= k < p.lines@.len() ==> plan_line_ok(
            lines,
            w as nat,
            min_line,
            hidden,
            height,
            current,
            k,
            #[trigger] p.lines@[k],
        )
}

/// The wrap accounting of the candidate window does not fit in a usize: the
/// one condition under which no plan can be computed.
pub open spec fn spec_plan_overflow<L: PagerLine>(
    lines: Seq<L>,
    demand: nat,
    current: int,
    width: int,
    height: int,
) -> bool {
    let min_line = spec_min_line(current, height);
    let max_line = spec_max_line(current, height, lines.len() as int);
    let w = width - spec_deco_width(demand as int, width);
    spec_rows(lines, w as nat, min_line, max_line) > usize::MAX
}

/// A maximal run of bytes of one line drawn with a single style delta.
#[derive(Clone, Copy, Debug)]
pub struct Segment {
    /// First byte of the run.
    pub start: usize,
    /// One past the last byte of the run.
    pub end: usize,
    /// The delta to layer over the draw's default style for these bytes.
    pub style: StyleMod,
}

/// The highlight delta in effect at byte `pos`: the delta of the last change
/// at or before `pos`, layered over `base`; `base` alone before the first
/// change.
pub open spec fn spec_style_at(
    changes: Seq<(usize, StyleMod)>,
    base: StyleMod,
    pos: int,
) -> StyleMod
    decreases changes.len(),
{
    if changes.len() == 0 {
        base
    } else if changes.last().0 <= pos {
        changes.last().1.spec_on_top_of(base)
    } else {
        spec_style_at(changes.drop_last(), base, pos)
    }
}

/// The delta drawn at byte `pos` of a line: its highlight delta and, on the
/// current line only, the active-line delta layered on top — composed with,
/// not replacing, the highlight.
pub open spec fn spec_style_for(
    changes: Seq<(usize, StyleMod)>,
    pos: int,
    is_current: bool,
) -> StyleMod {
    let h = spec_style_at(changes, StyleMod::spec_neutral(), pos);
    if is_current {
        StyleMod::spec_active_line().spec_on_top_of(h)
    } else {
        h
    }
}

proof fn lemma_style_at_segment(
    changes: Seq<(usize, StyleMod)>,
    base: StyleMod,
    j: int,
    pos: int,
)
    requires
        forall|a: int, b: int|
            0 <= a <= b < changes.len() ==> (#[trigger] changes[a]).0 <= (#[trigger] changes[b]).0,
        -1 <= j < changes.len(),
        j >= 0 ==> changes[j].0 <= pos,
        j + 1 < changes.len() ==> pos < changes[j + 1].0,
        j == -1 && changes.len() > 0 ==> pos < changes[0].0,
    ensures
        spec_style_at(changes, base, pos) == if j >= 0 {
            changes[j].1.spec_on_top_of(base)
        } else {
            base
        },
    decreases changes.len(),
{
    if changes.len() > 0 {
        if changes.last().0 <= pos {
            assert(j == changes.len() - 1);
        } else {
            assert(j < changes.len() - 1);
            lemma_style_at_segment(changes.drop_last(), base, j, pos);
        }
    }
}

/// Split a line of `line_len` bytes into the runs between its style changes.
///
/// The result tiles `[0, line_len]`: run `k` spans from change `k - 1` (or 0)
/// to change `k` (or the end of the line), and every byte of a run is drawn
/// with exactly the delta that `spec_style_for` assigns to its position.
pub fn line_segments(changes: &Vec<(usize, StyleMod)>, line_len: usize, is_current: bool) -> (r:
    Vec<Segment>)
    requires
        HighlightInfo::entry_wf(changes@, line_len as nat),
    ensures
        r@.len() == changes@.len() + 1,
        forall|k: int|
            0 <= k < r@.len() ==> (#[trigger] r@[k]).start == if k == 0 {
                0
            } else {
                changes@[k - 1].0 as int
            },
        forall|k: int|
            0 <= k < r@.len() ==> (#[trigger] r@[k]).end == if k < changes@.len() {
                changes@[k].0 as int
            } else {
                line_len as int
            },
        forall|k: int, pos: int|
            0 <= k < r@.len() && (#[trigger] r@[k]).start <= pos < r@[k].end ==> r@[k].style
                == #[trigger] spec_style_for(changes@, pos, is_current),
    {
        let n = changes.len();
        let mut r: Vec<Segment> = Vec::new();
        let mut k: usize = 0;
        while k < n
            invariant
                n == changes@.len(),
                HighlightInfo::entry_wf(changes@, line_len as nat),
                k <= n,
                r@.len() == k,
                forall|j: int|
                    0 <= j < r@.len() ==> (#[trigger] r@[j]).start == if j == 0 {
                        0
                    } else {
                        changes@[j - 1].0 as int
                    },
                forall|j: int|
                    0 <= j < r@.len() ==> (#[trigger] r@[j]).end == if j < changes@.len() {
                        changes@[j].0 as int
                    } else {
                        line_len as int
                    },
                forall|j: int|
                    0 <= j < r@.len() ==> (#[trigger] r@[j]).style == if is_current {
                        StyleMod::spec_active_line().spec_on_top_of(
                            if j == 0 {
                                StyleMod::spec_neutral()
                            } else {
                                changes@[j - 1].1.spec_on_top_of(StyleMod::spec_neutral())
                            },
                        )
                    } else {
                        if j == 0 {
                            StyleMod::spec_neutral()
                        } else {
                            changes@[j - 1].1.spec_on_top_of(StyleMod::spec_neutral())
                        }
                    },
            decreases n - k,
        {
            let start = if k == 0 {
                0
            } else {
                changes[k - 1].0
            };
            let end = changes[k].0;
            let h = if k == 0 {
                StyleMod::new()
            } else {
                changes[k - 1].1.on_top_of(StyleMod::new())
            };
            let style = if is_current {
                StyleMod::active_line().on_top_of(h)
            } else {
                h
            };
            r.push(Segment { start, end, style });
            k = k + 1;
        }
        let last_start = if n == 0 {
            0
        } else {
            changes[n - 1].0
        };
        let last_h = if n == 0 {
            StyleMod::new()
        } else {
            changes[n - 1].1.on_top_of(StyleMod::new())
        };
        let last_style = if is_current {
            StyleMod::active_line().on_top_of(last_h)
        } else {
            last_h
        };
        r.push(Segment { start: last_start, end: line_len, style: last_style });
        proof {
            assert forall|k: int, pos: int|
                0 <= k < r@.len() && (#[trigger] r@[k]).start <= pos < r@[k].end implies r@[k].style
                == #[trigger] spec_style_for(changes@, pos, is_current) by {
                lemma_style_at_segment(changes@, StyleMod::spec_neutral(), k - 1, pos);
            }
        }
        r
    }

/// Centering: in a plan for non-empty content, the current line starts at the
/// smaller of its chosen row and the rows preceding it in the window — so it
/// sits at `height / 2` in mid-buffer, is pinned to the top near the
/// beginning, and is pushed towards the bottom near the end, never leaving
/// blank trailing rows when enough content follows.
pub proof fn lemma_current_line_row<L: PagerLine>(
    lines: Seq<L>,
    demand: nat,
    current: int,
    width: int,
    height: int,
    p: RenderPlan,
)
    requires
        spec_plan_ok(lines, demand, current, width, height, p),
        0 <= current < lines.len(),
        width >= 1,
        height >= 1,
        width - spec_deco_width(demand as int, width) >= 1,
    ensures
        ({
            let min_line = spec_min_line(current, height);
            let max_line = spec_max_line(current, height, lines.len() as int);
            let w = width - spec_deco_width(demand as int, width);
            let rows_before = spec_rows(lines, w as nat, min_line, current);
            let chosen = spec_chosen_row(height, spec_rows(lines, w as nat, current, max_line));
            &&& min_line <= current < max_line
            &&& p.lines@[current - min_line].is_current
            &&& p.lines@[current - min_line].row_start == spec_current_row(rows_before, chosen)
        }),
{
    let min_line = spec_min_line(current, height);
    let max_line = spec_max_line(current, height, lines.len() as int);
    let w = width - spec_deco_width(demand as int, width);
    let rows_before = spec_rows(lines, w as nat, min_line, current);
    let rows_from = spec_rows(lines, w as nat, current, max_line);
    let chosen = spec_chosen_row(height, rows_from);
    let hidden = spec_hidden_rows(rows_before, chosen);
    assert(min_line <= current < max_line);
    let lp = p.lines@[current - min_line];
    assert(plan_line_ok(lines, w as nat, min_line, hidden, height, current, current - min_line, lp));
    lemma_rows_at_least_len(lines, w as nat, current, max_line);
    lemma_rows_at_least_len(lines, w as nat, min_line, current);
    assert(rows_from >= 1);
    assert(chosen <= height);
    assert(lp.offset_rows == rows_before);
    assert(lp.row_start == spec_clip_row(rows_before - hidden, height));
    assert(rows_before - hidden == spec_current_row(rows_before, chosen));
}

} // verus!
