//! A scrollable text pager core: line storage with bounded range views, a
//! navigation state machine over a current line index, and the viewport
//! arithmetic (hard wrapping, centering, column split) used when drawing.

mod decorating;
mod highlighting;
mod render;
mod style;

pub use crate::decorating::digits;
pub use crate::decorating::spec_digits;
pub use crate::decorating::LineDecorator;
pub use crate::decorating::LineNumberDecorator;
pub use crate::decorating::NoDecorator;
pub use crate::highlighting::HighlightInfo;
pub use crate::highlighting::HighlightEngine;
pub use crate::highlighting::SyntectHighlighter;
pub use crate::render::lemma_current_line_row;
pub use crate::render::lemma_rows_at_least_len;
pub use crate::render::lemma_rows_split;
pub use crate::render::lemma_wrap_rows_is_ceil;
pub use crate::render::spec_chosen_row;
pub use crate::render::spec_clip_row;
pub use crate::render::spec_current_row;
pub use crate::render::spec_deco_width;
pub use crate::render::spec_hidden_rows;
pub use crate::render::spec_max_line;
pub use crate::render::spec_min_line;
pub use crate::render::plan_line_ok;
pub use crate::render::spec_plan_ok;
pub use crate::render::spec_plan_overflow;
pub use crate::render::spec_radius;
pub use crate::render::spec_rows;
pub use crate::render::spec_wrap_rows;
pub use crate::render::wrap_rows;
pub use crate::render::LinePlan;
pub use crate::render::RenderPlan;
pub use crate::render::Segment;
pub use crate::render::line_segments;
pub use crate::render::spec_style_at;
pub use crate::render::spec_style_for;
pub use crate::render::MIN_HIGHLIGHT_CONTEXT;
pub use crate::style::AppliedStyle;
pub use crate::style::BoolMod;
pub use crate::style::Rgb;
pub use crate::style::StyleMod;

use vstd::prelude::*;

verus! {

/// Anything that represents a single line in a pager: something that exposes
/// its textual content as a string slice.
pub trait PagerLine {
    /// The character content of the line.
    spec fn content(&self) -> Seq<char>;

    /// Expose the content of the line.
    fn get_content(&self) -> (r: &str)
        ensures
            r@ == self.content(),
    ;
}

impl PagerLine for String {
    open spec fn content(&self) -> Seq<char> {
        self@
    }

    fn get_content(&self) -> (r: &str) {
        self.as_str()
    }
}

/// The byte length of a line's content, as observable through `str::len`.
pub open spec fn byte_len(s: Seq<char>) -> nat {
    (vstd::utf8::encode_utf8(s).len() as usize) as nat
}

/// All errors that can occur when operating on a `Pager` or its contents.
#[derive(Clone, Copy, Debug, PartialEq, Eq, Structural)]
pub enum PagerError {
    /// A navigation target outside the current bounds was requested.
    NoLineWithIndex(LineIndex),
    /// A predicate-based search found no matching line.
    NoLineWithPredicate,
    /// Navigation was requested while no content is loaded.
    NoContent,
}

/// Zero-based position of a line within the store.
///
/// Subtraction saturates at zero; it never wraps.
#[derive(Clone, Copy, Debug, PartialEq, Eq, Structural)]
pub struct LineIndex {
    pub raw: usize,
}

impl LineIndex {
    pub fn new(raw: usize) -> (r: LineIndex)
        ensures
            r.raw == raw,
    {
        LineIndex { raw }
    }

    pub fn raw_value(&self) -> (r: usize)
        ensures
            r == self.raw,
    {
        self.raw
    }

    /// Subtraction clamped at zero: never underflows.
    pub fn saturating_sub(&self, n: usize) -> (r: LineIndex)
        ensures
            r.raw == if self.raw >= n { self.raw - n } else { 0 },
    {
        if self.raw >= n {
            LineIndex { raw: self.raw - n }
        } else {
            LineIndex { raw: 0 }
        }
    }
}

/// One end of a requested line range.
#[derive(Clone, Copy, Debug, PartialEq, Eq, Structural)]
pub enum RangeEdge {
    /// No bound: index 0 at the start, the store length at the end.
    Open,
    /// The bound includes the named index.
    Within(LineIndex),
    /// The bound excludes the named index.
    Outside(LineIndex),
}

/// The first index of a range with start edge `start` (inclusive semantics).
pub open spec fn resolved_start(start: RangeEdge) -> int {
    match start {
        RangeEdge::Open => 0,
        RangeEdge::Within(i) => i.raw as int,
        RangeEdge::Outside(i) => i.raw as int + 1,
    }
}

/// One past the last index of a range with end edge `end` (exclusive
/// semantics), before clipping to the store.
pub open spec fn resolved_end(end: RangeEdge, len: nat) -> int {
    match end {
        RangeEdge::Open => len as int,
        RangeEdge::Within(i) => i.raw as int + 1,
        RangeEdge::Outside(i) => i.raw as int,
    }
}

/// The (index, line) pairs of the intersection of `[start, end)` with
/// `[0, len)`, in index order.
pub open spec fn spec_window<L>(storage: Seq<L>, start: int, end: int) -> Seq<(int, L)> {
    let lo = if start > 0 {
        start
    } else {
        0
    };
    let hi = if end < storage.len() {
        end
    } else {
        storage.len() as int
    };
    if lo <= hi {
        Seq::new((hi - lo) as nat, |k: int| (lo + k, storage[lo + k]))
    } else {
        Seq::empty()
    }
}

/// A lazy, finite, single-pass, bidirectional view of a sub-range of the line
/// store: yields (index, line) pairs, always within store bounds.
pub struct RangeView<'a, L> {
    storage: &'a Vec<L>,
    cur: usize,
    end: usize,
}

impl<'a, L> View for RangeView<'a, L> {
    type V = Seq<(int, L)>;

    closed spec fn view(&self) -> Seq<(int, L)> {
        Seq::new((self.end - self.cur) as nat, |k: int| (self.cur + k, self.storage@[self.cur + k]))
    }
}

impl<'a, L> RangeView<'a, L> {
    pub closed spec fn wf(self) -> bool {
        self.cur <= self.end <= self.storage@.len()
    }

    pub(crate) fn make(storage: &'a Vec<L>, cur: usize, end: usize) -> (r: RangeView<'a, L>)
        requires
            cur <= end <= storage@.len(),
        ensures
            r.wf(),
            r@ == spec_window(storage@, cur as int, end as int),
    {
        let r = RangeView { storage, cur, end };
        proof {
            assert(r@ =~= spec_window(storage@, cur as int, end as int));
        }
        r
    }

    /// How many pairs are still to be yielded.
    pub fn remaining(&self) -> (r: usize)
        requires
            self.wf(),
        ensures
            r == self@.len(),
    {
        self.end - self.cur
    }

    /// Yield the first remaining pair, if any.
    pub fn next(&mut self) -> (r: Option<(LineIndex, &'a L)>)
        requires
            old(self).wf(),
        ensures
            final(self).wf(),
            old(self)@.len() == 0 ==> r is None && final(self)@ == old(self)@,
            old(self)@.len() > 0 ==> {
                &&& final(self)@ == old(self)@.drop_first()
                &&& r matches Some(p)
                &&& p.0.raw as int == old(self)@.first().0
                &&& *p.1 == old(self)@.first().1
            },
    {
        if self.cur < self.end {
            let i = self.cur;
            self.cur = i + 1;
            proof {
                assert(self@ =~= old(self)@.drop_first());
            }
            Some((LineIndex { raw: i }, &self.storage[i]))
        } else {
            None
        }
    }

    /// Yield the last remaining pair, if any.
    pub fn next_back(&mut self) -> (r: Option<(LineIndex, &'a L)>)
        requires
            old(self).wf(),
        ensures
            final(self).wf(),
            old(self)@.len() == 0 ==> r is None && final(self)@ == old(self)@,
            old(self)@.len() > 0 ==> {
                &&& final(self)@ == old(self)@.drop_last()
                &&& r matches Some(p)
                &&& p.0.raw as int == old(self)@.last().0
                &&& p.0.raw < usize::MAX
                &&& *p.1 == old(self)@.last().1
            },
    {
        if self.cur < self.end {
            let i = self.end - 1;
            self.end = i;
            proof {
                assert(self@ =~= old(self)@.drop_last());
            }
            Some((LineIndex { raw: i }, &self.storage[i]))
        } else {
            None
        }
    }
}

/// A collection of lines together with highlighting information and a
/// decorator.
///
/// Build one with `from_lines`, and refine it with `with_highlighter` and
/// `with_decorator`.  The stored lines are immutable while displayed: content
/// is only ever replaced wholesale.
#[verifier::reject_recursive_types(L)]
pub struct PagerContent<L: PagerLine, D: LineDecorator<Line = L>> {
    storage: Vec<L>,
    highlight_info: HighlightInfo,
    decorator: D,
}

impl<L: PagerLine> PagerContent<L, NoDecorator<L>> {
    /// Create content from an ordered collection of lines, displayed top to
    /// bottom from beginning to end, with no highlighting and no decoration.
    pub fn from_lines(storage: Vec<L>) -> (r: Self)
        ensures
            r.wf(),
            r.lines() == storage@,
            r.highlight().style_changes@.len() == 0,
            r.highlight().default_style == StyleMod::spec_neutral(),
    {
        PagerContent {
            storage,
            highlight_info: HighlightInfo::none(),
            decorator: NoDecorator::default(),
        }
    }

    /// Exchange the `NoDecorator` for an actual one.
    pub fn with_decorator<DN: LineDecorator<Line = L>>(self, decorator: DN) -> (r: PagerContent<
        L,
        DN,
    >)
        requires
            self.wf(),
        ensures
            r.wf(),
            r.lines() == self.lines(),
            r.highlight() == self.highlight(),
            r.decoration() == decorator,
    {
        PagerContent { storage: self.storage, highlight_info: self.highlight_info, decorator }
    }
}

impl<L: PagerLine, D: LineDecorator<Line = L>> PagerContent<L, D> {
    /// The stored lines.
    pub closed spec fn lines(self) -> Seq<L> {
        self.storage@
    }

    /// The highlight overlay.
    pub closed spec fn highlight(self) -> HighlightInfo {
        self.highlight_info
    }

    /// The decorator.
    pub closed spec fn decoration(self) -> D {
        self.decorator
    }

    /// Every recorded overlay entry belongs to a stored line and respects that
    /// line's byte length.
    pub open spec fn wf(self) -> bool {
        &&& self.highlight().wf()
        &&& self.highlight().style_changes@.len() <= self.lines().len()
        &&& forall|i: int|
            0 <= i < self.highlight().style_changes@.len() ==> HighlightInfo::entry_wf(
                (#[trigger] self.highlight().style_changes@[i])@,
                byte_len(self.lines()[i].content()),
            )
    }

    /// The number of stored lines.
    pub fn len(&self) -> (r: usize)
        ensures
            r == self.lines().len(),
    {
        self.storage.len()
    }

    /// Replace the highlight overlay by what the given highlighter computes
    /// over every stored line, in index order.
    pub fn with_highlighter<HN: HighlightEngine>(self, highlighter: &HN) -> (r: PagerContent<L, D>)
        ensures
            r.wf(),
            r.lines() == self.lines(),
            r.decoration() == self.decoration(),
            r.highlight().style_changes@.len() == self.lines().len(),
    {
        let mut strs: Vec<&str> = Vec::new();
        let n = self.storage.len();
        let mut idx: usize = 0;
        while idx < n
            invariant
                n == self.storage@.len(),
                idx <= n,
                strs@.len() == idx,
                forall|j: int| 0 <= j < idx ==> (#[trigger] strs@[j])@ == self.storage@[j].content(),
            decreases n - idx,
        {
            let s: &str = self.storage[idx].get_content();
            strs.push(s);
            idx = idx + 1;
        }
        let info = highlighter.highlight(&strs);
        proof {
            assert forall|i: int|
                0 <= i < info.style_changes@.len() implies HighlightInfo::entry_wf(
                (#[trigger] info.style_changes@[i])@,
                byte_len(self.storage@[i].content()),
            ) by {
                assert(strs@[i]@ == self.storage@[i].content());
            }
        }
        PagerContent { storage: self.storage, highlight_info: info, decorator: self.decorator }
    }

    /// Iterate over a specified range of stored lines.
    ///
    /// The range may exceed what is stored: only the intersection with the
    /// store's bounds is yielded, and an inverted range yields nothing.
    pub fn view(&self, start: RangeEdge, end: RangeEdge) -> (r: RangeView<'_, L>)
        ensures
            r.wf(),
            r@ == spec_window(
                self.lines(),
                resolved_start(start),
                resolved_end(end, self.lines().len()),
            ),
            forall|k: int|
                0 <= k < r@.len() ==> 0 <= (#[trigger] r@[k]).0 < self.lines().len() && r@[k].1
                    == self.lines()[r@[k].0],
            resolved_start(start) >= resolved_end(end, self.lines().len()) ==> r@.len() == 0,
    {
        let len = self.storage.len();
        let s: usize = match start {
            RangeEdge::Open => 0,
            RangeEdge::Within(i) => i.raw,
            RangeEdge::Outside(i) => if i.raw < usize::MAX {
                i.raw + 1
            } else {
                usize::MAX
            },
        };
        let e0: usize = match end {
            RangeEdge::Open => len,
            RangeEdge::Within(i) => if i.raw < usize::MAX {
                i.raw + 1
            } else {
                usize::MAX
            },
            RangeEdge::Outside(i) => i.raw,
        };
        let e = if e0 < len {
            e0
        } else {
            len
        };
        let s2 = if s < e {
            s
        } else {
            e
        };
        let r = RangeView::make(&self.storage, s2, e);
        proof {
            assert(r@ =~= spec_window(
                self.lines(),
                resolved_start(start),
                resolved_end(end, self.lines().len()),
            ));
        }
        r
    }

    /// The line with the given index, if it is stored.
    pub fn view_line(&self, line: LineIndex) -> (r: Option<&L>)
        ensures
            match r {
                Some(l) => line.raw < self.lines().len() && *l == self.lines()[line.raw as int],
                None => line.raw >= self.lines().len(),
            },
    {
        if line.raw < self.storage.len() {
            Some(&self.storage[line.raw])
        } else {
            None
        }
    }

    /// The decorator in use.
    pub fn decorator(&self) -> (r: &D)
        ensures
            *r == self.decoration(),
    {
        &self.decorator
    }

    /// The overlay changes recorded for the given line: empty when none were.
    pub fn highlight_changes(&self, line: LineIndex) -> (r: &Vec<(usize, StyleMod)>)
        requires
            self.wf(),
        ensures
            r@ == self.highlight().spec_info_for_line(line.raw as int),
            line.raw < self.lines().len() ==> HighlightInfo::entry_wf(
                r@,
                byte_len(self.lines()[line.raw as int].content()),
            ),
    {
        self.highlight_info.get_info_for_line(line)
    }

    /// The style applied wherever no overlay change is in effect.
    pub fn default_style(&self) -> (r: StyleMod)
        ensures
            r == self.highlight().default_style,
    {
        self.highlight_info.default_style()
    }

    fn sum_rows(&self, from: usize, to: usize, w: usize) -> (r: Option<usize>)
        requires
            w >= 1,
            from <= to <= self.lines().len(),
        ensures
            r matches Some(s) ==> s == spec_rows(self.lines(), w as nat, from as int, to as int),
            r is None ==> spec_rows(self.lines(), w as nat, from as int, to as int) > usize::MAX,
    {
        let mut s: usize = 0;
        let mut i: usize = from;
        while i < to
            invariant
                w >= 1,
                from <= i <= to <= self.lines().len(),
                s == spec_rows(self.lines(), w as nat, from as int, i as int),
            decreases to - i,
        {
            let k = self.storage[i].get_content().len();
            proof {
                assert(k == byte_len(self.lines()[i as int].content()));
                assert(spec_rows(self.lines(), w as nat, from as int, i + 1 as int) == spec_rows(
                    self.lines(),
                    w as nat,
                    from as int,
                    i as int,
                ) + spec_wrap_rows(k as nat, w as nat));
            }
            let rows = wrap_rows(k, w);
            match s.checked_add(rows) {
                Some(s2) => {
                    s = s2;
                },
                None => {
                    proof {
                        lemma_rows_split(
                            self.lines(),
                            w as nat,
                            from as int,
                            i + 1 as int,
                            to as int,
                        );
                        lemma_rows_at_least_len(self.lines(), w as nat, i + 1 as int, to as int);
                    }
                    return None;
                },
            }
            i = i + 1;
        }
        Some(s)
    }

    /// Compute the geometry of one draw onto a surface of `width x height`
    /// cells with the given current line: the candidate window around it, the
    /// split into decoration and content columns (the decoration width is
    /// asked once, over the whole window, and holds uniformly for the draw),
    /// the wrap accounting at the content width, and each candidate line's row
    /// span, clipped to the surface.
    ///
    /// An empty store or a surface without width or height draws nothing.
    /// `None` is returned only when the window's total row count does not fit
    /// a `usize`.
    pub fn render_plan(&self, current: LineIndex, width: usize, height: usize) -> (r: Option<
        RenderPlan,
    >)
        requires
            self.wf(),
            self.lines().len() == 0 || (current.raw as nat) < self.lines().len(),
        ensures
            self.lines().len() == 0 || width == 0 || height == 0 ==> (r matches Some(p)
                && p.lines@.len() == 0 && p.deco_width == 0 && p.content_width == 0
                && p.hidden_rows == 0),
            self.lines().len() > 0 && width > 0 && height > 0 ==> {
                let demand = self.decoration().spec_demand(
                    spec_window(
                        self.lines(),
                        spec_min_line(current.raw as int, height as int),
                        spec_max_line(
                            current.raw as int,
                            height as int,
                            self.lines().len() as int,
                        ),
                    ),
                );
                &&& (r matches Some(p) ==> spec_plan_ok(
                    self.lines(),
                    demand,
                    current.raw as int,
                    width as int,
                    height as int,
                    p,
                ))
                &&& (r is None <==> spec_plan_overflow(
                    self.lines(),
                    demand,
                    current.raw as int,
                    width as int,
                    height as int,
                ))
            },
    {
        let len = self.storage.len();
        if len == 0 || width == 0 || height == 0 {
            return Some(RenderPlan::empty());
        }
        let cur = current.raw;
        let half_ctx = MIN_HIGHLIGHT_CONTEXT / 2;
        let radius = if height > half_ctx {
            height
        } else {
            half_ctx
        };
        let min_line = if cur > radius {
            cur - radius
        } else {
            0
        };
        let max_line = if cur <= usize::MAX - radius {
            if cur + radius < len {
                cur + radius
            } else {
                len
            }
        } else {
            len
        };
        proof {
            assert(min_line as int == spec_min_line(cur as int, height as int));
            assert(max_line as int == spec_max_line(cur as int, height as int, len as int));
        }
        let window = self.view(
            RangeEdge::Within(LineIndex { raw: min_line }),
            RangeEdge::Outside(LineIndex { raw: max_line }),
        );
        let demand = self.decorator.horizontal_space_demand(window);
        let deco_width = if demand > width - 1 {
            width - 1
        } else {
            demand
        };
        let content_width = width - deco_width;
        let ghost w = content_width as nat;

        let rows_before = match self.sum_rows(min_line, cur, content_width) {
            Some(s) => s,
            None => {
                proof {
                    lemma_rows_split(self.lines(), w, min_line as int, cur as int, max_line as int);
                    lemma_rows_at_least_len(self.lines(), w, cur as int, max_line as int);
                }
                return None;
            },
        };
        let rows_from = match self.sum_rows(cur, max_line, content_width) {
            Some(s) => s,
            None => {
                proof {
                    lemma_rows_split(self.lines(), w, min_line as int, cur as int, max_line as int);
                    lemma_rows_at_least_len(self.lines(), w, min_line as int, cur as int);
                }
                return None;
            },
        };
        let total = match rows_before.checked_add(rows_from) {
            Some(t) => t,
            None => {
                proof {
                    lemma_rows_split(self.lines(), w, min_line as int, cur as int, max_line as int);
                }
                return None;
            },
        };
        proof {
            lemma_rows_split(self.lines(), w, min_line as int, cur as int, max_line as int);
        }

        let half = height / 2;
        let from_bottom = if rows_from > height {
            0
        } else {
            height - rows_from
        };
        let chosen = if half > from_bottom {
            half
        } else {
            from_bottom
        };
        proof {
            assert(chosen as int == spec_chosen_row(height as int, rows_from as int));
        }
        let hidden = if rows_before > chosen {
            rows_before - chosen
        } else {
            0
        };

        let mut planned: Vec<LinePlan> = Vec::new();
        let mut i: usize = min_line;
        let mut offset: usize = 0;
        while i < max_line
            invariant
                min_line <= i <= max_line <= len,
                len == self.lines().len(),
                content_width >= 1,
                w == content_width as nat,
                height >= 1,
                offset == spec_rows(self.lines(), w, min_line as int, i as int),
                total == spec_rows(self.lines(), w, min_line as int, max_line as int),
                planned@.len() == i - min_line,
                forall|k: int|
                    0 <= k < planned@.len() ==> plan_line_ok(
                        self.lines(),
                        w,
                        min_line as int,
                        hidden as int,
                        height as int,
                        cur as int,
                        k,
                        #[trigger] planned@[k],
                    ),
            decreases max_line - i,
        {
            let line_len = self.storage[i].get_content().len();
            proof {
                assert(line_len == byte_len(self.lines()[i as int].content()));
                assert(spec_rows(self.lines(), w, min_line as int, i + 1 as int) == spec_rows(
                    self.lines(),
                    w,
                    min_line as int,
                    i as int,
                ) + spec_wrap_rows(line_len as nat, w));
                lemma_rows_split(self.lines(), w, min_line as int, i + 1 as int, max_line as int);
                lemma_rows_at_least_len(self.lines(), w, i + 1 as int, max_line as int);
            }
            let rows = wrap_rows(line_len, content_width);
            let next_offset = offset + rows;
            let clip_start = if offset > hidden {
                offset - hidden
            } else {
                0
            };
            let row_start = if clip_start > height {
                height
            } else {
                clip_start
            };
            let clip_end = if next_offset > hidden {
                next_offset - hidden
            } else {
                0
            };
            let row_end = if clip_end > height {
                height
            } else {
                clip_end
            };
            planned.push(
                LinePlan {
                    index: i,
                    rows,
                    offset_rows: offset,
                    row_start,
                    row_end,
                    is_current: i == cur,
                },
            );
            offset = next_offset;
            i = i + 1;
        }
        Some(
            RenderPlan {
                deco_width,
                content_width,
                hidden_rows: hidden,
                lines: planned,
            },
        )
    }

    /// Overwrite the current decorator with a compatible one.
    pub fn set_decorator(&mut self, decorator: D)
        ensures
            final(self).lines() == old(self).lines(),
            final(self).highlight() == old(self).highlight(),
            final(self).decoration() == decorator,
    {
        self.decorator = decorator;
    }
}

/// The predicate `f`, asked about line `l` at index `i`, can answer `b`.
pub open spec fn pred_holds<L, F: Fn(LineIndex, &L) -> bool>(f: F, i: int, l: L, b: bool) -> bool {
    exists|lr: &L| *lr == l && #[trigger] call_ensures(f, (LineIndex { raw: i as usize }, lr), b)
}

/// The pager: may (or may not) hold content, and tracks the single "current"
/// (active) line index, mutated only through the navigation operations below.
///
/// When content with at least one line is held, the current index is always
/// within bounds.
#[verifier::reject_recursive_types(L)]
pub struct Pager<L: PagerLine, D: LineDecorator<Line = L> = NoDecorator<L>> {
    content: Option<PagerContent<L, D>>,
    current_line: LineIndex,
}

impl<L: PagerLine, D: LineDecorator<Line = L>> Pager<L, D> {
    /// The held content, if any.
    pub closed spec fn spec_content(self) -> Option<PagerContent<L, D>> {
        self.content
    }

    /// Whether any content is held.
    pub open spec fn has_content(self) -> bool {
        self.spec_content() is Some
    }

    /// The lines of the held content; empty when none is held.
    pub open spec fn content_lines(self) -> Seq<L> {
        match self.spec_content() {
            Some(c) => c.lines(),
            None => Seq::empty(),
        }
    }

    /// The number of held lines.
    pub open spec fn spec_len(self) -> nat {
        self.content_lines().len()
    }

    /// The current line index.
    pub closed spec fn current(self) -> nat {
        self.current_line.raw as nat
    }

    /// The held content, if any, is well-formed.
    pub open spec fn content_wf(self) -> bool {
        match self.spec_content() {
            Some(c) => c.wf(),
            None => true,
        }
    }

    /// The current index is within bounds whenever non-empty content is held.
    pub open spec fn wf(self) -> bool {
        self.content_wf() && (self.spec_len() == 0 || self.current() < self.spec_len())
    }

    /// A backwards scroll succeeds exactly when the current line is not the
    /// first.
    pub open spec fn can_scroll_backwards(self) -> bool {
        self.current() > 0
    }

    /// A forwards scroll succeeds exactly when the line after the current one
    /// exists.
    pub open spec fn can_scroll_forwards(self) -> bool {
        self.has_content() && self.current() + 1 < self.spec_len()
    }

    /// Either no line at all is held, or the current line is the last one.
    pub open spec fn at_end_or_empty(self) -> bool {
        !self.has_content() || self.spec_len() == 0 || self.current() == self.spec_len() - 1
    }

    /// Create an empty pager, with no current content.
    pub fn new() -> (r: Self)
        ensures
            r.wf(),
            !r.has_content(),
            r.current() == 0,
    {
        Pager { content: None, current_line: LineIndex { raw: 0 } }
    }

    /// Load (and potentially overwrite previous) content to display.
    ///
    /// If possible, the current line position is preserved; a current index
    /// beyond the new content is clamped to its last line.  Loading never
    /// surfaces an error.
    pub fn load(&mut self, content: PagerContent<L, D>)
        requires
            content.wf(),
        ensures
            final(self).wf(),
            final(self).spec_content() == Some(content),
            old(self).current() < content.lines().len()
                ==> final(self).current() == old(self).current(),
            old(self).current() >= content.lines().len() && content.lines().len() > 0
                ==> final(self).current() == content.lines().len() - 1,
            content.lines().len() == 0 ==> final(self).current() == old(self).current(),
    {
        self.content = Some(content);
        let current = self.current_line;
        if !self.line_exists(current) {
            let _ = self.scroll_to_end();
        }
    }

    /// Drop the current content.  Until new content is loaded, nothing will be
    /// drawn.
    pub fn clear_content(&mut self)
        ensures
            final(self).wf(),
            !final(self).has_content(),
            final(self).current() == old(self).current(),
    {
        self.content = None;
    }

    /// Get a reference to the current content, if available.
    pub fn content(&self) -> (r: Option<&PagerContent<L, D>>)
        ensures
            match r {
                Some(c) => self.spec_content() == Some(*c),
                None => !self.has_content(),
            },
    {
        self.content.as_ref()
    }

    /// Get a mutable reference to the current content, if available.
    ///
    /// Content does not allow mutable access to the stored lines; use `load`
    /// to replace them.  A pager is not a text editor.
    pub fn content_mut(&mut self) -> (r: Option<&mut PagerContent<L, D>>)
        ensures
            !old(self).has_content() ==> r is None && *final(self) == *old(self),
            old(self).has_content() ==> r is Some && *r.unwrap() == old(
                self,
            ).spec_content().unwrap() && final(self).spec_content() == Some(*final(r.unwrap()))
                && final(self).current() == old(self).current(),
    {
        self.content.as_mut()
    }

    fn line_exists(&self, line: LineIndex) -> (r: bool)
        ensures
            r == (self.has_content() && (line.raw as nat) < self.spec_len()),
    {
        match &self.content {
            Some(c) => line.raw < c.len(),
            None => false,
        }
    }

    /// Go to the specified line: succeeds and makes it current exactly when it
    /// exists; otherwise reports it and changes nothing.
    pub fn go_to_line(&mut self, line: LineIndex) -> (r: Result<(), PagerError>)
        requires
            old(self).wf(),
        ensures
            final(self).wf(),
            final(self).spec_content() == old(self).spec_content(),
            r is Ok <==> old(self).has_content() && (line.raw as nat) < old(self).spec_len(),
            r is Ok ==> final(self).current() == line.raw,
            (r matches Err(e) ==> e == PagerError::NoLineWithIndex(line)) && (r is Err
                ==> *final(self) == *old(self)),
    {
        if self.line_exists(line) {
            self.current_line = line;
            Ok(())
        } else {
            Err(PagerError::NoLineWithIndex(line))
        }
    }

    /// Go to the first line that matches the given predicate.
    ///
    /// Fails without changing anything when no line matches, or when no
    /// content is loaded.
    pub fn go_to_line_if<F: Fn(LineIndex, &L) -> bool>(&mut self, predicate: F) -> (r: Result<
        (),
        PagerError,
    >)
        requires
            old(self).wf(),
            forall|i: LineIndex, l: &L| #[trigger] call_requires(predicate, (i, l)),
        ensures
            final(self).wf(),
            final(self).spec_content() == old(self).spec_content(),
            r is Err ==> *final(self) == *old(self),
            !old(self).has_content() ==> (r matches Err(e) && e == PagerError::NoContent),
            old(self).has_content() && r is Err ==> {
                &&& (r matches Err(e) && e == PagerError::NoLineWithPredicate)
                &&& forall|j: int|
                    0 <= j < old(self).spec_len() ==> pred_holds(
                        predicate,
                        j,
                        #[trigger] old(self).content_lines()[j],
                        false,
                    )
            },
            r is Ok ==> {
                &&& old(self).has_content()
                &&& final(self).current() < old(self).spec_len()
                &&& pred_holds(
                    predicate,
                    final(self).current() as int,
                    old(self).content_lines()[final(self).current() as int],
                    true,
                )
                &&& forall|j: int|
                    0 <= j < final(self).current() ==> pred_holds(
                        predicate,
                        j,
                        #[trigger] old(self).content_lines()[j],
                        false,
                    )
            },
    {
        let found: Option<usize> = match &self.content {
            None => {
                return Err(PagerError::NoContent);
            },
            Some(c) => {
                let ghost lines = c.lines();
                let n = c.len();
                let mut v = c.view(RangeEdge::Open, RangeEdge::Open);
                let mut k: usize = 0;
                let mut found: Option<usize> = None;
                while k < n && found.is_none()
                    invariant
                        n == lines.len(),
                        k <= n,
                        v.wf(),
                        forall|i: LineIndex, l: &L| #[trigger] call_requires(predicate, (i, l)),
                        found is None ==> v@ == spec_window(lines, k as int, n as int),
                        found is None ==> forall|j: int|
                            0 <= j < k ==> pred_holds(predicate, j, #[trigger] lines[j], false),
                        found matches Some(fi) ==> (fi as nat) < lines.len() && pred_holds(
                            predicate,
                            fi as int,
                            lines[fi as int],
                            true,
                        ) && forall|j: int|
                            0 <= j < fi ==> pred_holds(predicate, j, #[trigger] lines[j], false),
                    decreases n - k,
                {
                    let p = v.next();
                    match p {
                        Some((i, l)) => {
                            let matched = predicate(i, l);
                            proof {
                                assert(i == LineIndex { raw: k });
                                assert(*l == lines[k as int]);
                                assert(call_ensures(predicate, (LineIndex { raw: k }, l), matched));
                                assert(call_ensures(
                                    predicate,
                                    (LineIndex { raw: (k as int) as usize }, l),
                                    matched,
                                ));
                                assert(pred_holds(predicate, k as int, lines[k as int], matched));
                            }
                            if matched {
                                found = Some(i.raw);
                            }
                            k = k + 1;
                            proof {
                                assert(spec_window(lines, k - 1 as int, n as int).drop_first()
                                    =~= spec_window(lines, k as int, n as int));
                            }
                        },
                        None => {
                            proof {
                                assert(false);
                            }
                        },
                    }
                }
                found
            },
        };
        match found {
            Some(fi) => self.go_to_line(LineIndex { raw: fi }),
            None => Err(PagerError::NoLineWithPredicate),
        }
    }

    /// Get the index of the currently active line.
    pub fn current_line_index(&self) -> (r: LineIndex)
        ensures
            r.raw == self.current(),
    {
        self.current_line
    }

    /// Get a reference to the currently active line, if it exists.
    pub fn current_line(&self) -> (r: Option<&L>)
        ensures
            match r {
                Some(l) => self.has_content() && self.current() < self.spec_len() && *l
                    == self.content_lines()[self.current() as int],
                None => !self.has_content() || self.current() >= self.spec_len(),
            },
    {
        match &self.content {
            Some(c) => c.view_line(self.current_line),
            None => None,
        }
    }

    /// The draw geometry of this pager on a surface of `width x height`
    /// cells: an empty plan when no content is held (nothing is drawn), else
    /// what `PagerContent::render_plan` computes around the current line.
    pub fn render_plan(&self, width: usize, height: usize) -> (r: Option<RenderPlan>)
        requires
            self.wf(),
        ensures
            match self.spec_content() {
                None => r matches Some(p) && p.lines@.len() == 0,
                Some(c) => {
                    &&& (c.lines().len() == 0 || width == 0 || height == 0 ==> (r matches Some(p)
                        && p.lines@.len() == 0))
                    &&& (c.lines().len() > 0 && width > 0 && height > 0 ==> {
                        let demand = c.decoration().spec_demand(
                            spec_window(
                                c.lines(),
                                spec_min_line(self.current() as int, height as int),
                                spec_max_line(
                                    self.current() as int,
                                    height as int,
                                    c.lines().len() as int,
                                ),
                            ),
                        );
                        &&& (r matches Some(p) ==> spec_plan_ok(
                            c.lines(),
                            demand,
                            self.current() as int,
                            width as int,
                            height as int,
                            p,
                        ))
                        &&& (r is None <==> spec_plan_overflow(
                            c.lines(),
                            demand,
                            self.current() as int,
                            width as int,
                            height as int,
                        ))
                    })
                },
            },
    {
        match &self.content {
            Some(c) => c.render_plan(self.current_line, width, height),
            None => Some(RenderPlan::empty()),
        }
    }

    /// Scroll one line up.  Failure is a boundary signal, not an error: it
    /// means the current line is already the first.
    pub fn scroll_backwards(&mut self) -> (r: Result<(), ()>)
        requires
            old(self).wf(),
        ensures
            final(self).wf(),
            final(self).spec_content() == old(self).spec_content(),
            r is Ok <==> old(self).can_scroll_backwards(),
            r is Ok ==> final(self).current() == old(self).current() - 1,
            r is Err ==> *final(self) == *old(self),
    {
        if self.current_line.raw > 0 {
            self.current_line = LineIndex { raw: self.current_line.raw - 1 };
            Ok(())
        } else {
            Err(())
        }
    }

    /// Scroll one line down.  Failure is a boundary signal, not an error: it
    /// means no line follows the current one.
    pub fn scroll_forwards(&mut self) -> (r: Result<(), ()>)
        requires
            old(self).wf(),
        ensures
            final(self).wf(),
            final(self).spec_content() == old(self).spec_content(),
            r is Ok <==> old(self).can_scroll_forwards(),
            r is Ok ==> final(self).current() == old(self).current() + 1,
            r is Err ==> *final(self) == *old(self),
    {
        proof {
            broadcast use vstd::std_specs::vec::axiom_spec_len;

            match &self.content {
                Some(c) => {
                    assert(vstd::std_specs::vec::spec_vec_len(&c.storage) == c.storage@.len());
                },
                None => {},
            }
        }
        let cur = self.current_line.raw;
        if cur < usize::MAX {
            match self.go_to_line(LineIndex { raw: cur + 1 }) {
                Ok(_) => Ok(()),
                Err(_) => Err(()),
            }
        } else {
            Err(())
        }
    }

    /// Jump to the first line.  Fails as a no-op signal when already there.
    pub fn scroll_to_beginning(&mut self) -> (r: Result<(), ()>)
        requires
            old(self).wf(),
        ensures
            final(self).wf(),
            final(self).spec_content() == old(self).spec_content(),
            final(self).current() == 0,
            r is Ok <==> old(self).current() != 0,
            r is Err ==> *final(self) == *old(self),
    {
        if self.current_line.raw == 0 {
            Err(())
        } else {
            self.current_line = LineIndex { raw: 0 };
            Ok(())
        }
    }

    /// Jump to the last line.  Fails as a no-op signal when already there or
    /// when there is no line to jump to.
    pub fn scroll_to_end(&mut self) -> (r: Result<(), ()>)
        requires
            old(self).content_wf(),
        ensures
            final(self).wf(),
            final(self).spec_content() == old(self).spec_content(),
            final(self).at_end_or_empty(),
            r is Ok <==> old(self).has_content() && old(self).spec_len() > 0 && old(self).current()
                != old(self).spec_len() - 1,
            r is Ok ==> final(self).current() == old(self).spec_len() - 1,
            r is Err ==> *final(self) == *old(self),
    {
        let n: usize = match &self.content {
            Some(c) => c.len(),
            None => {
                return Err(());
            },
        };
        if n == 0 {
            return Err(());
        }
        let last = n - 1;
        if self.current_line.raw == last {
            Err(())
        } else {
            self.current_line = LineIndex { raw: last };
            Ok(())
        }
    }
}

impl<L: PagerLine, D: LineDecorator<Line = L>> Default for Pager<L, D> {
    /// An empty pager, with no current content.
    fn default() -> (r: Self)
        ensures
            r.wf(),
            !r.has_content(),
            r.current() == 0,
    {
        Pager { content: None, current_line: LineIndex { raw: 0 } }
    }
}

/// After a jump to the beginning, the current line is the first, and from
/// there a backwards scroll always fails.
pub proof fn lemma_beginning_then_backwards_fails<L: PagerLine, D: LineDecorator<Line = L>>(
    p: Pager<L, D>,
)
    requires
        p.current() == 0,
    ensures
        !p.can_scroll_backwards(),
{
}

/// After a jump to the end, either nothing is held or the current line is the
/// last, and either way a forwards scroll always fails.
pub proof fn lemma_end_then_forwards_fails<L: PagerLine, D: LineDecorator<Line = L>>(
    p: Pager<L, D>,
)
    requires
        p.at_end_or_empty(),
    ensures
        !p.can_scroll_forwards(),
{
}

} // verus!
