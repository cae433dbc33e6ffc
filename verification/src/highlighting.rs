//! Per-line highlight overlays.
//!
//! A [`HighlightInfo`] stores, for every line, an ordered list of
//! (byte-offset, style-delta) pairs: at each offset the given delta starts to
//! apply and persists until the next offset or the end of the line.  A single
//! default delta is applied as the base of everything drawn.

use vstd::prelude::*;

use crate::byte_len;
use crate::style::BoolMod;
use crate::style::Rgb;
use crate::style::StyleMod;
use crate::LineIndex;

verus! {

/// Interface for anything that highlights pager content.
///
/// An implementation is handed the content of every stored line, in display
/// order, and answers with one overlay entry per line whose offsets are
/// non-decreasing byte positions within that line.
pub trait HighlightEngine {
    /// Compute highlighting information for the given lines.
    fn highlight(&self, lines: &Vec<&str>) -> (r: HighlightInfo)
        ensures
            r.wf(),
            r.style_changes@.len() == lines@.len(),
            forall|i: int|
                0 <= i < lines@.len() ==> HighlightInfo::entry_wf(
                    (#[trigger] r.style_changes@[i])@,
                    crate::byte_len(lines@[i]@),
                ),
    ;
}

/// Result of a highlighting operation: one entry of style changes per line,
/// plus the default style.
pub struct HighlightInfo {
    /// Style changes per line. The outer vector corresponds to lines; each
    /// inner entry says that from the given byte offset on, the given delta
    /// applies.
    pub style_changes: Vec<Vec<(usize, StyleMod)>>,
    /// Style applied where no change is in effect.
    pub default_style: StyleMod,
    /// Always empty; borrowed as the answer for lines without a recorded
    /// entry (see [`Self::wf`]).
    pub no_change: Vec<(usize, StyleMod)>,
}

impl HighlightInfo {
    /// A well-formed entry for a line of byte length `line_len`: offsets are
    /// non-decreasing and never exceed the line's byte length.
    pub open spec fn entry_wf(entry: Seq<(usize, StyleMod)>, line_len: nat) -> bool {
        &&& forall|j: int, k: int|
            0 <= j <= k < entry.len() ==> (#[trigger] entry[j]).0 <= (#[trigger] entry[k]).0
        &&& forall|j: int| 0 <= j < entry.len() ==> (#[trigger] entry[j]).0 <= line_len
    }

    pub open spec fn wf(self) -> bool {
        self.no_change@.len() == 0
    }

    /// The changes recorded for line `l`: the stored entry, or nothing where
    /// none was recorded.
    pub open spec fn spec_info_for_line(self, l: int) -> Seq<(usize, StyleMod)> {
        if 0 <= l < self.style_changes@.len() {
            self.style_changes@[l]@
        } else {
            Seq::empty()
        }
    }

    /// Empty highlighting result that will not apply any style changes.
    pub fn none() -> (r: HighlightInfo)
        ensures
            r.wf(),
            r.style_changes@.len() == 0,
            r.default_style == StyleMod::spec_neutral(),
    {
        HighlightInfo {
            style_changes: Vec::new(),
            default_style: StyleMod::new(),
            no_change: Vec::new(),
        }
    }

    /// Get the style changes for the given line.
    pub fn get_info_for_line(&self, l: LineIndex) -> (r: &Vec<(usize, StyleMod)>)
        requires
            self.wf(),
        ensures
            r@ == self.spec_info_for_line(l.raw as int),
    {
        if l.raw < self.style_changes.len() {
            &self.style_changes[l.raw]
        } else {
            &self.no_change
        }
    }

    /// The style applied to text where no change is present.
    pub fn default_style(&self) -> (r: StyleMod)
        ensures
            r == self.default_style,
    {
        self.default_style
    }
}

/// The set of grammars that parsing works against.
#[verifier::external_type_specification]
#[verifier::external_body]
pub struct ExSyntaxSet(syntect::parsing::SyntaxSet);

/// One grammar out of a syntax set.
#[verifier::external_type_specification]
#[verifier::external_body]
pub struct ExSyntaxReference(syntect::parsing::SyntaxReference);

/// The parser state carried from one line to the next.
#[verifier::external_type_specification]
#[verifier::external_body]
pub struct ExParseState(syntect::parsing::ParseState);

/// One parsing operation on the scope stack, at a byte offset of a line.
#[verifier::external_type_specification]
#[verifier::external_body]
pub struct ExScopeStackOp(syntect::parsing::ScopeStackOp);

/// A color theme.
#[verifier::external_type_specification]
#[verifier::external_body]
pub struct ExTheme(syntect::highlighting::Theme);

/// The style resolver built from a theme.
#[verifier::external_type_specification]
#[verifier::external_body]
pub struct ExSyntectHighlighter<'a>(syntect::highlighting::Highlighter<'a>);

/// The highlighting state carried from one line to the next.
#[verifier::external_type_specification]
#[verifier::external_body]
pub struct ExHighlightState(syntect::highlighting::HighlightState);

/// A fully resolved style: foreground, background and font flags.
#[verifier::external_type_specification]
#[verifier::external_body]
pub struct ExStyle(syntect::highlighting::Style);

/// Relies on syntect's SyntaxSet::find_syntax_by_extension and
/// ParseState::new: the parser state positioned at the start of the grammar
/// with the given file extension, looked up in the very set that parsing will
/// later run against, so the two are paired by construction; nothing when the
/// set knows no such extension.  Assumes the set was produced by syntect's
/// own loaders or dumps, so that every grammar in it carries its start
/// context.
#[verifier::external_body]
fn parse_state_for_extension(
    syntax_set: &syntect::parsing::SyntaxSet,
    extension: &str,
) -> Option<syntect::parsing::ParseState> {
    syntax_set.find_syntax_by_extension(extension).map(syntect::parsing::ParseState::new)
}

/// Relies on syntect's derived Clone for ParseState.
#[verifier::external_body]
fn clone_parse_state(state: &syntect::parsing::ParseState) -> syntect::parsing::ParseState {
    state.clone()
}

/// Relies on syntect's Highlighter::new: the style resolver for a theme.
#[verifier::external_body]
fn make_highlighter<'a>(theme: &'a syntect::highlighting::Theme) -> syntect::highlighting::Highlighter<'a> {
    syntect::highlighting::Highlighter::new(theme)
}

/// Relies on syntect's HighlightState::new, started with an empty scope
/// stack.
#[verifier::external_body]
fn make_highlight_state(
    highlighter: &syntect::highlighting::Highlighter<'_>,
) -> syntect::highlighting::HighlightState {
    syntect::highlighting::HighlightState::new(
        highlighter,
        syntect::parsing::ScopeStack::new(),
    )
}

/// Well-formed scope operations for a line with content `s`: each sits at a
/// byte offset within the line, on a character boundary, and the offsets are
/// non-decreasing.
pub open spec fn ops_wf(ops: Seq<(usize, syntect::parsing::ScopeStackOp)>, s: Seq<char>) -> bool {
    &&& forall|a: int, b: int|
        0 <= a <= b < ops.len() ==> (#[trigger] ops[a]).0 <= (#[trigger] ops[b]).0
    &&& forall|a: int|
        0 <= a < ops.len() ==> (#[trigger] ops[a]).0 <= byte_len(s)
            && vstd::utf8::is_char_boundary(vstd::utf8::encode_utf8(s), ops[a].0 as int)
}

/// Relies on syntect's ParseState::parse_line: the scope operations of one
/// line, which its documentation promises in order of the byte index to apply
/// them at; the indices are regex match boundaries within the line.  The set
/// must be the one the state was built from — the one caller pairs them by
/// construction.  Nothing is returned on a parse error.
#[verifier::external_body]
fn parse_line_ops(
    state: &mut syntect::parsing::ParseState,
    syntax_set: &syntect::parsing::SyntaxSet,
    line: &str,
) -> (r: Vec<(usize, syntect::parsing::ScopeStackOp)>)
    ensures
        ops_wf(r@, line@),
{
    state.parse_line(line, syntax_set).unwrap_or_default()
}

/// The total byte length of the fragments `[from, to)`.
pub open spec fn frag_len_sum(
    frags: Seq<(syntect::highlighting::Style, usize)>,
    from: int,
    to: int,
) -> int
    decreases to - from,
{
    if from >= to {
        0
    } else {
        frag_len_sum(frags, from, to - 1) + frags[to - 1].1
    }
}

/// Fragment totals add up over adjacent ranges.
pub proof fn lemma_frag_split(
    frags: Seq<(syntect::highlighting::Style, usize)>,
    a: int,
    b: int,
    c: int,
)
    requires
        a <= b <= c,
    ensures
        frag_len_sum(frags, a, c) == frag_len_sum(frags, a, b) + frag_len_sum(frags, b, c),
    decreases c - b,
{
    if b < c {
        lemma_frag_split(frags, a, b, c - 1);
    }
}

/// Fragment lengths are never negative.
pub proof fn lemma_frag_nonneg(
    frags: Seq<(syntect::highlighting::Style, usize)>,
    from: int,
    to: int,
)
    requires
        from <= to,
    ensures
        frag_len_sum(frags, from, to) >= 0,
    decreases to - from,
{
    if from < to {
        lemma_frag_nonneg(frags, from, to - 1);
    }
}

/// Relies on syntect's HighlightIterator: it yields consecutive styled
/// fragments of the line, sliced in order from its start at the operations'
/// offsets, so their lengths sum to at most the line's byte length (exactly,
/// unless resolving stops on an error).  The offsets must be well-formed for
/// the line: the iterator indexes the line with them.
#[verifier::external_body]
fn highlight_fragments(
    state: &mut syntect::highlighting::HighlightState,
    ops: &Vec<(usize, syntect::parsing::ScopeStackOp)>,
    line: &str,
    highlighter: &syntect::highlighting::Highlighter<'_>,
) -> (r: Vec<(syntect::highlighting::Style, usize)>)
    requires
        ops_wf(ops@, line@),
    ensures
        frag_len_sum(r@, 0, r@.len() as int) <= byte_len(line@),
{
    let mut fragments = Vec::new();
    for (style, fragment) in
        syntect::highlighting::HighlightIterator::new(state, ops, line, highlighter) {
        fragments.push((style, fragment.len()));
    }
    fragments
}

/// Relies on syntect's Highlighter::get_default: the theme's default style.
#[verifier::external_body]
fn theme_default_style(
    highlighter: &syntect::highlighting::Highlighter<'_>,
) -> syntect::highlighting::Style {
    highlighter.get_default()
}

/// A forced flag: on or off, never kept or toggled.
fn set_flag(b: bool) -> (r: BoolMod)
    ensures
        r == if b {
            BoolMod::True
        } else {
            BoolMod::False
        },
{
    if b {
        BoolMod::True
    } else {
        BoolMod::False
    }
}

/// Relies on syntect's Style fields and FontStyle::contains: the style delta
/// that replaces both colors and sets the three font flags; inversion is
/// never touched.
#[verifier::external_body]
fn style_to_mod(style: &syntect::highlighting::Style) -> (r: StyleMod)
    ensures
        r.invert == BoolMod::Keep,
{
    let (f, b, fs) = (style.foreground, style.background, style.font_style);
    StyleMod {
        fg: Some(Rgb { r: f.r, g: f.g, b: f.b }),
        bg: Some(Rgb { r: b.r, g: b.g, b: b.b }),
        bold: set_flag(fs.contains(syntect::highlighting::FontStyle::BOLD)),
        italic: set_flag(fs.contains(syntect::highlighting::FontStyle::ITALIC)),
        underline: set_flag(fs.contains(syntect::highlighting::FontStyle::UNDERLINE)),
        invert: BoolMod::Keep,
    }
}

/// Turn one line's styled fragments into its overlay entry: each fragment
/// contributes a change at the byte offset where it starts (the sum of the
/// lengths before it).
fn line_changes(
    frags: &Vec<(syntect::highlighting::Style, usize)>,
    line_len: usize,
) -> (r: Vec<(usize, StyleMod)>)
    requires
        frag_len_sum(frags@, 0, frags@.len() as int) <= line_len,
    ensures
        r@.len() == frags@.len(),
        forall|j: int|
            0 <= j < r@.len() ==> (#[trigger] r@[j]).0 == frag_len_sum(frags@, 0, j),
        HighlightInfo::entry_wf(r@, line_len as nat),
{
    let n = frags.len();
    let mut r: Vec<(usize, StyleMod)> = Vec::new();
    let mut pos: usize = 0;
    let mut j: usize = 0;
    while j < n
        invariant
            n == frags@.len(),
            j <= n,
            r@.len() == j,
            pos == frag_len_sum(frags@, 0, j as int),
            pos <= line_len,
            frag_len_sum(frags@, 0, n as int) <= line_len,
            forall|a: int| 0 <= a < r@.len() ==> (#[trigger] r@[a]).0 == frag_len_sum(frags@, 0, a),
            forall|a: int| 0 <= a < r@.len() ==> (#[trigger] r@[a]).0 <= pos,
        decreases n - j,
    {
        let m = style_to_mod(&frags[j].0);
        r.push((pos, m));
        proof {
            lemma_frag_split(frags@, 0, j + 1 as int, n as int);
            lemma_frag_nonneg(frags@, j + 1 as int, n as int);
        }
        pos = pos + frags[j].1;
        j = j + 1;
    }
    proof {
        assert forall|a: int, b: int|
            0 <= a <= b < r@.len() implies (#[trigger] r@[a]).0 <= (#[trigger] r@[b]).0 by {
            lemma_frag_split(frags@, 0, a, b);
            lemma_frag_nonneg(frags@, a, b);
        }
    }
    r
}

/// A highlight engine using the syntect library as a backend.
pub struct SyntectHighlighter<'a> {
    base_state: syntect::parsing::ParseState,
    theme: &'a syntect::highlighting::Theme,
    syntax_set: &'a syntect::parsing::SyntaxSet,
}

impl<'a> SyntectHighlighter<'a> {
    /// Create a highlighter under `theme` for the grammar of `syntax_set`
    /// registered for the given file extension, or nothing when the set knows
    /// no such extension.  The grammar is looked up in the same set that
    /// parsing later runs against.
    pub fn new(
        syntax_set: &'a syntect::parsing::SyntaxSet,
        extension: &str,
        theme: &'a syntect::highlighting::Theme,
    ) -> Option<Self> {
        match parse_state_for_extension(syntax_set, extension) {
            Some(base_state) => Some(SyntectHighlighter { base_state, theme, syntax_set }),
            None => None,
        }
    }
}

impl<'a> HighlightEngine for SyntectHighlighter<'a> {
    fn highlight(&self, lines: &Vec<&str>) -> (r: HighlightInfo) {
        let mut info = HighlightInfo::none();
        let hl = make_highlighter(self.theme);
        let mut hstate = make_highlight_state(&hl);
        let mut parse_state = clone_parse_state(&self.base_state);
        let n = lines.len();
        let mut i: usize = 0;
        while i < n
            invariant
                n == lines@.len(),
                i <= n,
                info.wf(),
                info.style_changes@.len() == i,
                forall|k: int|
                    0 <= k < i ==> HighlightInfo::entry_wf(
                        (#[trigger] info.style_changes@[k])@,
                        byte_len(lines@[k]@),
                    ),
            decreases n - i,
        {
            let line: &str = lines[i];
            let ops = parse_line_ops(&mut parse_state, self.syntax_set, line);
            let frags = highlight_fragments(&mut hstate, &ops, line, &hl);
            let changes = line_changes(&frags, line.len());
            info.style_changes.push(changes);
            i = i + 1;
        }
        info.default_style = style_to_mod(&theme_default_style(&hl));
        info
    }
}

} // verus!
