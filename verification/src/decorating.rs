//! Decoration of individual pager lines with, for example, line numbers.
//!
//! A decorator reports, once per draw and for the whole window of candidate
//! lines, how wide its side column must be; the host then paints each line's
//! annotation into a region of exactly that width.  Painting is a host
//! concern; this module covers the width contract.

use vstd::prelude::*;

use crate::PagerLine;
use crate::RangeView;

verus! {

/// The number of decimal digits of `n`.
pub open spec fn spec_digits(n: nat) -> nat
    decreases n,
{
    if n < 10 {
        1
    } else {
        1 + spec_digits(n / 10)
    }
}

/// Count the decimal digits of `n`.
pub fn digits(n: usize) -> (r: usize)
    ensures
        r == spec_digits(n as nat),
{
    proof {
        lemma_digits_fit(n as nat);
    }
    let mut rest: usize = n;
    let mut count: usize = 1;
    while rest >= 10
        invariant
            count >= 1,
            count + spec_digits(rest as nat) == 1 + spec_digits(n as nat),
            spec_digits(n as nat) <= 20,
        decreases rest,
    {
        rest = rest / 10;
        count = count + 1;
    }
    count
}

/// Interface for anything that is able to decorate lines: to claim a side
/// column of some width and annotate each drawn line within it.
///
/// The width of the decorator column is fixed for all lines of one draw; an
/// implementer should report the maximum width needed over all given lines.
pub trait LineDecorator: Sized {
    /// The type of line that can be decorated using this implementation.
    type Line: PagerLine;

    /// The width the decoration column must have for the given window of
    /// (index, line) pairs.
    spec fn spec_demand(&self, lines: Seq<(int, Self::Line)>) -> nat;

    /// How much horizontal space is required to decorate the given lines.
    fn horizontal_space_demand(&self, lines: RangeView<'_, Self::Line>) -> (r: usize)
        requires
            lines.wf(),
        ensures
            r == self.spec_demand(lines@),
    ;
}

/// Do not draw line decoration: the column is always empty and zero wide.
///
/// This is the default for newly created content.
pub struct NoDecorator<L> {
    pub _dummy: core::marker::PhantomData<L>,
}

impl<L> Default for NoDecorator<L> {
    fn default() -> (r: Self)
        ensures
            r == (NoDecorator { _dummy: core::marker::PhantomData::<L> }),
    {
        NoDecorator { _dummy: core::marker::PhantomData }
    }
}

impl<L: PagerLine> LineDecorator for NoDecorator<L> {
    type Line = L;

    open spec fn spec_demand(&self, lines: Seq<(int, L)>) -> nat {
        0
    }

    fn horizontal_space_demand(&self, lines: RangeView<'_, L>) -> (r: usize) {
        0
    }
}

/// Draw line numbers next to every line.
///
/// The demanded width is that of the window's last line number (line numbers
/// are one-based), plus one column of padding on either side.
pub struct LineNumberDecorator<L> {
    pub _dummy: core::marker::PhantomData<L>,
}

impl<L> Default for LineNumberDecorator<L> {
    fn default() -> (r: Self)
        ensures
            r == (LineNumberDecorator { _dummy: core::marker::PhantomData::<L> }),
    {
        LineNumberDecorator { _dummy: core::marker::PhantomData }
    }
}

impl<L: PagerLine> LineDecorator for LineNumberDecorator<L> {
    type Line = L;

    open spec fn spec_demand(&self, lines: Seq<(int, L)>) -> nat {
        if lines.len() == 0 {
            0
        } else {
            spec_digits((lines.last().0 + 1) as nat) + 2
        }
    }

    fn horizontal_space_demand(&self, lines: RangeView<'_, L>) -> (r: usize) {
        let mut lines = lines;
        match lines.next_back() {
            Some((index, _)) => {
                let number = index.raw + 1;
                proof {
                    lemma_digits_fit(number as nat);
                }
                let d = digits(number);
                d + 2
            },
            None => 0,
        }
    }
}

spec fn pow10(k: nat) -> nat
    decreases k,
{
    if k == 0 {
        1
    } else {
        10 * pow10((k - 1) as nat)
    }
}

proof fn lemma_digits_bound(n: nat, k: nat)
    requires
        k >= 1,
        n < pow10(k),
    ensures
        spec_digits(n) <= k,
    decreases k,
{
    if n >= 10 {
        reveal_with_fuel(pow10, 3);
        assert(pow10(1) == 10);
        assert(k >= 2);
        assert(n < 10 * pow10((k - 1) as nat));
        assert(n / 10 < pow10((k - 1) as nat)) by (nonlinear_arith)
            requires
                n < 10 * pow10((k - 1) as nat),
        ;
        lemma_digits_bound(n / 10, (k - 1) as nat);
    }
}

/// A usize value never has more than 20 decimal digits.
proof fn lemma_digits_fit(n: nat)
    requires
        n <= usize::MAX,
    ensures
        spec_digits(n) <= 20,
{
    reveal_with_fuel(pow10, 21);
    assert(n < pow10(20));
    lemma_digits_bound(n, 20);
}

} // verus!
