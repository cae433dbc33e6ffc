//! Style deltas applied to rendered text.
//!
//! A [`StyleMod`] describes a change relative to an underlying style: each
//! field either keeps the underlying value or replaces (for booleans: possibly
//! toggles) it.  Deltas compose: layering one delta on top of another yields a
//! delta whose application equals applying the lower one first.

use vstd::prelude::*;

verus! {

/// A 24-bit color.
#[derive(Clone, Copy, Debug, PartialEq, Eq, Structural)]
pub struct Rgb {
    pub r: u8,
    pub g: u8,
    pub b: u8,
}

/// How a boolean style attribute (bold, italic, ...) is modified.
#[derive(Clone, Copy, Debug, PartialEq, Eq, Structural)]
pub enum BoolMod {
    /// Force the attribute on.
    True,
    /// Force the attribute off.
    False,
    /// Flip the attribute.
    Toggle,
    /// Leave the attribute as it is.
    Keep,
}

impl BoolMod {
    /// The effect of this modification on an attribute value.
    pub open spec fn spec_apply(self, b: bool) -> bool {
        match self {
            BoolMod::True => true,
            BoolMod::False => false,
            BoolMod::Toggle => !b,
            BoolMod::Keep => b,
        }
    }

    /// Composition: applying the result equals applying `other`, then `self`.
    pub open spec fn spec_on_top_of(self, other: BoolMod) -> BoolMod {
        match (self, other) {
            (BoolMod::True, _) => BoolMod::True,
            (BoolMod::False, _) => BoolMod::False,
            (BoolMod::Toggle, BoolMod::True) => BoolMod::False,
            (BoolMod::Toggle, BoolMod::False) => BoolMod::True,
            (BoolMod::Toggle, BoolMod::Toggle) => BoolMod::Keep,
            (BoolMod::Toggle, BoolMod::Keep) => BoolMod::Toggle,
            (BoolMod::Keep, m) => m,
        }
    }

    /// Layer this modification over `other`.
    pub fn on_top_of(self, other: BoolMod) -> (r: BoolMod)
        ensures
            r == self.spec_on_top_of(other),
    {
        match (self, other) {
            (BoolMod::True, _) => BoolMod::True,
            (BoolMod::False, _) => BoolMod::False,
            (BoolMod::Toggle, BoolMod::True) => BoolMod::False,
            (BoolMod::Toggle, BoolMod::False) => BoolMod::True,
            (BoolMod::Toggle, BoolMod::Toggle) => BoolMod::Keep,
            (BoolMod::Toggle, BoolMod::Keep) => BoolMod::Toggle,
            (BoolMod::Keep, m) => m,
        }
    }
}

/// Layering boolean modifications is composition of their effects.
pub proof fn lemma_bool_mod_composes(top: BoolMod, bottom: BoolMod, b: bool)
    ensures
        top.spec_on_top_of(bottom).spec_apply(b) == top.spec_apply(bottom.spec_apply(b)),
{
}

/// A style delta: colors that are either kept or replaced, and boolean text
/// attributes that are kept, set or toggled.
#[derive(Clone, Copy, Debug, PartialEq, Eq)]
pub struct StyleMod {
    pub fg: Option<Rgb>,
    pub bg: Option<Rgb>,
    pub bold: BoolMod,
    pub italic: BoolMod,
    pub underline: BoolMod,
    pub invert: BoolMod,
}

impl StyleMod {
    /// The delta that changes nothing.
    pub open spec fn spec_neutral() -> StyleMod {
        StyleMod {
            fg: None,
            bg: None,
            bold: BoolMod::Keep,
            italic: BoolMod::Keep,
            underline: BoolMod::Keep,
            invert: BoolMod::Keep,
        }
    }

    /// Construct the delta that changes nothing.
    pub fn new() -> (r: StyleMod)
        ensures
            r == StyleMod::spec_neutral(),
    {
        StyleMod {
            fg: None,
            bg: None,
            bold: BoolMod::Keep,
            italic: BoolMod::Keep,
            underline: BoolMod::Keep,
            invert: BoolMod::Keep,
        }
    }

    /// The delta layered on the currently focused line: flip the inversion and
    /// force bold, leaving colors untouched.
    pub open spec fn spec_active_line() -> StyleMod {
        StyleMod {
            fg: None,
            bg: None,
            bold: BoolMod::True,
            italic: BoolMod::Keep,
            underline: BoolMod::Keep,
            invert: BoolMod::Toggle,
        }
    }

    /// Construct the delta layered on the currently focused line.
    pub fn active_line() -> (r: StyleMod)
        ensures
            r == StyleMod::spec_active_line(),
    {
        StyleMod {
            fg: None,
            bg: None,
            bold: BoolMod::True,
            italic: BoolMod::Keep,
            underline: BoolMod::Keep,
            invert: BoolMod::Toggle,
        }
    }

    /// Layering: `self`'s replacements win; kept fields fall through to `other`.
    pub open spec fn spec_on_top_of(self, other: StyleMod) -> StyleMod {
        StyleMod {
            fg: if self.fg is Some { self.fg } else { other.fg },
            bg: if self.bg is Some { self.bg } else { other.bg },
            bold: self.bold.spec_on_top_of(other.bold),
            italic: self.italic.spec_on_top_of(other.italic),
            underline: self.underline.spec_on_top_of(other.underline),
            invert: self.invert.spec_on_top_of(other.invert),
        }
    }

    /// Layer this delta over `other`: applying the result equals applying
    /// `other` first and this delta second.
    pub fn on_top_of(self, other: StyleMod) -> (r: StyleMod)
        ensures
            r == self.spec_on_top_of(other),
    {
        StyleMod {
            fg: if self.fg.is_some() { self.fg } else { other.fg },
            bg: if self.bg.is_some() { self.bg } else { other.bg },
            bold: self.bold.on_top_of(other.bold),
            italic: self.italic.on_top_of(other.italic),
            underline: self.underline.on_top_of(other.underline),
            invert: self.invert.on_top_of(other.invert),
        }
    }

    /// A fully applied style: the result of layering deltas over a default.
    pub open spec fn spec_apply(self, base: AppliedStyle) -> AppliedStyle {
        AppliedStyle {
            fg: if self.fg is Some { self.fg->0 } else { base.fg },
            bg: if self.bg is Some { self.bg->0 } else { base.bg },
            bold: self.bold.spec_apply(base.bold),
            italic: self.italic.spec_apply(base.italic),
            underline: self.underline.spec_apply(base.underline),
            invert: self.invert.spec_apply(base.invert),
        }
    }
}

/// A concrete style, with every attribute decided.
#[derive(Clone, Copy, Debug, PartialEq, Eq, Structural)]
pub struct AppliedStyle {
    pub fg: Rgb,
    pub bg: Rgb,
    pub bold: bool,
    pub italic: bool,
    pub underline: bool,
    pub invert: bool,
}

/// Layering style deltas is composition of their effects on any base style.
pub proof fn lemma_style_mod_composes(top: StyleMod, bottom: StyleMod, base: AppliedStyle)
    ensures
        top.spec_on_top_of(bottom).spec_apply(base) == top.spec_apply(bottom.spec_apply(base)),
{
}

} // verus!
