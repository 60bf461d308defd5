//! The style model: partially-specified styles whose unset fields fall
//! through a cascade of increasingly generic sources.

use vstd::prelude::*;

verus! {

/// One abstract terminal color: the terminal's own default ("transparent"),
/// an 8-bit palette index, or a 24-bit RGB triple.
#[derive(Clone, Copy, Debug, PartialEq, Eq, Structural)]
pub enum PaletteColor {
    Transparent,
    EightBit(u8),
    Rgb(u8, u8, u8),
}

impl Default for PaletteColor {
    /// An unspecified color falls back to the terminal's own.
    fn default() -> (r: Self)
        ensures
            r == PaletteColor::Transparent,
    {
        PaletteColor::Transparent
    }
}

/// The live color palette that built-in theme defaults are derived from.
#[derive(Clone, Copy, Debug, PartialEq, Eq, Structural)]
pub struct Palette {
    pub fg: PaletteColor,
    pub bg: PaletteColor,
    pub black: PaletteColor,
    pub red: PaletteColor,
    pub green: PaletteColor,
    pub yellow: PaletteColor,
    pub blue: PaletteColor,
    pub magenta: PaletteColor,
    pub cyan: PaletteColor,
    pub white: PaletteColor,
    pub orange: PaletteColor,
    pub gray: PaletteColor,
    pub purple: PaletteColor,
    pub gold: PaletteColor,
    pub silver: PaletteColor,
    pub pink: PaletteColor,
    pub brown: PaletteColor,
}

/// The palette whose every entry is the terminal's own color.
pub open spec fn transparent_palette() -> Palette {
    Palette {
        fg: PaletteColor::Transparent,
        bg: PaletteColor::Transparent,
        black: PaletteColor::Transparent,
        red: PaletteColor::Transparent,
        green: PaletteColor::Transparent,
        yellow: PaletteColor::Transparent,
        blue: PaletteColor::Transparent,
        magenta: PaletteColor::Transparent,
        cyan: PaletteColor::Transparent,
        white: PaletteColor::Transparent,
        orange: PaletteColor::Transparent,
        gray: PaletteColor::Transparent,
        purple: PaletteColor::Transparent,
        gold: PaletteColor::Transparent,
        silver: PaletteColor::Transparent,
        pink: PaletteColor::Transparent,
        brown: PaletteColor::Transparent,
    }
}

impl Default for Palette {
    fn default() -> (r: Self)
        ensures
            r == transparent_palette(),
    {
        Palette {
            fg: PaletteColor::Transparent,
            bg: PaletteColor::Transparent,
            black: PaletteColor::Transparent,
            red: PaletteColor::Transparent,
            green: PaletteColor::Transparent,
            yellow: PaletteColor::Transparent,
            blue: PaletteColor::Transparent,
            magenta: PaletteColor::Transparent,
            cyan: PaletteColor::Transparent,
            white: PaletteColor::Transparent,
            orange: PaletteColor::Transparent,
            gray: PaletteColor::Transparent,
            purple: PaletteColor::Transparent,
            gold: PaletteColor::Transparent,
            silver: PaletteColor::Transparent,
            pink: PaletteColor::Transparent,
            brown: PaletteColor::Transparent,
        }
    }
}

/// A style whose three fields are each independently optional: "unset" is a
/// distinct state from "set to the terminal default", so that an unset field
/// can fall through to a more generic style in the cascade.
#[derive(Clone, Copy, Debug, PartialEq, Eq, Structural)]
pub struct Style {
    pub foreground: Option<PaletteColor>,
    pub background: Option<PaletteColor>,
    pub inverted: Option<bool>,
}

/// Take the first option if it carries a value, else the second.
pub open spec fn opt_merged<T>(a: Option<T>, b: Option<T>) -> Option<T> {
    if a is Some {
        a
    } else {
        b
    }
}

/// The merge of two styles: field by field, the more specific side `a` wins
/// wherever it is set, and `b` fills in the rest.
pub open spec fn style_merged(a: Style, b: Style) -> Style {
    Style {
        foreground: opt_merged(a.foreground, b.foreground),
        background: opt_merged(a.background, b.background),
        inverted: opt_merged(a.inverted, b.inverted),
    }
}

/// Flip an optional boolean; an absent value stays absent.
pub open spec fn opt_bool_flipped(o: Option<bool>) -> Option<bool> {
    match o {
        Option::Some(v) => Option::Some(!v),
        Option::None => Option::None,
    }
}

impl Default for Style {
    /// The fully unspecified style: every field falls through the cascade.
    fn default() -> (r: Self)
        ensures
            r == (Style { foreground: Option::<PaletteColor>::None, background: Option::<PaletteColor>::None, inverted: Option::<bool>::None }),
    {
        Style { foreground: None, background: None, inverted: None }
    }
}

impl Style {
    /// Merge this style with another, preferring the values of this style
    /// where present and filling in from `other` where missing.
    pub fn merge_with(&self, other: &Self) -> (r: Self)
        ensures
            r == style_merged(*self, *other),
    {
        Style {
            foreground: if self.foreground.is_some() {
                self.foreground
            } else {
                other.foreground
            },
            background: if self.background.is_some() {
                self.background
            } else {
                other.background
            },
            inverted: if self.inverted.is_some() {
                self.inverted
            } else {
                other.inverted
            },
        }
    }

    /// Flip the inversion flag; a style that leaves it unset keeps it unset.
    pub fn inverted(self) -> (r: Self)
        ensures
            r == (Style { inverted: opt_bool_flipped(self.inverted), ..self }),
    {
        Style {
            inverted: match self.inverted {
                Some(v) => Some(!v),
                None => None,
            },
            ..self
        }
    }
}

/// One style for when the owning tab is active and one for when it is not.
#[derive(Clone, Copy, Debug, PartialEq, Eq, Structural)]
pub struct AllStyles {
    pub active: Style,
    pub inactive: Style,
}

/// The merge of two active/inactive style pairs, each half merged by the
/// style rule.
pub open spec fn all_styles_merged(a: AllStyles, b: AllStyles) -> AllStyles {
    AllStyles { active: style_merged(a.active, b.active), inactive: style_merged(a.inactive, b.inactive) }
}

impl Default for AllStyles {
    fn default() -> (r: Self)
        ensures
            r.active == (Style { foreground: Option::<PaletteColor>::None, background: Option::<PaletteColor>::None, inverted: Option::<bool>::None }),
            r.inactive == (Style { foreground: Option::<PaletteColor>::None, background: Option::<PaletteColor>::None, inverted: Option::<bool>::None }),
    {
        AllStyles {
            active: Style { foreground: None, background: None, inverted: None },
            inactive: Style { foreground: None, background: None, inverted: None },
        }
    }
}

impl AllStyles {
    /// Merge two pairs, preferring this pair's set fields.
    pub fn merge_with(&self, other: &Self) -> (r: Self)
        ensures
            r == all_styles_merged(*self, *other),
    {
        AllStyles {
            active: self.active.merge_with(&other.active),
            inactive: self.inactive.merge_with(&other.inactive),
        }
    }
}

/// Merging a style with itself changes nothing, however many of its fields
/// are set.
pub proof fn lemma_style_merge_idempotent(a: Style)
    ensures
        style_merged(a, a) == a,
{
}

/// Merging a pair with itself changes nothing.
pub proof fn lemma_all_styles_merge_idempotent(a: AllStyles)
    ensures
        all_styles_merged(a, a) == a,
{
}

/// The merge is associative: cascading three levels pairwise, in either
/// grouping, resolves to the same style.
pub proof fn lemma_style_merge_associative(a: Style, b: Style, c: Style)
    ensures
        style_merged(style_merged(a, b), c) == style_merged(a, style_merged(b, c)),
{
}

/// Specificity of the merge: every field set in `a` survives unchanged, and
/// every field unset in `a` is taken from `b`.
pub proof fn lemma_style_merge_specificity(a: Style, b: Style)
    ensures
        a.foreground is Some ==> style_merged(a, b).foreground == a.foreground,
        a.background is Some ==> style_merged(a, b).background == a.background,
        a.inverted is Some ==> style_merged(a, b).inverted == a.inverted,
        a.foreground is None ==> style_merged(a, b).foreground == b.foreground,
        a.background is None ==> style_merged(a, b).background == b.background,
        a.inverted is None ==> style_merged(a, b).inverted == b.inverted,
{
}

} // verus!
