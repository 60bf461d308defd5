//! Turning resolved styles into ANSI-styled text. The escape-code framing
//! itself comes from the `ansi_term` crate behind one trusted wrapper; which
//! colors, reversal and hiding are requested for a given style is decided
//! and verified here.

use vstd::prelude::*;
use crate::style::{AllStyles, PaletteColor, Style};

verus! {

/// A concrete color directive for the terminal: an 8-bit palette index or a
/// 24-bit RGB triple.
#[derive(Clone, Copy, Debug, PartialEq, Eq)]
pub enum AnsiColor {
    Fixed(u8),
    Rgb(u8, u8, u8),
}

/// Everything one fragment asks of the terminal-styling crate: an optional
/// foreground, an optional background, reverse video, and hiding.
#[derive(Clone, Copy, Debug, PartialEq, Eq)]
pub struct AnsiSpec {
    pub fg: Option<AnsiColor>,
    pub bg: Option<AnsiColor>,
    pub reverse: bool,
    pub hidden: bool,
}

/// The character sequence that painting `text` under the directives `sp`
/// produces: the text wrapped in the escape codes `ansi_term` emits for this
/// style. It depends on the directives and the text alone.
pub uninterp spec fn painted(sp: AnsiSpec, text: Seq<char>) -> Seq<char>;

/// Relies on `ansi_term::Style` (its `fg`, `on`, `reverse` and `hidden`
/// builders and its `paint`): the styled string is a function of the
/// requested directives and the text alone.
#[verifier::external_body]
pub(crate) fn ansi_paint(sp: &AnsiSpec, text: &str) -> (r: String)
    ensures
        r@ == painted(*sp, text@),
{
    let mut st = ansi_term::Style::new();
    st = match sp.fg {
        Some(AnsiColor::Fixed(n)) => st.fg(ansi_term::Colour::Fixed(n)),
        Some(AnsiColor::Rgb(r, g, b)) => st.fg(ansi_term::Colour::RGB(r, g, b)),
        None => st,
    };
    st = match sp.bg {
        Some(AnsiColor::Fixed(n)) => st.on(ansi_term::Colour::Fixed(n)),
        Some(AnsiColor::Rgb(r, g, b)) => st.on(ansi_term::Colour::RGB(r, g, b)),
        None => st,
    };
    if sp.reverse { st = st.reverse(); }
    if sp.hidden { st = st.hidden(); }
    st.paint(text).to_string()
}

/// How a fully specified (foreground, background) pair of palette colors is
/// realized as terminal directives. A transparent color stands for the
/// terminal's own: a pair that is transparent on both sides is hidden, a
/// transparent foreground over a set background paints the background color
/// in reverse video, and a transparent background simply leaves the
/// background directive out.
pub open spec fn pair_ansi(fg: PaletteColor, bg: PaletteColor) -> AnsiSpec {
    match (fg, bg) {
        (PaletteColor::Transparent, PaletteColor::Transparent) => AnsiSpec {
            fg: None,
            bg: None,
            reverse: false,
            hidden: true,
        },
        (PaletteColor::Transparent, PaletteColor::EightBit(n)) => AnsiSpec {
            fg: Some(AnsiColor::Fixed(n)),
            bg: None,
            reverse: true,
            hidden: false,
        },
        (PaletteColor::Transparent, PaletteColor::Rgb(r, g, b)) => AnsiSpec {
            fg: Some(AnsiColor::Rgb(r, g, b)),
            bg: None,
            reverse: true,
            hidden: false,
        },
        (PaletteColor::EightBit(n), PaletteColor::Transparent) => AnsiSpec {
            fg: Some(AnsiColor::Fixed(n)),
            bg: None,
            reverse: false,
            hidden: false,
        },
        (PaletteColor::Rgb(r, g, b), PaletteColor::Transparent) => AnsiSpec {
            fg: Some(AnsiColor::Rgb(r, g, b)),
            bg: None,
            reverse: false,
            hidden: false,
        },
        (PaletteColor::EightBit(n), PaletteColor::EightBit(m)) => AnsiSpec {
            fg: Some(AnsiColor::Fixed(n)),
            bg: Some(AnsiColor::Fixed(m)),
            reverse: false,
            hidden: false,
        },
        (PaletteColor::EightBit(n), PaletteColor::Rgb(r, g, b)) => AnsiSpec {
            fg: Some(AnsiColor::Fixed(n)),
            bg: Some(AnsiColor::Rgb(r, g, b)),
            reverse: false,
            hidden: false,
        },
        (PaletteColor::Rgb(r, g, b), PaletteColor::EightBit(m)) => AnsiSpec {
            fg: Some(AnsiColor::Rgb(r, g, b)),
            bg: Some(AnsiColor::Fixed(m)),
            reverse: false,
            hidden: false,
        },
        (PaletteColor::Rgb(r, g, b), PaletteColor::Rgb(r2, g2, b2)) => AnsiSpec {
            fg: Some(AnsiColor::Rgb(r, g, b)),
            bg: Some(AnsiColor::Rgb(r2, g2, b2)),
            reverse: false,
            hidden: false,
        },
    }
}

/// A lone foreground color with no background: a transparent one needs no
/// directive at all.
pub open spec fn single_ansi(fg: PaletteColor) -> AnsiSpec {
    match fg {
        PaletteColor::Transparent => AnsiSpec { fg: None, bg: None, reverse: false, hidden: false },
        PaletteColor::EightBit(n) => AnsiSpec {
            fg: Some(AnsiColor::Fixed(n)),
            bg: None,
            reverse: false,
            hidden: false,
        },
        PaletteColor::Rgb(r, g, b) => AnsiSpec {
            fg: Some(AnsiColor::Rgb(r, g, b)),
            bg: None,
            reverse: false,
            hidden: false,
        },
    }
}

/// The directives a style resolves to: its color pair realized as above,
/// with reverse video added when the style's inversion flag is set.
pub open spec fn style_ansi(st: Style) -> AnsiSpec {
    let base = match (st.foreground, st.background) {
        (Some(f), Some(b)) => pair_ansi(f, b),
        (Some(f), None) => single_ansi(f),
        (None, Some(b)) => pair_ansi(PaletteColor::Transparent, b),
        (None, None) => AnsiSpec { fg: None, bg: None, reverse: false, hidden: false },
    };
    AnsiSpec { reverse: base.reverse || st.inverted == Some(true), ..base }
}

/// What painting `text` under a style yields: a style with neither color set
/// paints nothing at all, and any other style paints the text under its
/// directives.
pub open spec fn style_paint_seq(st: Style, text: Seq<char>) -> Seq<char> {
    if st.foreground is None && st.background is None {
        Seq::<char>::empty()
    } else {
        painted(style_ansi(st), text)
    }
}

/// The printable width a painted text contributes: the escape codes count
/// for nothing, so it is the character count of the visible text — zero when
/// the style paints nothing.
pub open spec fn style_paint_width(st: Style, text: Seq<char>) -> nat {
    if st.foreground is None && st.background is None {
        0
    } else {
        text.len()
    }
}

/// Compute the terminal directives for a fully examined style.
fn style_ansi_exec(st: &Style) -> (r: AnsiSpec)
    ensures
        r == style_ansi(*st),
{
    let base = match (st.foreground, st.background) {
        (Some(f), Some(b)) => pair_ansi_exec(f, b),
        (Some(f), None) => single_ansi_exec(f),
        (None, Some(b)) => pair_ansi_exec(PaletteColor::Transparent, b),
        (None, None) => AnsiSpec { fg: None, bg: None, reverse: false, hidden: false },
    };
    let inv = match st.inverted {
        Some(v) => v,
        None => false,
    };
    AnsiSpec { reverse: base.reverse || inv, ..base }
}

pub fn pair_ansi_exec(fg: PaletteColor, bg: PaletteColor) -> (r: AnsiSpec)
    ensures
        r == pair_ansi(fg, bg),
{
    match (fg, bg) {
        (PaletteColor::Transparent, PaletteColor::Transparent) => AnsiSpec {
            fg: None,
            bg: None,
            reverse: false,
            hidden: true,
        },
        (PaletteColor::Transparent, PaletteColor::EightBit(n)) => AnsiSpec {
            fg: Some(AnsiColor::Fixed(n)),
            bg: None,
            reverse: true,
            hidden: false,
        },
        (PaletteColor::Transparent, PaletteColor::Rgb(r, g, b)) => AnsiSpec {
            fg: Some(AnsiColor::Rgb(r, g, b)),
            bg: None,
            reverse: true,
            hidden: false,
        },
        (fgc, PaletteColor::Transparent) => single_ansi_exec(fgc),
        (PaletteColor::EightBit(n), PaletteColor::EightBit(m)) => AnsiSpec {
            fg: Some(AnsiColor::Fixed(n)),
            bg: Some(AnsiColor::Fixed(m)),
            reverse: false,
            hidden: false,
        },
        (PaletteColor::EightBit(n), PaletteColor::Rgb(r, g, b)) => AnsiSpec {
            fg: Some(AnsiColor::Fixed(n)),
            bg: Some(AnsiColor::Rgb(r, g, b)),
            reverse: false,
            hidden: false,
        },
        (PaletteColor::Rgb(r, g, b), PaletteColor::EightBit(m)) => AnsiSpec {
            fg: Some(AnsiColor::Rgb(r, g, b)),
            bg: Some(AnsiColor::Fixed(m)),
            reverse: false,
            hidden: false,
        },
        (PaletteColor::Rgb(r, g, b), PaletteColor::Rgb(r2, g2, b2)) => AnsiSpec {
            fg: Some(AnsiColor::Rgb(r, g, b)),
            bg: Some(AnsiColor::Rgb(r2, g2, b2)),
            reverse: false,
            hidden: false,
        },
    }
}

fn single_ansi_exec(fg: PaletteColor) -> (r: AnsiSpec)
    ensures
        r == single_ansi(fg),
{
    match fg {
        PaletteColor::Transparent => AnsiSpec { fg: None, bg: None, reverse: false, hidden: false },
        PaletteColor::EightBit(n) => AnsiSpec {
            fg: Some(AnsiColor::Fixed(n)),
            bg: None,
            reverse: false,
            hidden: false,
        },
        PaletteColor::Rgb(r, g, b) => AnsiSpec {
            fg: Some(AnsiColor::Rgb(r, g, b)),
            bg: None,
            reverse: false,
            hidden: false,
        },
    }
}

impl Style {
    /// Paint the given text in this style. A style with neither color set
    /// paints nothing; any other style wraps the text in its escape codes,
    /// contributing the text's character count of printable width.
    pub fn paint(&self, text: String) -> (r: String)
        ensures
            r@ == style_paint_seq(*self, text@),
    {
        if self.foreground.is_none() && self.background.is_none() {
            let r = String::new();
            proof {
                assert(r@ =~= Seq::<char>::empty());
            }
            r
        } else {
            let sp = style_ansi_exec(self);
            ansi_paint(&sp, text.as_str())
        }
    }
}

impl AllStyles {
    /// Paint the text in whichever half of the pair the tab's state picks.
    pub fn paint(&self, msg: String, is_active: bool) -> (r: String)
        ensures
            is_active ==> r@ == style_paint_seq(self.active, msg@),
            !is_active ==> r@ == style_paint_seq(self.inactive, msg@),
    {
        if is_active {
            self.active.paint(msg)
        } else {
            self.inactive.paint(msg)
        }
    }
}

} // verus!
