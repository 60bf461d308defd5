//! Visual segments of a rendered tab, the cascade that resolves a partial
//! user configuration into a fully populated theme, and the renderer that
//! turns one tab into a styled line fragment.

use vstd::prelude::*;
use vstd::string::StrSliceExecFns;
use vstd::string::StringExecFns;
use crate::ansi::{style_paint_seq, style_paint_width};
use crate::line::{copy_string, LinePart};
use crate::style::{all_styles_merged, lemma_style_merge_idempotent, style_merged, AllStyles, Palette, PaletteColor, Style};
use crate::tab::{badge_count, badges_seq, cat_strings, cursors, lemma_cat_strings_push, Tab, TabV};

verus! {

/// One named visual segment: its literal text (for the clients segment it
/// may hold one `{}` placeholder) and an optional style for each of the
/// owning tab's two states.
#[derive(Debug, PartialEq)]
pub struct SegmentPart {
    pub text: String,
    pub active_style: Option<Style>,
    pub inactive_style: Option<Style>,
}

/// The mathematical image of a segment part.
#[verifier::ext_equal]
pub ghost struct SegmentPartV {
    pub text: Seq<char>,
    pub active_style: Option<Style>,
    pub inactive_style: Option<Style>,
}

impl View for SegmentPart {
    type V = SegmentPartV;

    open spec fn view(&self) -> SegmentPartV {
        SegmentPartV {
            text: self.text@,
            active_style: self.active_style,
            inactive_style: self.inactive_style,
        }
    }
}

/// The fully unspecified segment part: empty text, no styles.
pub open spec fn empty_segment_part() -> SegmentPartV {
    SegmentPartV { text: Seq::<char>::empty(), active_style: None, inactive_style: None }
}

impl Default for SegmentPart {
    fn default() -> (r: Self)
        ensures
            r@ == empty_segment_part(),
    {
        let r = SegmentPart { text: String::new(), active_style: None, inactive_style: None };
        proof {
            assert(r@ =~= empty_segment_part());
        }
        r
    }
}

/// Merge two optional styles: both present merge field by field, one
/// present survives, none stays none.
pub open spec fn opt_style_merged(a: Option<Style>, b: Option<Style>) -> Option<Style> {
    match (a, b) {
        (Some(x), Some(y)) => Some(style_merged(x, y)),
        (Some(x), None) => Some(x),
        (None, Some(y)) => Some(y),
        (None, None) => None,
    }
}

/// The merge of two segment parts: the text of whichever side is non-empty
/// (the more specific side wins when both are), and the two styles merged
/// by the optional-style rule.
pub open spec fn seg_part_merged(a: SegmentPartV, b: SegmentPartV) -> SegmentPartV {
    SegmentPartV {
        text: if a.text.len() == 0 {
            b.text
        } else {
            a.text
        },
        active_style: opt_style_merged(a.active_style, b.active_style),
        inactive_style: opt_style_merged(a.inactive_style, b.inactive_style),
    }
}

/// Filling a segment part from a global style pair: both styles become
/// present, each merged over the matching half of the pair.
pub open spec fn seg_part_styled(a: SegmentPartV, s: AllStyles) -> SegmentPartV {
    SegmentPartV {
        text: a.text,
        active_style: Some(
            match a.active_style {
                Some(c) => style_merged(c, s.active),
                None => s.active,
            },
        ),
        inactive_style: Some(
            match a.inactive_style {
                Some(c) => style_merged(c, s.inactive),
                None => s.inactive,
            },
        ),
    }
}

/// The style a segment shows in the given state, fully unset if the
/// segment has none for that state.
pub open spec fn seg_theme(v: SegmentPartV, is_active: bool) -> Style {
    match (if is_active {
        v.active_style
    } else {
        v.inactive_style
    }) {
        Some(s) => s,
        None => Style { foreground: None, background: None, inverted: None },
    }
}

/// The characters a segment renders in the given state: its text painted
/// with the matching style, or the bare text when that style is absent.
pub open spec fn seg_ansi_seq(v: SegmentPartV, is_active: bool) -> Seq<char> {
    match (if is_active {
        v.active_style
    } else {
        v.inactive_style
    }) {
        Some(s) => style_paint_seq(s, v.text),
        None => v.text,
    }
}

/// The printable width a segment contributes in the given state.
pub open spec fn seg_ansi_width(v: SegmentPartV, is_active: bool) -> nat {
    match (if is_active {
        v.active_style
    } else {
        v.inactive_style
    }) {
        Some(s) => style_paint_width(s, v.text),
        None => v.text.len(),
    }
}

impl SegmentPart {
    /// A segment part holding only literal text.
    pub fn from_text(text: &str) -> (r: Self)
        ensures
            r@ == (SegmentPartV { text: text@, active_style: None, inactive_style: None }),
    {
        let r = SegmentPart {
            text: String::from_str(text),
            active_style: None,
            inactive_style: None,
        };
        proof {
            assert(r@ =~= SegmentPartV { text: text@, active_style: None, inactive_style: None });
        }
        r
    }

    /// An exact copy of this segment part.
    pub fn duplicate(&self) -> (r: Self)
        ensures
            r@ == self@,
    {
        let r = SegmentPart {
            text: copy_string(&self.text),
            active_style: self.active_style,
            inactive_style: self.inactive_style,
        };
        proof {
            assert(r@ =~= self@);
        }
        r
    }

    /// Merge this segment part with another, preferring this side's text
    /// and set style fields, and taking from `other` what is missing here.
    pub fn merge_with(&self, other: &Self) -> (r: Self)
        ensures
            r@ == seg_part_merged(self@, other@),
    {
        let text = if self.text.as_str().unicode_len() == 0 {
            copy_string(&other.text)
        } else {
            copy_string(&self.text)
        };
        let active_style = match (&self.active_style, &other.active_style) {
            (Some(a), Some(b)) => Some(a.merge_with(b)),
            (Some(a), None) => Some(*a),
            (None, Some(b)) => Some(*b),
            (None, None) => None,
        };
        let inactive_style = match (&self.inactive_style, &other.inactive_style) {
            (Some(a), Some(b)) => Some(a.merge_with(b)),
            (Some(a), None) => Some(*a),
            (None, Some(b)) => Some(*b),
            (None, None) => None,
        };
        let r = SegmentPart { text, active_style, inactive_style };
        proof {
            assert(r@ =~= seg_part_merged(self@, other@));
        }
        r
    }

    /// Merge this segment's styles over a global style pair, leaving both
    /// of its styles fully present.
    pub fn merge_with_style(&self, styles: &AllStyles) -> (r: Self)
        ensures
            r@ == seg_part_styled(self@, *styles),
    {
        let active_style = match &self.active_style {
            Some(c) => Some(c.merge_with(&styles.active)),
            None => Some(styles.active),
        };
        let inactive_style = match &self.inactive_style {
            Some(c) => Some(c.merge_with(&styles.inactive)),
            None => Some(styles.inactive),
        };
        let r = SegmentPart { text: copy_string(&self.text), active_style, inactive_style };
        proof {
            assert(r@ =~= seg_part_styled(self@, *styles));
        }
        r
    }

    /// The style this segment currently shows for the given state.
    pub fn current_theme(&self, is_active: bool) -> (r: Style)
        ensures
            r == seg_theme(self@, is_active),
    {
        let chosen = if is_active {
            self.active_style
        } else {
            self.inactive_style
        };
        match chosen {
            Some(s) => s,
            None => Style { foreground: None, background: None, inverted: None },
        }
    }

    /// Render this segment's text for the given state, together with the
    /// printable width it contributes.
    pub fn to_ansi_with_width(&self, is_active: bool) -> (r: (String, usize))
        ensures
            r.0@ == seg_ansi_seq(self@, is_active),
            r.1 as nat == seg_ansi_width(self@, is_active),
    {
        let chosen = if is_active {
            self.active_style
        } else {
            self.inactive_style
        };
        match chosen {
            Some(s) => {
                let w: usize = if s.foreground.is_none() && s.background.is_none() {
                    0
                } else {
                    self.text.as_str().unicode_len()
                };
                (s.paint(copy_string(&self.text)), w)
            },
            None => {
                let w = self.text.as_str().unicode_len();
                (copy_string(&self.text), w)
            },
        }
    }

    /// Render this segment's text for the given state.
    pub fn to_ansi(&self, is_active: bool) -> (r: String)
        ensures
            r@ == seg_ansi_seq(self@, is_active),
    {
        let (s, _w) = self.to_ansi_with_width(is_active);
        s
    }
}

/// The user-supplied theme configuration: every piece optional, every
/// unset piece falling through the cascade.
#[derive(Debug, PartialEq)]
pub struct SegmentConfig {
    pub global_style: Option<AllStyles>,
    pub start_separator: Option<SegmentPart>,
    pub tab_name: Option<SegmentPart>,
    pub clients_template: Option<SegmentPart>,
    pub sync_template: Option<SegmentPart>,
    pub end_separator: Option<SegmentPart>,
}

/// The mathematical image of a configuration.
#[verifier::ext_equal]
pub ghost struct SegmentConfigV {
    pub global_style: Option<AllStyles>,
    pub start_separator: Option<SegmentPartV>,
    pub tab_name: Option<SegmentPartV>,
    pub clients_template: Option<SegmentPartV>,
    pub sync_template: Option<SegmentPartV>,
    pub end_separator: Option<SegmentPartV>,
}

/// The view of an optional segment part.
pub open spec fn opt_part_view(o: Option<SegmentPart>) -> Option<SegmentPartV> {
    match o {
        Some(p) => Some(p@),
        None => None,
    }
}

impl View for SegmentConfig {
    type V = SegmentConfigV;

    open spec fn view(&self) -> SegmentConfigV {
        SegmentConfigV {
            global_style: self.global_style,
            start_separator: opt_part_view(self.start_separator),
            tab_name: opt_part_view(self.tab_name),
            clients_template: opt_part_view(self.clients_template),
            sync_template: opt_part_view(self.sync_template),
            end_separator: opt_part_view(self.end_separator),
        }
    }
}

impl Default for SegmentConfig {
    /// The empty configuration: everything falls through to the built-in
    /// defaults.
    fn default() -> (r: Self)
        ensures
            r@.global_style is None,
            r@.start_separator is None,
            r@.tab_name is None,
            r@.clients_template is None,
            r@.sync_template is None,
            r@.end_separator is None,
    {
        SegmentConfig {
            global_style: None,
            start_separator: None,
            tab_name: None,
            clients_template: None,
            sync_template: None,
            end_separator: None,
        }
    }
}

/// The fully resolved theme: every segment populated for both states.
#[derive(Debug, PartialEq)]
pub struct Segment {
    pub start_separator: SegmentPart,
    pub tab_name: AllStyles,
    pub clients_template: SegmentPart,
    pub sync_template: SegmentPart,
    pub end_separator: SegmentPart,
}

/// The mathematical image of a resolved theme.
#[verifier::ext_equal]
pub ghost struct SegmentV {
    pub start_separator: SegmentPartV,
    pub tab_name: AllStyles,
    pub clients_template: SegmentPartV,
    pub sync_template: SegmentPartV,
    pub end_separator: SegmentPartV,
}

impl View for Segment {
    type V = SegmentV;

    open spec fn view(&self) -> SegmentV {
        SegmentV {
            start_separator: self.start_separator@,
            tab_name: self.tab_name,
            clients_template: self.clients_template@,
            sync_template: self.sync_template@,
            end_separator: self.end_separator@,
        }
    }
}

/// The hard-coded defaults derived from the live palette: active segments
/// get the accent background, inactive ones the neutral foreground color,
/// and neither is inverted.
pub open spec fn builtin_styles(p: Palette) -> AllStyles {
    AllStyles {
        active: Style {
            foreground: Some(p.black),
            background: Some(p.green),
            inverted: Some(false),
        },
        inactive: Style {
            foreground: Some(p.black),
            background: Some(p.fg),
            inverted: Some(false),
        },
    }
}

/// The template default of the clients segment.
pub open spec fn template_clients() -> SegmentPartV {
    SegmentPartV { text: " [{}]"@, active_style: None, inactive_style: None }
}

/// The template default of the sync-indicator segment.
pub open spec fn template_sync() -> SegmentPartV {
    SegmentPartV { text: " (S)"@, active_style: None, inactive_style: None }
}

/// The template default of the end separator: no text, but both styles
/// inverted so that the separator visually closes a highlighted block.
pub open spec fn template_end() -> SegmentPartV {
    SegmentPartV {
        text: Seq::<char>::empty(),
        active_style: Some(
            Style { foreground: None, background: None, inverted: Some(true) },
        ),
        inactive_style: Some(
            Style { foreground: None, background: None, inverted: Some(true) },
        ),
    }
}

/// The global style pair the cascade bottoms out in: the user's global
/// block merged over the palette-derived built-ins.
pub open spec fn resolved_global(c: SegmentConfigV, p: Palette) -> AllStyles {
    match c.global_style {
        Some(g) => all_styles_merged(g, builtin_styles(p)),
        None => builtin_styles(p),
    }
}

/// One segment resolved through the whole cascade: the user's override,
/// then the segment-type template, then the global pair.
pub open spec fn resolved_part(
    o: Option<SegmentPartV>,
    t: SegmentPartV,
    g: AllStyles,
) -> SegmentPartV {
    seg_part_styled(
        seg_part_merged(
            match o {
                Some(v) => v,
                None => empty_segment_part(),
            },
            t,
        ),
        g,
    )
}

/// The whole configuration resolved into a theme.
pub open spec fn resolved_theme(c: SegmentConfigV, p: Palette) -> SegmentV {
    let g = resolved_global(c, p);
    let name_part = resolved_part(c.tab_name, empty_segment_part(), g);
    SegmentV {
        start_separator: resolved_part(c.start_separator, empty_segment_part(), g),
        tab_name: AllStyles {
            active: name_part.active_style.unwrap(),
            inactive: name_part.inactive_style.unwrap(),
        },
        clients_template: resolved_part(c.clients_template, template_clients(), g),
        sync_template: resolved_part(c.sync_template, template_sync(), g),
        end_separator: resolved_part(c.end_separator, template_end(), g),
    }
}

/// Resolve one optional segment part through template and global styles.
fn resolved_part_exec(o: &Option<SegmentPart>, template: &SegmentPart, g: &AllStyles) -> (r:
    SegmentPart)
    ensures
        r@ == resolved_part(opt_part_view(*o), template@, *g),
{
    let base = match o {
        Some(p) => p.duplicate(),
        None => SegmentPart::default(),
    };
    base.merge_with(template).merge_with_style(g)
}

impl Segment {
    /// Resolve a user configuration against the live palette: every unset
    /// field falls silently through segment override, segment-type
    /// template, global style block, and the palette-derived built-ins, in
    /// that order of preference. A partial configuration never errs.
    pub fn from_config(config: SegmentConfig, default_colors: &Palette) -> (r: Self)
        ensures
            r@ == resolved_theme(config@, *default_colors),
    {
        let builtin = AllStyles {
            active: Style {
                foreground: Some(default_colors.black),
                background: Some(default_colors.green),
                inverted: Some(false),
            },
            inactive: Style {
                foreground: Some(default_colors.black),
                background: Some(default_colors.fg),
                inverted: Some(false),
            },
        };
        let g = match &config.global_style {
            Some(user) => user.merge_with(&builtin),
            None => builtin,
        };
        let name_part = resolved_part_exec(&config.tab_name, &SegmentPart::default(), &g);
        proof {
            assert(name_part@.active_style is Some);
            assert(name_part@.inactive_style is Some);
        }
        let tab_name = AllStyles {
            active: match name_part.active_style {
                Some(s) => s,
                None => Style { foreground: None, background: None, inverted: None },
            },
            inactive: match name_part.inactive_style {
                Some(s) => s,
                None => Style { foreground: None, background: None, inverted: None },
            },
        };
        let end_template = SegmentPart {
            text: String::new(),
            active_style: Some(
                Style { foreground: None, background: None, inverted: Some(false) }.inverted(),
            ),
            inactive_style: Some(
                Style { foreground: None, background: None, inverted: Some(false) }.inverted(),
            ),
        };
        proof {
            assert(end_template@ =~= template_end());
        }
        let clients_tpl = SegmentPart::from_text(" [{}]");
        let sync_tpl = SegmentPart::from_text(" (S)");
        let r = Segment {
            start_separator: resolved_part_exec(
                &config.start_separator,
                &SegmentPart::default(),
                &g,
            ),
            tab_name,
            clients_template: resolved_part_exec(&config.clients_template, &clients_tpl, &g),
            sync_template: resolved_part_exec(&config.sync_template, &sync_tpl, &g),
            end_separator: resolved_part_exec(&config.end_separator, &end_template, &g),
        };
        proof {
            assert(r@ =~= resolved_theme(config@, *default_colors));
        }
        r
    }
}

/// Merging a segment part with itself changes nothing: the text and each
/// optional style survive exactly as they are.
pub proof fn lemma_seg_part_merge_idempotent(a: SegmentPartV)
    ensures
        seg_part_merged(a, a) == a,
{
    match a.active_style {
        Some(x) => lemma_style_merge_idempotent(x),
        None => {},
    }
    match a.inactive_style {
        Some(x) => lemma_style_merge_idempotent(x),
        None => {},
    }
    assert(seg_part_merged(a, a) =~= a);
}

/// Merge specificity for segment parts: the specific side's non-empty text
/// survives and empty text falls through, an absent style falls through
/// whole, and two present styles merge by the style rule, the specific
/// side's set fields winning.
pub proof fn lemma_seg_part_merge_specificity(a: SegmentPartV, b: SegmentPartV)
    ensures
        a.text.len() > 0 ==> seg_part_merged(a, b).text == a.text,
        a.text.len() == 0 ==> seg_part_merged(a, b).text == b.text,
        a.active_style is None ==> seg_part_merged(a, b).active_style == b.active_style,
        a.active_style is Some && b.active_style is None ==> seg_part_merged(a, b).active_style
            == a.active_style,
        a.active_style is Some && b.active_style is Some ==> seg_part_merged(a, b).active_style
            == Some(style_merged(a.active_style.unwrap(), b.active_style.unwrap())),
        a.inactive_style is None ==> seg_part_merged(a, b).inactive_style == b.inactive_style,
        a.inactive_style is Some && b.inactive_style is None ==> seg_part_merged(
            a,
            b,
        ).inactive_style == a.inactive_style,
        a.inactive_style is Some && b.inactive_style is Some ==> seg_part_merged(
            a,
            b,
        ).inactive_style == Some(
            style_merged(a.inactive_style.unwrap(), b.inactive_style.unwrap()),
        ),
{
}

/// The position of the first `{}` placeholder at or after `k`, or -1 when
/// there is none.
pub open spec fn find_ph_from(s: Seq<char>, k: int) -> int
    decreases s.len() - k,
{
    if k < 0 || k + 2 > s.len() {
        -1
    } else if s[k] == '{' && s[k + 1] == '}' {
        k
    } else {
        find_ph_from(s, k + 1)
    }
}

/// Find the first `{}` placeholder of a template text.
pub fn find_placeholder(s: &str) -> (r: Option<usize>)
    ensures
        match r {
            Some(i) => find_ph_from(s@, 0) == i,
            None => find_ph_from(s@, 0) == -1,
        },
{
    let n = s.unicode_len();
    let mut k: usize = 0;
    while k < n && k + 1 < n
        invariant
            n == s@.len(),
            k <= n,
            find_ph_from(s@, 0) == find_ph_from(s@, k as int),
        decreases n - k,
    {
        let c0 = s.get_char(k);
        let c1 = s.get_char(k + 1);
        if c0 == '{' && c1 == '}' {
            return Some(k);
        }
        k = k + 1;
    }
    None
}

/// A found placeholder lies within the text, with room for both braces.
pub proof fn lemma_find_ph_bounds(s: Seq<char>, k0: int)
    requires
        0 <= k0,
        find_ph_from(s, k0) >= 0,
    ensures
        k0 <= find_ph_from(s, k0),
        find_ph_from(s, k0) + 2 <= s.len(),
        s[find_ph_from(s, k0)] == '{',
        s[find_ph_from(s, k0) + 1] == '}',
    decreases s.len() - k0,
{
    if k0 + 2 > s.len() {
    } else if s[k0] == '{' && s[k0 + 1] == '}' {
    } else {
        lemma_find_ph_bounds(s, k0 + 1);
    }
}

/// Addition of widths, capped at the largest representable width.
pub open spec fn cap_add(a: nat, b: nat) -> nat {
    if a + b <= usize::MAX {
        a + b
    } else {
        usize::MAX as nat
    }
}

/// Add two widths, saturating at the largest representable width.
pub fn sat_add(a: usize, b: usize) -> (r: usize)
    ensures
        r as nat == cap_add(a as nat, b as nat),
{
    if a <= usize::MAX - b {
        a + b
    } else {
        usize::MAX
    }
}

/// The label a tab shows: a fixed edit-mode placeholder while the tab is
/// being renamed, else the tab's stored name.
pub open spec fn label_seq(tab: TabV, is_renaming: bool) -> Seq<char> {
    if is_renaming {
        "Enter name..."@
    } else {
        tab.name
    }
}

/// The half of a style pair the tab's state picks.
pub open spec fn pick_style(a: AllStyles, active: bool) -> Style {
    if active {
        a.active
    } else {
        a.inactive
    }
}

/// The characters the clients segment renders: when the tab has other
/// focused clients and the template holds a `{}` placeholder, the text
/// before the placeholder, one colored badge per mapped client, and the
/// text after it; otherwise nothing.
pub open spec fn clients_seq(tpl: SegmentPartV, tab: TabV, p: Palette) -> Seq<char> {
    if tab.other_focused_clients.len() > 0 && find_ph_from(tpl.text, 0) >= 0 {
        let i = find_ph_from(tpl.text, 0);
        let th = seg_theme(tpl, tab.active);
        style_paint_seq(th, tpl.text.subrange(0, i)) + badges_seq(tab.other_focused_clients, p)
            + style_paint_seq(th, tpl.text.subrange(i + 2, tpl.text.len() as int))
    } else {
        Seq::<char>::empty()
    }
}

/// The printable width the clients segment contributes.
pub open spec fn clients_width(tpl: SegmentPartV, tab: TabV, p: Palette) -> nat {
    if tab.other_focused_clients.len() > 0 && find_ph_from(tpl.text, 0) >= 0 {
        let i = find_ph_from(tpl.text, 0);
        let th = seg_theme(tpl, tab.active);
        cap_add(
            cap_add(
                style_paint_width(th, tpl.text.subrange(0, i)),
                badge_count(tab.other_focused_clients, p),
            ),
            style_paint_width(th, tpl.text.subrange(i + 2, tpl.text.len() as int)),
        )
    } else {
        0
    }
}

/// The characters of the sync indicator: the sync segment rendered only
/// when the tab's panes are synchronized, nothing otherwise.
pub open spec fn sync_seq(tpl: SegmentPartV, tab: TabV) -> Seq<char> {
    if tab.is_sync_panes_active {
        seg_ansi_seq(tpl, tab.active)
    } else {
        Seq::<char>::empty()
    }
}

/// The printable width of the sync indicator: zero for an unsynchronized
/// tab.
pub open spec fn sync_width(tpl: SegmentPartV, tab: TabV) -> nat {
    if tab.is_sync_panes_active {
        seg_ansi_width(tpl, tab.active)
    } else {
        0
    }
}

/// All the characters one tab renders to: start separator, label, clients
/// list, sync indicator, end separator, in that order, each styled for the
/// tab's state.
pub open spec fn rendered_seq(seg: SegmentV, tab: TabV, is_renaming: bool, p: Palette) -> Seq<
    char,
> {
    seg_ansi_seq(seg.start_separator, tab.active) + style_paint_seq(
        pick_style(seg.tab_name, tab.active),
        label_seq(tab, is_renaming),
    ) + clients_seq(seg.clients_template, tab, p) + sync_seq(seg.sync_template, tab)
        + seg_ansi_seq(seg.end_separator, tab.active)
}

/// The printable width one tab renders to: the widths of its five
/// fragments, added with saturation.
pub open spec fn rendered_len(seg: SegmentV, tab: TabV, is_renaming: bool, p: Palette) -> nat {
    cap_add(
        cap_add(
            cap_add(
                cap_add(
                    seg_ansi_width(seg.start_separator, tab.active),
                    style_paint_width(
                        pick_style(seg.tab_name, tab.active),
                        label_seq(tab, is_renaming),
                    ),
                ),
                clients_width(seg.clients_template, tab, p),
            ),
            sync_width(seg.sync_template, tab),
        ),
        seg_ansi_width(seg.end_separator, tab.active),
    )
}

impl Segment {
    /// Render one tab into a styled fragment: its five segments styled for
    /// the tab's state, tagged with the tab's 1-based position, and carrying
    /// the printable width of the visible characters — the styling escape
    /// codes count for nothing.
    pub fn style(&self, tab: &Tab, is_renaming: bool, default_palette: &Palette) -> (r: LinePart)
        ensures
            r@.tab_index == Some(tab.position),
            r@.part == rendered_seq(self@, tab@, is_renaming, *default_palette),
            r@.len == rendered_len(self@, tab@, is_renaming, *default_palette),
    {
        let active = tab.active;
        let (s1, w1) = self.start_separator.to_ansi_with_width(active);
        let name_style = if active {
            self.tab_name.active
        } else {
            self.tab_name.inactive
        };
        let label = if is_renaming {
            String::from_str("Enter name...")
        } else {
            copy_string(&tab.name)
        };
        let label_w = label.as_str().unicode_len();
        let w2: usize = if name_style.foreground.is_none() && name_style.background.is_none() {
            0
        } else {
            label_w
        };
        let s2 = name_style.paint(label);

        let mut s3 = String::new();
        let mut w3: usize = 0;
        if tab.other_focused_clients.len() > 0 {
            match find_placeholder(self.clients_template.text.as_str()) {
                Some(i) => {
                    let th = self.clients_template.current_theme(active);
                    let text = self.clients_template.text.as_str();
                    let tn = text.unicode_len();
                    proof {
                        lemma_find_ph_bounds(text@, 0);
                    }
                    let before = text.substring_char(0, i);
                    let after = text.substring_char(i + 2, tn);
                    let before_w: usize = if th.foreground.is_none() && th.background.is_none() {
                        0
                    } else {
                        before.unicode_len()
                    };
                    let after_w: usize = if th.foreground.is_none() && th.background.is_none() {
                        0
                    } else {
                        after.unicode_len()
                    };
                    let (badges, bc) = cursors(&tab.other_focused_clients, default_palette);
                    s3 = th.paint(String::from_str(before));
                    let mut bi: usize = 0;
                    let nb = badges.len();
                    let ghost s3_head = s3@;
                    while bi < nb
                        invariant
                            bi <= nb,
                            nb == badges@.len(),
                            s3@ == s3_head + cat_strings(badges@.take(bi as int)),
                        decreases nb - bi,
                    {
                        proof {
                            assert(badges@.take(bi + 1) =~= badges@.take(bi as int).push(
                                badges@[bi as int],
                            ));
                            lemma_cat_strings_push(badges@.take(bi as int), badges@[bi as int]);
                        }
                        s3.append(badges[bi].as_str());
                        bi = bi + 1;
                    }
                    proof {
                        assert(badges@.take(nb as int) =~= badges@);
                    }
                    let after_painted = th.paint(String::from_str(after));
                    s3.append(after_painted.as_str());
                    w3 = sat_add(sat_add(before_w, bc), after_w);
                },
                None => {},
            }
        }

        let (s4, w4) = if tab.is_sync_panes_active {
            self.sync_template.to_ansi_with_width(active)
        } else {
            (String::new(), 0usize)
        };
        let (s5, w5) = self.end_separator.to_ansi_with_width(active);

        let mut part = s1;
        part.append(s2.as_str());
        part.append(s3.as_str());
        part.append(s4.as_str());
        part.append(s5.as_str());
        let len = sat_add(sat_add(sat_add(sat_add(w1, w2), w3), w4), w5);
        LinePart { part, len, tab_index: Some(tab.position) }
    }
}

} // verus!
