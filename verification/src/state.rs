//! The engine's state machine: one function from state and host event to
//! new state and requested host action. The host performs the actions
//! (re-render, switch tab) and hands back the next event.

use vstd::prelude::*;
use vstd::string::StrSliceExecFns;
use vstd::string::StringExecFns;
use crate::line::{cat_parts, lemma_cat_parts_push, prefix_views, layout_shape, sn_view, sum_lens, tab_line, views, LinePart, LinePartV};
use crate::segment::{
    rendered_len, rendered_seq, resolved_theme, Segment, SegmentConfig, SegmentConfigV, SegmentV,
};
use crate::style::{transparent_palette, Palette};
use crate::tab::{focus_spec, get_tab_to_focus, Tab, TabV};

verus! {

/// The interface modes the engine distinguishes; only the tab-rename mode
/// changes what is rendered.
#[derive(Clone, Copy, Debug, PartialEq, Eq, Structural)]
pub enum InputMode {
    Normal,
    Locked,
    Resize,
    Pane,
    Move,
    Tab,
    Scroll,
    Search,
    RenameTab,
    RenamePane,
    Session,
    Tmux,
}

/// What the host reports on a mode or palette change.
#[derive(Debug, PartialEq)]
pub struct ModeInfo {
    pub mode: InputMode,
    pub palette: Palette,
    pub session_name: Option<String>,
    pub hide_session_name: bool,
}

/// The mathematical image of a mode report.
#[verifier::ext_equal]
pub ghost struct ModeInfoV {
    pub mode: InputMode,
    pub palette: Palette,
    pub session_name: Option<Seq<char>>,
    pub hide_session_name: bool,
}

impl View for ModeInfo {
    type V = ModeInfoV;

    open spec fn view(&self) -> ModeInfoV {
        ModeInfoV {
            mode: self.mode,
            palette: self.palette,
            session_name: match self.session_name {
                Some(ref s) => Some(s@),
                None => None,
            },
            hide_session_name: self.hide_session_name,
        }
    }
}

impl Default for ModeInfo {
    fn default() -> (r: Self)
        ensures
            r@.mode == InputMode::Normal,
            r@.palette == transparent_palette(),
            r@.session_name is None,
            r@.hide_session_name == false,
    {
        ModeInfo {
            mode: InputMode::Normal,
            palette: Palette::default(),
            session_name: None,
            hide_session_name: false,
        }
    }
}

/// A pointer gesture.
#[derive(Clone, Copy, Debug)]
pub enum Mouse {
    /// A left click at (row, column).
    LeftClick(usize, usize),
    /// Scroll up by some amount.
    ScrollUp(usize),
    /// Scroll down by some amount.
    ScrollDown(usize),
    /// Any other gesture; ignored.
    Other,
}

/// One host event.
#[derive(Debug)]
pub enum Event {
    /// The interface mode, palette or session description changed.
    ModeUpdate(ModeInfo),
    /// A fresh snapshot of the open tabs.
    TabUpdate(Vec<Tab>),
    /// A pointer gesture.
    Mouse(Mouse),
}

/// What one event's handling asks of the host: whether a redraw is needed,
/// which tab to make active (1-based), and whether the snapshot lacked an
/// active tab — a condition the host should report; that render cycle is
/// skipped and the stale layout retained.
#[derive(Debug, PartialEq, Eq)]
pub struct UpdateOutcome {
    pub should_render: bool,
    pub switch_to: Option<usize>,
    pub missing_active: bool,
}

/// The index of the first active tab at or after `k`, or -1 if none is.
pub open spec fn first_active_from(s: Seq<TabV>, k: int) -> int
    decreases s.len() - k,
{
    if k < 0 || k >= s.len() {
        -1
    } else if s[k].active {
        k
    } else {
        first_active_from(s, k + 1)
    }
}

/// The views of a sequence of tabs.
pub open spec fn tabs_views(s: Seq<Tab>) -> Seq<TabV> {
    s.map_values(|t: Tab| t@)
}

/// Find the first active tab of a snapshot.
pub fn find_first_active(tabs: &Vec<Tab>) -> (r: Option<usize>)
    ensures
        match r {
            Some(i) => first_active_from(tabs_views(tabs@), 0) == i && i < tabs@.len(),
            None => first_active_from(tabs_views(tabs@), 0) == -1,
        },
{
    let ghost ts = tabs_views(tabs@);
    let n = tabs.len();
    let mut k: usize = 0;
    while k < n
        invariant
            k <= n,
            n == tabs@.len(),
            ts == tabs_views(tabs@),
            first_active_from(ts, 0) == first_active_from(ts, k as int),
        decreases n - k,
    {
        proof {
            assert(ts[k as int] == tabs@[k as int]@);
        }
        if tabs[k].active {
            return Some(k);
        }
        k = k + 1;
    }
    None
}

/// Character-for-character string equality.
pub fn str_eq(a: &str, b: &str) -> (r: bool)
    ensures
        r == (a@ == b@),
{
    let n = a.unicode_len();
    let m = b.unicode_len();
    if n != m {
        return false;
    }
    let mut i: usize = 0;
    while i < n
        invariant
            i <= n,
            n == a@.len(),
            n == b@.len(),
            forall|j: int| 0 <= j < i ==> a@[j] == b@[j],
        decreases n - i,
    {
        if a.get_char(i) != b.get_char(i) {
            return false;
        }
        i = i + 1;
    }
    proof {
        assert(a@ =~= b@);
    }
    true
}

/// Equality of optional strings.
pub fn opt_str_eq(a: &Option<String>, b: &Option<String>) -> (r: bool)
    ensures
        r == (match (a, b) {
            (Some(x), Some(y)) => x@ == y@,
            (None, None) => true,
            _ => false,
        }),
{
    match (a, b) {
        (Some(x), Some(y)) => str_eq(x.as_str(), y.as_str()),
        (None, None) => true,
        _ => false,
    }
}

/// Equality of mode reports.
pub fn mode_info_eq(a: &ModeInfo, b: &ModeInfo) -> (r: bool)
    ensures
        r == (a@ == b@),
{
    let r = a.mode == b.mode && a.palette == b.palette && a.hide_session_name
        == b.hide_session_name && opt_str_eq(&a.session_name, &b.session_name);
    proof {
        if r {
            assert(a@ =~= b@);
        }
    }
    r
}

/// Equality of two u16 lists.
fn u16s_eq(a: &Vec<u16>, b: &Vec<u16>) -> (r: bool)
    ensures
        r == (a@ == b@),
{
    let n = a.len();
    if n != b.len() {
        return false;
    }
    let mut i: usize = 0;
    while i < n
        invariant
            i <= n,
            n == a@.len(),
            n == b@.len(),
            forall|j: int| 0 <= j < i ==> a@[j] == b@[j],
        decreases n - i,
    {
        if a[i] != b[i] {
            return false;
        }
        i = i + 1;
    }
    proof {
        assert(a@ =~= b@);
    }
    true
}

/// Equality of two tabs, by every reported field.
pub fn tab_eq(a: &Tab, b: &Tab) -> (r: bool)
    ensures
        r == (a@ == b@),
{
    let r = a.position == b.position && a.active == b.active && a.is_sync_panes_active
        == b.is_sync_panes_active && str_eq(a.name.as_str(), b.name.as_str()) && u16s_eq(
        &a.other_focused_clients,
        &b.other_focused_clients,
    );
    proof {
        if r {
            assert(a@ =~= b@);
        }
    }
    r
}

/// Equality of two tab snapshots.
pub fn tabs_eq(a: &Vec<Tab>, b: &Vec<Tab>) -> (r: bool)
    ensures
        r == (tabs_views(a@) == tabs_views(b@)),
{
    let n = a.len();
    if n != b.len() {
        proof {
            assert(tabs_views(a@).len() != tabs_views(b@).len());
        }
        return false;
    }
    let mut i: usize = 0;
    while i < n
        invariant
            i <= n,
            n == a@.len(),
            n == b@.len(),
            forall|j: int| 0 <= j < i ==> a@[j]@ == b@[j]@,
        decreases n - i,
    {
        if !tab_eq(&a[i], &b[i]) {
            proof {
                assert(tabs_views(a@)[i as int] == a@[i as int]@);
                assert(tabs_views(b@)[i as int] == b@[i as int]@);
            }
            return false;
        }
        i = i + 1;
    }
    proof {
        assert(tabs_views(a@) =~= tabs_views(b@));
    }
    true
}

/// The view of the stored configuration: an absent or undecodable one acts
/// as the empty configuration.
pub open spec fn stored_config_view(o: Option<SegmentConfig>) -> SegmentConfigV {
    match o {
        Some(c) => c@,
        None => SegmentConfigV {
            global_style: None,
            start_separator: None,
            tab_name: None,
            clients_template: None,
            sync_template: None,
            end_separator: None,
        },
    }
}

impl SegmentConfig {
    /// An exact copy of this configuration.
    pub fn duplicate(&self) -> (r: Self)
        ensures
            r@ == self@,
    {
        let r = SegmentConfig {
            global_style: self.global_style,
            start_separator: match &self.start_separator {
                Some(p) => Some(p.duplicate()),
                None => None,
            },
            tab_name: match &self.tab_name {
                Some(p) => Some(p.duplicate()),
                None => None,
            },
            clients_template: match &self.clients_template {
                Some(p) => Some(p.duplicate()),
                None => None,
            },
            sync_template: match &self.sync_template {
                Some(p) => Some(p.duplicate()),
                None => None,
            },
            end_separator: match &self.end_separator {
                Some(p) => Some(p.duplicate()),
                None => None,
            },
        };
        proof {
            assert(r@ =~= self@);
        }
        r
    }
}

/// The engine's whole state: the last tab snapshot, the 1-based index of
/// the active tab, the last mode report, the last produced layout (what the
/// click mapper reads), the decoded user configuration, and the cached
/// resolved theme — absent until the first mode event, rebuilt on each.
pub struct State {
    pub tabs: Vec<Tab>,
    pub active_tab_idx: usize,
    pub mode_info: ModeInfo,
    pub tab_line: Vec<LinePart>,
    pub config: Option<SegmentConfig>,
    pub ribbon_theme: Option<Segment>,
}

impl Default for State {
    fn default() -> (r: Self)
        ensures
            r.tabs@.len() == 0,
            r.active_tab_idx == 0,
            r.mode_info@.mode == InputMode::Normal,
            r.mode_info@.session_name is None,
            r.tab_line@.len() == 0,
            r.config is None,
            r.ribbon_theme is None,
    {
        State {
            tabs: Vec::new(),
            active_tab_idx: 0,
            mode_info: ModeInfo::default(),
            tab_line: Vec::new(),
            config: None,
            ribbon_theme: None,
        }
    }
}

impl State {
    /// Store the decoded user configuration; the host decodes it once at
    /// startup and hands it over.
    pub fn load(&mut self, configuration: Option<SegmentConfig>)
        ensures
            final(self).config == configuration,
            final(self).tabs == old(self).tabs,
            final(self).active_tab_idx == old(self).active_tab_idx,
            final(self).mode_info == old(self).mode_info,
            final(self).tab_line == old(self).tab_line,
            final(self).ribbon_theme == old(self).ribbon_theme,
    {
        self.config = configuration;
    }

    /// The tabs before the active one, in order.
    pub fn tabs_before_active(&self) -> (r: Vec<Tab>)
        requires
            1 <= self.active_tab_idx <= self.tabs@.len(),
        ensures
            tabs_views(r@) == tabs_views(self.tabs@).take(self.active_tab_idx - 1),
    {
        let cut = self.active_tab_idx - 1;
        let mut r: Vec<Tab> = Vec::new();
        let mut i: usize = 0;
        while i < cut
            invariant
                i <= cut,
                cut < self.tabs@.len(),
                tabs_views(r@) =~= tabs_views(self.tabs@).take(i as int),
            decreases cut - i,
        {
            let ghost old_r = r@;
            r.push(self.tabs[i].duplicate());
            proof {
                assert(tabs_views(r@) =~= tabs_views(old_r).push(self.tabs@[i as int]@));
                assert(tabs_views(self.tabs@).take(i + 1) =~= tabs_views(self.tabs@).take(
                    i as int,
                ).push(tabs_views(self.tabs@)[i as int]));
                assert(tabs_views(self.tabs@)[i as int] == self.tabs@[i as int]@);
            }
            i = i + 1;
        }
        r
    }

    /// The active tab itself.
    pub fn active_tab(&self) -> (r: &Tab)
        requires
            1 <= self.active_tab_idx <= self.tabs@.len(),
        ensures
            r@ == tabs_views(self.tabs@)[self.active_tab_idx - 1],
    {
        proof {
            assert(tabs_views(self.tabs@)[self.active_tab_idx - 1] == self.tabs@[self.active_tab_idx
                - 1]@);
        }
        &self.tabs[self.active_tab_idx - 1]
    }

    /// The tabs after the active one, in order.
    pub fn tabs_after_active(&self) -> (r: Vec<Tab>)
        requires
            1 <= self.active_tab_idx <= self.tabs@.len(),
        ensures
            tabs_views(r@) == tabs_views(self.tabs@).skip(self.active_tab_idx as int),
    {
        let n = self.tabs.len();
        let mut r: Vec<Tab> = Vec::new();
        let mut i: usize = self.active_tab_idx;
        proof {
            assert(tabs_views(self.tabs@).subrange(
                self.active_tab_idx as int,
                self.active_tab_idx as int,
            ) =~= Seq::<TabV>::empty());
        }
        while i < n
            invariant
                self.active_tab_idx <= i <= n,
                n == self.tabs@.len(),
                tabs_views(r@) =~= tabs_views(self.tabs@).subrange(
                    self.active_tab_idx as int,
                    i as int,
                ),
            decreases n - i,
        {
            let ghost old_r = r@;
            r.push(self.tabs[i].duplicate());
            proof {
                assert(tabs_views(r@) =~= tabs_views(old_r).push(self.tabs@[i as int]@));
                assert(tabs_views(self.tabs@).subrange(self.active_tab_idx as int, i + 1)
                    =~= tabs_views(self.tabs@).subrange(self.active_tab_idx as int, i as int).push(
                    tabs_views(self.tabs@)[i as int],
                ));
                assert(tabs_views(self.tabs@)[i as int] == self.tabs@[i as int]@);
            }
            i = i + 1;
        }
        proof {
            assert(tabs_views(self.tabs@).subrange(self.active_tab_idx as int, n as int)
                =~= tabs_views(self.tabs@).skip(self.active_tab_idx as int));
        }
        r
    }

    /// Handle one host event: update the state and say what the host
    /// should do. A mode report rebuilds the cached theme from the stored
    /// configuration and the new palette. A tab snapshot with an active tab
    /// replaces the stored one; a snapshot without one is only reported. A
    /// left click asks for the clicked tab (if any and not already active);
    /// scrolling asks for the neighboring tab, clamped to the first and
    /// last tab.
    pub fn update(&mut self, event: Event) -> (r: UpdateOutcome)
        ensures
            match event {
                Event::ModeUpdate(mi) => {
                    &&& final(self).mode_info@ == mi@
                    &&& final(self).ribbon_theme is Some
                    &&& final(self).ribbon_theme.unwrap()@ == resolved_theme(
                        stored_config_view(old(self).config),
                        mi@.palette,
                    )
                    &&& final(self).tabs == old(self).tabs
                    &&& final(self).active_tab_idx == old(self).active_tab_idx
                    &&& final(self).tab_line == old(self).tab_line
                    &&& final(self).config == old(self).config
                    &&& r.should_render == (old(self).mode_info@ != mi@)
                    &&& r.switch_to is None
                    &&& r.missing_active == false
                },
                Event::TabUpdate(tabs) => {
                    if first_active_from(tabs_views(tabs@), 0) >= 0 {
                        &&& final(self).tabs == tabs
                        &&& final(self).active_tab_idx == first_active_from(tabs_views(tabs@), 0) + 1
                        &&& r.should_render == (old(self).active_tab_idx != first_active_from(
                            tabs_views(tabs@),
                            0,
                        ) + 1 || tabs_views(old(self).tabs@) != tabs_views(tabs@))
                        &&& r.switch_to is None
                        &&& r.missing_active == false
                        &&& final(self).mode_info == old(self).mode_info
                        &&& final(self).tab_line == old(self).tab_line
                        &&& final(self).config == old(self).config
                        &&& final(self).ribbon_theme == old(self).ribbon_theme
                    } else {
                        &&& *final(self) == *old(self)
                        &&& r.should_render == false
                        &&& r.switch_to is None
                        &&& r.missing_active == true
                    }
                },
                Event::Mouse(m) => {
                    &&& *final(self) == *old(self)
                    &&& r.should_render == false
                    &&& r.missing_active == false
                    &&& match m {
                        Mouse::LeftClick(_line, col) => r.switch_to == focus_spec(
                            views(old(self).tab_line@),
                            old(self).active_tab_idx,
                            col as int,
                        ),
                        Mouse::ScrollUp(_amount) => r.switch_to == Some(
                            if old(self).active_tab_idx < old(self).tabs@.len() {
                                (old(self).active_tab_idx + 1) as usize
                            } else {
                                old(self).tabs@.len() as usize
                            },
                        ),
                        Mouse::ScrollDown(_amount) => r.switch_to == Some(
                            if old(self).active_tab_idx >= 2 {
                                (old(self).active_tab_idx - 1) as usize
                            } else {
                                1usize
                            },
                        ),
                        Mouse::Other => r.switch_to is None,
                    }
                },
            },
    {
        match event {
            Event::ModeUpdate(mi) => {
                let changed = !mode_info_eq(&self.mode_info, &mi);
                let cfg = match &self.config {
                    Some(c) => c.duplicate(),
                    None => SegmentConfig::default(),
                };
                let seg = Segment::from_config(cfg, &mi.palette);
                self.ribbon_theme = Some(seg);
                self.mode_info = mi;
                UpdateOutcome { should_render: changed, switch_to: None, missing_active: false }
            },
            Event::TabUpdate(tabs) => {
                match find_first_active(&tabs) {
                    Some(i) => {
                        let n = tabs.len();
                        proof {
                            assert(i < n);
                        }
                        let changed = self.active_tab_idx != i + 1 || !tabs_eq(&self.tabs, &tabs);
                        self.active_tab_idx = i + 1;
                        self.tabs = tabs;
                        UpdateOutcome {
                            should_render: changed,
                            switch_to: None,
                            missing_active: false,
                        }
                    },
                    None => UpdateOutcome {
                        should_render: false,
                        switch_to: None,
                        missing_active: true,
                    },
                }
            },
            Event::Mouse(m) => {
                match m {
                    Mouse::LeftClick(_line, col) => {
                        let t = get_tab_to_focus(&self.tab_line, self.active_tab_idx, col);
                        UpdateOutcome { should_render: false, switch_to: t, missing_active: false }
                    },
                    Mouse::ScrollUp(_amount) => {
                        let target = if self.active_tab_idx < self.tabs.len() {
                            self.active_tab_idx + 1
                        } else {
                            self.tabs.len()
                        };
                        UpdateOutcome {
                            should_render: false,
                            switch_to: Some(target),
                            missing_active: false,
                        }
                    },
                    Mouse::ScrollDown(_amount) => {
                        let target = if self.active_tab_idx >= 2 {
                            self.active_tab_idx - 1
                        } else {
                            1
                        };
                        UpdateOutcome {
                            should_render: false,
                            switch_to: Some(target),
                            missing_active: false,
                        }
                    },
                    Mouse::Other => UpdateOutcome {
                        should_render: false,
                        switch_to: None,
                        missing_active: false,
                    },
                }
            },
        }
    }
}

/// Every tab of a snapshot stands at its 1-based index.
pub open spec fn tabs_positioned(ts: Seq<TabV>) -> bool {
    forall|i: int| 0 <= i < ts.len() ==> (#[trigger] ts[i]).position == i + 1
}

/// The fragments a snapshot renders to under a theme: one per tab, in
/// order, tagged with the tab's position; the active tab's label shows the
/// edit placeholder while the interface is renaming a tab.
pub open spec fn rendered_tab_views(
    seg: SegmentV,
    ts: Seq<TabV>,
    mode: InputMode,
    p: Palette,
) -> Seq<LinePartV> {
    Seq::new(
        ts.len(),
        |i: int|
            LinePartV {
                part: rendered_seq(seg, ts[i], ts[i].active && mode == InputMode::RenameTab, p),
                len: rendered_len(seg, ts[i], ts[i].active && mode == InputMode::RenameTab, p),
                tab_index: Some(ts[i].position),
            },
    )
}

/// Whether a state can render: a non-empty snapshot whose tabs stand at
/// their positions, a valid active index naming an active tab, and a
/// resolved theme.
pub open spec fn render_ready(s: State) -> bool {
    &&& s.tabs@.len() > 0
    &&& s.ribbon_theme is Some
    &&& tabs_positioned(tabs_views(s.tabs@))
    &&& 1 <= s.active_tab_idx <= s.tabs@.len()
    &&& tabs_views(s.tabs@)[s.active_tab_idx - 1].active
}

impl State {
    /// One render cycle: lay the rendered tabs out for a terminal of
    /// `cols` columns (one column is held back) and return the styled row
    /// to write, replacing the cached layout the click mapper reads. An
    /// empty snapshot, a missing theme or an inconsistent snapshot renders
    /// nothing and leaves the stale layout in place.
    #[verifier::rlimit(60)]
    pub fn render(&mut self, cols: usize) -> (r: Option<String>)
        ensures
            r is Some <==> render_ready(*old(self)),
            !render_ready(*old(self)) ==> *final(self) == *old(self),
            render_ready(*old(self)) ==> ({
                let seg = old(self).ribbon_theme.unwrap()@;
                let tvs = rendered_tab_views(
                    seg,
                    tabs_views(old(self).tabs@),
                    old(self).mode_info@.mode,
                    old(self).mode_info@.palette,
                );
                let pre = prefix_views(
                    old(self).mode_info@.session_name,
                    old(self).mode_info@.hide_session_name,
                );
                let budget = if cols >= 1 {
                    cols - 1
                } else {
                    0
                };
                &&& final(self).tabs == old(self).tabs
                &&& final(self).active_tab_idx == old(self).active_tab_idx
                &&& final(self).mode_info == old(self).mode_info
                &&& final(self).config == old(self).config
                &&& final(self).ribbon_theme == old(self).ribbon_theme
                &&& r.unwrap()@ == cat_parts(views(final(self).tab_line@))
                &&& exists|lo: int, hi: int|
                    0 <= lo <= old(self).active_tab_idx - 1 && old(self).active_tab_idx - 1 <= hi
                        < tvs.len() && #[trigger] layout_shape(
                        views(final(self).tab_line@),
                        tvs,
                        pre,
                        lo,
                        hi,
                    )
                &&& (sum_lens(pre) + 6 + tvs[old(self).active_tab_idx - 1].len <= budget
                    ==> sum_lens(views(final(self).tab_line@)) <= budget)
                &&& exists|k: int|
                    0 <= k < views(final(self).tab_line@).len() && (#[trigger] views(
                        final(self).tab_line@,
                    )[k]).tab_index == Some(old(self).active_tab_idx)
            }),
    {
        let n = self.tabs.len();
        if n == 0 {
            return None;
        }
        if self.active_tab_idx < 1 || self.active_tab_idx > n {
            return None;
        }
        if !self.tabs[self.active_tab_idx - 1].active {
            proof {
                assert(tabs_views(self.tabs@)[self.active_tab_idx - 1] == self.tabs@[
                    self.active_tab_idx - 1]@);
            }
            return None;
        }
        proof {
            assert(tabs_views(self.tabs@)[self.active_tab_idx - 1] == self.tabs@[
                self.active_tab_idx - 1]@);
        }
        let mut i: usize = 0;
        while i < n
            invariant
                i <= n,
                n == self.tabs@.len(),
                forall|j: int|
                    0 <= j < i ==> (#[trigger] tabs_views(self.tabs@)[j]).position == j + 1,
            decreases n - i,
        {
            proof {
                assert(tabs_views(self.tabs@)[i as int] == self.tabs@[i as int]@);
            }
            if self.tabs[i].position != i + 1 {
                return None;
            }
            i = i + 1;
        }
        let theme = match &self.ribbon_theme {
            Some(t) => t,
            None => {
                return None;
            },
        };
        let ghost seg_v = theme@;
        let ghost tvs = rendered_tab_views(
            seg_v,
            tabs_views(self.tabs@),
            self.mode_info@.mode,
            self.mode_info@.palette,
        );
        let renaming_mode = self.mode_info.mode == InputMode::RenameTab;
        let mut all_tabs: Vec<LinePart> = Vec::new();
        let mut i: usize = 0;
        proof {
            assert(views(all_tabs@) =~= tvs.take(0));
        }
        while i < n
            invariant
                i <= n,
                n == self.tabs@.len(),
                self.ribbon_theme is Some,
                theme == self.ribbon_theme.unwrap(),
                seg_v == theme@,
                tvs == rendered_tab_views(
                    seg_v,
                    tabs_views(self.tabs@),
                    self.mode_info@.mode,
                    self.mode_info@.palette,
                ),
                renaming_mode == (self.mode_info@.mode == InputMode::RenameTab),
                views(all_tabs@) =~= tvs.take(i as int),
            decreases n - i,
        {
            let is_ren = renaming_mode && self.tabs[i].active;
            let part = theme.style(&self.tabs[i], is_ren, &self.mode_info.palette);
            let ghost old_all = all_tabs@;
            all_tabs.push(part);
            proof {
                assert(tabs_views(self.tabs@)[i as int] == self.tabs@[i as int]@);
                assert(part@ == tvs[i as int]);
                assert(views(all_tabs@) =~= views(old_all).push(part@));
                assert(tvs.take(i + 1) =~= tvs.take(i as int).push(tvs[i as int]));
            }
            i = i + 1;
        }
        proof {
            assert(tvs.take(n as int) =~= tvs);
            assert(views(all_tabs@) == tvs);
            assert forall|j: int| 0 <= j < all_tabs@.len() implies (#[trigger] all_tabs@[
                j]).tab_index == Some((j + 1) as usize) by {
                assert(views(all_tabs@)[j] == all_tabs@[j]@);
                assert(tvs[j].tab_index == Some(tabs_views(self.tabs@)[j].position));
                assert(tabs_views(self.tabs@)[j].position == j + 1);
            }
        }
        let sess: Option<&String> = self.mode_info.session_name.as_ref();
        proof {
            assert(sn_view(sess) == self.mode_info@.session_name);
        }
        let budget: usize = if cols >= 1 {
            cols - 1
        } else {
            0
        };
        let parts = tab_line(
            sess,
            &all_tabs,
            self.active_tab_idx,
            budget,
            self.mode_info.hide_session_name,
        );
        let mut out = String::new();
        let m = parts.len();
        let mut k: usize = 0;
        proof {
            assert(out@ =~= cat_parts(views(parts@).take(0)));
        }
        while k < m
            invariant
                k <= m,
                m == parts@.len(),
                out@ == cat_parts(views(parts@).take(k as int)),
            decreases m - k,
        {
            proof {
                assert(views(parts@)[k as int] == parts@[k as int]@);
                assert(views(parts@).take(k + 1) =~= views(parts@).take(k as int).push(
                    views(parts@)[k as int],
                ));
                lemma_cat_parts_push(views(parts@).take(k as int), views(parts@)[k as int]);
            }
            out.append(parts[k].part.as_str());
            k = k + 1;
        }
        proof {
            assert(views(parts@).take(m as int) =~= views(parts@));
        }
        self.tab_line = parts;
        Some(out)
    }
}

} // verus!
