use tab_bar::ansi::{AnsiColor, AnsiSpec};
use tab_bar::line::{tab_line, LinePart};
use tab_bar::segment::{Segment, SegmentConfig, SegmentPart};
use tab_bar::state::{Event, InputMode, ModeInfo, Mouse, State};
use tab_bar::style::{AllStyles, Palette, PaletteColor, Style};
use tab_bar::tab::{client_id_to_colors, cursors, get_clicked_line_part, get_tab_to_focus, Tab};

fn palette() -> Palette {
    Palette {
        fg: PaletteColor::EightBit(15),
        bg: PaletteColor::EightBit(0),
        black: PaletteColor::EightBit(16),
        red: PaletteColor::EightBit(1),
        green: PaletteColor::EightBit(2),
        yellow: PaletteColor::EightBit(3),
        blue: PaletteColor::EightBit(4),
        magenta: PaletteColor::EightBit(5),
        cyan: PaletteColor::EightBit(6),
        white: PaletteColor::EightBit(7),
        orange: PaletteColor::EightBit(208),
        gray: PaletteColor::EightBit(8),
        purple: PaletteColor::EightBit(129),
        gold: PaletteColor::EightBit(220),
        silver: PaletteColor::EightBit(250),
        pink: PaletteColor::EightBit(205),
        brown: PaletteColor::EightBit(94),
    }
}

fn tab(position: usize, name: &str, active: bool) -> Tab {
    Tab {
        position,
        name: name.to_string(),
        active,
        is_sync_panes_active: false,
        other_focused_clients: Vec::new(),
    }
}

fn part(text: &str, idx: Option<usize>) -> LinePart {
    LinePart { part: text.to_string(), len: text.chars().count(), tab_index: idx }
}

fn default_theme() -> Segment {
    Segment::from_config(SegmentConfig::default(), &palette())
}

// Merge idempotence on a partially and a fully specified style.
#[test]
fn style_merge_idempotent() {
    let partial = Style {
        foreground: Some(PaletteColor::EightBit(3)),
        background: None,
        inverted: Some(true),
    };
    let full = Style {
        foreground: Some(PaletteColor::Rgb(1, 2, 3)),
        background: Some(PaletteColor::Transparent),
        inverted: Some(false),
    };
    assert_eq!(partial.merge_with(&partial), partial);
    assert_eq!(full.merge_with(&full), full);
}

#[test]
fn segment_part_merge_idempotent() {
    let p = SegmentPart {
        text: "sep".to_string(),
        active_style: Some(Style {
            foreground: Some(PaletteColor::EightBit(1)),
            background: None,
            inverted: None,
        }),
        inactive_style: None,
    };
    assert_eq!(p.merge_with(&p), p);
}

// Merge specificity: fields present in the specific side survive, absent
// ones are taken from the generic side.
#[test]
fn style_merge_specificity() {
    let a = Style {
        foreground: Some(PaletteColor::EightBit(1)),
        background: None,
        inverted: Some(false),
    };
    let b = Style {
        foreground: Some(PaletteColor::EightBit(9)),
        background: Some(PaletteColor::EightBit(8)),
        inverted: Some(true),
    };
    let m = a.merge_with(&b);
    assert_eq!(m.foreground, Some(PaletteColor::EightBit(1)));
    assert_eq!(m.background, Some(PaletteColor::EightBit(8)));
    assert_eq!(m.inverted, Some(false));
}

#[test]
fn style_merge_not_commutative() {
    let a = Style {
        foreground: Some(PaletteColor::EightBit(1)),
        background: None,
        inverted: None,
    };
    let b = Style {
        foreground: Some(PaletteColor::EightBit(2)),
        background: None,
        inverted: None,
    };
    assert_ne!(a.merge_with(&b), b.merge_with(&a));
}

#[test]
fn inverted_flips_only_present_flag() {
    let unset = Style { foreground: None, background: None, inverted: None };
    assert_eq!(unset.inverted().inverted, None);
    let set = Style { foreground: None, background: None, inverted: Some(false) };
    assert_eq!(set.inverted().inverted, Some(true));
    assert_eq!(set.inverted().inverted().inverted, Some(false));
}

// Width budget: a no-elision layout never exceeds the budget.
#[test]
fn width_budget_no_elision() {
    let tabs = vec![part("aaaa", Some(1)), part("bbbb", Some(2)), part("cccc", Some(3))];
    let out = tab_line(None, &tabs, 2, 40, false);
    let total: usize = out.iter().map(|p| p.len).sum();
    assert!(total <= 40);
    assert_eq!(out.len(), 3);
    assert_eq!(out[0].tab_index, Some(1));
    assert_eq!(out[2].tab_index, Some(3));
}

#[test]
fn width_budget_with_session_prefix() {
    let tabs = vec![part("aaaa", Some(1)), part("bbbb", Some(2))];
    let name = "main".to_string();
    let out = tab_line(Some(&name), &tabs, 1, 80, false);
    // " Zellij (main) " is 15 columns wide.
    assert_eq!(out[0].tab_index, None);
    assert_eq!(out[0].len, 15);
    assert_eq!(out[0].part, " Zellij (main) ");
    let total: usize = out.iter().map(|p| p.len).sum();
    assert!(total <= 80);
}

#[test]
fn hidden_session_name_contributes_nothing() {
    let tabs = vec![part("aaaa", Some(1))];
    let name = "main".to_string();
    let out = tab_line(Some(&name), &tabs, 1, 80, true);
    assert_eq!(out.len(), 1);
    assert_eq!(out[0].tab_index, Some(1));
}

// Active-tab visibility: the active tab's fragment appears exactly once,
// even under heavy elision.
#[test]
fn active_tab_always_visible() {
    let tabs: Vec<LinePart> =
        (1..=12).map(|i| part("xxxxxxxx", Some(i))).collect();
    for active in 1..=12 {
        for width in [8usize, 14, 20, 30, 200] {
            let out = tab_line(None, &tabs, active, width, false);
            let hits =
                out.iter().filter(|p| p.tab_index == Some(active)).count();
            assert_eq!(hits, 1);
        }
    }
}

// Click round trip on a layout without elision.
#[test]
fn click_round_trip() {
    let tabs = vec![part("aaaa", Some(1)), part("bbbb", Some(2)), part("cccc", Some(3))];
    let out = tab_line(None, &tabs, 2, 100, false);
    for col in 0..4 {
        assert_eq!(get_tab_to_focus(&out, 2, col), Some(1));
    }
    for col in 4..8 {
        // Clicking the already-active tab is a no-op.
        assert_eq!(get_tab_to_focus(&out, 2, col), None);
    }
    for col in 8..12 {
        assert_eq!(get_tab_to_focus(&out, 2, col), Some(3));
    }
    // Out of range: no switch.
    assert_eq!(get_tab_to_focus(&out, 2, 12), None);
    assert_eq!(get_tab_to_focus(&out, 2, 1000), None);
}

#[test]
fn click_on_decoration_is_no_switch() {
    let tabs = vec![part("aaaa", Some(1)), part("bbbb", Some(2))];
    let name = "s".to_string();
    let out = tab_line(Some(&name), &tabs, 1, 100, false);
    // The 12-column prefix " Zellij (s) " is not clickable-to-a-tab.
    for col in 0..12 {
        assert_eq!(get_tab_to_focus(&out, 1, col), None);
    }
    assert_eq!(get_tab_to_focus(&out, 1, 12), None); // tab 1 is active
    assert_eq!(get_tab_to_focus(&out, 1, 16), Some(2));
}

#[test]
fn clicked_line_part_finds_fragment() {
    let parts = vec![part("ab", None), part("cd", Some(1))];
    let hit = get_clicked_line_part(&parts, 3);
    assert_eq!(hit.map(|p| p.tab_index), Some(Some(1)));
    assert!(get_clicked_line_part(&parts, 4).is_none());
}

// Elision symmetry: 10 tabs of 6 columns, active tab 5, 30 columns.
#[test]
fn elision_symmetry() {
    let tabs: Vec<LinePart> = (1..=10).map(|i| part("abcdef", Some(i))).collect();
    let out = tab_line(None, &tabs, 5, 30, false);
    let total: usize = out.iter().map(|p| p.len).sum();
    assert!(total <= 30);
    // Both overflow indicators are present, three columns each.
    assert_eq!(out.first().map(|p| (p.len, p.tab_index)), Some((3, None)));
    assert_eq!(out.last().map(|p| (p.len, p.tab_index)), Some((3, None)));
    // The window holds the most whole tabs that fit: four, tab 5 among them.
    let tagged: Vec<usize> = out.iter().filter_map(|p| p.tab_index).collect();
    assert_eq!(tagged, vec![3, 4, 5, 6]);
}

#[test]
fn one_sided_elision_has_one_indicator() {
    let tabs: Vec<LinePart> = (1..=10).map(|i| part("abcdef", Some(i))).collect();
    let out = tab_line(None, &tabs, 1, 30, false);
    // Nothing is elided on the left of tab 1: no left indicator.
    assert_eq!(out[0].tab_index, Some(1));
    assert_eq!(out.last().unwrap().tab_index, None);
    let total: usize = out.iter().map(|p| p.len).sum();
    assert!(total <= 30);
}

#[test]
fn degenerate_overflow_keeps_active_tab() {
    let tabs = vec![part("aaaaaaaaaa", Some(1)), part("bbbbbbbbbb", Some(2))];
    // Even a 4-column budget still shows the active tab's whole fragment.
    let out = tab_line(None, &tabs, 2, 4, false);
    let hits = out.iter().filter(|p| p.tab_index == Some(2)).count();
    assert_eq!(hits, 1);
}

// Scroll clamp: no wrap below the first or above the last tab.
#[test]
fn scroll_clamp() {
    let mut state = State::default();
    state.update(Event::TabUpdate(vec![
        tab(1, "one", true),
        tab(2, "two", false),
        tab(3, "three", false),
    ]));
    // Active is tab 1: scroll-down stays at 1.
    let down = state.update(Event::Mouse(Mouse::ScrollDown(1)));
    assert_eq!(down.switch_to, Some(1));
    state.update(Event::TabUpdate(vec![
        tab(1, "one", false),
        tab(2, "two", false),
        tab(3, "three", true),
    ]));
    // Active is the last tab: scroll-up stays there.
    let up = state.update(Event::Mouse(Mouse::ScrollUp(1)));
    assert_eq!(up.switch_to, Some(3));
    state.update(Event::TabUpdate(vec![
        tab(1, "one", false),
        tab(2, "two", true),
        tab(3, "three", false),
    ]));
    assert_eq!(state.update(Event::Mouse(Mouse::ScrollUp(1))).switch_to, Some(3));
    assert_eq!(state.update(Event::Mouse(Mouse::ScrollDown(1))).switch_to, Some(1));
}

// Sync indicator: zero width without sync, the configured text's width with.
#[test]
fn sync_indicator_width() {
    let theme = default_theme();
    let quiet = tab(1, "work", true);
    let mut synced = tab(1, "work", true);
    synced.is_sync_panes_active = true;
    let without = theme.style(&quiet, false, &palette());
    let with = theme.style(&synced, false, &palette());
    // " (S)" is four columns.
    assert_eq!(with.len, without.len + 4);
}

// Config fallback: the empty configuration resolves to the built-in
// palette-derived defaults, inverted only on the end separator.
#[test]
fn config_fallback_defaults() {
    let p = palette();
    let theme = default_theme();
    let active = Style {
        foreground: Some(p.black),
        background: Some(p.green),
        inverted: Some(false),
    };
    let inactive = Style {
        foreground: Some(p.black),
        background: Some(p.fg),
        inverted: Some(false),
    };
    assert_eq!(theme.start_separator.text, "");
    assert_eq!(theme.start_separator.active_style, Some(active));
    assert_eq!(theme.start_separator.inactive_style, Some(inactive));
    assert_eq!(theme.tab_name, AllStyles { active, inactive });
    assert_eq!(theme.clients_template.text, " [{}]");
    assert_eq!(theme.clients_template.active_style, Some(active));
    assert_eq!(theme.sync_template.text, " (S)");
    assert_eq!(theme.end_separator.text, "");
    assert_eq!(
        theme.end_separator.active_style,
        Some(Style { inverted: Some(true), ..active })
    );
    assert_eq!(
        theme.end_separator.inactive_style,
        Some(Style { inverted: Some(true), ..inactive })
    );
}

// A user global style overrides the built-ins field by field.
#[test]
fn config_global_style_overrides() {
    let p = palette();
    let config = SegmentConfig {
        global_style: Some(AllStyles {
            active: Style {
                foreground: Some(PaletteColor::Rgb(9, 9, 9)),
                background: None,
                inverted: None,
            },
            inactive: Style { foreground: None, background: None, inverted: None },
        }),
        ..SegmentConfig::default()
    };
    let theme = Segment::from_config(config, &p);
    let a = theme.tab_name.active;
    assert_eq!(a.foreground, Some(PaletteColor::Rgb(9, 9, 9)));
    assert_eq!(a.background, Some(p.green));
    assert_eq!(a.inverted, Some(false));
    assert_eq!(theme.tab_name.inactive.background, Some(p.fg));
}

// A segment override's text wins over the template's.
#[test]
fn config_segment_text_overrides_template() {
    let config = SegmentConfig {
        sync_template: Some(SegmentPart {
            text: " SYNC".to_string(),
            active_style: None,
            inactive_style: None,
        }),
        ..SegmentConfig::default()
    };
    let theme = Segment::from_config(config, &palette());
    assert_eq!(theme.sync_template.text, " SYNC");
    // Its styles still fall through to the built-ins.
    assert_eq!(theme.sync_template.active_style.unwrap().background, Some(palette().green));
}

// The paint wrapper really styles: the result is the text wrapped in
// escape codes, not the text handed back unchanged.
#[test]
fn paint_wraps_text_in_escape_codes() {
    let st = Style {
        foreground: Some(PaletteColor::EightBit(1)),
        background: Some(PaletteColor::EightBit(2)),
        inverted: None,
    };
    let painted = st.paint("hi".to_string());
    assert_ne!(painted, "hi");
    assert!(painted.contains('\u{1b}'));
    assert!(painted.contains("hi"));
}

#[test]
fn paint_with_no_colors_paints_nothing() {
    let st = Style { foreground: None, background: None, inverted: Some(true) };
    assert_eq!(st.paint("hi".to_string()), "");
}

#[test]
fn to_ansi_without_style_is_plain_text() {
    let p = SegmentPart {
        text: "plain".to_string(),
        active_style: None,
        inactive_style: None,
    };
    assert_eq!(p.to_ansi(true), "plain");
    assert_eq!(p.to_ansi(false), "plain");
}

#[test]
fn client_cursors_skip_unmapped_clients() {
    let p = palette();
    assert!(client_id_to_colors(1, &p).is_some());
    assert!(client_id_to_colors(10, &p).is_some());
    assert_eq!(client_id_to_colors(11, &p), None);
    assert_eq!(client_id_to_colors(0, &p), None);
    let (badges, width) = cursors(&vec![1, 2, 42], &p);
    assert_eq!(width, 2);
    assert_eq!(badges.len(), 2);
    for b in &badges {
        assert!(b.contains(' '));
    }
}

#[test]
fn clients_segment_width() {
    let theme = default_theme();
    let plain = tab(1, "work", false);
    let mut watched = tab(1, "work", false);
    watched.other_focused_clients = vec![1, 2];
    let without = theme.style(&plain, false, &palette());
    let with = theme.style(&watched, false, &palette());
    // " [" and "]" around two one-column badges: five more columns.
    assert_eq!(with.len, without.len + 5);
}

#[test]
fn renderer_tags_fragment_with_position() {
    let theme = default_theme();
    let t = tab(7, "seven", false);
    let line_part = theme.style(&t, false, &palette());
    assert_eq!(line_part.tab_index, Some(7));
    assert_eq!(line_part.len, "seven".chars().count());
}

#[test]
fn renaming_substitutes_placeholder_label() {
    let theme = default_theme();
    let t = tab(1, "old-name", true);
    let renamed = theme.style(&t, true, &palette());
    assert!(renamed.part.contains("Enter name..."));
    assert!(!renamed.part.contains("old-name"));
    assert_eq!(renamed.len, "Enter name...".chars().count());
}

// A tab snapshot without an active tab is reported and changes nothing.
#[test]
fn missing_active_tab_is_reported() {
    let mut state = State::default();
    state.update(Event::TabUpdate(vec![tab(1, "one", true), tab(2, "two", false)]));
    let out = state.update(Event::TabUpdate(vec![tab(1, "one", false), tab(2, "two", false)]));
    assert!(out.missing_active);
    assert!(!out.should_render);
    assert_eq!(out.switch_to, None);
    // The previous snapshot is retained.
    assert_eq!(state.tabs.len(), 2);
    assert!(state.tabs[0].active);
    assert_eq!(state.active_tab_idx, 1);
}

#[test]
fn mode_update_rebuilds_theme_and_signals_change() {
    let mut state = State::default();
    let first = state.update(Event::ModeUpdate(ModeInfo {
        mode: InputMode::Normal,
        palette: palette(),
        session_name: None,
        hide_session_name: false,
    }));
    assert!(first.should_render);
    assert!(state.ribbon_theme.is_some());
    let again = state.update(Event::ModeUpdate(ModeInfo {
        mode: InputMode::Normal,
        palette: palette(),
        session_name: None,
        hide_session_name: false,
    }));
    assert!(!again.should_render);
    let renamed = state.update(Event::ModeUpdate(ModeInfo {
        mode: InputMode::RenameTab,
        palette: palette(),
        session_name: None,
        hide_session_name: false,
    }));
    assert!(renamed.should_render);
}

// A whole cycle: configure, theme, snapshot, render, click.
#[test]
fn full_render_and_click_cycle() {
    let mut state = State::default();
    state.load(None);
    state.update(Event::ModeUpdate(ModeInfo {
        mode: InputMode::Normal,
        palette: palette(),
        session_name: Some("work".to_string()),
        hide_session_name: false,
    }));
    state.update(Event::TabUpdate(vec![
        tab(1, "alpha", true),
        tab(2, "beta", false),
    ]));
    let out = state.render(100).expect("a ready state renders");
    assert!(out.contains("alpha"));
    assert!(out.contains("beta"));
    assert!(out.contains(" Zellij (work) "));
    // The prefix is 15 columns and tab fragments follow; a click well into
    // the second fragment switches to tab 2.
    let beta_col = 15 + "alpha".len() + 1;
    let click = state.update(Event::Mouse(Mouse::LeftClick(0, beta_col)));
    assert_eq!(click.switch_to, Some(2));
    // Clicking inside the prefix switches nothing.
    assert_eq!(state.update(Event::Mouse(Mouse::LeftClick(0, 3))).switch_to, None);
}

#[test]
fn render_without_theme_or_tabs_is_skipped() {
    let mut state = State::default();
    assert_eq!(state.render(80), None);
    state.update(Event::TabUpdate(vec![tab(1, "one", true)]));
    // Still no theme: render is skipped and the layout stays empty.
    assert_eq!(state.render(80), None);
    assert_eq!(state.tab_line.len(), 0);
}

#[test]
fn render_reserves_one_column() {
    let mut state = State::default();
    state.update(Event::ModeUpdate(ModeInfo {
        mode: InputMode::Normal,
        palette: palette(),
        session_name: None,
        hide_session_name: false,
    }));
    state.update(Event::TabUpdate(vec![
        tab(1, "aaaa", true),
        tab(2, "bbbb", false),
        tab(3, "cccc", false),
    ]));
    state.render(13).expect("renders");
    // Budget is 12 of the 13 columns: three 4-column fragments fit exactly.
    let total: usize = state.tab_line.iter().map(|p| p.len).sum();
    assert!(total <= 12);
}

#[test]
fn ansi_spec_values_compare() {
    let a = AnsiSpec {
        fg: Some(AnsiColor::Fixed(1)),
        bg: None,
        reverse: true,
        hidden: false,
    };
    assert_eq!(a, a);
    assert_ne!(a.fg, Some(AnsiColor::Rgb(1, 1, 1)));
}

// A clients template without a placeholder renders no client badges.
#[test]
fn clients_without_placeholder_render_nothing() {
    let config = SegmentConfig {
        clients_template: Some(SegmentPart {
            text: " watchers".to_string(),
            active_style: None,
            inactive_style: None,
        }),
        ..SegmentConfig::default()
    };
    let theme = Segment::from_config(config, &palette());
    let plain = tab(1, "work", false);
    let mut watched = tab(1, "work", false);
    watched.other_focused_clients = vec![1, 2];
    let without = theme.style(&plain, false, &palette());
    let with = theme.style(&watched, false, &palette());
    assert_eq!(with.len, without.len);
    assert_eq!(with.part, without.part);
}

// When a snapshot marks several tabs active, the first one wins.
#[test]
fn first_active_tab_wins() {
    let mut state = State::default();
    state.update(Event::TabUpdate(vec![
        tab(1, "one", false),
        tab(2, "two", true),
        tab(3, "three", true),
    ]));
    assert_eq!(state.active_tab_idx, 2);
}

// An active tab at the right edge elides only on the left.
#[test]
fn right_edge_elision_has_left_indicator_only() {
    let tabs: Vec<LinePart> = (1..=10).map(|i| part("abcdef", Some(i))).collect();
    let out = tab_line(None, &tabs, 10, 30, false);
    assert_eq!(out[0].tab_index, None);
    assert_eq!(out[0].len, 3);
    assert_eq!(out.last().unwrap().tab_index, Some(10));
    let total: usize = out.iter().map(|p| p.len).sum();
    assert!(total <= 30);
}
